use kata_linux::mac::parse_mac;
use kata_linux::tc_filter::{
    classify_qdisc_add, eth_dst_keys, ingress_redirect_filters, is_ebusy, mirred_redirect_action,
    pedit_eth_dst_action, pedit_key, qdisc_add_next, redirect_options, redirect_pair,
    ActionControl, ActionOptions, Mirror, MirrorActionType, NetworkModelType, NetworkPair,
    PeditCmd, PeditHeaderType, PeditKeyEx, QdiscAddOutcome, QdiscAddStep, TcFilterError,
    TcFilterModel, U32Key, ETH_P_ALL, INGRESS_PARENT,
};

#[test]
fn test_eth_dst_keys() {
    // `pedit ex munge eth dst set c6:1b:39:d1:b3:a0`: the MAC bytes go out in
    // packet order, and the second key keeps the two bytes of the source MAC
    // sharing its word.
    let keys = eth_dst_keys(&[0xc6, 0x1b, 0x39, 0xd1, 0xb3, 0xa0]);
    assert_eq!(keys.len(), 2);

    assert_eq!(keys[0].mask, [0, 0, 0, 0]);
    assert_eq!(keys[0].val, [0xc6, 0x1b, 0x39, 0xd1]);
    assert_eq!(keys[0].off, 0);

    assert_eq!(keys[1].mask, [0, 0, 0xff, 0xff]);
    assert_eq!(keys[1].val, [0xb3, 0xa0, 0, 0]);
    assert_eq!(keys[1].off, 4);

    // The all-zero MAC differs only in the written value.
    let keys = eth_dst_keys(&[0u8; 6]);
    assert_eq!((keys[0].mask, keys[0].val), ([0, 0, 0, 0], [0, 0, 0, 0]));
    assert_eq!((keys[1].mask, keys[1].val), ([0, 0, 0xff, 0xff], [0, 0, 0, 0]));
}

fn mirred(index: u32) -> Mirror {
    Mirror { action: ActionControl::Stolen, eaction: MirrorActionType::EgressRedir, ifindex: index }
}

#[test]
fn test_redirect_options() {
    // Without a MAC the filter is the plain redirect.
    let options = redirect_options(7, None);
    assert!(options.selector.terminal);
    assert_eq!(options.selector.nkeys, 1);
    assert_eq!(options.selector.keys, vec![U32Key { mask: 0, val: 0, off: 0, offmask: 0 }]);
    assert_eq!(options.actions.len(), 1);
    assert_eq!(options.actions[0].kind, "mirred");
    assert_eq!(options.actions[0].options, ActionOptions::Mirror(mirred(7)));

    let key_ex = PeditKeyEx { htype: PeditHeaderType::Eth, cmd: PeditCmd::SetField };

    // With one, the pedit action runs first and pipes into the mirred.
    let options = redirect_options(7, Some([0u8; 6]));
    assert!(options.selector.terminal);
    assert_eq!(options.actions.len(), 2);
    assert_eq!(options.actions[0].kind, "pedit");
    match &options.actions[0].options {
        ActionOptions::Pedit { keys_ex, parms } => {
            assert_eq!(keys_ex, &vec![key_ex, key_ex]);
            assert_eq!(parms.action, ActionControl::Pipe);
            assert_eq!(parms.nkeys, 2);
            assert_eq!(parms.keys, eth_dst_keys(&[0u8; 6]));
        }
        _ => panic!("expected a pedit action"),
    }
    assert_eq!(options.actions[1].kind, "mirred");
    assert_eq!(options.actions[1].options, ActionOptions::Mirror(mirred(7)));
}

#[test]
fn test_action_list_is_indexed() {
    // The kernel walks the action nest as an array indexed by the attribute
    // type, so the two actions have to go out as type 1 and type 2.
    let options = redirect_options(7, Some([0u8; 6]));
    let types: Vec<u16> = options.actions.iter().map(|a| a.tab).collect();
    assert_eq!(types, vec![1, 2]);
}

fn pair(l3: bool) -> NetworkPair {
    NetworkPair { tap_hard_addr: "c6:1b:39:d1:b3:a0".to_string(), l3 }
}

#[test]
fn test_redirect_pair_directions() {
    let (tap_options, virt_options) = redirect_pair(&pair(true), 3, 4).unwrap();
    // The tap ingress redirects to the netkit, which only accepts an
    // all-zero destination, ...
    assert_eq!(tap_options, redirect_options(4, Some([0u8; 6])));
    // ... and the netkit ingress redirects to the tap, where the guest NIC
    // only accepts its own MAC.
    assert_eq!(virt_options, redirect_options(3, Some([0xc6, 0x1b, 0x39, 0xd1, 0xb3, 0xa0])));

    // A veth pair keeps the plain redirect in both directions.
    let (tap_options, virt_options) = redirect_pair(&pair(false), 3, 4).unwrap();
    assert_eq!(tap_options, redirect_options(4, None));
    assert_eq!(virt_options, redirect_options(3, None));
}

#[test]
fn redirect_pair_rejects_bad_mac_only_in_l3() {
    let bad = NetworkPair { tap_hard_addr: "not-a-mac".to_string(), l3: true };
    assert_eq!(redirect_pair(&bad, 3, 4), Err(TcFilterError::InvalidMac("not-a-mac".to_string())));
    let bad = NetworkPair { tap_hard_addr: "not-a-mac".to_string(), l3: false };
    assert!(redirect_pair(&bad, 3, 4).is_ok());
}

#[test]
fn ingress_filters_cross_the_devices() {
    let (t, v) = ingress_redirect_filters(&pair(false), 3, 4).unwrap();
    assert_eq!((t.ifindex, t.parent, t.protocol), (3, INGRESS_PARENT, ETH_P_ALL));
    assert_eq!((v.ifindex, v.parent, v.protocol), (4, 0xffff0000, 0x0003));
    assert_eq!(t.options, redirect_options(4, None));
    assert_eq!(v.options, redirect_options(3, None));
}

#[test]
fn standalone_actions_sit_at_the_default_position() {
    let m = mirred_redirect_action(9);
    assert_eq!(m.tab, 1);
    assert_eq!(m.kind, "mirred");
    assert_eq!(m.options, ActionOptions::Mirror(mirred(9)));
    let p = pedit_eth_dst_action(&[1, 2, 3, 4, 5, 6]);
    assert_eq!(p.tab, 1);
    assert_eq!(p.kind, "pedit");
}

#[test]
fn pedit_key_fields() {
    let k = pedit_key(4, [1, 2, 3, 4], [5, 6, 7, 8]);
    assert_eq!((k.off, k.mask, k.val), (4, [1, 2, 3, 4], [5, 6, 7, 8]));
}

#[test]
fn rewrite_sets_destination_and_keeps_source() {
    // Apply the keys as the kernel does, byte by byte in frame order.
    let mac = [0xc6, 0x1b, 0x39, 0xd1, 0xb3, 0xa0];
    let mut frame: Vec<u8> = (0u8..14).collect();
    for k in eth_dst_keys(&mac) {
        for j in 0..4 {
            let at = k.off as usize + j;
            frame[at] = (frame[at] & k.mask[j]) ^ k.val[j];
        }
    }
    assert_eq!(&frame[0..6], &mac);
    assert_eq!(&frame[6..], &(6u8..14).collect::<Vec<u8>>()[..]);
}

#[test]
fn model_and_type() {
    let m = TcFilterModel::new().unwrap();
    assert_eq!(m.model_type(), NetworkModelType::TcFilter);
}

#[test]
fn ebusy_detection() {
    assert!(is_ebusy(Some(-16)));
    assert!(!is_ebusy(Some(16)));
    assert!(!is_ebusy(Some(-1)));
    assert!(!is_ebusy(None));
}

#[test]
fn qdisc_retry_steps() {
    assert_eq!(classify_qdisc_add(Ok(())), QdiscAddOutcome::Added);
    assert_eq!(classify_qdisc_add(Err(Some(-16))), QdiscAddOutcome::Busy);
    assert_eq!(classify_qdisc_add(Err(Some(-17))), QdiscAddOutcome::Failed);
    assert_eq!(classify_qdisc_add(Err(None)), QdiscAddOutcome::Failed);
    assert_eq!(qdisc_add_next(1, QdiscAddOutcome::Busy), QdiscAddStep::RetryAfter(10));
    assert_eq!(qdisc_add_next(4, QdiscAddOutcome::Busy), QdiscAddStep::RetryAfter(40));
    assert_eq!(qdisc_add_next(5, QdiscAddOutcome::Busy), QdiscAddStep::Finish);
    assert_eq!(qdisc_add_next(1, QdiscAddOutcome::Added), QdiscAddStep::Finish);
    assert_eq!(qdisc_add_next(2, QdiscAddOutcome::Failed), QdiscAddStep::Finish);
}

#[test]
fn qdisc_retry_run_is_bounded() {
    // Always busy: five attempts, 100 ms of backoff in all.
    let mut attempt = 1;
    let mut waited = 0;
    while let QdiscAddStep::RetryAfter(d) = qdisc_add_next(attempt, QdiscAddOutcome::Busy) {
        waited += d;
        attempt += 1;
    }
    assert_eq!(attempt, 5);
    assert_eq!(waited, 100);
}

#[test]
fn mac_parsing() {
    assert_eq!(parse_mac("c6:1b:39:d1:b3:a0"), Some([0xc6, 0x1b, 0x39, 0xd1, 0xb3, 0xa0]));
    assert_eq!(parse_mac("C6:1B:39:D1:B3:A0"), Some([0xc6, 0x1b, 0x39, 0xd1, 0xb3, 0xa0]));
    assert_eq!(parse_mac("0:1:2:3:4:5"), Some([0, 1, 2, 3, 4, 5]));
    assert_eq!(parse_mac("c6:1b:39:d1:b3"), None);
    assert_eq!(parse_mac("c6:1b:39:d1:b3:a0:00"), None);
    assert_eq!(parse_mac("c6:1b:39:d1:b3:g0"), None);
    assert_eq!(parse_mac("c6:1b:39:d1:b3:100"), None);
    assert_eq!(parse_mac(""), None);
}
