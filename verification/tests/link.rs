use kata_linux::link::{
    get_link_from_message, link_info, parse_bridge, parse_netkit, InfoBridge, InfoData, InfoKind,
    InfoNetkit, LinkAttribute, LinkHeader, LinkInfo, LinkKind, LinkMessage, NetkitMode,
};

fn message(attributes: Vec<LinkAttribute>) -> LinkMessage {
    LinkMessage { header: LinkHeader { index: 0, flags: 0, link_layer_type: 0 }, attributes }
}

fn netkit_link(mode: NetkitMode) -> kata_linux::link::Link {
    let msg = message(vec![LinkAttribute::LinkInfo(vec![
        LinkInfo::Kind(InfoKind::Netkit),
        LinkInfo::Data(InfoData::Netkit(vec![InfoNetkit::Mode(mode)])),
    ])]);
    get_link_from_message(msg)
}

#[test]
fn test_netkit_mode() {
    let l2 = netkit_link(NetkitMode::L2);
    assert_eq!(l2.link_type(), "netkit");
    assert!(!l2.is_l3());

    let l3 = netkit_link(NetkitMode::L3);
    assert_eq!(l3.link_type(), "netkit");
    assert!(l3.is_l3());
}

#[test]
fn header_fields_and_promiscuity() {
    let msg = LinkMessage {
        header: LinkHeader { index: 7, flags: 0x1103, link_layer_type: 1 },
        attributes: vec![],
    };
    let link = get_link_from_message(msg);
    assert_eq!(link.link_type(), "device");
    let a = link.attrs();
    assert_eq!((a.index, a.flags, a.link_layer_type, a.promisc), (7, 0x1103, 1, 1));

    let msg = LinkMessage {
        header: LinkHeader { index: 7, flags: 0x1003, link_layer_type: 1 },
        attributes: vec![],
    };
    assert_eq!(get_link_from_message(msg).attrs().promisc, 0);
}

#[test]
fn attributes_fill_the_base_and_first_occurrence_wins() {
    let msg = message(vec![
        LinkAttribute::IfName("eth0".to_string()),
        LinkAttribute::Mtu(1500),
        LinkAttribute::Address(vec![1, 2, 3, 4, 5, 6]),
        LinkAttribute::IfName("eth1".to_string()),
        LinkAttribute::Link(3),
        LinkAttribute::Controller(4),
        LinkAttribute::TxQueueLen(1000),
        LinkAttribute::IfAlias("alias".to_string()),
        LinkAttribute::LinkNetNsId(-1),
        LinkAttribute::GsoMaxSize(65536),
        LinkAttribute::GsoMaxSegs(64),
        LinkAttribute::NumTxQueues(2),
        LinkAttribute::NumRxQueues(3),
        LinkAttribute::Group(5),
        LinkAttribute::Other,
        LinkAttribute::Mtu(9000),
    ]);
    let link = get_link_from_message(msg);
    let a = link.attrs();
    assert_eq!(a.name, "eth0");
    assert_eq!(a.mtu, 1500);
    assert_eq!(a.hardware_addr, vec![1, 2, 3, 4, 5, 6]);
    assert_eq!((a.parent_index, a.master_index, a.txq_len), (3, 4, 1000));
    assert_eq!(a.alias, "alias");
    assert_eq!((a.net_ns_id, a.gso_max_size, a.gso_max_seqs), (-1, 65536, 64));
    assert_eq!((a.num_tx_queues, a.num_rx_queues, a.group), (2, 3, 5));
}

#[test]
fn kind_from_link_info() {
    let kinds = [
        (InfoKind::Tun, "tuntap"),
        (InfoKind::Veth, "veth"),
        (InfoKind::IpVlan, "ipvlan"),
        (InfoKind::MacVlan, "macvlan"),
        (InfoKind::Vlan, "vlan"),
        (InfoKind::Bridge, "bridge"),
        (InfoKind::Netkit, "netkit"),
        (InfoKind::Other, "device"),
    ];
    for (k, name) in kinds {
        let link = get_link_from_message(message(vec![LinkAttribute::LinkInfo(vec![
            LinkInfo::Kind(k),
        ])]));
        assert_eq!(link.link_type(), name);
    }
}

#[test]
fn data_decides_over_kind() {
    // Data overrides whatever kind was read before it; a kind name only
    // fills in a missing kind.
    let link = link_info(vec![LinkInfo::Data(InfoData::Veth), LinkInfo::Kind(InfoKind::Vlan)]);
    assert_eq!(link.link_type(), "veth");
    let link = link_info(vec![LinkInfo::Kind(InfoKind::Vlan), LinkInfo::Data(InfoData::Veth)]);
    assert_eq!(link.link_type(), "veth");
    let link = link_info(vec![LinkInfo::Kind(InfoKind::Vlan), LinkInfo::Kind(InfoKind::Veth)]);
    assert_eq!(link.link_type(), "veth");
    let link = link_info(vec![LinkInfo::PortData, LinkInfo::Kind(InfoKind::Vlan)]);
    assert_eq!(link.link_type(), "device");
    let link = link_info(vec![LinkInfo::Kind(InfoKind::Vlan), LinkInfo::PortKind]);
    assert_eq!(link.link_type(), "device");
    let link = link_info(vec![LinkInfo::PortKind, LinkInfo::Kind(InfoKind::Vlan)]);
    assert_eq!(link.link_type(), "vlan");
}

#[test]
fn bridge_and_netkit_data() {
    let b = parse_bridge(vec![
        InfoBridge::HelloTime(200),
        InfoBridge::MulticastSnooping(true),
        InfoBridge::Other,
        InfoBridge::VlanFiltering(true),
        InfoBridge::HelloTime(100),
    ]);
    assert_eq!((b.multicast_snooping, b.hello_time, b.vlan_filtering), (true, 200, true));
    let link = get_link_from_message(message(vec![LinkAttribute::LinkInfo(vec![
        LinkInfo::Kind(InfoKind::Bridge),
        LinkInfo::Data(InfoData::Bridge(vec![InfoBridge::HelloTime(150)])),
    ])]));
    assert_eq!(link.link_type(), "bridge");
    assert_eq!(
        link.kind(),
        LinkKind::Bridge { multicast_snooping: false, hello_time: 150, vlan_filtering: false }
    );
    assert!(parse_netkit(vec![InfoNetkit::Mode(NetkitMode::L3), InfoNetkit::Mode(NetkitMode::L2)]).l3);
    assert!(!parse_netkit(vec![InfoNetkit::Other]).l3);
    assert!(!parse_netkit(vec![InfoNetkit::Mode(NetkitMode::Other(9))]).l3);
}
