use kata_linux::tc_filter::{eth_dst_keys, redirect_options, ActionOptions, PeditCmd, PeditHeaderType, PeditKeyEx};
use kata_linux::tc_wire::{
    key_ex_bytes, pedit_key_bytes, pedit_keys_ex_value, pedit_parms_ex_value, u16_bytes,
    u32_bytes, ByteOrder,
};

fn native() -> ByteOrder {
    if u32::from_ne_bytes([1, 0, 0, 0]) == 1 {
        ByteOrder::Little
    } else {
        ByteOrder::Big
    }
}

#[test]
fn integer_bytes() {
    assert_eq!(u32_bytes(0x01020304, ByteOrder::Little), [4, 3, 2, 1]);
    assert_eq!(u32_bytes(0x01020304, ByteOrder::Big), [1, 2, 3, 4]);
    assert_eq!(u16_bytes(0x0102, ByteOrder::Little), [2, 1]);
    assert_eq!(u16_bytes(0x0102, ByteOrder::Big), [1, 2]);
    assert_eq!(u32_bytes(7, native()), 7u32.to_ne_bytes());
}

#[test]
fn emitted_eth_dst_keys() {
    // The MAC bytes go out in packet order, the offset in the machine's.
    let keys = eth_dst_keys(&[0xc6, 0x1b, 0x39, 0xd1, 0xb3, 0xa0]);
    let key = pedit_key_bytes(&keys[0], native());
    assert_eq!(key.len(), 24);
    assert_eq!(key[0..4], [0, 0, 0, 0]);
    assert_eq!(key[4..8], [0xc6, 0x1b, 0x39, 0xd1]);
    assert_eq!(key[8..12], 0u32.to_ne_bytes());
    assert_eq!(key[12..24], [0u8; 12]);

    let key = pedit_key_bytes(&keys[1], native());
    assert_eq!(key[0..4], [0, 0, 0xff, 0xff]);
    assert_eq!(key[4..8], [0xb3, 0xa0, 0, 0]);
    assert_eq!(key[8..12], 4u32.to_ne_bytes());
}

#[test]
fn emitted_pedit_parms() {
    let options = redirect_options(7, Some([1, 2, 3, 4, 5, 6]));
    let ActionOptions::Pedit { keys_ex, parms } = &options.actions[0].options else {
        panic!("expected a pedit action");
    };
    let sel = pedit_parms_ex_value(parms, ByteOrder::Little);
    assert_eq!(sel.len(), 24 + 2 * 24);
    assert_eq!(sel[0..8], [0u8; 8]);
    assert_eq!(sel[8..12], [3, 0, 0, 0]); // TC_ACT_PIPE
    assert_eq!(sel[12..20], [0u8; 8]);
    assert_eq!(sel[20..24], [2, 0, 0, 0]); // two keys, no flags, padding
    assert_eq!(sel[28..32], [1, 2, 3, 4]);
    assert_eq!(sel[32..36], [0, 0, 0, 0]);
    assert_eq!(sel[48..56], [0, 0, 0xff, 0xff, 5, 6, 0, 0]);
    assert_eq!(sel[56..60], [4, 0, 0, 0]);

    let ex = pedit_keys_ex_value(keys_ex, ByteOrder::Little);
    assert_eq!(ex.len(), 40);
    assert_eq!(
        ex[0..20],
        [20, 0, 6, 0x80, 6, 0, 1, 0, 1, 0, 0, 0, 6, 0, 2, 0, 0, 0, 0, 0]
    );
    assert_eq!(ex[0..20], ex[20..40]);
}

#[test]
fn emitted_key_ex_big_endian() {
    let k = PeditKeyEx { htype: PeditHeaderType::Eth, cmd: PeditCmd::SetField };
    assert_eq!(
        key_ex_bytes(&k, ByteOrder::Big),
        vec![0, 20, 0x80, 6, 0, 6, 0, 1, 0, 1, 0, 0, 0, 6, 0, 2, 0, 0, 0, 0]
    );
}
