//! The kernel layout of the packet-edit action's parameters: the
//! `tc_pedit_sel` structure with its `tc_pedit_key`s, and the nested
//! extended-key attributes. Integers go out in the byte order of the
//! machine, which the caller names.

use vstd::prelude::*;
use crate::tc_filter::{
    keys_view, ActionControl, Pedit, PeditCmd, PeditHeaderType, PeditKey, PeditKeyEx,
    PeditKeyView,
};

verus! {

/// The attribute type of the packet-edit parameters (`TCA_PEDIT_PARMS_EX`).
pub const TCA_PEDIT_PARMS_EX: u16 = 4;

/// The attribute type of the extended keys (`TCA_PEDIT_KEYS_EX`).
pub const TCA_PEDIT_KEYS_EX: u16 = 5;

/// The attribute type of one extended key (`TCA_PEDIT_KEY_EX`).
pub const TCA_PEDIT_KEY_EX: u16 = 6;

/// The attribute type of the header of an extended key.
pub const TCA_PEDIT_KEY_EX_HTYPE: u16 = 1;

/// The attribute type of the command of an extended key.
pub const TCA_PEDIT_KEY_EX_CMD: u16 = 2;

/// The flag of a nested attribute.
pub const NLA_F_NESTED: u16 = 0x8000;

/// The byte order of integers.
#[derive(Debug, Clone, Copy, PartialEq, Eq, Structural)]
pub enum ByteOrder {
    Little,
    Big,
}

/// The two bytes of `x` in order `o`.
pub open spec fn spec_u16_bytes(x: u16, o: ByteOrder) -> Seq<u8> {
    let lo = (x % 256) as u8;
    let hi = (x / 256) as u8;
    match o {
        ByteOrder::Little => seq![lo, hi],
        ByteOrder::Big => seq![hi, lo],
    }
}

/// The four bytes of `x` in order `o`.
pub open spec fn spec_u32_bytes(x: u32, o: ByteOrder) -> Seq<u8> {
    let b0 = (x % 256) as u8;
    let b1 = ((x / 256) % 256) as u8;
    let b2 = ((x / 65536) % 256) as u8;
    let b3 = (x / 16777216) as u8;
    match o {
        ByteOrder::Little => seq![b0, b1, b2, b3],
        ByteOrder::Big => seq![b3, b2, b1, b0],
    }
}

/// `x` in order `o`.
pub fn u16_bytes(x: u16, o: ByteOrder) -> (r: [u8; 2])
    ensures
        r@ == spec_u16_bytes(x, o),
{
    let lo = (x & 0xff) as u8;
    let hi = (x >> 8u16) as u8;
    assert((x & 0xff) == x % 256 && (x >> 8u16) == x / 256) by (bit_vector);
    let r = match o {
        ByteOrder::Little => [lo, hi],
        ByteOrder::Big => [hi, lo],
    };
    assert(r@ =~= spec_u16_bytes(x, o));
    r
}

/// `x` in order `o`.
pub fn u32_bytes(x: u32, o: ByteOrder) -> (r: [u8; 4])
    ensures
        r@ == spec_u32_bytes(x, o),
{
    let b0 = (x & 0xff) as u8;
    let b1 = ((x >> 8u32) & 0xff) as u8;
    let b2 = ((x >> 16u32) & 0xff) as u8;
    let b3 = (x >> 24u32) as u8;
    assert((x & 0xff) == x % 256 && ((x >> 8u32) & 0xff) == (x / 256) % 256 && ((x >> 16u32)
        & 0xff) == (x / 65536) % 256 && (x >> 24u32) == x / 16777216) by (bit_vector);
    let r = match o {
        ByteOrder::Little => [b0, b1, b2, b3],
        ByteOrder::Big => [b3, b2, b1, b0],
    };
    assert(r@ =~= spec_u32_bytes(x, o));
    r
}

/// The number that the kernel gives an action control: `TC_ACT_PIPE` (3)
/// and `TC_ACT_STOLEN` (4), as `i32::from(TcActionType)` of
/// netlink-packet-route maps them.
#[verifier::external_body]
fn action_code(c: ActionControl) -> (r: i32)
    ensures
        c == ActionControl::Pipe ==> r == 3,
        c == ActionControl::Stolen ==> r == 4,
{
    match c {
        ActionControl::Pipe => i32::from(netlink_packet_route::tc::TcActionType::Pipe),
        ActionControl::Stolen => i32::from(netlink_packet_route::tc::TcActionType::Stolen),
    }
}

/// The kernel number of an action control.
pub open spec fn spec_action_code(c: ActionControl) -> u32 {
    match c {
        ActionControl::Pipe => 3,
        ActionControl::Stolen => 4,
    }
}

/// A `tc_pedit_key`: mask and value in frame order, then the offset and
/// three zero words (`at`, `offmask`, `shift`).
pub open spec fn spec_pedit_key_bytes(k: PeditKeyView, o: ByteOrder) -> Seq<u8> {
    k.mask + k.val + spec_u32_bytes(k.off, o) + spec_u32_bytes(0, o) + spec_u32_bytes(0, o)
        + spec_u32_bytes(0, o)
}

/// The keys one after the other.
pub open spec fn spec_pedit_keys_bytes(keys: Seq<PeditKeyView>, o: ByteOrder) -> Seq<u8>
    decreases keys.len(),
{
    if keys.len() == 0 {
        Seq::empty()
    } else {
        spec_pedit_keys_bytes(keys.drop_last(), o) + spec_pedit_key_bytes(keys.last(), o)
    }
}

/// A `tc_pedit_sel`: the generic action words (index, capabilities,
/// action, reference and bind counts; all zero but the action), the number
/// of keys, zero flags, two bytes of padding, then the keys.
pub open spec fn spec_pedit_sel_bytes(
    action: ActionControl,
    nkeys: u8,
    keys: Seq<PeditKeyView>,
    o: ByteOrder,
) -> Seq<u8> {
    spec_u32_bytes(0, o) + spec_u32_bytes(0, o) + spec_u32_bytes(spec_action_code(action), o)
        + spec_u32_bytes(0, o) + spec_u32_bytes(0, o) + seq![nkeys, 0u8, 0u8, 0u8]
        + spec_pedit_keys_bytes(keys, o)
}

/// The bytes of one packet-edit key.
pub fn pedit_key_bytes(k: &PeditKey, o: ByteOrder) -> (r: Vec<u8>)
    ensures
        r@ == spec_pedit_key_bytes(k@, o),
        r@.len() == 24,
{
    let mut r: Vec<u8> = Vec::new();
    push_all(&mut r, &k.mask);
    push_all(&mut r, &k.val);
    push_all(&mut r, &u32_bytes(k.off, o));
    let zero = u32_bytes(0, o);
    push_all(&mut r, &zero);
    push_all(&mut r, &zero);
    push_all(&mut r, &zero);
    r
}

/// Appends the four bytes `b` to `r`.
fn push_all(r: &mut Vec<u8>, b: &[u8; 4])
    ensures
        final(r)@ == old(r)@ + b@,
{
    r.push(b[0]);
    r.push(b[1]);
    r.push(b[2]);
    r.push(b[3]);
    assert(final(r)@ =~= old(r)@ + b@);
}

/// The value of the packet-edit parameters attribute.
pub fn pedit_parms_ex_value(p: &Pedit, o: ByteOrder) -> (r: Vec<u8>)
    ensures
        r@ == spec_pedit_sel_bytes(p.action, p.nkeys, keys_view(p.keys@), o),
{
    let mut r: Vec<u8> = Vec::new();
    let zero = u32_bytes(0, o);
    push_all(&mut r, &zero);
    push_all(&mut r, &zero);
    let code = action_code(p.action);
    push_all(&mut r, &u32_bytes(code as u32, o));
    push_all(&mut r, &zero);
    push_all(&mut r, &zero);
    push_all(&mut r, &[p.nkeys, 0, 0, 0]);
    let ghost head = r@;
    let ghost kv = keys_view(p.keys@);
    let mut i: usize = 0;
    assert(kv.take(0) =~= Seq::<PeditKeyView>::empty());
    assert(head =~= head + spec_pedit_keys_bytes(kv.take(0), o));
    while i < p.keys.len()
        invariant
            i <= p.keys.len(),
            kv == keys_view(p.keys@),
            r@ == head + spec_pedit_keys_bytes(kv.take(i as int), o),
        decreases p.keys.len() - i,
    {
        let kb = pedit_key_bytes(&p.keys[i], o);
        let mut j: usize = 0;
        let ghost before = r@;
        while j < kb.len()
            invariant
                j <= kb.len(),
                r@ == before + kb@.take(j as int),
            decreases kb.len() - j,
        {
            r.push(kb[j]);
            j = j + 1;
            assert(r@ =~= before + kb@.take(j as int));
        }
        assert(kb@.take(kb.len() as int) =~= kb@);
        assert(kv.take(i + 1).drop_last() =~= kv.take(i as int));
        assert(kv.take(i + 1).last() == kv[i as int]);
        i = i + 1;
        assert(r@ =~= head + spec_pedit_keys_bytes(kv.take(i as int), o));
    }
    assert(kv.take(p.keys.len() as int) =~= kv);
    r
}

/// The header type number of an extended key.
pub open spec fn spec_htype_code(h: PeditHeaderType) -> u16 {
    match h {
        PeditHeaderType::Eth => 1,
    }
}

/// The command number of an extended key.
pub open spec fn spec_cmd_code(c: PeditCmd) -> u16 {
    match c {
        PeditCmd::SetField => 0,
    }
}

/// One extended key as a nested attribute of 20 bytes: its header, then the
/// header-type attribute and the command attribute, each a 16-bit value
/// padded to four bytes.
pub open spec fn spec_key_ex_bytes(k: PeditKeyEx, o: ByteOrder) -> Seq<u8> {
    spec_u16_bytes(20, o) + spec_u16_bytes(TCA_PEDIT_KEY_EX | NLA_F_NESTED, o) + spec_u16_bytes(
        6,
        o,
    ) + spec_u16_bytes(TCA_PEDIT_KEY_EX_HTYPE, o) + spec_u16_bytes(spec_htype_code(k.htype), o)
        + seq![0u8, 0u8] + spec_u16_bytes(6, o) + spec_u16_bytes(TCA_PEDIT_KEY_EX_CMD, o)
        + spec_u16_bytes(spec_cmd_code(k.cmd), o) + seq![0u8, 0u8]
}

/// The extended keys one after the other.
pub open spec fn spec_keys_ex_bytes(keys: Seq<PeditKeyEx>, o: ByteOrder) -> Seq<u8>
    decreases keys.len(),
{
    if keys.len() == 0 {
        Seq::empty()
    } else {
        spec_keys_ex_bytes(keys.drop_last(), o) + spec_key_ex_bytes(keys.last(), o)
    }
}

/// Appends the two bytes `b` to `r`.
fn push_two(r: &mut Vec<u8>, b: [u8; 2])
    ensures
        final(r)@ == old(r)@ + b@,
{
    r.push(b[0]);
    r.push(b[1]);
    assert(final(r)@ =~= old(r)@ + b@);
}

/// The bytes of one extended key.
pub fn key_ex_bytes(k: &PeditKeyEx, o: ByteOrder) -> (r: Vec<u8>)
    ensures
        r@ == spec_key_ex_bytes(*k, o),
{
    let htype: u16 = match k.htype {
        PeditHeaderType::Eth => 1,
    };
    let cmd: u16 = match k.cmd {
        PeditCmd::SetField => 0,
    };
    let mut r: Vec<u8> = Vec::new();
    push_two(&mut r, u16_bytes(20, o));
    push_two(&mut r, u16_bytes(TCA_PEDIT_KEY_EX | NLA_F_NESTED, o));
    push_two(&mut r, u16_bytes(6, o));
    push_two(&mut r, u16_bytes(TCA_PEDIT_KEY_EX_HTYPE, o));
    push_two(&mut r, u16_bytes(htype, o));
    push_two(&mut r, [0, 0]);
    push_two(&mut r, u16_bytes(6, o));
    push_two(&mut r, u16_bytes(TCA_PEDIT_KEY_EX_CMD, o));
    push_two(&mut r, u16_bytes(cmd, o));
    push_two(&mut r, [0, 0]);
    assert(r@ =~= spec_key_ex_bytes(*k, o));
    r
}

/// The value of the extended keys attribute: one nested attribute per key.
pub fn pedit_keys_ex_value(keys: &Vec<PeditKeyEx>, o: ByteOrder) -> (r: Vec<u8>)
    ensures
        r@ == spec_keys_ex_bytes(keys@, o),
{
    let mut r: Vec<u8> = Vec::new();
    let mut i: usize = 0;
    assert(keys@.take(0) =~= Seq::<PeditKeyEx>::empty());
    while i < keys.len()
        invariant
            i <= keys.len(),
            r@ == spec_keys_ex_bytes(keys@.take(i as int), o),
        decreases keys.len() - i,
    {
        let kb = key_ex_bytes(&keys[i], o);
        let mut j: usize = 0;
        let ghost before = r@;
        while j < kb.len()
            invariant
                j <= kb.len(),
                r@ == before + kb@.take(j as int),
            decreases kb.len() - j,
        {
            r.push(kb[j]);
            j = j + 1;
            assert(r@ =~= before + kb@.take(j as int));
        }
        assert(kb@.take(kb.len() as int) =~= kb@);
        assert(keys@.take(i + 1).drop_last() =~= keys@.take(i as int));
        assert(keys@.take(i + 1).last() == keys@[i as int]);
        i = i + 1;
    }
    assert(keys@.take(keys.len() as int) =~= keys@);
    r
}

} // verus!
