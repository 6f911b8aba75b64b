//! The traffic-control model of a network pair: an ingress qdisc on each
//! device and a u32 filter that redirects every frame to the other device,
//! rewriting the destination MAC first where the pair is in L3 mode.
//!
//! The filters are described here as plain values; the netlink attributes
//! that carry them are built from these descriptions where the messages are
//! sent.

use vstd::prelude::*;
use crate::mac::{parse_mac, spec_parse_mac};

verus! {

/// Number of attempts when adding an ingress qdisc.
pub const QDISC_ADD_ATTEMPTS: u64 = 5;

/// Base delay, in milliseconds, of the linear backoff between qdisc add
/// retries on `EBUSY`.
pub const QDISC_ADD_BACKOFF_MS: u64 = 10;

/// The parent handle of filters attached to an ingress qdisc.
pub const INGRESS_PARENT: u32 = 0xffff0000;

/// The protocol of the redirect filters, in host order: every protocol
/// (`ETH_P_ALL`).
pub const ETH_P_ALL: u16 = 0x0003;

/// The kind name of the packet-edit action.
pub const PEDIT_KIND: &'static str = "pedit";

/// `TcActionMirror::KIND` of netlink-packet-route: the kind name of the
/// mirror/redirect action, which the crate defines as `mirred`.
#[verifier::external_body]
fn mirred_kind() -> (r: String)
    ensures
        r@ == "mirred"@,
{
    netlink_packet_route::tc::TcActionMirror::KIND.to_string()
}

/// The `tab` of `TcAction::default()` of netlink-packet-route, which the
/// crate sets to its `TCA_ACT_TAB`, 1.
#[verifier::external_body]
fn default_action_tab() -> (r: u16)
    ensures
        r == 1,
{
    netlink_packet_route::tc::TcAction::default().tab
}

/// `EBUSY` of libc; the contract states the value libc defines for Linux.
#[verifier::external_body]
fn ebusy() -> (r: i32)
    ensures
        r == 16,
{
    libc::EBUSY
}

/// One packet-edit key: at byte offset `off` of the frame, each of the four
/// bytes `p` becomes `(p & mask) ^ val`. `mask` and `val` hold their bytes
/// in frame order.
#[derive(Debug, Clone, Copy, PartialEq, Eq)]
pub struct PeditKey {
    pub off: u32,
    pub mask: [u8; 4],
    pub val: [u8; 4],
}

/// The value of a packet-edit key.
pub struct PeditKeyView {
    pub off: u32,
    pub mask: Seq<u8>,
    pub val: Seq<u8>,
}

impl View for PeditKey {
    type V = PeditKeyView;

    open spec fn view(&self) -> PeditKeyView {
        PeditKeyView { off: self.off, mask: self.mask@, val: self.val@ }
    }
}

/// The packet-edit key with the given fields.
pub fn pedit_key(off: u32, mask: [u8; 4], val: [u8; 4]) -> (r: PeditKey)
    ensures
        r@ == (PeditKeyView { off, mask: mask@, val: val@ }),
{
    PeditKey { off, mask, val }
}

/// The two keys that rewrite the destination MAC of an ethernet frame: the
/// first word takes the first four bytes of `mac`; the second word takes its
/// last two bytes and keeps the two bytes of the source MAC that share it.
pub open spec fn spec_eth_dst_keys(mac: Seq<u8>) -> Seq<PeditKeyView> {
    seq![
        PeditKeyView { off: 0, mask: seq![0u8, 0u8, 0u8, 0u8], val: mac.take(4) },
        PeditKeyView {
            off: 4,
            mask: seq![0u8, 0u8, 0xffu8, 0xffu8],
            val: seq![mac[4], mac[5], 0u8, 0u8],
        },
    ]
}

/// The views of some keys.
pub open spec fn keys_view(keys: Seq<PeditKey>) -> Seq<PeditKeyView> {
    keys.map_values(|k: PeditKey| k@)
}

/// The keys that rewrite the destination MAC to `mac`.
pub fn eth_dst_keys(mac: &[u8; 6]) -> (r: Vec<PeditKey>)
    ensures
        keys_view(r@) == spec_eth_dst_keys(mac@),
{
    let k0 = pedit_key(0, [0, 0, 0, 0], [mac[0], mac[1], mac[2], mac[3]]);
    let k1 = pedit_key(4, [0, 0, 0xff, 0xff], [mac[4], mac[5], 0, 0]);
    let mut r = Vec::new();
    r.push(k0);
    r.push(k1);
    proof {
        assert(k0.mask@ =~= seq![0u8, 0u8, 0u8, 0u8]);
        assert(k0.val@ =~= mac@.take(4));
        assert(k1.mask@ =~= seq![0u8, 0u8, 0xffu8, 0xffu8]);
        assert(k1.val@ =~= seq![mac@[4], mac@[5], 0u8, 0u8]);
        assert(keys_view(r@) =~= spec_eth_dst_keys(mac@));
    }
    r
}

/// What one byte of the frame becomes under a mask and a value.
pub open spec fn pedit_byte(p: u8, mask: u8, val: u8) -> u8 {
    (p & mask) ^ val
}

/// The frame after one packet-edit key.
pub open spec fn apply_pedit_key(frame: Seq<u8>, k: PeditKeyView) -> Seq<u8> {
    Seq::new(
        frame.len(),
        |j: int|
            if k.off <= j < k.off + 4 {
                pedit_byte(frame[j], k.mask[j - k.off], k.val[j - k.off])
            } else {
                frame[j]
            },
    )
}

/// The frame after the keys, applied in order.
pub open spec fn apply_pedit_keys(frame: Seq<u8>, keys: Seq<PeditKeyView>) -> Seq<u8>
    decreases keys.len(),
{
    if keys.len() == 0 {
        frame
    } else {
        apply_pedit_keys(apply_pedit_key(frame, keys[0]), keys.drop_first())
    }
}

/// The destination-MAC keys set the first six bytes of any frame of at
/// least eight bytes to `mac`, and keep every other byte, the source MAC
/// among them.
pub proof fn lemma_eth_dst_keys_rewrite_destination(mac: Seq<u8>, frame: Seq<u8>)
    requires
        mac.len() == 6,
        frame.len() >= 8,
    ensures
        apply_pedit_keys(frame, spec_eth_dst_keys(mac)) == mac + frame.skip(6),
{
    let keys = spec_eth_dst_keys(mac);
    let f1 = apply_pedit_key(frame, keys[0]);
    let f2 = apply_pedit_key(f1, keys[1]);
    assert(keys.drop_first().drop_first() =~= Seq::<PeditKeyView>::empty());
    assert(keys.drop_first()[0] == keys[1]);
    assert(apply_pedit_keys(frame, keys) == apply_pedit_keys(f1, keys.drop_first()));
    assert(apply_pedit_keys(f1, keys.drop_first()) == apply_pedit_keys(f2, keys.drop_first().drop_first()));
    assert forall|p: u8, m: u8| #[trigger] pedit_byte(p, 0u8, m) == m by {
        assert((p & 0u8) ^ m == m) by (bit_vector);
    }
    assert forall|p: u8| #[trigger] pedit_byte(p, 0xffu8, 0u8) == p by {
        assert((p & 0xffu8) ^ 0u8 == p) by (bit_vector);
    }
    assert forall|j: int| 0 <= j < frame.len() implies #[trigger] f2[j] == (mac + frame.skip(6))[j] by {
        if j < 4 {
            assert(f1[j] == pedit_byte(frame[j], 0u8, mac[j]));
        } else if j < 6 {
            assert(f2[j] == pedit_byte(f1[j], 0u8, mac[j]));
        } else if j < 8 {
            assert(f2[j] == pedit_byte(f1[j], 0xffu8, 0u8));
        }
    }
    assert(f2 =~= mac + frame.skip(6));
}

/// What the action does when it is done with a frame.
#[derive(Debug, Clone, Copy, PartialEq, Eq, Structural)]
pub enum ActionControl {
    /// Hand the frame to the next action.
    Pipe,
    /// The frame was consumed (redirected).
    Stolen,
}

/// The header that a packet-edit key addresses.
#[derive(Debug, Clone, Copy, PartialEq, Eq, Structural)]
pub enum PeditHeaderType {
    Eth,
}

/// What a packet-edit key does.
#[derive(Debug, Clone, Copy, PartialEq, Eq, Structural)]
pub enum PeditCmd {
    SetField,
}

/// The extended description of a packet-edit key.
#[derive(Debug, Clone, Copy, PartialEq, Eq, Structural)]
pub struct PeditKeyEx {
    pub htype: PeditHeaderType,
    pub cmd: PeditCmd,
}

/// The parameters of a packet-edit action.
#[derive(Debug, Clone, PartialEq, Eq)]
pub struct Pedit {
    pub action: ActionControl,
    pub nkeys: u8,
    pub keys: Vec<PeditKey>,
}

/// The direction and effect of a mirror action.
#[derive(Debug, Clone, Copy, PartialEq, Eq, Structural)]
pub enum MirrorActionType {
    /// Redirect the frame to the egress of another device.
    EgressRedir,
}

/// The parameters of a mirror action.
#[derive(Debug, Clone, Copy, PartialEq, Eq, Structural)]
pub struct Mirror {
    pub action: ActionControl,
    pub eaction: MirrorActionType,
    pub ifindex: u32,
}

/// The options of an action.
#[derive(Debug, Clone, PartialEq, Eq)]
pub enum ActionOptions {
    Pedit { keys_ex: Vec<PeditKeyEx>, parms: Pedit },
    Mirror(Mirror),
}

/// A tc action: its position in the action list, its kind name and its
/// options.
#[derive(Debug, Clone, PartialEq, Eq)]
pub struct TcAction {
    pub tab: u16,
    pub kind: String,
    pub options: ActionOptions,
}

/// The value of action options.
pub enum ActionOptionsView {
    Pedit {
        keys_ex: Seq<PeditKeyEx>,
        action: ActionControl,
        nkeys: u8,
        keys: Seq<PeditKeyView>,
    },
    Mirror(Mirror),
}

/// The value of an action.
pub struct TcActionView {
    pub tab: u16,
    pub kind: Seq<char>,
    pub options: ActionOptionsView,
}

impl View for TcAction {
    type V = TcActionView;

    open spec fn view(&self) -> TcActionView {
        TcActionView {
            tab: self.tab,
            kind: self.kind@,
            options: match self.options {
                ActionOptions::Pedit { keys_ex, parms } => ActionOptionsView::Pedit {
                    keys_ex: keys_ex@,
                    action: parms.action,
                    nkeys: parms.nkeys,
                    keys: keys_view(parms.keys@),
                },
                ActionOptions::Mirror(m) => ActionOptionsView::Mirror(m),
            },
        }
    }
}

/// The views of some actions.
pub open spec fn actions_view(actions: Seq<TcAction>) -> Seq<TcActionView> {
    actions.map_values(|a: TcAction| a@)
}

/// `action pedit ex munge eth dst set <mac> pipe`, at the default position.
pub open spec fn spec_pedit_eth_dst_action(mac: Seq<u8>) -> TcActionView {
    TcActionView {
        tab: 1,
        kind: PEDIT_KIND@,
        options: ActionOptionsView::Pedit {
            keys_ex: seq![
                PeditKeyEx { htype: PeditHeaderType::Eth, cmd: PeditCmd::SetField },
                PeditKeyEx { htype: PeditHeaderType::Eth, cmd: PeditCmd::SetField },
            ],
            action: ActionControl::Pipe,
            nkeys: 2,
            keys: spec_eth_dst_keys(mac),
        },
    }
}

/// `action mirred egress redirect dev <dst_index>`, at the default position.
pub open spec fn spec_mirred_redirect_action(dst_index: u32) -> TcActionView {
    TcActionView {
        tab: 1,
        kind: "mirred"@,
        options: ActionOptionsView::Mirror(
            Mirror {
                action: ActionControl::Stolen,
                eaction: MirrorActionType::EgressRedir,
                ifindex: dst_index,
            },
        ),
    }
}

/// `action pedit ex munge eth dst set <mac> pipe`
pub fn pedit_eth_dst_action(mac: &[u8; 6]) -> (r: TcAction)
    ensures
        r@ == spec_pedit_eth_dst_action(mac@),
{
    let keys = eth_dst_keys(mac);
    let nkeys = keys.len();
    assert(keys_view(keys@).len() == keys@.len());
    assert(nkeys == 2);
    let mut keys_ex: Vec<PeditKeyEx> = Vec::new();
    let mut i: usize = 0;
    while i < nkeys
        invariant
            i <= nkeys,
            keys_ex@ == Seq::new(
                i as nat,
                |j: int| PeditKeyEx { htype: PeditHeaderType::Eth, cmd: PeditCmd::SetField },
            ),
        decreases nkeys - i,
    {
        keys_ex.push(PeditKeyEx { htype: PeditHeaderType::Eth, cmd: PeditCmd::SetField });
        i = i + 1;
        assert(keys_ex@ =~= Seq::new(
            i as nat,
            |j: int| PeditKeyEx { htype: PeditHeaderType::Eth, cmd: PeditCmd::SetField },
        ));
    }
    assert(keys_ex@ =~= seq![
        PeditKeyEx { htype: PeditHeaderType::Eth, cmd: PeditCmd::SetField },
        PeditKeyEx { htype: PeditHeaderType::Eth, cmd: PeditCmd::SetField },
    ]);
    let parms = Pedit { action: ActionControl::Pipe, nkeys: nkeys as u8, keys };
    let action = TcAction {
        tab: default_action_tab(),
        kind: String::from_str(PEDIT_KIND),
        options: ActionOptions::Pedit { keys_ex, parms },
    };
    action
}

/// `action mirred egress redirect dev <dst_index>`
pub fn mirred_redirect_action(dst_index: u32) -> (r: TcAction)
    ensures
        r@ == spec_mirred_redirect_action(dst_index),
{
    let mirror = Mirror {
        action: ActionControl::Stolen,
        eaction: MirrorActionType::EgressRedir,
        ifindex: dst_index,
    };
    TcAction {
        tab: default_action_tab(),
        kind: mirred_kind(),
        options: ActionOptions::Mirror(mirror),
    }
}

/// A key of the u32 classifier.
#[derive(Debug, Clone, Copy, PartialEq, Eq, Structural)]
pub struct U32Key {
    pub mask: u32,
    pub val: u32,
    pub off: i32,
    pub offmask: i32,
}

/// The selector of the u32 classifier; its other fields are zero.
#[derive(Debug, Clone, PartialEq, Eq)]
pub struct U32Selector {
    /// Whether a match ends the classification.
    pub terminal: bool,
    pub nkeys: u8,
    pub keys: Vec<U32Key>,
}

/// The options of a u32 filter: the selector, then the action list.
#[derive(Debug, Clone, PartialEq, Eq)]
pub struct U32FilterOptions {
    pub selector: U32Selector,
    pub actions: Vec<TcAction>,
}

/// The all-zero u32 key: it matches every frame.
pub open spec fn zero_u32_key() -> U32Key {
    U32Key { mask: 0, val: 0, off: 0, offmask: 0 }
}

/// The actions of a redirect to `dst_index`, numbered from 1 in order:
/// the rewrite of the destination MAC first when there is one, then the
/// redirect.
pub open spec fn spec_redirect_actions(dst_index: u32, dst_mac: Option<Seq<u8>>) -> Seq<
    TcActionView,
> {
    match dst_mac {
        Some(mac) => seq![
            TcActionView { tab: 1, ..spec_pedit_eth_dst_action(mac) },
            TcActionView { tab: 2, ..spec_mirred_redirect_action(dst_index) },
        ],
        None => seq![spec_mirred_redirect_action(dst_index)],
    }
}

/// Whether `opts` is the filter that redirects every frame to `dst_index`:
/// `u32 match u8 0 0 [action pedit ex munge eth dst set <dst_mac> pipe]
/// action mirred egress redirect dev <dst_index>`.
pub open spec fn is_redirect_options(
    opts: U32FilterOptions,
    dst_index: u32,
    dst_mac: Option<Seq<u8>>,
) -> bool {
    &&& opts.selector.terminal
    &&& opts.selector.nkeys == 1
    &&& opts.selector.keys@ == seq![zero_u32_key()]
    &&& actions_view(opts.actions@) == spec_redirect_actions(dst_index, dst_mac)
}

/// The view of an optional MAC.
pub open spec fn mac_view(m: Option<[u8; 6]>) -> Option<Seq<u8>> {
    match m {
        Some(a) => Some(a@),
        None => None,
    }
}

/// The filter options that redirect every frame to `dst_index`, rewriting
/// the destination MAC to `dst_mac` first when one is given.
///
/// The kernel reads the action nest as an array indexed by attribute type,
/// so each action carries its own 1-based position.
pub fn redirect_options(dst_index: u32, dst_mac: Option<[u8; 6]>) -> (r: U32FilterOptions)
    ensures
        is_redirect_options(r, dst_index, mac_view(dst_mac)),
{
    let mut keys: Vec<U32Key> = Vec::new();
    keys.push(U32Key { mask: 0, val: 0, off: 0, offmask: 0 });
    let selector = U32Selector { terminal: true, nkeys: 1, keys };
    let mut actions: Vec<TcAction> = Vec::new();
    if let Some(mac) = dst_mac {
        actions.push(pedit_eth_dst_action(&mac));
    }
    actions.push(mirred_redirect_action(dst_index));
    let ghost before = actions@;
    let n = actions.len();
    let mut i: usize = 0;
    while i < n
        invariant
            n == actions.len() == before.len(),
            n <= 2,
            i <= n,
            forall|j: int|
                0 <= j < n ==> {
                    let a = #[trigger] actions@[j];
                    &&& a.kind == before[j].kind
                    &&& a.options == before[j].options
                    &&& a.tab == (if j < i {
                        (j + 1) as u16
                    } else {
                        before[j].tab
                    })
                },
        decreases n - i,
    {
        actions[i].tab = i as u16 + 1;
        i = i + 1;
    }
    proof {
        assert(selector.keys@ =~= seq![zero_u32_key()]);
        assert(actions_view(actions@) =~= spec_redirect_actions(dst_index, mac_view(dst_mac)));
    }
    U32FilterOptions { selector, actions }
}

/// The part of a network pair that its redirect filters depend on: the
/// hardware address of the tap interface and whether the pair is in L3
/// mode (a netkit peer).
#[derive(Debug, Clone, PartialEq, Eq)]
pub struct NetworkPair {
    pub tap_hard_addr: String,
    pub l3: bool,
}

/// Why the redirect filters of a pair could not be built.
#[derive(Debug, Clone, PartialEq, Eq)]
pub enum TcFilterError {
    /// The tap hardware address is not a MAC address.
    InvalidMac(String),
}

/// The all-zero MAC address.
pub open spec fn zero_mac() -> Seq<u8> {
    seq![0u8, 0u8, 0u8, 0u8, 0u8, 0u8]
}

/// Whether `r` is the redirect pair of a pair with L3 mode `l3` and tap
/// address `tap_addr`: the tap ingress filter redirects to `virt_index`,
/// the virt ingress filter to `tap_index`. In L3 mode the frames towards
/// the netkit get the all-zero destination MAC and the frames towards the
/// guest get the tap MAC, and an address that is not a MAC is refused;
/// otherwise no MAC is rewritten.
pub open spec fn is_redirect_pair_result(
    r: Result<(U32FilterOptions, U32FilterOptions), TcFilterError>,
    l3: bool,
    tap_addr: Seq<char>,
    tap_index: u32,
    virt_index: u32,
) -> bool {
    if l3 {
        match spec_parse_mac(tap_addr) {
            None => r matches Err(TcFilterError::InvalidMac(a)) && a@ == tap_addr,
            Some(mac) => r matches Ok((tap_opts, virt_opts)) && is_redirect_options(
                tap_opts,
                virt_index,
                Some(zero_mac()),
            ) && is_redirect_options(virt_opts, tap_index, Some(mac)),
        }
    } else {
        r matches Ok((tap_opts, virt_opts)) && is_redirect_options(tap_opts, virt_index, None)
            && is_redirect_options(virt_opts, tap_index, None)
    }
}

/// The u32 filter options of the tap ingress redirect and of the virt
/// ingress redirect, in that order.
///
/// A netkit in L3 mode has an all-zero MAC and its stack only accepts frames
/// addressed to it, while the guest NIC has a real one. The destination MAC
/// is rewritten in both directions so that neither side drops the frame as
/// addressed to another host.
pub fn redirect_pair(pair: &NetworkPair, tap_index: u32, virt_index: u32) -> (r: Result<
    (U32FilterOptions, U32FilterOptions),
    TcFilterError,
>)
    ensures
        is_redirect_pair_result(r, pair.l3, pair.tap_hard_addr@, tap_index, virt_index),
{
    let to_guest: Option<[u8; 6]>;
    let to_host: Option<[u8; 6]>;
    if pair.l3 {
        match parse_mac(pair.tap_hard_addr.as_str()) {
            Some(mac) => {
                to_guest = Some(mac);
                let zero = [0u8; 6];
                assert(zero@ =~= zero_mac());
                to_host = Some(zero);
            },
            None => {
                let addr = pair.tap_hard_addr.clone();
                return Err(TcFilterError::InvalidMac(addr));
            },
        }
    } else {
        to_guest = None;
        to_host = None;
    }
    Ok((redirect_options(virt_index, to_host), redirect_options(tap_index, to_guest)))
}

/// What a list of actions does to a frame, in order: a packet edit that
/// pipes applies its keys and goes on; a redirect to the egress of a device
/// ends the list with that device. The result is the device the frame is
/// sent to, if any, and the frame as it leaves.
pub open spec fn run_actions(actions: Seq<TcActionView>, frame: Seq<u8>) -> (Option<u32>, Seq<u8>)
    decreases actions.len(),
{
    if actions.len() == 0 {
        (None, frame)
    } else {
        match actions[0].options {
            ActionOptionsView::Pedit { action, keys, .. } => {
                let edited = apply_pedit_keys(frame, keys);
                if action == ActionControl::Pipe {
                    run_actions(actions.drop_first(), edited)
                } else {
                    (None, edited)
                }
            },
            ActionOptionsView::Mirror(m) => if m.action == ActionControl::Stolen && m.eaction
                == MirrorActionType::EgressRedir {
                (Some(m.ifindex), frame)
            } else {
                (None, frame)
            },
        }
    }
}

/// The actions of a redirect are numbered 1, 2, ... in list order, and the
/// last one redirects to the destination device.
pub proof fn lemma_redirect_actions_indexed(dst_index: u32, dst_mac: Option<Seq<u8>>)
    ensures
        ({
            let acts = spec_redirect_actions(dst_index, dst_mac);
            &&& acts.len() >= 1
            &&& forall|j: int| 0 <= j < acts.len() ==> #[trigger] acts[j].tab == j + 1
            &&& acts.last().options == ActionOptionsView::Mirror(
                Mirror {
                    action: ActionControl::Stolen,
                    eaction: MirrorActionType::EgressRedir,
                    ifindex: dst_index,
                },
            )
        }),
{
}

/// A redirect sends every frame of at least eight bytes to its destination
/// device, with the destination MAC rewritten to `dst_mac` when one is
/// given and the frame otherwise unchanged.
pub proof fn lemma_redirect_delivers(
    dst_index: u32,
    dst_mac: Option<Seq<u8>>,
    frame: Seq<u8>,
)
    requires
        frame.len() >= 8,
        dst_mac matches Some(m) ==> m.len() == 6,
    ensures
        run_actions(spec_redirect_actions(dst_index, dst_mac), frame) == (
            Some(dst_index),
            match dst_mac {
                Some(m) => m + frame.skip(6),
                None => frame,
            },
        ),
{
    let acts = spec_redirect_actions(dst_index, dst_mac);
    match dst_mac {
        Some(m) => {
            lemma_eth_dst_keys_rewrite_destination(m, frame);
            assert(acts.drop_first().drop_first() =~= Seq::<TcActionView>::empty());
            assert(acts.drop_first()[0] == acts[1]);
            assert(run_actions(acts, frame) == run_actions(acts.drop_first(), m + frame.skip(6)));
        },
        None => {},
    }
}

/// The redirect pair crosses the two devices: whatever enters the tap
/// leaves through the virt device and whatever enters the virt device
/// leaves through the tap. In L3 mode the frames towards the virt device
/// carry the all-zero destination MAC and the frames towards the tap carry
/// the tap MAC; otherwise frames pass unchanged.
pub proof fn lemma_redirect_pair_crosses(
    tap_opts: U32FilterOptions,
    virt_opts: U32FilterOptions,
    l3: bool,
    tap_addr: Seq<char>,
    tap_index: u32,
    virt_index: u32,
    frame: Seq<u8>,
)
    requires
        is_redirect_pair_result(Ok((tap_opts, virt_opts)), l3, tap_addr, tap_index, virt_index),
        frame.len() >= 8,
    ensures
        run_actions(actions_view(tap_opts.actions@), frame) == (
            Some(virt_index),
            if l3 {
                zero_mac() + frame.skip(6)
            } else {
                frame
            },
        ),
        run_actions(actions_view(virt_opts.actions@), frame) == (
            Some(tap_index),
            if l3 {
                spec_parse_mac(tap_addr).unwrap() + frame.skip(6)
            } else {
                frame
            },
        ),
{
    if l3 {
        let mac = spec_parse_mac(tap_addr).unwrap();
        lemma_redirect_delivers(virt_index, Some(zero_mac()), frame);
        lemma_redirect_delivers(tap_index, Some(mac), frame);
    } else {
        lemma_redirect_delivers(virt_index, None, frame);
        lemma_redirect_delivers(tap_index, None, frame);
    }
}

/// A redirect filter to install: the device whose ingress it is attached
/// to, the parent handle, the protocol (in host order) and the options.
#[derive(Debug, Clone, PartialEq, Eq)]
pub struct RedirectFilter {
    pub ifindex: u32,
    pub parent: u32,
    pub protocol: u16,
    pub options: U32FilterOptions,
}

/// The two ingress redirect filters of a pair: the first on the tap, the
/// second on the virt device, both under the ingress qdisc and for every
/// protocol.
pub fn ingress_redirect_filters(pair: &NetworkPair, tap_index: u32, virt_index: u32) -> (r: Result<
    (RedirectFilter, RedirectFilter),
    TcFilterError,
>)
    ensures
        is_redirect_pair_result(
            match r {
                Ok((t, v)) => Ok((t.options, v.options)),
                Err(e) => Err(e),
            },
            pair.l3,
            pair.tap_hard_addr@,
            tap_index,
            virt_index,
        ),
        r matches Ok((t, v)) ==> {
            &&& t.ifindex == tap_index
            &&& v.ifindex == virt_index
            &&& t.parent == INGRESS_PARENT && v.parent == INGRESS_PARENT
            &&& t.protocol == ETH_P_ALL && v.protocol == ETH_P_ALL
        },
{
    match redirect_pair(pair, tap_index, virt_index) {
        Ok((tap_options, virt_options)) => Ok(
            (
                RedirectFilter {
                    ifindex: tap_index,
                    parent: INGRESS_PARENT,
                    protocol: ETH_P_ALL,
                    options: tap_options,
                },
                RedirectFilter {
                    ifindex: virt_index,
                    parent: INGRESS_PARENT,
                    protocol: ETH_P_ALL,
                    options: virt_options,
                },
            ),
        ),
        Err(e) => Err(e),
    }
}

/// The kind of a network model.
#[derive(Debug, Clone, Copy, PartialEq, Eq, Structural)]
pub enum NetworkModelType {
    /// Redirection between the devices of a pair by tc filters.
    TcFilter,
}

/// The network model that joins the devices of a pair with tc redirect
/// filters.
#[derive(Debug)]
pub struct TcFilterModel {}

impl TcFilterModel {
    /// The model; making it cannot fail.
    pub fn new() -> (r: Result<TcFilterModel, TcFilterError>)
        ensures
            r is Ok,
    {
        Ok(TcFilterModel {})
    }

    /// The kind of the model.
    pub fn model_type(&self) -> (r: NetworkModelType)
        ensures
            r == NetworkModelType::TcFilter,
    {
        NetworkModelType::TcFilter
    }
}

/// Whether a netlink error code is `-EBUSY`.
pub fn is_ebusy(code: Option<i32>) -> (r: bool)
    ensures
        r == (code == Some(-16i32)),
{
    match code {
        Some(c) => c == -ebusy(),
        None => false,
    }
}

/// How an attempt to add an ingress qdisc ended.
#[derive(Debug, Clone, Copy, PartialEq, Eq, Structural)]
pub enum QdiscAddOutcome {
    Added,
    /// Refused with `EBUSY`.
    Busy,
    /// Refused for another reason.
    Failed,
}

/// The outcome of a qdisc add that returned `result`, an error being given
/// by its netlink error code, if any.
pub fn classify_qdisc_add(result: Result<(), Option<i32>>) -> (r: QdiscAddOutcome)
    ensures
        r == (match result {
            Ok(()) => QdiscAddOutcome::Added,
            Err(code) => if code == Some(-16i32) {
                QdiscAddOutcome::Busy
            } else {
                QdiscAddOutcome::Failed
            },
        }),
{
    match result {
        Ok(()) => QdiscAddOutcome::Added,
        Err(code) => if is_ebusy(code) {
            QdiscAddOutcome::Busy
        } else {
            QdiscAddOutcome::Failed
        },
    }
}

/// What to do after an attempt to add an ingress qdisc.
#[derive(Debug, Clone, Copy, PartialEq, Eq, Structural)]
pub enum QdiscAddStep {
    /// Stop, with the result of the last attempt.
    Finish,
    /// Wait this many milliseconds, then attempt again.
    RetryAfter(u64),
}

/// The step after attempt number `attempt` (from 1): retry a busy device
/// with a linear backoff (10 ms, 20 ms, ...) until `QDISC_ADD_ATTEMPTS`
/// attempts are made; stop on success or on any other error.
pub open spec fn spec_qdisc_add_next(attempt: u64, outcome: QdiscAddOutcome) -> QdiscAddStep {
    if outcome == QdiscAddOutcome::Busy && attempt < QDISC_ADD_ATTEMPTS {
        QdiscAddStep::RetryAfter((QDISC_ADD_BACKOFF_MS * attempt) as u64)
    } else {
        QdiscAddStep::Finish
    }
}

/// The step after attempt number `attempt` with the given outcome.
pub fn qdisc_add_next(attempt: u64, outcome: QdiscAddOutcome) -> (r: QdiscAddStep)
    requires
        1 <= attempt <= QDISC_ADD_ATTEMPTS,
    ensures
        r == spec_qdisc_add_next(attempt, outcome),
{
    match outcome {
        QdiscAddOutcome::Busy => if attempt < QDISC_ADD_ATTEMPTS {
            QdiscAddStep::RetryAfter(QDISC_ADD_BACKOFF_MS * attempt)
        } else {
            QdiscAddStep::Finish
        },
        _ => QdiscAddStep::Finish,
    }
}

/// The attempts made and the milliseconds waited when attempt `attempt`
/// onwards end as `outcomes` says (`outcomes[k - 1]` for attempt `k`).
pub open spec fn qdisc_add_run(outcomes: Seq<QdiscAddOutcome>, attempt: int) -> (int, int)
    decreases QDISC_ADD_ATTEMPTS - attempt,
{
    if attempt < 1 || attempt >= QDISC_ADD_ATTEMPTS || attempt > outcomes.len() {
        (attempt, 0)
    } else {
        match spec_qdisc_add_next(attempt as u64, outcomes[attempt - 1]) {
            QdiscAddStep::Finish => (attempt, 0),
            QdiscAddStep::RetryAfter(d) => {
                let (n, t) = qdisc_add_run(outcomes, attempt + 1);
                (n, t + d)
            },
        }
    }
}

/// Adding an ingress qdisc makes at most `QDISC_ADD_ATTEMPTS` attempts and
/// waits at most 100 ms in all; every attempt but the last was refused as
/// busy, and the last stops the run because it succeeded, failed otherwise,
/// or was the last allowed.
pub proof fn lemma_qdisc_add_bounded(outcomes: Seq<QdiscAddOutcome>, attempt: int)
    requires
        outcomes.len() >= QDISC_ADD_ATTEMPTS,
        1 <= attempt <= QDISC_ADD_ATTEMPTS,
    ensures
        ({
            let (n, t) = qdisc_add_run(outcomes, attempt);
            &&& attempt <= n <= QDISC_ADD_ATTEMPTS
            &&& 0 <= t <= 5 * (n * (n - 1) - attempt * (attempt - 1))
            &&& forall|k: int| attempt <= k < n ==> #[trigger] outcomes[k - 1] == QdiscAddOutcome::Busy
            &&& (n < QDISC_ADD_ATTEMPTS ==> outcomes[n - 1] != QdiscAddOutcome::Busy)
        }),
    decreases QDISC_ADD_ATTEMPTS - attempt,
{
    if attempt < QDISC_ADD_ATTEMPTS && outcomes[attempt - 1] == QdiscAddOutcome::Busy {
        lemma_qdisc_add_bounded(outcomes, attempt + 1);
        let (n, t) = qdisc_add_run(outcomes, attempt + 1);
        assert(n * (n - 1) - attempt * (attempt - 1) == (n * (n - 1) - (attempt + 1) * attempt) + 2
            * attempt) by (nonlinear_arith);
    }
}

} // verus!
