//! Typed network links decoded from link messages.
//!
//! A link message carries a header and a list of attributes. Decoding reads
//! the attributes from the last to the first, so where an attribute occurs
//! more than once its first occurrence is the one that stands.

use vstd::prelude::*;

verus! {

/// `IFF_PROMISC` of libc: the interface flag of promiscuous mode.
///
/// The contract states the value that libc defines for Linux (`0x100`).
#[verifier::external_body]
fn iff_promisc() -> (r: i32)
    ensures
        r == 0x100,
{
    libc::IFF_PROMISC
}

/// The base attributes of a link.
#[derive(Debug, Clone, PartialEq, Eq)]
pub struct LinkAttrs {
    pub index: u32,
    pub mtu: u32,
    pub txq_len: u32,
    pub name: String,
    pub hardware_addr: Vec<u8>,
    pub flags: u32,
    pub parent_index: u32,
    pub master_index: u32,
    pub alias: String,
    pub promisc: u32,
    pub link_layer_type: u16,
    pub net_ns_id: i32,
    pub num_tx_queues: u32,
    pub num_rx_queues: u32,
    pub gso_max_size: u32,
    pub gso_max_seqs: u32,
    pub group: u32,
}

/// The value of `LinkAttrs`, strings and bytes taken by their views.
pub struct LinkAttrsView {
    pub index: u32,
    pub mtu: u32,
    pub txq_len: u32,
    pub name: Seq<char>,
    pub hardware_addr: Seq<u8>,
    pub flags: u32,
    pub parent_index: u32,
    pub master_index: u32,
    pub alias: Seq<char>,
    pub promisc: u32,
    pub link_layer_type: u16,
    pub net_ns_id: i32,
    pub num_tx_queues: u32,
    pub num_rx_queues: u32,
    pub gso_max_size: u32,
    pub gso_max_seqs: u32,
    pub group: u32,
}

impl View for LinkAttrs {
    type V = LinkAttrsView;

    open spec fn view(&self) -> LinkAttrsView {
        LinkAttrsView {
            index: self.index,
            mtu: self.mtu,
            txq_len: self.txq_len,
            name: self.name@,
            hardware_addr: self.hardware_addr@,
            flags: self.flags,
            parent_index: self.parent_index,
            master_index: self.master_index,
            alias: self.alias@,
            promisc: self.promisc,
            link_layer_type: self.link_layer_type,
            net_ns_id: self.net_ns_id,
            num_tx_queues: self.num_tx_queues,
            num_rx_queues: self.num_rx_queues,
            gso_max_size: self.gso_max_size,
            gso_max_seqs: self.gso_max_seqs,
            group: self.group,
        }
    }
}

/// The attributes of a link that nothing has set: zeros and empty strings.
pub open spec fn default_link_attrs() -> LinkAttrsView {
    LinkAttrsView {
        index: 0,
        mtu: 0,
        txq_len: 0,
        name: Seq::empty(),
        hardware_addr: Seq::empty(),
        flags: 0,
        parent_index: 0,
        master_index: 0,
        alias: Seq::empty(),
        promisc: 0,
        link_layer_type: 0,
        net_ns_id: 0,
        num_tx_queues: 0,
        num_rx_queues: 0,
        gso_max_size: 0,
        gso_max_seqs: 0,
        group: 0,
    }
}

impl Default for LinkAttrs {
    fn default() -> (r: LinkAttrs)
        ensures
            r@ == default_link_attrs(),
    {
        LinkAttrs {
            index: 0,
            mtu: 0,
            txq_len: 0,
            name: String::new(),
            hardware_addr: Vec::new(),
            flags: 0,
            parent_index: 0,
            master_index: 0,
            alias: String::new(),
            promisc: 0,
            link_layer_type: 0,
            net_ns_id: 0,
            num_tx_queues: 0,
            num_rx_queues: 0,
            gso_max_size: 0,
            gso_max_seqs: 0,
            group: 0,
        }
    }
}

/// The fixed header of a link message.
#[derive(Debug, Clone, Copy, PartialEq, Eq, Structural)]
pub struct LinkHeader {
    pub index: u32,
    /// The interface flags, as bits.
    pub flags: u32,
    /// The link layer type, as its number.
    pub link_layer_type: u16,
}

/// The kind named in the link information.
#[derive(Debug, Clone, Copy, PartialEq, Eq, Structural)]
pub enum InfoKind {
    Tun,
    Veth,
    IpVlan,
    MacVlan,
    Vlan,
    Bridge,
    Netkit,
    Other,
}

/// The mode of a netkit device.
#[derive(Debug, Clone, Copy, PartialEq, Eq, Structural)]
pub enum NetkitMode {
    L2,
    L3,
    Other(u32),
}

/// An attribute of the bridge data.
#[derive(Debug, Clone, Copy, PartialEq, Eq, Structural)]
pub enum InfoBridge {
    HelloTime(u32),
    MulticastSnooping(bool),
    VlanFiltering(bool),
    Other,
}

/// An attribute of the netkit data.
#[derive(Debug, Clone, Copy, PartialEq, Eq, Structural)]
pub enum InfoNetkit {
    Mode(NetkitMode),
    Other,
}

/// The kind-specific data of the link information.
#[derive(Debug, Clone, PartialEq, Eq)]
pub enum InfoData {
    Tun,
    Veth,
    IpVlan,
    MacVlan,
    Vlan,
    Bridge(Vec<InfoBridge>),
    Netkit(Vec<InfoNetkit>),
    Other,
}

/// An element of the link information.
#[derive(Debug, Clone, PartialEq, Eq)]
pub enum LinkInfo {
    Kind(InfoKind),
    Data(InfoData),
    PortKind,
    PortData,
    Other,
}

/// An attribute of a link message; the attributes that decoding skips are
/// `Other`.
#[derive(Debug, Clone, PartialEq, Eq)]
pub enum LinkAttribute {
    LinkInfo(Vec<LinkInfo>),
    Address(Vec<u8>),
    IfName(String),
    Mtu(u32),
    Link(u32),
    Controller(u32),
    TxQueueLen(u32),
    IfAlias(String),
    LinkNetNsId(i32),
    GsoMaxSize(u32),
    GsoMaxSegs(u32),
    NumTxQueues(u32),
    NumRxQueues(u32),
    Group(u32),
    Other,
}

/// A link message: the header and the attributes.
#[derive(Debug, Clone, PartialEq, Eq)]
pub struct LinkMessage {
    pub header: LinkHeader,
    pub attributes: Vec<LinkAttribute>,
}

/// The kind of a link, with the data that the kind carries.
#[derive(Debug, Clone, Copy, PartialEq, Eq, Structural)]
pub enum LinkKind {
    Device,
    Tuntap,
    Veth,
    IpVlan,
    MacVlan,
    Vlan,
    Bridge { multicast_snooping: bool, hello_time: u32, vlan_filtering: bool },
    Netkit { l3: bool },
}

/// A plain device.
#[derive(Debug, PartialEq, Eq, Clone, Default)]
pub struct Device {
    attrs: Option<LinkAttrs>,
}

/// A tun/tap device.
#[derive(Debug, PartialEq, Eq, Clone, Default)]
pub struct Tuntap {
    attrs: Option<LinkAttrs>,
}

/// A veth device.
#[derive(Debug, PartialEq, Eq, Clone, Default)]
pub struct Veth {
    attrs: Option<LinkAttrs>,
}

/// An ipvlan device.
#[derive(Debug, PartialEq, Eq, Clone, Default)]
pub struct IpVlan {
    attrs: Option<LinkAttrs>,
}

/// A macvlan device.
#[derive(Debug, PartialEq, Eq, Clone, Default)]
pub struct MacVlan {
    attrs: Option<LinkAttrs>,
}

/// A vlan device.
#[derive(Debug, PartialEq, Eq, Clone, Default)]
pub struct Vlan {
    attrs: Option<LinkAttrs>,
}

/// A bridge.
#[derive(Debug, PartialEq, Eq, Clone, Default)]
pub struct Bridge {
    attrs: Option<LinkAttrs>,
    pub multicast_snooping: bool,
    pub hello_time: u32,
    pub vlan_filtering: bool,
}

/// A netkit device.
#[derive(Debug, PartialEq, Eq, Clone, Default)]
pub struct Netkit {
    attrs: Option<LinkAttrs>,
    pub l3: bool,
}

/// The view of optional attributes.
pub open spec fn attrs_view(a: Option<LinkAttrs>) -> Option<LinkAttrsView> {
    match a {
        Some(x) => Some(x@),
        None => None,
    }
}

impl Bridge {
    /// Multicast snooping, hello time and vlan filtering.
    pub closed spec fn settings(&self) -> (bool, u32, bool) {
        (self.multicast_snooping, self.hello_time, self.vlan_filtering)
    }

    /// The attributes, if set.
    pub closed spec fn spec_attrs(&self) -> Option<LinkAttrsView> {
        attrs_view(self.attrs)
    }

    /// The base attributes; they must have been set.
    pub fn attrs(&self) -> (r: &LinkAttrs)
        requires
            self.spec_attrs() is Some,
        ensures
            Some(r@) == self.spec_attrs(),
    {
        self.attrs.as_ref().unwrap()
    }

    /// Sets the base attributes.
    pub fn set_attrs(&mut self, attr: LinkAttrs)
        ensures
            final(self).spec_attrs() == Some(attr@),
            final(self).settings() == old(self).settings(),
    {
        self.attrs = Some(attr);
    }

    /// The type name, `bridge`.
    pub fn link_type(&self) -> (r: &'static str)
        ensures
            r@ == "bridge"@,
    {
        "bridge"
    }
}

impl Netkit {
    /// Whether the device runs in L3 mode.
    pub closed spec fn spec_l3(&self) -> bool {
        self.l3
    }

    /// The attributes, if set.
    pub closed spec fn spec_attrs(&self) -> Option<LinkAttrsView> {
        attrs_view(self.attrs)
    }

    /// The base attributes; they must have been set.
    pub fn attrs(&self) -> (r: &LinkAttrs)
        requires
            self.spec_attrs() is Some,
        ensures
            Some(r@) == self.spec_attrs(),
    {
        self.attrs.as_ref().unwrap()
    }

    /// Sets the base attributes.
    pub fn set_attrs(&mut self, attr: LinkAttrs)
        ensures
            final(self).spec_attrs() == Some(attr@),
            final(self).spec_l3() == old(self).spec_l3(),
    {
        self.attrs = Some(attr);
    }

    /// The type name, `netkit`.
    pub fn link_type(&self) -> (r: &'static str)
        ensures
            r@ == "netkit"@,
    {
        "netkit"
    }

    /// Whether the device runs in L3 mode.
    pub fn is_l3(&self) -> (r: bool)
        ensures
            r == self.spec_l3(),
    {
        self.l3
    }
}

/// A link of any kind.
#[derive(Debug, PartialEq, Eq, Clone)]
pub enum Link {
    Device(Device),
    Tuntap(Tuntap),
    Veth(Veth),
    IpVlan(IpVlan),
    MacVlan(MacVlan),
    Vlan(Vlan),
    Bridge(Bridge),
    Netkit(Netkit),
}

/// The type name of each kind of link.
pub open spec fn spec_type_name(k: LinkKind) -> Seq<char> {
    match k {
        LinkKind::Device => "device"@,
        LinkKind::Tuntap => "tuntap"@,
        LinkKind::Veth => "veth"@,
        LinkKind::IpVlan => "ipvlan"@,
        LinkKind::MacVlan => "macvlan"@,
        LinkKind::Vlan => "vlan"@,
        LinkKind::Bridge { .. } => "bridge"@,
        LinkKind::Netkit { .. } => "netkit"@,
    }
}

impl Link {
    /// The kind of the link, with its kind-specific data.
    pub closed spec fn spec_kind(&self) -> LinkKind {
        match self {
            Link::Device(_) => LinkKind::Device,
            Link::Tuntap(_) => LinkKind::Tuntap,
            Link::Veth(_) => LinkKind::Veth,
            Link::IpVlan(_) => LinkKind::IpVlan,
            Link::MacVlan(_) => LinkKind::MacVlan,
            Link::Vlan(_) => LinkKind::Vlan,
            Link::Bridge(b) => LinkKind::Bridge {
                multicast_snooping: b.multicast_snooping,
                hello_time: b.hello_time,
                vlan_filtering: b.vlan_filtering,
            },
            Link::Netkit(n) => LinkKind::Netkit { l3: n.l3 },
        }
    }

    /// The base attributes, if set.
    pub closed spec fn spec_attrs(&self) -> Option<LinkAttrsView> {
        match self {
            Link::Device(d) => attrs_view(d.attrs),
            Link::Tuntap(d) => attrs_view(d.attrs),
            Link::Veth(d) => attrs_view(d.attrs),
            Link::IpVlan(d) => attrs_view(d.attrs),
            Link::MacVlan(d) => attrs_view(d.attrs),
            Link::Vlan(d) => attrs_view(d.attrs),
            Link::Bridge(d) => attrs_view(d.attrs),
            Link::Netkit(d) => attrs_view(d.attrs),
        }
    }

    /// A link of kind `k` whose attributes are not set.
    pub fn from_kind(k: LinkKind) -> (r: Link)
        ensures
            r.spec_kind() == k,
            r.spec_attrs() is None,
    {
        match k {
            LinkKind::Device => Link::Device(Device { attrs: None }),
            LinkKind::Tuntap => Link::Tuntap(Tuntap { attrs: None }),
            LinkKind::Veth => Link::Veth(Veth { attrs: None }),
            LinkKind::IpVlan => Link::IpVlan(IpVlan { attrs: None }),
            LinkKind::MacVlan => Link::MacVlan(MacVlan { attrs: None }),
            LinkKind::Vlan => Link::Vlan(Vlan { attrs: None }),
            LinkKind::Bridge { multicast_snooping, hello_time, vlan_filtering } => Link::Bridge(
                Bridge { attrs: None, multicast_snooping, hello_time, vlan_filtering },
            ),
            LinkKind::Netkit { l3 } => Link::Netkit(Netkit { attrs: None, l3 }),
        }
    }

    /// The kind of the link.
    pub fn kind(&self) -> (r: LinkKind)
        ensures
            r == self.spec_kind(),
    {
        match self {
            Link::Device(_) => LinkKind::Device,
            Link::Tuntap(_) => LinkKind::Tuntap,
            Link::Veth(_) => LinkKind::Veth,
            Link::IpVlan(_) => LinkKind::IpVlan,
            Link::MacVlan(_) => LinkKind::MacVlan,
            Link::Vlan(_) => LinkKind::Vlan,
            Link::Bridge(b) => LinkKind::Bridge {
                multicast_snooping: b.multicast_snooping,
                hello_time: b.hello_time,
                vlan_filtering: b.vlan_filtering,
            },
            Link::Netkit(n) => LinkKind::Netkit { l3: n.l3 },
        }
    }

    /// The base attributes; they must have been set.
    pub fn attrs(&self) -> (r: &LinkAttrs)
        requires
            self.spec_attrs() is Some,
        ensures
            Some(r@) == self.spec_attrs(),
    {
        match self {
            Link::Device(d) => d.attrs.as_ref().unwrap(),
            Link::Tuntap(d) => d.attrs.as_ref().unwrap(),
            Link::Veth(d) => d.attrs.as_ref().unwrap(),
            Link::IpVlan(d) => d.attrs.as_ref().unwrap(),
            Link::MacVlan(d) => d.attrs.as_ref().unwrap(),
            Link::Vlan(d) => d.attrs.as_ref().unwrap(),
            Link::Bridge(d) => d.attrs(),
            Link::Netkit(d) => d.attrs(),
        }
    }

    /// Sets the base attributes; the kind stays.
    pub fn set_attrs(&mut self, attr: LinkAttrs)
        ensures
            final(self).spec_kind() == old(self).spec_kind(),
            final(self).spec_attrs() == Some(attr@),
    {
        match self {
            Link::Device(d) => {
                d.attrs = Some(attr);
            },
            Link::Tuntap(d) => {
                d.attrs = Some(attr);
            },
            Link::Veth(d) => {
                d.attrs = Some(attr);
            },
            Link::IpVlan(d) => {
                d.attrs = Some(attr);
            },
            Link::MacVlan(d) => {
                d.attrs = Some(attr);
            },
            Link::Vlan(d) => {
                d.attrs = Some(attr);
            },
            Link::Bridge(d) => {
                d.set_attrs(attr);
            },
            Link::Netkit(d) => {
                d.set_attrs(attr);
            },
        }
    }

    /// The type name of the link.
    pub fn link_type(&self) -> (r: &'static str)
        ensures
            r@ == spec_type_name(self.spec_kind()),
    {
        match self {
            Link::Device(_) => "device",
            Link::Tuntap(_) => "tuntap",
            Link::Veth(_) => "veth",
            Link::IpVlan(_) => "ipvlan",
            Link::MacVlan(_) => "macvlan",
            Link::Vlan(_) => "vlan",
            Link::Bridge(b) => b.link_type(),
            Link::Netkit(n) => n.link_type(),
        }
    }

    /// Whether the link is a netkit device in L3 mode.
    pub fn is_l3(&self) -> (r: bool)
        ensures
            r == (self.spec_kind() matches LinkKind::Netkit { l3 } && l3),
    {
        match self {
            Link::Netkit(n) => n.is_l3(),
            _ => false,
        }
    }
}

/// The bridge settings after reading `ibs` from the last to the first:
/// multicast snooping, hello time and vlan filtering.
pub open spec fn spec_parse_bridge(ibs: Seq<InfoBridge>) -> (bool, u32, bool)
    decreases ibs.len(),
{
    if ibs.len() == 0 {
        (false, 0, false)
    } else {
        let (ms, ht, vf) = spec_parse_bridge(ibs.drop_first());
        match ibs[0] {
            InfoBridge::HelloTime(t) => (ms, t, vf),
            InfoBridge::MulticastSnooping(m) => (m, ht, vf),
            InfoBridge::VlanFiltering(v) => (ms, ht, v),
            InfoBridge::Other => (ms, ht, vf),
        }
    }
}

/// Reads the bridge data.
pub fn parse_bridge(ibs: Vec<InfoBridge>) -> (r: Bridge)
    ensures
        r.spec_attrs() is None,
        r.settings() == spec_parse_bridge(ibs@),
{
    let ghost orig = ibs@;
    let mut ibs = ibs;
    let mut bridge = Bridge {
        attrs: None,
        multicast_snooping: false,
        hello_time: 0,
        vlan_filtering: false,
    };
    assert(orig.skip(orig.len() as int) =~= Seq::<InfoBridge>::empty());
    while ibs.len() > 0
        invariant
            ibs@ == orig.take(ibs.len() as int),
            ibs.len() <= orig.len(),
            bridge.attrs is None,
            (bridge.multicast_snooping, bridge.hello_time, bridge.vlan_filtering)
                == spec_parse_bridge(orig.skip(ibs.len() as int)),
        decreases ibs.len(),
    {
        let ghost m = ibs.len() as int;
        let ib = ibs.pop().unwrap();
        proof {
            assert(orig.skip(m - 1).drop_first() =~= orig.skip(m));
            assert(orig.skip(m - 1)[0] == ib);
            assert(ibs@ =~= orig.take(m - 1));
        }
        match ib {
            InfoBridge::HelloTime(ht) => {
                bridge.hello_time = ht;
            },
            InfoBridge::MulticastSnooping(m) => {
                bridge.multicast_snooping = m;
            },
            InfoBridge::VlanFiltering(v) => {
                bridge.vlan_filtering = v;
            },
            InfoBridge::Other => {},
        }
    }
    assert(orig.skip(0) =~= orig);
    bridge
}

/// Whether the netkit data, read from the last to the first, leaves the
/// device in L3 mode: the first mode in the list decides.
pub open spec fn spec_parse_netkit(ins: Seq<InfoNetkit>) -> bool
    decreases ins.len(),
{
    if ins.len() == 0 {
        false
    } else {
        match ins[0] {
            InfoNetkit::Mode(mode) => mode == NetkitMode::L3,
            InfoNetkit::Other => spec_parse_netkit(ins.drop_first()),
        }
    }
}

/// Reads the netkit data.
pub fn parse_netkit(ins: Vec<InfoNetkit>) -> (r: Netkit)
    ensures
        r.spec_attrs() is None,
        r.spec_l3() == spec_parse_netkit(ins@),
{
    let ghost orig = ins@;
    let mut ins = ins;
    let mut netkit = Netkit { attrs: None, l3: false };
    assert(orig.skip(orig.len() as int) =~= Seq::<InfoNetkit>::empty());
    while ins.len() > 0
        invariant
            ins@ == orig.take(ins.len() as int),
            ins.len() <= orig.len(),
            netkit.attrs is None,
            netkit.l3 == spec_parse_netkit(orig.skip(ins.len() as int)),
        decreases ins.len(),
    {
        let ghost m = ins.len() as int;
        let item = ins.pop().unwrap();
        proof {
            assert(orig.skip(m - 1).drop_first() =~= orig.skip(m));
            assert(orig.skip(m - 1)[0] == item);
            assert(ins@ =~= orig.take(m - 1));
        }
        if let InfoNetkit::Mode(mode) = item {
            netkit.l3 = match mode {
                NetkitMode::L3 => true,
                _ => false,
            };
        }
    }
    assert(orig.skip(0) =~= orig);
    netkit
}

/// The kind that a kind name stands for.
pub open spec fn kind_of_info_kind(k: InfoKind) -> LinkKind {
    match k {
        InfoKind::Tun => LinkKind::Tuntap,
        InfoKind::Veth => LinkKind::Veth,
        InfoKind::IpVlan => LinkKind::IpVlan,
        InfoKind::MacVlan => LinkKind::MacVlan,
        InfoKind::Vlan => LinkKind::Vlan,
        InfoKind::Bridge => LinkKind::Bridge {
            multicast_snooping: false,
            hello_time: 0,
            vlan_filtering: false,
        },
        InfoKind::Netkit => LinkKind::Netkit { l3: false },
        InfoKind::Other => LinkKind::Device,
    }
}

/// The kind that kind-specific data stands for.
pub open spec fn kind_of_info_data(d: InfoData) -> LinkKind {
    match d {
        InfoData::Tun => LinkKind::Tuntap,
        InfoData::Veth => LinkKind::Veth,
        InfoData::IpVlan => LinkKind::IpVlan,
        InfoData::MacVlan => LinkKind::MacVlan,
        InfoData::Vlan => LinkKind::Vlan,
        InfoData::Bridge(ibs) => {
            let (ms, ht, vf) = spec_parse_bridge(ibs@);
            LinkKind::Bridge { multicast_snooping: ms, hello_time: ht, vlan_filtering: vf }
        },
        InfoData::Netkit(ins) => LinkKind::Netkit { l3: spec_parse_netkit(ins@) },
        InfoData::Other => LinkKind::Device,
    }
}

/// The kind after reading one element of the link information, `cur` being
/// the kind from the elements read before it: a kind name or port kind
/// only fills in a missing kind, while data and anything else decide.
pub open spec fn link_info_step(info: LinkInfo, cur: Option<LinkKind>) -> LinkKind {
    match info {
        LinkInfo::Kind(k) => match cur {
            Some(c) => c,
            None => kind_of_info_kind(k),
        },
        LinkInfo::Data(d) => kind_of_info_data(d),
        LinkInfo::PortKind => match cur {
            Some(c) => c,
            None => LinkKind::Device,
        },
        LinkInfo::PortData => LinkKind::Device,
        LinkInfo::Other => LinkKind::Device,
    }
}

/// The kind after reading `infos` from the last to the first; `None` only
/// for no element.
pub open spec fn spec_link_info(infos: Seq<LinkInfo>) -> Option<LinkKind>
    decreases infos.len(),
{
    if infos.len() == 0 {
        None
    } else {
        Some(link_info_step(infos[0], spec_link_info(infos.drop_first())))
    }
}

/// Reads the link information; it must have at least one element.
pub fn link_info(infos: Vec<LinkInfo>) -> (r: Link)
    requires
        infos@.len() > 0,
    ensures
        spec_link_info(infos@) == Some(r.spec_kind()),
        r.spec_attrs() is None,
{
    let ghost orig = infos@;
    let mut infos = infos;
    let mut link: Option<LinkKind> = None;
    assert(orig.skip(orig.len() as int) =~= Seq::<LinkInfo>::empty());
    while infos.len() > 0
        invariant
            infos@ == orig.take(infos.len() as int),
            infos.len() <= orig.len(),
            link == spec_link_info(orig.skip(infos.len() as int)),
        decreases infos.len(),
    {
        let ghost m = infos.len() as int;
        let info = infos.pop().unwrap();
        proof {
            assert(orig.skip(m - 1).drop_first() =~= orig.skip(m));
            assert(orig.skip(m - 1)[0] == info);
            assert(infos@ =~= orig.take(m - 1));
        }
        let next = match info {
            LinkInfo::Kind(kind) => match link {
                Some(c) => c,
                None => match kind {
                    InfoKind::Tun => LinkKind::Tuntap,
                    InfoKind::Veth => LinkKind::Veth,
                    InfoKind::IpVlan => LinkKind::IpVlan,
                    InfoKind::MacVlan => LinkKind::MacVlan,
                    InfoKind::Vlan => LinkKind::Vlan,
                    InfoKind::Bridge => LinkKind::Bridge {
                        multicast_snooping: false,
                        hello_time: 0,
                        vlan_filtering: false,
                    },
                    InfoKind::Netkit => LinkKind::Netkit { l3: false },
                    InfoKind::Other => LinkKind::Device,
                },
            },
            LinkInfo::Data(data) => match data {
                InfoData::Tun => LinkKind::Tuntap,
                InfoData::Veth => LinkKind::Veth,
                InfoData::IpVlan => LinkKind::IpVlan,
                InfoData::MacVlan => LinkKind::MacVlan,
                InfoData::Vlan => LinkKind::Vlan,
                InfoData::Bridge(ibs) => {
                    let b = parse_bridge(ibs);
                    LinkKind::Bridge {
                        multicast_snooping: b.multicast_snooping,
                        hello_time: b.hello_time,
                        vlan_filtering: b.vlan_filtering,
                    }
                },
                InfoData::Netkit(ins) => {
                    let n = parse_netkit(ins);
                    LinkKind::Netkit { l3: n.l3 }
                },
                InfoData::Other => LinkKind::Device,
            },
            LinkInfo::PortKind => match link {
                Some(c) => c,
                None => LinkKind::Device,
            },
            LinkInfo::PortData => LinkKind::Device,
            LinkInfo::Other => LinkKind::Device,
        };
        link = Some(next);
    }
    assert(orig.skip(0) =~= orig);
    Link::from_kind(link.unwrap())
}

/// The attributes after applying one message attribute.
pub open spec fn apply_link_attribute(b: LinkAttrsView, a: LinkAttribute) -> LinkAttrsView {
    match a {
        LinkAttribute::Address(v) => LinkAttrsView { hardware_addr: v@, ..b },
        LinkAttribute::IfName(v) => LinkAttrsView { name: v@, ..b },
        LinkAttribute::Mtu(v) => LinkAttrsView { mtu: v, ..b },
        LinkAttribute::Link(v) => LinkAttrsView { parent_index: v, ..b },
        LinkAttribute::Controller(v) => LinkAttrsView { master_index: v, ..b },
        LinkAttribute::TxQueueLen(v) => LinkAttrsView { txq_len: v, ..b },
        LinkAttribute::IfAlias(v) => LinkAttrsView { alias: v@, ..b },
        LinkAttribute::LinkNetNsId(v) => LinkAttrsView { net_ns_id: v, ..b },
        LinkAttribute::GsoMaxSize(v) => LinkAttrsView { gso_max_size: v, ..b },
        LinkAttribute::GsoMaxSegs(v) => LinkAttrsView { gso_max_seqs: v, ..b },
        LinkAttribute::NumTxQueues(v) => LinkAttrsView { num_tx_queues: v, ..b },
        LinkAttribute::NumRxQueues(v) => LinkAttrsView { num_rx_queues: v, ..b },
        LinkAttribute::Group(v) => LinkAttrsView { group: v, ..b },
        LinkAttribute::LinkInfo(_) => b,
        LinkAttribute::Other => b,
    }
}

/// The attributes after applying `attrs` from the last to the first.
pub open spec fn apply_link_attributes(b: LinkAttrsView, attrs: Seq<LinkAttribute>) -> LinkAttrsView
    decreases attrs.len(),
{
    if attrs.len() == 0 {
        b
    } else {
        apply_link_attribute(apply_link_attributes(b, attrs.drop_first()), attrs[0])
    }
}

/// The kind that the link information attributes give, read from the last
/// to the first; `None` when there is none.
pub open spec fn kind_of_attributes(attrs: Seq<LinkAttribute>) -> Option<LinkKind>
    decreases attrs.len(),
{
    if attrs.len() == 0 {
        None
    } else {
        match attrs[0] {
            LinkAttribute::LinkInfo(infos) => spec_link_info(infos@),
            _ => kind_of_attributes(attrs.drop_first()),
        }
    }
}

/// The attributes that the header alone gives: index, flags, link layer
/// type, and promiscuity from the `IFF_PROMISC` flag.
pub open spec fn header_attrs(h: LinkHeader) -> LinkAttrsView {
    LinkAttrsView {
        index: h.index,
        flags: h.flags,
        link_layer_type: h.link_layer_type,
        promisc: if h.flags & 0x100u32 != 0 {
            1
        } else {
            0
        },
        ..default_link_attrs()
    }
}

/// Whether every link information attribute has at least one element.
pub open spec fn link_infos_nonempty(attrs: Seq<LinkAttribute>) -> bool {
    forall|i: int|
        0 <= i < attrs.len() ==> match #[trigger] attrs[i] {
            LinkAttribute::LinkInfo(infos) => infos@.len() > 0,
            _ => true,
        }
}

/// The link that a message describes: its kind, a plain device when the
/// message has no link information, and its base attributes.
pub open spec fn spec_link_from_message(msg: LinkMessage) -> (LinkKind, LinkAttrsView) {
    (
        match kind_of_attributes(msg.attributes@) {
            Some(k) => k,
            None => LinkKind::Device,
        },
        apply_link_attributes(header_attrs(msg.header), msg.attributes@),
    )
}

/// Decodes a link message into a typed link with its attributes set.
pub fn get_link_from_message(msg: LinkMessage) -> (r: Link)
    requires
        link_infos_nonempty(msg.attributes@),
    ensures
        (r.spec_kind(), r.spec_attrs().unwrap()) == spec_link_from_message(msg),
        r.spec_attrs() is Some,
{
    let ghost orig = msg.attributes@;
    let flags = msg.header.flags;
    let mut base = LinkAttrs::default();
    base.index = msg.header.index;
    base.flags = flags;
    base.link_layer_type = msg.header.link_layer_type;
    let promisc_flag = iff_promisc();
    if flags & (promisc_flag as u32) != 0 {
        base.promisc = 1;
    }
    assert(base@ == header_attrs(msg.header));
    let mut attrs = msg.attributes;
    let mut link: Option<Link> = None;
    assert(orig.skip(orig.len() as int) =~= Seq::<LinkAttribute>::empty());
    while attrs.len() > 0
        invariant
            attrs@ == orig.take(attrs.len() as int),
            attrs.len() <= orig.len(),
            link_infos_nonempty(orig),
            base@ == apply_link_attributes(header_attrs(msg.header), orig.skip(attrs.len() as int)),
            match link {
                Some(l) => kind_of_attributes(orig.skip(attrs.len() as int)) == Some(l.spec_kind()),
                None => kind_of_attributes(orig.skip(attrs.len() as int)) is None,
            },
        decreases attrs.len(),
    {
        let ghost m = attrs.len() as int;
        let attr = attrs.pop().unwrap();
        proof {
            assert(orig.skip(m - 1).drop_first() =~= orig.skip(m));
            assert(orig.skip(m - 1)[0] == attr);
            assert(attrs@ =~= orig.take(m - 1));
            assert(orig[m - 1] == attr);
        }
        match attr {
            LinkAttribute::LinkInfo(infos) => {
                link = Some(link_info(infos));
            },
            LinkAttribute::Address(a) => {
                base.hardware_addr = a;
            },
            LinkAttribute::IfName(i) => {
                base.name = i;
            },
            LinkAttribute::Mtu(m) => {
                base.mtu = m;
            },
            LinkAttribute::Link(l) => {
                base.parent_index = l;
            },
            LinkAttribute::Controller(c) => {
                base.master_index = c;
            },
            LinkAttribute::TxQueueLen(t) => {
                base.txq_len = t;
            },
            LinkAttribute::IfAlias(a) => {
                base.alias = a;
            },
            LinkAttribute::LinkNetNsId(n) => {
                base.net_ns_id = n;
            },
            LinkAttribute::GsoMaxSize(i) => {
                base.gso_max_size = i;
            },
            LinkAttribute::GsoMaxSegs(e) => {
                base.gso_max_seqs = e;
            },
            LinkAttribute::NumTxQueues(t) => {
                base.num_tx_queues = t;
            },
            LinkAttribute::NumRxQueues(r) => {
                base.num_rx_queues = r;
            },
            LinkAttribute::Group(g) => {
                base.group = g;
            },
            LinkAttribute::Other => {},
        }
    }
    assert(orig.skip(0) =~= orig);
    let mut ret = match link {
        Some(l) => l,
        None => Link::from_kind(LinkKind::Device),
    };
    ret.set_attrs(base);
    ret
}

/// Attributes never change what the header gave: index, flags, link layer
/// type and promiscuity.
pub proof fn lemma_header_fields_survive(b: LinkAttrsView, attrs: Seq<LinkAttribute>)
    ensures
        ({
            let r = apply_link_attributes(b, attrs);
            &&& r.index == b.index
            &&& r.flags == b.flags
            &&& r.link_layer_type == b.link_layer_type
            &&& r.promisc == b.promisc
        }),
    decreases attrs.len(),
{
    if attrs.len() > 0 {
        lemma_header_fields_survive(b, attrs.drop_first());
    }
}

/// Whether `a` is an interface name attribute.
pub open spec fn is_if_name(a: LinkAttribute) -> bool {
    a matches LinkAttribute::IfName(_)
}

/// Of several interface names the first one in the message stands; with
/// none, the name stays.
pub proof fn lemma_first_name_wins(b: LinkAttrsView, attrs: Seq<LinkAttribute>, i: int)
    requires
        0 <= i <= attrs.len(),
        forall|j: int| 0 <= j < i ==> !is_if_name(#[trigger] attrs[j]),
        i < attrs.len() ==> is_if_name(attrs[i]),
    ensures
        apply_link_attributes(b, attrs).name == (if i < attrs.len() {
            match attrs[i] {
                LinkAttribute::IfName(x) => x@,
                _ => b.name,
            }
        } else {
            b.name
        }),
    decreases attrs.len(),
{
    if attrs.len() > 0 {
        if i == 0 {
        } else {
            assert forall|j: int| 0 <= j < i - 1 implies !is_if_name(
                #[trigger] attrs.drop_first()[j],
            ) by {
                assert(attrs.drop_first()[j] == attrs[j + 1]);
            }
            assert(!is_if_name(attrs[0]));
            lemma_first_name_wins(b, attrs.drop_first(), i - 1);
        }
    }
}

/// Whether `a` is a link information attribute.
pub open spec fn is_link_info(a: LinkAttribute) -> bool {
    a matches LinkAttribute::LinkInfo(_)
}

/// The first link information attribute of the message decides the kind;
/// without one the kind is missing (a plain device).
pub proof fn lemma_first_link_info_decides(attrs: Seq<LinkAttribute>, i: int)
    requires
        0 <= i <= attrs.len(),
        forall|j: int| 0 <= j < i ==> !is_link_info(#[trigger] attrs[j]),
        i < attrs.len() ==> is_link_info(attrs[i]),
    ensures
        kind_of_attributes(attrs) == (if i < attrs.len() {
            match attrs[i] {
                LinkAttribute::LinkInfo(infos) => spec_link_info(infos@),
                _ => None,
            }
        } else {
            None
        }),
    decreases attrs.len(),
{
    if attrs.len() > 0 && i > 0 {
        assert forall|j: int| 0 <= j < i - 1 implies !is_link_info(
            #[trigger] attrs.drop_first()[j],
        ) by {
            assert(attrs.drop_first()[j] == attrs[j + 1]);
        }
        assert(!is_link_info(attrs[0]));
        lemma_first_link_info_decides(attrs.drop_first(), i - 1);
    }
}

/// Whether an element of the link information decides the kind on its own
/// (anything but a kind name or a port kind).
pub open spec fn decides_kind(info: LinkInfo) -> bool {
    !(info is Kind) && !(info is PortKind)
}

/// Whether kind data `d` is the data of kind name `k`.
pub open spec fn data_of_kind(d: InfoData, k: InfoKind) -> bool {
    ||| (d is Tun && k is Tun)
    ||| (d is Veth && k is Veth)
    ||| (d is IpVlan && k is IpVlan)
    ||| (d is MacVlan && k is MacVlan)
    ||| (d is Vlan && k is Vlan)
}

/// The type name that a link of kind name `k` goes by.
pub open spec fn kind_name_type(k: InfoKind) -> Seq<char> {
    match k {
        InfoKind::Tun => "tuntap"@,
        InfoKind::Veth => "veth"@,
        InfoKind::IpVlan => "ipvlan"@,
        InfoKind::MacVlan => "macvlan"@,
        InfoKind::Vlan => "vlan"@,
        InfoKind::Bridge => "bridge"@,
        InfoKind::Netkit => "netkit"@,
        InfoKind::Other => "device"@,
    }
}

/// Kind data gives the link of its own kind: where the first element that
/// decides the kind is the data of kind `k`, the link is the one that the
/// kind name `k` alone gives, and its type name is that of `k`.
pub proof fn lemma_data_gives_own_kind(infos: Seq<LinkInfo>, i: int, d: InfoData, k: InfoKind)
    requires
        0 <= i < infos.len(),
        infos[i] == LinkInfo::Data(d),
        data_of_kind(d, k),
        forall|j: int| 0 <= j < i ==> !decides_kind(#[trigger] infos[j]),
    ensures
        spec_link_info(infos) == spec_link_info(seq![LinkInfo::Kind(k)]),
        spec_link_info(infos) is Some,
        spec_type_name(spec_link_info(infos).unwrap()) == kind_name_type(k),
    decreases i,
{
    let single = seq![LinkInfo::Kind(k)];
    assert(single.drop_first() =~= Seq::<LinkInfo>::empty());
    assert(spec_link_info(single.drop_first()) is None);
    assert(single[0] == LinkInfo::Kind(k));
    assert(spec_link_info(single) == Some(kind_of_info_kind(k)));
    if i == 0 {
        assert(spec_link_info(infos) == Some(kind_of_info_data(d)));
    }
    if i > 0 {
        assert forall|j: int| 0 <= j < i - 1 implies !decides_kind(
            #[trigger] infos.drop_first()[j],
        ) by {
            assert(infos.drop_first()[j] == infos[j + 1]);
        }
        assert(infos.drop_first()[i - 1] == infos[i]);
        lemma_data_gives_own_kind(infos.drop_first(), i - 1, d, k);
        assert(!decides_kind(infos[0]));
        let c = spec_link_info(infos.drop_first()).unwrap();
        assert(link_info_step(infos[0], Some(c)) == c);
    }
}

/// Whether a netkit attribute is a mode.
pub open spec fn is_netkit_mode(n: InfoNetkit) -> bool {
    n is Mode
}

/// The first mode of the netkit data decides: the device is in L3 mode
/// exactly when that mode is L3.
pub proof fn lemma_netkit_first_mode_decides(ins: Seq<InfoNetkit>, i: int, m: NetkitMode)
    requires
        0 <= i < ins.len(),
        ins[i] == InfoNetkit::Mode(m),
        forall|j: int| 0 <= j < i ==> !is_netkit_mode(#[trigger] ins[j]),
    ensures
        spec_parse_netkit(ins) == (m == NetkitMode::L3),
    decreases i,
{
    if i > 0 {
        assert forall|j: int| 0 <= j < i - 1 implies !is_netkit_mode(
            #[trigger] ins.drop_first()[j],
        ) by {
            assert(ins.drop_first()[j] == ins[j + 1]);
        }
        assert(ins.drop_first()[i - 1] == ins[i]);
        assert(!is_netkit_mode(ins[0]));
        lemma_netkit_first_mode_decides(ins.drop_first(), i - 1, m);
    }
}

/// Without a mode the device is in L2 mode.
pub proof fn lemma_netkit_no_mode(ins: Seq<InfoNetkit>)
    requires
        forall|j: int| 0 <= j < ins.len() ==> !is_netkit_mode(#[trigger] ins[j]),
    ensures
        !spec_parse_netkit(ins),
    decreases ins.len(),
{
    if ins.len() > 0 {
        assert forall|j: int| 0 <= j < ins.len() - 1 implies !is_netkit_mode(
            #[trigger] ins.drop_first()[j],
        ) by {
            assert(ins.drop_first()[j] == ins[j + 1]);
        }
        assert(!is_netkit_mode(ins[0]));
        lemma_netkit_no_mode(ins.drop_first());
    }
}

/// Attributes other than the mode do not change the mode: inserting one
/// anywhere leaves it as it was.
pub proof fn lemma_netkit_other_ignored(ins: Seq<InfoNetkit>, i: int)
    requires
        0 <= i <= ins.len(),
    ensures
        spec_parse_netkit(ins.insert(i, InfoNetkit::Other)) == spec_parse_netkit(ins),
    decreases i,
{
    let t = ins.insert(i, InfoNetkit::Other);
    if i == 0 {
        assert(t.drop_first() =~= ins);
    } else {
        assert(t.drop_first() =~= ins.drop_first().insert(i - 1, InfoNetkit::Other));
        assert(t[0] == ins[0]);
        lemma_netkit_other_ignored(ins.drop_first(), i - 1);
    }
}

/// Whether a bridge attribute is a multicast snooping setting.
pub open spec fn is_snooping(b: InfoBridge) -> bool {
    b is MulticastSnooping
}

/// Whether a bridge attribute is a hello time.
pub open spec fn is_hello_time(b: InfoBridge) -> bool {
    b is HelloTime
}

/// Whether a bridge attribute is a vlan filtering setting.
pub open spec fn is_vlan_filtering(b: InfoBridge) -> bool {
    b is VlanFiltering
}

/// Multicast snooping is the value of the first snooping attribute, or off
/// when there is none, whatever other attributes the data holds.
pub proof fn lemma_bridge_snooping_from_own_attribute(ibs: Seq<InfoBridge>, i: int)
    requires
        0 <= i <= ibs.len(),
        forall|j: int| 0 <= j < i ==> !is_snooping(#[trigger] ibs[j]),
        i < ibs.len() ==> is_snooping(ibs[i]),
    ensures
        spec_parse_bridge(ibs).0 == (if i < ibs.len() {
            match ibs[i] {
                InfoBridge::MulticastSnooping(m) => m,
                _ => false,
            }
        } else {
            false
        }),
    decreases ibs.len(),
{
    if ibs.len() > 0 && i > 0 {
        assert forall|j: int| 0 <= j < i - 1 implies !is_snooping(#[trigger] ibs.drop_first()[j]) by {
            assert(ibs.drop_first()[j] == ibs[j + 1]);
        }
        assert(!is_snooping(ibs[0]));
        lemma_bridge_snooping_from_own_attribute(ibs.drop_first(), i - 1);
    }
}

/// The hello time is the value of the first hello time attribute, or 0 when
/// there is none, whatever other attributes the data holds.
pub proof fn lemma_bridge_hello_time_from_own_attribute(ibs: Seq<InfoBridge>, i: int)
    requires
        0 <= i <= ibs.len(),
        forall|j: int| 0 <= j < i ==> !is_hello_time(#[trigger] ibs[j]),
        i < ibs.len() ==> is_hello_time(ibs[i]),
    ensures
        spec_parse_bridge(ibs).1 == (if i < ibs.len() {
            match ibs[i] {
                InfoBridge::HelloTime(t) => t,
                _ => 0,
            }
        } else {
            0
        }),
    decreases ibs.len(),
{
    if ibs.len() > 0 && i > 0 {
        assert forall|j: int| 0 <= j < i - 1 implies !is_hello_time(
            #[trigger] ibs.drop_first()[j],
        ) by {
            assert(ibs.drop_first()[j] == ibs[j + 1]);
        }
        assert(!is_hello_time(ibs[0]));
        lemma_bridge_hello_time_from_own_attribute(ibs.drop_first(), i - 1);
    }
}

/// Vlan filtering is the value of the first vlan filtering attribute, or
/// off when there is none, whatever other attributes the data holds.
pub proof fn lemma_bridge_vlan_filtering_from_own_attribute(ibs: Seq<InfoBridge>, i: int)
    requires
        0 <= i <= ibs.len(),
        forall|j: int| 0 <= j < i ==> !is_vlan_filtering(#[trigger] ibs[j]),
        i < ibs.len() ==> is_vlan_filtering(ibs[i]),
    ensures
        spec_parse_bridge(ibs).2 == (if i < ibs.len() {
            match ibs[i] {
                InfoBridge::VlanFiltering(v) => v,
                _ => false,
            }
        } else {
            false
        }),
    decreases ibs.len(),
{
    if ibs.len() > 0 && i > 0 {
        assert forall|j: int| 0 <= j < i - 1 implies !is_vlan_filtering(
            #[trigger] ibs.drop_first()[j],
        ) by {
            assert(ibs.drop_first()[j] == ibs[j + 1]);
        }
        assert(!is_vlan_filtering(ibs[0]));
        lemma_bridge_vlan_filtering_from_own_attribute(ibs.drop_first(), i - 1);
    }
}

/// Whether `a` is a hardware address attribute.
pub open spec fn is_address(a: LinkAttribute) -> bool {
    a matches LinkAttribute::Address(_)
}

/// Of several hardware addresses the first one in the message stands,
/// whatever link information the message holds; with none, the address
/// stays.
pub proof fn lemma_first_address_wins(b: LinkAttrsView, attrs: Seq<LinkAttribute>, i: int)
    requires
        0 <= i <= attrs.len(),
        forall|j: int| 0 <= j < i ==> !is_address(#[trigger] attrs[j]),
        i < attrs.len() ==> is_address(attrs[i]),
    ensures
        apply_link_attributes(b, attrs).hardware_addr == (if i < attrs.len() {
            match attrs[i] {
                LinkAttribute::Address(x) => x@,
                _ => b.hardware_addr,
            }
        } else {
            b.hardware_addr
        }),
    decreases attrs.len(),
{
    if attrs.len() > 0 && i > 0 {
        assert forall|j: int| 0 <= j < i - 1 implies !is_address(
            #[trigger] attrs.drop_first()[j],
        ) by {
            assert(attrs.drop_first()[j] == attrs[j + 1]);
        }
        assert(!is_address(attrs[0]));
        lemma_first_address_wins(b, attrs.drop_first(), i - 1);
    }
}

/// The base attributes do not depend on the link information: removing a
/// link information attribute leaves them as they were.
pub proof fn lemma_link_info_leaves_base(b: LinkAttrsView, attrs: Seq<LinkAttribute>, i: int)
    requires
        0 <= i < attrs.len(),
        is_link_info(attrs[i]),
    ensures
        apply_link_attributes(b, attrs) == apply_link_attributes(b, attrs.remove(i)),
    decreases i,
{
    if i == 0 {
        assert(attrs.drop_first() =~= attrs.remove(0));
    } else {
        assert(attrs.remove(i).drop_first() =~= attrs.drop_first().remove(i - 1));
        assert(attrs.remove(i)[0] == attrs[0]);
        lemma_link_info_leaves_base(b, attrs.drop_first(), i - 1);
    }
}

/// The hardware address of the link a message describes is the payload of
/// the message's first address attribute, or empty when there is none.
pub proof fn lemma_message_hardware_address(msg: LinkMessage, i: int)
    requires
        0 <= i <= msg.attributes@.len(),
        forall|j: int| 0 <= j < i ==> !is_address(#[trigger] msg.attributes@[j]),
        i < msg.attributes@.len() ==> is_address(msg.attributes@[i]),
    ensures
        spec_link_from_message(msg).1.hardware_addr == (if i < msg.attributes@.len() {
            match msg.attributes@[i] {
                LinkAttribute::Address(x) => x@,
                _ => Seq::<u8>::empty(),
            }
        } else {
            Seq::<u8>::empty()
        }),
{
    lemma_first_address_wins(header_attrs(msg.header), msg.attributes@, i);
}

} // verus!
