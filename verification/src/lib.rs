//! Guest-side Linux ABI helpers and host-side network plumbing of a
//! container runtime: parsing of PCI device-tree paths, decoding of link
//! messages into typed links, and the traffic-control redirect filters that
//! join a tap device to its peer.

pub mod text;
pub mod pci;
pub mod linux_abi;
pub mod link;
pub mod mac;
pub mod tc_filter;
pub mod tc_wire;
