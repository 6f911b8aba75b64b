# kata_linux

Verified helpers of a container runtime's guest agent and host network
plumbing, written in Verus.

- `src/text.rs`: splitting on a separator and reading hexadecimal bytes.
- `src/pci.rs`: PCI slot/functions (`SS.F`) and paths of them.
- `src/linux_abi.rs`: sysfs paths of PCI root buses and the reading of
  device-tree paths (`20/00/02`, `02/00/01`, `00/02`).
- `src/mac.rs`: textual hardware addresses.
- `src/link.rs`: decoding of link messages into typed links.
- `src/tc_filter.rs`: the tc redirect filters that join the devices of a
  network pair, the qdisc retry policy, and the laws of both.
- `src/tc_wire.rs`: the kernel layout of the packet-edit parameters.
- `app/`: sysfs and netlink I/O around the library.
