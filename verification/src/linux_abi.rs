//! Linux ABI paths and the reading of PCI device-tree paths.

use vstd::prelude::*;
use vstd::string::*;
use crate::pci::{
    lemma_parse_slot_fns_len, parse_path_chars, path_result_view, spec_parse_path,
    spec_parse_slot_fns, Path, PciError,
};
use crate::text::{
    find_char, first_index_of, hex_u8, lemma_first_index_of, lemma_split_at_first,
    lemma_split_first_piece, lemma_split_no_sep, lemma_split_nonempty, parse_hex_u8, split_on,
    str_chars,
};

verus! {

pub const SYSFS_DIR: &'static str = "/sys";

/// Root of the ACPI device objects in sysfs.
pub const ACPI_DEV_PATH: &'static str = "/devices/LNXSYSTM";

pub const SYSFS_CPU_PATH: &'static str = "/sys/devices/system/cpu";

pub const SYSFS_CPU_ONLINE_PATH: &'static str = "/sys/devices/system/cpu/online";

pub const SYSFS_MEMORY_BLOCK_SIZE_PATH: &'static str = "/sys/devices/system/memory/block_size_bytes";

pub const SYSFS_MEMORY_HOTPLUG_PROBE_PATH: &'static str = "/sys/devices/system/memory/probe";

pub const SYSFS_MEMORY_ONLINE_PATH: &'static str = "/sys/devices/system/memory";

pub const SYSFS_SCSI_HOST_PATH: &'static str = "/sys/class/scsi_host";

pub const SYSFS_NET_PATH: &'static str = "/sys/class/net";

pub const SYSFS_BUS_PCI_PATH: &'static str = "/sys/bus/pci";

pub const SYSFS_CGROUPPATH: &'static str = "/sys/fs/cgroup";

pub const SYSFS_ONLINE_FILE: &'static str = "online";

pub const PROC_MOUNTSTATS: &'static str = "/proc/self/mountstats";

pub const PROC_CGROUPS: &'static str = "/proc/cgroups";

pub const SYSTEM_DEV_PATH: &'static str = "/dev";

// Linux UEvent keys and values.
pub const U_EVENT_ACTION: &'static str = "ACTION";

pub const U_EVENT_ACTION_ADD: &'static str = "add";

pub const U_EVENT_ACTION_REMOVE: &'static str = "remove";

pub const U_EVENT_DEV_PATH: &'static str = "DEVPATH";

pub const U_EVENT_SUB_SYSTEM: &'static str = "SUBSYSTEM";

pub const U_EVENT_SEQ_NUM: &'static str = "SEQNUM";

pub const U_EVENT_DEV_NAME: &'static str = "DEVNAME";

pub const U_EVENT_INTERFACE: &'static str = "INTERFACE";

/// Minimum guest PCI bus number used by pxb-pcie NUMA expander bridges.
pub const PXB_PCIE_ROOT_BUS_MIN: u8 = 0x20;

/// The sysfs path of the PCI root bus of `root_complex`.
///
/// With NUMA, the root complex is the one defined by the pxb-pcie driver.
pub fn create_pci_root_bus_path(root_complex: &str) -> (r: String)
    ensures
        r@ == "/devices/pci0000:"@ + root_complex@,
{
    let mut r = String::from_str("/devices/pci0000:");
    r.append(root_complex);
    r
}

/// Whether `segment` names a pxb-pcie NUMA expander bridge: a hexadecimal
/// bus number of at least `PXB_PCIE_ROOT_BUS_MIN`.
pub open spec fn spec_is_pxb_pcie_root_complex(segment: Seq<char>) -> bool {
    match hex_u8(segment) {
        Some(bus) => bus >= PXB_PCIE_ROOT_BUS_MIN,
        None => false,
    }
}

fn is_pxb_pcie_root_complex_chars(chars: &Vec<char>, start: usize, end: usize) -> (r: bool)
    requires
        start <= end <= chars.len(),
    ensures
        r == spec_is_pxb_pcie_root_complex(chars@.subrange(start as int, end as int)),
{
    match parse_hex_u8(chars, start, end) {
        Some(bus) => bus >= PXB_PCIE_ROOT_BUS_MIN,
        None => false,
    }
}

/// Whether `segment` names a pxb-pcie NUMA expander bridge.
pub fn is_pxb_pcie_root_complex(segment: &str) -> (r: bool)
    ensures
        r == spec_is_pxb_pcie_root_complex(segment@),
{
    let chars = str_chars(segment);
    assert(chars@.subrange(0, chars@.len() as int) =~= segment@);
    is_pxb_pcie_root_complex_chars(&chars, 0, chars.len())
}

/// Why a device-tree path could not be read; each carries the PCI error.
#[derive(Debug, Clone, Copy, PartialEq, Eq, Structural)]
pub enum DevTreePathError {
    /// The part after a NUMA root complex is not a PCI path.
    NumaPath(PciError),
    /// The path (on root complex `00`) is not a PCI path.
    Path(PciError),
}

/// What `pcipath_from_dev_tree_path` gives for `s`: the root complex and the
/// PCI path under it.
///
/// A path of at least three `/`-separated segments whose first segment is a
/// pxb-pcie bus number (`20/00/02`) is that root complex and the path after
/// it. Any other path (`02/00/01`, `00/02`) is a path on root complex `00`.
pub open spec fn spec_pcipath_from_dev_tree_path(s: Seq<char>) -> Result<
    (Seq<char>, Seq<(u8, u8)>),
    DevTreePathError,
> {
    let segs = split_on(s, '/');
    if segs.len() >= 3 && spec_is_pxb_pcie_root_complex(segs[0]) {
        match spec_parse_path(s.skip(segs[0].len() + 1int)) {
            Ok(p) => Ok((segs[0], p)),
            Err(e) => Err(DevTreePathError::NumaPath(e)),
        }
    } else {
        match spec_parse_path(s) {
            Ok(p) => Ok(("00"@, p)),
            Err(e) => Err(DevTreePathError::Path(e)),
        }
    }
}

/// The plain value of a device-tree path result.
pub open spec fn dev_tree_result_view(r: Result<(&str, Path), DevTreePathError>) -> Result<
    (Seq<char>, Seq<(u8, u8)>),
    DevTreePathError,
> {
    match r {
        Ok((root, p)) => Ok((root@, p@)),
        Err(e) => Err(e),
    }
}

/// Parses a device tree path into a (root complex, PCI path) pair.
///
/// Supports three formats:
///   - NUMA pxb-pcie path: `root_complex/bus/device` (e.g. `20/00/02`), where
///     the first segment is a pxb-pcie guest bus number (>= 0x20) and the
///     rest form the PCI path under that root complex.
///   - Nested hot-plug path on pci0000:00: `parent/bridge/device` (e.g.
///     `02/00/01`); stays on root complex `00`.
///   - Legacy path: `bus/device` (e.g. `00/02`), on root complex `00`.
pub fn pcipath_from_dev_tree_path(dev_tree_path: &str) -> (r: Result<
    (&str, Path),
    DevTreePathError,
>)
    ensures
        dev_tree_result_view(r) == spec_pcipath_from_dev_tree_path(dev_tree_path@),
{
    let chars = str_chars(dev_tree_path);
    let n = chars.len();
    let ghost s = dev_tree_path@;
    let ghost segs = split_on(s, '/');
    let p1 = find_char(&chars, 0, n, '/');
    let mut numa = false;
    if p1 < n {
        let p2 = find_char(&chars, p1 + 1, n, '/');
        let ghost rest = s.skip(p1 + 1);
        proof {
            assert(s.take(p1 as int) =~= chars@.subrange(0, p1 as int));
            lemma_split_at_first(s, p1 as int, '/');
        }
        if p2 < n {
            proof {
                let j = p2 - (p1 + 1);
                assert(rest.take(j) =~= chars@.subrange(p1 + 1, p2 as int));
                lemma_split_at_first(rest, j, '/');
                lemma_split_nonempty(rest.skip(j + 1), '/');
                assert(segs[0] =~= chars@.subrange(0, p1 as int));
            }
            numa = is_pxb_pcie_root_complex_chars(&chars, 0, p1);
        } else {
            proof {
                assert(rest =~= chars@.subrange(p1 + 1, p2 as int));
                lemma_split_no_sep(rest, '/');
            }
        }
    } else {
        proof {
            assert(s =~= chars@.subrange(0, p1 as int));
            lemma_split_no_sep(s, '/');
        }
    }
    assert(numa == (segs.len() >= 3 && spec_is_pxb_pcie_root_complex(segs[0])));
    if numa {
        let root_complex = dev_tree_path.substring_char(0, p1);
        assert(chars@.skip(p1 + 1) =~= s.skip(segs[0].len() + 1int));
        match parse_path_chars(&chars, p1 + 1) {
            Ok(p) => Ok((root_complex, p)),
            Err(e) => Err(DevTreePathError::NumaPath(e)),
        }
    } else {
        assert(chars@.skip(0) =~= s);
        match parse_path_chars(&chars, 0) {
            Ok(p) => Ok(("00", p)),
            Err(e) => Err(DevTreePathError::Path(e)),
        }
    }
}

/// A device-tree path is either a path on root complex `00` made of all
/// its segments, or a pxb-pcie root complex (its first segment) with a path
/// of at least two elements made of the segments after it.
pub proof fn lemma_dev_tree_path_shape(s: Seq<char>)
    ensures
        spec_pcipath_from_dev_tree_path(s) matches Ok((root, p)) ==> {
            let segs = split_on(s, '/');
            ||| (root == "00"@ && spec_parse_slot_fns(segs) == Ok::<Seq<(u8, u8)>, PciError>(p))
            ||| (spec_is_pxb_pcie_root_complex(root) && root == segs[0] && spec_parse_slot_fns(
                segs.drop_first(),
            ) == Ok::<Seq<(u8, u8)>, PciError>(p) && p.len() >= 2)
        },
{
    let segs = split_on(s, '/');
    lemma_split_first_piece(s, '/');
    lemma_first_index_of(s, '/');
    let i = first_index_of(s, '/');
    if segs.len() >= 3 && spec_is_pxb_pcie_root_complex(segs[0]) {
        assert(segs[0].len() == i);
        let rest = s.skip(i + 1);
        lemma_parse_slot_fns_len(split_on(rest, '/'));
    }
}

/// Every path of three or more segments whose first segment is a pxb-pcie
/// bus number is read on that root complex: the root complex is the first
/// segment, the PCI path has one element per later segment, read from those
/// segments, and an error is one of that later path.
pub proof fn lemma_numa_root_taken(s: Seq<char>)
    requires
        split_on(s, '/').len() >= 3,
        spec_is_pxb_pcie_root_complex(split_on(s, '/')[0]),
    ensures
        spec_pcipath_from_dev_tree_path(s) matches Ok((root, p)) ==> {
            &&& root == split_on(s, '/')[0]
            &&& p.len() == split_on(s, '/').len() - 1
            &&& spec_parse_slot_fns(split_on(s, '/').drop_first()) == Ok::<
                Seq<(u8, u8)>,
                PciError,
            >(p)
        },
        spec_pcipath_from_dev_tree_path(s) matches Err(e) ==> e is NumaPath,
{
    let segs = split_on(s, '/');
    lemma_split_first_piece(s, '/');
    lemma_first_index_of(s, '/');
    let i = first_index_of(s, '/');
    assert(segs[0].len() == i);
    let rest = s.skip(i + 1);
    lemma_parse_slot_fns_len(split_on(rest, '/'));
}

/// Every other path is read on root complex `00`, from all its segments,
/// one element per segment; an error is one of that path.
pub proof fn lemma_legacy_root_00(s: Seq<char>)
    requires
        !(split_on(s, '/').len() >= 3 && spec_is_pxb_pcie_root_complex(split_on(s, '/')[0])),
    ensures
        spec_pcipath_from_dev_tree_path(s) matches Ok((root, p)) ==> {
            &&& root == "00"@
            &&& p.len() == split_on(s, '/').len()
            &&& spec_parse_slot_fns(split_on(s, '/')) == Ok::<Seq<(u8, u8)>, PciError>(p)
        },
        spec_pcipath_from_dev_tree_path(s) matches Err(e) ==> e is Path,
{
    lemma_parse_slot_fns_len(split_on(s, '/'));
}

/// One entry of the platform device directory: its name, when the name is
/// valid UTF-8, and whether it holds the `pci0000:<root complex>` directory.
#[derive(Debug, Clone, PartialEq, Eq)]
pub struct PlatformDirEntry {
    pub name: Option<String>,
    pub has_root_bus: bool,
}

/// The first entry that holds the root bus.
pub open spec fn first_root_bus_entry(entries: Seq<PlatformDirEntry>) -> Option<PlatformDirEntry>
    decreases entries.len(),
{
    if entries.len() == 0 {
        None
    } else if entries[0].has_root_bus {
        Some(entries[0])
    } else {
        first_root_bus_entry(entries.drop_first())
    }
}

/// What `find_platform_root_bus` gives: the path of the root bus under the
/// first platform device that holds it, if that device's name is readable.
pub open spec fn spec_find_platform_root_bus(
    entries: Seq<PlatformDirEntry>,
    root_complex: Seq<char>,
) -> Option<Seq<char>> {
    match first_root_bus_entry(entries) {
        Some(e) => match e.name {
            Some(name) => Some("/devices/platform/"@ + name@ + "/pci0000:"@ + root_complex),
            None => None,
        },
        None => None,
    }
}

/// Finds the platform device that hosts the PCI root complex, among the
/// entries of the platform device directory in the order they were listed.
/// The node name varies by VMM (`pcie@...` on QEMU virt, `pci@...` on Cloud
/// Hypervisor), so the match is on the `pci0000:<root complex>` child.
pub fn find_platform_root_bus(entries: &Vec<PlatformDirEntry>, root_complex: &str) -> (r: Option<
    String,
>)
    ensures
        r matches Some(p) ==> spec_find_platform_root_bus(entries@, root_complex@) == Some(p@),
        r is None ==> spec_find_platform_root_bus(entries@, root_complex@) is None,
{
    let mut i: usize = 0;
    assert(entries@.skip(0) =~= entries@);
    while i < entries.len()
        invariant
            i <= entries.len(),
            first_root_bus_entry(entries@) == first_root_bus_entry(entries@.skip(i as int)),
        decreases entries.len() - i,
    {
        assert(entries@.skip(i as int).drop_first() =~= entries@.skip(i + 1));
        assert(entries@.skip(i as int)[0] == entries@[i as int]);
        if entries[i].has_root_bus {
            return match &entries[i].name {
                Some(name) => {
                    let mut p = String::from_str("/devices/platform/");
                    p.append(name.as_str());
                    p.append("/pci0000:");
                    p.append(root_complex);
                    Some(p)
                },
                None => None,
            };
        }
        i = i + 1;
    }
    assert(entries@.skip(i as int) =~= Seq::<PlatformDirEntry>::empty());
    None
}

/// What `resolve_pci_root_bus_path` gives.
pub open spec fn spec_resolve_pci_root_bus_path(
    root_complex: Seq<char>,
    acpi_bus_present: bool,
    entries: Seq<PlatformDirEntry>,
) -> Seq<char> {
    if acpi_bus_present {
        "/devices/pci0000:"@ + root_complex
    } else {
        match spec_find_platform_root_bus(entries, root_complex) {
            Some(p) => p,
            None => "/devices/platform/4010000000.pcie/pci0000:"@ + root_complex,
        }
    }
}

/// The sysfs path of the PCI root bus of `root_complex` on a platform
/// whose buses may hang off a platform device: the ACPI path when sysfs has
/// it, else the platform device that hosts the root bus, else the QEMU virt
/// default.
pub fn resolve_pci_root_bus_path(
    root_complex: &str,
    acpi_bus_present: bool,
    entries: &Vec<PlatformDirEntry>,
) -> (r: String)
    ensures
        r@ == spec_resolve_pci_root_bus_path(root_complex@, acpi_bus_present, entries@),
{
    if acpi_bus_present {
        return create_pci_root_bus_path(root_complex);
    }
    match find_platform_root_bus(entries, root_complex) {
        Some(p) => p,
        None => {
            let mut p = String::from_str("/devices/platform/4010000000.pcie/pci0000:");
            p.append(root_complex);
            p
        },
    }
}

} // verus!
