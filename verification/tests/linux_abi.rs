use kata_linux::linux_abi::{
    create_pci_root_bus_path, find_platform_root_bus, is_pxb_pcie_root_complex,
    pcipath_from_dev_tree_path, resolve_pci_root_bus_path, DevTreePathError, PlatformDirEntry,
};
use kata_linux::pci::PciError;

#[test]
fn test_pcipath_from_dev_tree_path_legacy() {
    let (root, path) = pcipath_from_dev_tree_path("02/01").unwrap();
    assert_eq!(root, "00");
    assert_eq!(path.len(), 2);
    assert_eq!(path.at(0).slot(), 0x02);
    assert_eq!(path.at(1).slot(), 0x01);
}

#[test]
fn test_pcipath_from_dev_tree_path_nested_ovmf() {
    let (root, path) = pcipath_from_dev_tree_path("02/00/01").unwrap();
    assert_eq!(root, "00");
    assert_eq!(path.len(), 3);
    assert_eq!(path.at(0).slot(), 0x02);
    assert_eq!(path.at(1).slot(), 0x00);
    assert_eq!(path.at(2).slot(), 0x01);
}

#[test]
fn test_pcipath_from_dev_tree_path_numa_pxb() {
    let (root, path) = pcipath_from_dev_tree_path("20/00/02").unwrap();
    assert_eq!(root, "20");
    assert_eq!(path.len(), 2);
    assert_eq!(path.at(0).slot(), 0x00);
    assert_eq!(path.at(1).slot(), 0x02);
}

fn platform_dir(entries: &[(&str, bool)]) -> Vec<PlatformDirEntry> {
    entries
        .iter()
        .map(|(name, with_root_bus)| PlatformDirEntry {
            name: Some(name.to_string()),
            has_root_bus: *with_root_bus,
        })
        .collect()
}

#[test]
fn test_find_platform_root_bus_cloud_hypervisor() {
    let dir = platform_dir(&[("30000000.pci", true)]);
    assert_eq!(
        find_platform_root_bus(&dir, "00"),
        Some("/devices/platform/30000000.pci/pci0000:00".to_string())
    );
}

#[test]
fn test_find_platform_root_bus_qemu_virt() {
    let dir = platform_dir(&[("4010000000.pcie", true)]);
    assert_eq!(
        find_platform_root_bus(&dir, "00"),
        Some("/devices/platform/4010000000.pcie/pci0000:00".to_string())
    );
}

#[test]
fn test_find_platform_root_bus_skips_entries_without_root_bus() {
    let dir = platform_dir(&[("serial8250", false), ("30000000.pci", false)]);
    assert_eq!(find_platform_root_bus(&dir, "00"), None);
}

#[test]
fn test_find_platform_root_bus_empty_or_missing_dir() {
    let dir = platform_dir(&[]);
    assert_eq!(find_platform_root_bus(&dir, "00"), None);
    // A directory that cannot be read lists no entry.
    assert_eq!(find_platform_root_bus(&Vec::new(), "00"), None);
}

#[test]
fn find_platform_root_bus_takes_first_match() {
    let dir = platform_dir(&[("serial8250", false), ("a.pci", true), ("b.pcie", true)]);
    assert_eq!(
        find_platform_root_bus(&dir, "01"),
        Some("/devices/platform/a.pci/pci0000:01".to_string())
    );
}

#[test]
fn find_platform_root_bus_unreadable_name_gives_none() {
    let dir = vec![
        PlatformDirEntry { name: None, has_root_bus: true },
        PlatformDirEntry { name: Some("b.pcie".to_string()), has_root_bus: true },
    ];
    assert_eq!(find_platform_root_bus(&dir, "00"), None);
}

#[test]
fn root_bus_path_x86() {
    assert_eq!(create_pci_root_bus_path("00"), "/devices/pci0000:00");
    assert_eq!(create_pci_root_bus_path("20"), "/devices/pci0000:20");
}

#[test]
fn resolve_root_bus_path_prefers_acpi_then_platform_then_default() {
    let dir = platform_dir(&[("30000000.pci", true)]);
    assert_eq!(resolve_pci_root_bus_path("00", true, &dir), "/devices/pci0000:00");
    assert_eq!(
        resolve_pci_root_bus_path("00", false, &dir),
        "/devices/platform/30000000.pci/pci0000:00"
    );
    assert_eq!(
        resolve_pci_root_bus_path("00", false, &Vec::new()),
        "/devices/platform/4010000000.pcie/pci0000:00"
    );
}

#[test]
fn pxb_root_complex_threshold() {
    assert!(is_pxb_pcie_root_complex("20"));
    assert!(is_pxb_pcie_root_complex("ff"));
    assert!(is_pxb_pcie_root_complex("+2A"));
    assert!(!is_pxb_pcie_root_complex("1f"));
    assert!(!is_pxb_pcie_root_complex("100"));
    assert!(!is_pxb_pcie_root_complex("zz"));
    assert!(!is_pxb_pcie_root_complex(""));
    assert!(!is_pxb_pcie_root_complex("-20"));
}

#[test]
fn numa_path_with_function_numbers() {
    let (root, path) = pcipath_from_dev_tree_path("21/01.2/03").unwrap();
    assert_eq!(root, "21");
    assert_eq!(path.len(), 2);
    assert_eq!(path.at(0).slot(), 0x01);
    assert_eq!(path.at(0).function(), 2);
    assert_eq!(path.at(1).slot(), 0x03);
    assert_eq!(path.at(1).function(), 0);
}

#[test]
fn two_segment_path_with_high_bus_stays_on_root_00() {
    // Only paths of three or more segments name a NUMA root complex.
    let (root, path) = pcipath_from_dev_tree_path("1f/02").unwrap();
    assert_eq!(root, "00");
    assert_eq!(path.len(), 2);
    assert_eq!(path.at(0).slot(), 0x1f);
}

#[test]
fn dev_tree_path_errors() {
    assert_eq!(
        pcipath_from_dev_tree_path("20/00/zz").unwrap_err(),
        DevTreePathError::NumaPath(PciError::InvalidSlot)
    );
    assert_eq!(
        pcipath_from_dev_tree_path("02/40").unwrap_err(),
        DevTreePathError::Path(PciError::SlotTooLarge(0x40))
    );
    assert_eq!(
        pcipath_from_dev_tree_path("02/01.8").unwrap_err(),
        DevTreePathError::Path(PciError::FunctionTooLarge(8))
    );
    assert_eq!(
        pcipath_from_dev_tree_path("02/01.x").unwrap_err(),
        DevTreePathError::Path(PciError::InvalidFunction)
    );
    assert_eq!(
        pcipath_from_dev_tree_path("02/1.2.3").unwrap_err(),
        DevTreePathError::Path(PciError::SlotFnFormat)
    );
    assert_eq!(
        pcipath_from_dev_tree_path("").unwrap_err(),
        DevTreePathError::Path(PciError::InvalidSlot)
    );
    // The first bad segment decides the error.
    assert_eq!(
        pcipath_from_dev_tree_path("zz/40").unwrap_err(),
        DevTreePathError::Path(PciError::InvalidSlot)
    );
}
