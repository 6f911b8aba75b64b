use kata_linux::pci::{Path, PciError, SlotFn};

#[test]
fn slot_fn_new_and_accessors() {
    let sf = SlotFn::new(0x1f, 7).unwrap();
    assert_eq!(sf.slot(), 0x1f);
    assert_eq!(sf.function(), 7);
    assert_eq!(SlotFn::new(0x20, 0), Err(PciError::SlotTooLarge(0x20)));
    assert_eq!(SlotFn::new(0, 8), Err(PciError::FunctionTooLarge(8)));
}

#[test]
fn slot_fn_from_str() {
    let sf = SlotFn::from_str("0a.3").unwrap();
    assert_eq!((sf.slot(), sf.function()), (0x0a, 3));
    let sf = SlotFn::from_str("1F").unwrap();
    assert_eq!((sf.slot(), sf.function()), (0x1f, 0));
    assert_eq!(SlotFn::from_str("1.2.3"), Err(PciError::SlotFnFormat));
    assert_eq!(SlotFn::from_str(".1"), Err(PciError::InvalidSlot));
    assert_eq!(SlotFn::from_str("1."), Err(PciError::InvalidFunction));
    assert_eq!(SlotFn::from_str("100"), Err(PciError::InvalidSlot));
}

#[test]
fn path_new_and_from_str() {
    assert_eq!(Path::new(Vec::new()), Err(PciError::EmptyPath));
    let p = Path::new(vec![SlotFn::new(1, 0).unwrap()]).unwrap();
    assert_eq!(p.len(), 1);
    let p = Path::from_str("02/03.1/04").unwrap();
    assert_eq!(p.len(), 3);
    assert_eq!(p.at(1).slot(), 3);
    assert_eq!(p.at(1).function(), 1);
    assert_eq!(Path::from_str("02//04"), Err(PciError::InvalidSlot));
}
