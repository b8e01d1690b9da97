//! The device-set differ over concrete populations.

use usb_enumeration::diff::diff;
use usb_enumeration::DeviceBaseClass;
use usb_enumeration::UsbDevice;

fn device(id: &str, vendor_id: u16, product_id: u16) -> UsbDevice {
    UsbDevice {
        id: id.to_string(),
        vendor_id,
        product_id,
        description: Some(format!("device {id}")),
        serial_number: Some("SN".to_string()),
        base_class: DeviceBaseClass::Hub,
    }
}

#[test]
fn diff_removed_and_added() {
    let a = device("a", 1, 2);
    let b = device("b", 3, 4);
    let c = device("c", 5, 6);
    let old = vec![a.clone(), b.clone()];
    let new = vec![b.clone(), c.clone()];
    let d = diff(&old, &new);
    assert_eq!(d.removed, vec![a]);
    assert_eq!(d.added, vec![c]);
}

#[test]
fn diff_of_equal_sets_is_empty() {
    let old = vec![device("a", 1, 2), device("b", 3, 4)];
    let d = diff(&old, &old);
    assert!(d.removed.is_empty());
    assert!(d.added.is_empty());
}

#[test]
fn diff_of_disjoint_sets() {
    let old = vec![device("a", 1, 2)];
    let new = vec![device("b", 3, 4)];
    let d = diff(&old, &new);
    assert_eq!(d.removed, old);
    assert_eq!(d.added, new);
}

#[test]
fn diff_uses_full_structural_equality() {
    let mut changed = device("a", 1, 2);
    changed.description = Some("renamed".to_string());
    let old = vec![device("a", 1, 2)];
    let new = vec![changed.clone()];
    let d = diff(&old, &new);
    assert_eq!(d.removed, old);
    assert_eq!(d.added, vec![changed]);
}
