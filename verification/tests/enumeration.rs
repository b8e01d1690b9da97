//! Enumeration of device records: filtering, de-duplication, skipping of
//! malformed records.

use usb_enumeration::enumerate;
use usb_enumeration::record::parse_record;
use usb_enumeration::DeviceRecord;
use usb_enumeration::ParseError;

fn record(vendor: &str, product: &str, path: &str, serial: &str) -> DeviceRecord {
    DeviceRecord {
        vendor_id: Some(vendor.to_string()),
        product_id: Some(product.to_string()),
        path: Some(path.to_string()),
        model_from_database: Some(format!("device at {path}")),
        model: None,
        serial: Some(serial.to_string()),
        class_code: Some("00".to_string()),
    }
}

#[test]
fn test_enumerate() {
    let records = vec![
        record("0ce9", "1220", "/devices/usb1/1-1", "0000000004BE"),
        record("046d", "c52b", "/devices/usb1/1-2", "5&17411534"),
    ];
    let devices = enumerate(&records, None, None);
    println!("Enumerated devices: {devices:#?}");
    assert!(!devices.is_empty());
}

#[test]
fn enumerate_fills_every_field() {
    let records = vec![record("0ce9", "1220", "/devices/usb1/1-1", "SN1")];
    let devices = enumerate(&records, None, None);
    assert_eq!(devices.len(), 1);
    assert_eq!(devices[0].id.as_str(), "/devices/usb1/1-1");
    assert_eq!(devices[0].vendor_id, 0x0CE9);
    assert_eq!(devices[0].product_id, 0x1220);
    assert_eq!(
        devices[0].description.as_deref(),
        Some("device at /devices/usb1/1-1")
    );
    assert_eq!(devices[0].serial_number.as_deref(), Some("SN1"));
    assert_eq!(
        devices[0].base_class,
        usb_enumeration::DeviceBaseClass::UseClassCodeFromInterfaceDescriptors
    );
}

#[test]
fn enumerate_filters_by_vendor() {
    let records = vec![
        record("1234", "5678", "/devices/a", "S1"),
        record("aaaa", "bbbb", "/devices/b", "S2"),
        record("1234", "9999", "/devices/c", "S3"),
    ];
    let devices = enumerate(&records, Some(0x1234), None);
    assert_eq!(devices.len(), 2);
    assert!(devices.iter().all(|d| d.vendor_id == 0x1234));
}

#[test]
fn enumerate_filters_by_vendor_and_product() {
    let records = vec![
        record("1234", "5678", "/devices/a", "S1"),
        record("1234", "9999", "/devices/b", "S2"),
        record("aaaa", "5678", "/devices/c", "S3"),
    ];
    let devices = enumerate(&records, Some(0x1234), Some(0x5678));
    assert_eq!(devices.len(), 1);
    assert_eq!(devices[0].vendor_id, 0x1234);
    assert_eq!(devices[0].product_id, 0x5678);
}

#[test]
fn enumerate_with_no_match_is_empty_not_an_error() {
    let records = vec![record("1234", "5678", "/devices/a", "S1")];
    let devices = enumerate(&records, Some(0x9999), None);
    assert!(devices.is_empty());
    let none = enumerate(&vec![], None, None);
    assert!(none.is_empty());
}

#[test]
fn enumerate_skips_malformed_records() {
    let mut bad = record("zzzz", "5678", "/devices/a", "S1");
    bad.vendor_id = Some("not hex".to_string());
    let records = vec![bad, record("1234", "5678", "/devices/b", "S2")];
    let devices = enumerate(&records, None, None);
    assert_eq!(devices.len(), 1);
    assert_eq!(devices[0].id.as_str(), "/devices/b");
}

#[test]
fn enumerate_deduplicates() {
    let records = vec![
        record("1234", "5678", "/devices/a", "S1"),
        record("1234", "5678", "/devices/a", "S1"),
    ];
    let devices = enumerate(&records, None, None);
    assert_eq!(devices.len(), 1);
}

#[test]
fn record_without_serial_is_rejected() {
    let mut r = record("1234", "5678", "/devices/a", "S1");
    r.serial = None;
    assert!(matches!(parse_record(&r), Err(ParseError)));
}

#[test]
fn record_with_unknown_class_is_rejected() {
    let mut r = record("1234", "5678", "/devices/a", "S1");
    r.class_code = Some("04".to_string());
    assert!(matches!(parse_record(&r), Err(ParseError)));
    r.class_code = Some("123".to_string());
    assert!(matches!(parse_record(&r), Err(ParseError)));
    r.class_code = None;
    assert!(matches!(parse_record(&r), Err(ParseError)));
}

#[test]
fn record_description_falls_back_to_model() {
    let mut r = record("1234", "5678", "/devices/a", "S1");
    r.model_from_database = None;
    r.model = Some("Raw Model".to_string());
    let d = parse_record(&r).unwrap();
    assert_eq!(d.description.as_deref(), Some("Raw Model"));
}

#[test]
fn record_with_prefixed_ids_parses() {
    let r = record("0x1234", "0x5678", "/devices/a", "S1");
    let d = parse_record(&r).unwrap();
    assert_eq!(d.vendor_id, 0x1234);
    assert_eq!(d.product_id, 0x5678);
}
