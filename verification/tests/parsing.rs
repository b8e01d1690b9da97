//! Identifier parsing: hexadecimal IDs, wide-character buffers, class codes.

use usb_enumeration::wide::parse_vid_pid;
use usb_enumeration::wide::string_from_buf_u16;
use usb_enumeration::wide::string_from_buf_u8;
use usb_enumeration::DeviceBaseClass;
use usb_enumeration::ParseError;

#[test]
fn hex_id_plain() {
    assert_eq!(usb_enumeration::get_pid_or_vid("1234"), Ok(0x1234));
    assert_eq!(usb_enumeration::get_pid_or_vid("1a2b"), Ok(0x1A2B));
    assert_eq!(usb_enumeration::get_pid_or_vid("0000ffff"), Ok(0xFFFF));
}

#[test]
fn hex_id_prefixed() {
    assert_eq!(usb_enumeration::get_pid_or_vid("0x1234"), Ok(0x1234));
    assert_eq!(usb_enumeration::get_pid_or_vid("0xFF"), Ok(0xFF));
}

#[test]
fn hex_id_signed() {
    assert_eq!(usb_enumeration::get_pid_or_vid("+1a"), Ok(0x1A));
    assert_eq!(usb_enumeration::get_pid_or_vid("0x+1a"), Ok(0x1A));
}

#[test]
fn hex_id_rejected() {
    assert_eq!(usb_enumeration::get_pid_or_vid(""), Err(ParseError));
    assert_eq!(usb_enumeration::get_pid_or_vid("0x"), Err(ParseError));
    assert_eq!(usb_enumeration::get_pid_or_vid("+"), Err(ParseError));
    assert_eq!(usb_enumeration::get_pid_or_vid("xyz"), Err(ParseError));
    assert_eq!(usb_enumeration::get_pid_or_vid("12 4"), Err(ParseError));
    assert_eq!(usb_enumeration::get_pid_or_vid("10000"), Err(ParseError));
}

#[test]
fn vid_pid_from_identifier() {
    assert_eq!(
        parse_vid_pid("USB\\VID_0CE9&PID_1220\\0000000004BE"),
        Ok((0x0CE9, 0x1220))
    );
}

#[test]
fn vid_pid_missing_tag() {
    assert_eq!(parse_vid_pid("USB\\PID_1220"), Err(ParseError));
    assert_eq!(parse_vid_pid("USB\\VID_0CE9"), Err(ParseError));
}

#[test]
fn vid_pid_truncated_digits() {
    assert_eq!(parse_vid_pid("VID_0CE9&PID_12"), Err(ParseError));
}

#[test]
fn wide_buffer_decodes_and_truncates() {
    let s = string_from_buf_u16(vec![0x48, 0x69, 0, 0x41]);
    assert_eq!(s.as_str(), "Hi");
    let empty = string_from_buf_u16(vec![0, 0x41]);
    assert_eq!(empty.as_str(), "");
}

#[test]
fn byte_buffer_pairs_low_byte_first() {
    let buf: Vec<u8> = vec![0x41, 0x00, 0x42, 0x00, 0x00, 0x00, 0x43, 0x00];
    let s = string_from_buf_u8(buf);
    assert_eq!(s.as_str(), "AB");
}

#[test]
fn hardware_id_buffer_is_uppercased() {
    let mut buf: Vec<u8> = Vec::new();
    for b in "usb\\vid_0ce9&pid_1220\\x\0junk".bytes() {
        buf.push(b);
        buf.push(0);
    }
    assert_eq!(usb_enumeration::extract_vid_pid(buf), Ok((0x0CE9, 0x1220)));
}

#[test]
fn hardware_id_buffer_without_ids() {
    let mut buf: Vec<u8> = Vec::new();
    for b in "root_hub\0".bytes() {
        buf.push(b);
        buf.push(0);
    }
    assert_eq!(usb_enumeration::extract_vid_pid(buf), Err(ParseError));
}

#[test]
fn known_class_codes() {
    assert_eq!(DeviceBaseClass::from_code(0x00), Ok(DeviceBaseClass::UseClassCodeFromInterfaceDescriptors));
    assert_eq!(DeviceBaseClass::from_code(0x03), Ok(DeviceBaseClass::HumanInterfaceDevice));
    assert_eq!(DeviceBaseClass::from_code(0x09), Ok(DeviceBaseClass::Hub));
    assert_eq!(DeviceBaseClass::from_code(0xFF), Ok(DeviceBaseClass::VendorSpecific));
}

#[test]
fn unknown_class_code_fails() {
    assert_eq!(DeviceBaseClass::from_code(0x04), Err(ParseError));
    assert_eq!(DeviceBaseClass::from_code(0x15), Err(ParseError));
}

#[test]
fn parse_error_message() {
    assert_eq!(ParseError.message().as_str(), "Parse Error");
}
