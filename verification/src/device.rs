//! The device value type, its classification code, and structural equality.

use vstd::prelude::*;

verus! {

/// Mathematical model of one enumerated device: each field as a plain value,
/// strings as character sequences.
#[verifier::ext_equal]
pub struct DeviceModel {
    pub id: Seq<char>,
    pub vendor_id: u16,
    pub product_id: u16,
    pub description: Option<Seq<char>>,
    pub serial_number: Option<Seq<char>>,
    pub base_class: DeviceBaseClass,
}

/// Discovered USB device.
///
/// Equality is structural over every field: two values describe the same
/// device-state only when all fields agree.
#[derive(Debug, Clone, Eq, Hash)]
pub struct UsbDevice {
    /// Platform specific unique ID
    pub id: String,
    /// Vendor ID
    pub vendor_id: u16,
    /// Product ID
    pub product_id: u16,
    /// Optional device description
    pub description: Option<String>,
    /// Optional serial number
    pub serial_number: Option<String>,
    /// Class of device.
    pub base_class: DeviceBaseClass,
}

/// Device base class codes, see <https://www.usb.org/defined-class-codes>.
/// A raw byte outside this set fails classification.
#[derive(Hash, Eq, Debug, Clone, Copy, PartialEq, Structural)]
pub enum DeviceBaseClass {
    UseClassCodeFromInterfaceDescriptors,
    Audio,
    Communication,
    HumanInterfaceDevice,
    Physical,
    Image,
    Printer,
    MassStorage,
    Hub,
    CDCData,
    SmartCard,
    ContentSecurity,
    Video,
    PersonalHealthCare,
    AudioVideo,
    Billboard,
    UsbTypeCBridge,
    UsbBulkDisplay,
    MctpOverUsb,
    I3C,
    Diagnostic,
    WirelessController,
    Miscellaneous,
    ApplicationSpecific,
    VendorSpecific,
}

/// The classification a raw class byte maps to, if any.
pub open spec fn spec_class_of(code: u8) -> Option<DeviceBaseClass> {
    if code == 0x00 {
        Some(DeviceBaseClass::UseClassCodeFromInterfaceDescriptors)
    } else if code == 0x01 {
        Some(DeviceBaseClass::Audio)
    } else if code == 0x02 {
        Some(DeviceBaseClass::Communication)
    } else if code == 0x03 {
        Some(DeviceBaseClass::HumanInterfaceDevice)
    } else if code == 0x05 {
        Some(DeviceBaseClass::Physical)
    } else if code == 0x06 {
        Some(DeviceBaseClass::Image)
    } else if code == 0x07 {
        Some(DeviceBaseClass::Printer)
    } else if code == 0x08 {
        Some(DeviceBaseClass::MassStorage)
    } else if code == 0x09 {
        Some(DeviceBaseClass::Hub)
    } else if code == 0x0A {
        Some(DeviceBaseClass::CDCData)
    } else if code == 0x0B {
        Some(DeviceBaseClass::SmartCard)
    } else if code == 0x0D {
        Some(DeviceBaseClass::ContentSecurity)
    } else if code == 0x0E {
        Some(DeviceBaseClass::Video)
    } else if code == 0x0F {
        Some(DeviceBaseClass::PersonalHealthCare)
    } else if code == 0x10 {
        Some(DeviceBaseClass::AudioVideo)
    } else if code == 0x11 {
        Some(DeviceBaseClass::Billboard)
    } else if code == 0x12 {
        Some(DeviceBaseClass::UsbTypeCBridge)
    } else if code == 0x13 {
        Some(DeviceBaseClass::UsbBulkDisplay)
    } else if code == 0x14 {
        Some(DeviceBaseClass::MctpOverUsb)
    } else if code == 0x3C {
        Some(DeviceBaseClass::I3C)
    } else if code == 0xDC {
        Some(DeviceBaseClass::Diagnostic)
    } else if code == 0xE0 {
        Some(DeviceBaseClass::WirelessController)
    } else if code == 0xEF {
        Some(DeviceBaseClass::Miscellaneous)
    } else if code == 0xFE {
        Some(DeviceBaseClass::ApplicationSpecific)
    } else if code == 0xFF {
        Some(DeviceBaseClass::VendorSpecific)
    } else {
        None
    }
}

impl DeviceBaseClass {
    /// Classify a raw base-class byte; unknown byte values are rejected
    /// rather than coerced to a known class.
    pub fn from_code(code: u8) -> (r: Result<DeviceBaseClass, ParseError>)
        ensures
            spec_class_of(code) is Some ==> r == Ok::<DeviceBaseClass, ParseError>(
                spec_class_of(code).unwrap(),
            ),
            spec_class_of(code) is None ==> r is Err,
    {
        if code == 0x00 {
            Ok(DeviceBaseClass::UseClassCodeFromInterfaceDescriptors)
        } else if code == 0x01 {
            Ok(DeviceBaseClass::Audio)
        } else if code == 0x02 {
            Ok(DeviceBaseClass::Communication)
        } else if code == 0x03 {
            Ok(DeviceBaseClass::HumanInterfaceDevice)
        } else if code == 0x05 {
            Ok(DeviceBaseClass::Physical)
        } else if code == 0x06 {
            Ok(DeviceBaseClass::Image)
        } else if code == 0x07 {
            Ok(DeviceBaseClass::Printer)
        } else if code == 0x08 {
            Ok(DeviceBaseClass::MassStorage)
        } else if code == 0x09 {
            Ok(DeviceBaseClass::Hub)
        } else if code == 0x0A {
            Ok(DeviceBaseClass::CDCData)
        } else if code == 0x0B {
            Ok(DeviceBaseClass::SmartCard)
        } else if code == 0x0D {
            Ok(DeviceBaseClass::ContentSecurity)
        } else if code == 0x0E {
            Ok(DeviceBaseClass::Video)
        } else if code == 0x0F {
            Ok(DeviceBaseClass::PersonalHealthCare)
        } else if code == 0x10 {
            Ok(DeviceBaseClass::AudioVideo)
        } else if code == 0x11 {
            Ok(DeviceBaseClass::Billboard)
        } else if code == 0x12 {
            Ok(DeviceBaseClass::UsbTypeCBridge)
        } else if code == 0x13 {
            Ok(DeviceBaseClass::UsbBulkDisplay)
        } else if code == 0x14 {
            Ok(DeviceBaseClass::MctpOverUsb)
        } else if code == 0x3C {
            Ok(DeviceBaseClass::I3C)
        } else if code == 0xDC {
            Ok(DeviceBaseClass::Diagnostic)
        } else if code == 0xE0 {
            Ok(DeviceBaseClass::WirelessController)
        } else if code == 0xEF {
            Ok(DeviceBaseClass::Miscellaneous)
        } else if code == 0xFE {
            Ok(DeviceBaseClass::ApplicationSpecific)
        } else if code == 0xFF {
            Ok(DeviceBaseClass::VendorSpecific)
        } else {
            Err(ParseError)
        }
    }
}

/// Error of a device record whose raw properties cannot be decoded into the
/// required fields.
#[derive(Copy, Clone, Debug, PartialEq, Eq, Structural)]
pub struct ParseError;

impl ParseError {
    /// Human-readable description of the error.
    pub fn message(&self) -> (r: String)
        ensures
            r@ == "Parse Error"@,
    {
        "Parse Error".to_owned()
    }
}

/// The view of an optional owned string: its character sequence, if any.
pub open spec fn opt_view(o: Option<String>) -> Option<Seq<char>> {
    match o {
        Some(s) => Some(s@),
        None => None,
    }
}

impl View for UsbDevice {
    type V = DeviceModel;

    open spec fn view(&self) -> DeviceModel {
        DeviceModel {
            id: self.id@,
            vendor_id: self.vendor_id,
            product_id: self.product_id,
            description: opt_view(self.description),
            serial_number: opt_view(self.serial_number),
            base_class: self.base_class,
        }
    }
}

/// The models of a sequence of devices, in order.
pub open spec fn device_models(s: Seq<UsbDevice>) -> Seq<DeviceModel> {
    s.map_values(|d: UsbDevice| d@)
}

/// Equality of optional strings by their character sequences.
pub fn opt_string_eq(a: &Option<String>, b: &Option<String>) -> (r: bool)
    ensures
        r == (opt_view(*a) == opt_view(*b)),
{
    match (a, b) {
        (Some(x), Some(y)) => *x == *y,
        (None, None) => true,
        _ => false,
    }
}

/// Structural equality of two devices: their models agree on every field.
pub fn device_eq(a: &UsbDevice, b: &UsbDevice) -> (r: bool)
    ensures
        r == (a@ == b@),
{
    let r = a.id == b.id && a.vendor_id == b.vendor_id && a.product_id == b.product_id
        && opt_string_eq(&a.description, &b.description) && opt_string_eq(
        &a.serial_number,
        &b.serial_number,
    ) && a.base_class == b.base_class;
    proof {
        if r {
            assert(a@ =~= b@);
        }
    }
    r
}

impl PartialEq for UsbDevice {
    fn eq(&self, other: &UsbDevice) -> (r: bool) {
        device_eq(self, other)
    }
}

impl vstd::std_specs::cmp::PartialEqSpecImpl for UsbDevice {
    open spec fn obeys_eq_spec() -> bool {
        true
    }

    open spec fn eq_spec(&self, other: &UsbDevice) -> bool {
        self@ == other@
    }
}

fn clone_opt_string(o: &Option<String>) -> (r: Option<String>)
    ensures
        opt_view(r) == opt_view(*o),
{
    match o {
        Some(s) => Some(s.clone()),
        None => None,
    }
}

impl UsbDevice {
    /// A fresh device value with the same model.
    pub fn duplicate(&self) -> (r: UsbDevice)
        ensures
            r@ == self@,
    {
        let r = UsbDevice {
            id: self.id.clone(),
            vendor_id: self.vendor_id,
            product_id: self.product_id,
            description: clone_opt_string(&self.description),
            serial_number: clone_opt_string(&self.serial_number),
            base_class: self.base_class,
        };
        proof {
            assert(r@ =~= self@);
        }
        r
    }
}

/// Whether a device passes the optional vendor and product constraints.
pub open spec fn spec_matches_filter(
    d: DeviceModel,
    vendor_id: Option<u16>,
    product_id: Option<u16>,
) -> bool {
    &&& match vendor_id {
        Some(v) => d.vendor_id == v,
        None => true,
    }
    &&& match product_id {
        Some(p) => d.product_id == p,
        None => true,
    }
}

/// Whether a device passes the optional vendor and product constraints.
pub fn matches_filter(d: &UsbDevice, vendor_id: Option<u16>, product_id: Option<u16>) -> (r: bool)
    ensures
        r == spec_matches_filter(d@, vendor_id, product_id),
{
    let vendor_ok = match vendor_id {
        Some(v) => d.vendor_id == v,
        None => true,
    };
    let product_ok = match product_id {
        Some(p) => d.product_id == p,
        None => true,
    };
    vendor_ok && product_ok
}

} // verus!
