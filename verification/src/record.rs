//! Raw records of an OS device query and their conversion into the
//! filtered, de-duplicated device list.

use vstd::prelude::*;

use crate::device::device_models;
use crate::device::matches_filter;
use crate::device::opt_view;
use crate::device::spec_class_of;
use crate::device::spec_matches_filter;
use crate::device::DeviceBaseClass;
use crate::device::DeviceModel;
use crate::device::ParseError;
use crate::device::UsbDevice;
use crate::diff::dedup_devices;
use crate::diff::dedup_models;
use crate::diff::lemma_dedup_models_props;
use crate::parse::get_pid_or_vid;
use crate::parse::spec_get_pid_or_vid;

verus! {

/// Model of a raw device record: each property as an optional character
/// sequence.
#[verifier::ext_equal]
pub struct RecordModel {
    pub vendor_id: Option<Seq<char>>,
    pub product_id: Option<Seq<char>>,
    pub path: Option<Seq<char>>,
    pub model_from_database: Option<Seq<char>>,
    pub model: Option<Seq<char>>,
    pub serial: Option<Seq<char>>,
    pub class_code: Option<Seq<char>>,
}

/// One raw record of an OS device query: the property strings a platform
/// backend read for one device, each of them possibly absent.
#[derive(Debug, Clone)]
pub struct DeviceRecord {
    /// Vendor ID property, hexadecimal.
    pub vendor_id: Option<String>,
    /// Product ID property, hexadecimal.
    pub product_id: Option<String>,
    /// Device path: the platform specific unique ID.
    pub path: Option<String>,
    /// Model name from the hardware database, the preferred description.
    pub model_from_database: Option<String>,
    /// Model name as reported, the fallback description.
    pub model: Option<String>,
    /// Serial number property.
    pub serial: Option<String>,
    /// Base class byte, hexadecimal.
    pub class_code: Option<String>,
}

impl View for DeviceRecord {
    type V = RecordModel;

    open spec fn view(&self) -> RecordModel {
        RecordModel {
            vendor_id: opt_view(self.vendor_id),
            product_id: opt_view(self.product_id),
            path: opt_view(self.path),
            model_from_database: opt_view(self.model_from_database),
            model: opt_view(self.model),
            serial: opt_view(self.serial),
            class_code: opt_view(self.class_code),
        }
    }
}

/// The models of a sequence of records, in order.
pub open spec fn record_models(s: Seq<DeviceRecord>) -> Seq<RecordModel> {
    s.map_values(|r: DeviceRecord| r@)
}

/// The classification a hexadecimal class-byte string maps to, if any: it
/// must parse as hex, fit in a byte, and be a known class code.
pub open spec fn spec_parse_class(s: Seq<char>) -> Option<DeviceBaseClass> {
    match spec_get_pid_or_vid(s) {
        None => None,
        Some(v) => if v <= 0xFF {
            spec_class_of(v as u8)
        } else {
            None
        },
    }
}

/// The device a raw record describes, present exactly when the vendor and
/// product IDs parse, the path and serial number are present, and the class
/// byte classifies; the description falls back from the database name to the
/// reported model name.
pub open spec fn spec_parse_record(r: RecordModel) -> Option<DeviceModel> {
    match r.vendor_id {
        None => None,
        Some(vs) => match spec_get_pid_or_vid(vs) {
            None => None,
            Some(vid) => match r.product_id {
                None => None,
                Some(ps) => match spec_get_pid_or_vid(ps) {
                    None => None,
                    Some(pid) => match r.path {
                        None => None,
                        Some(path) => match r.serial {
                            None => None,
                            Some(serial) => match r.class_code {
                                None => None,
                                Some(cs) => match spec_parse_class(cs) {
                                    None => None,
                                    Some(bc) => Some(
                                        DeviceModel {
                                            id: path,
                                            vendor_id: vid,
                                            product_id: pid,
                                            description: if r.model_from_database is Some {
                                                r.model_from_database
                                            } else {
                                                r.model
                                            },
                                            serial_number: Some(serial),
                                            base_class: bc,
                                        },
                                    ),
                                },
                            },
                        },
                    },
                },
            },
        },
    }
}

/// Decode one raw record into a device, failing on any missing or malformed
/// required property; a failure means the record is skipped, not that the
/// enumeration fails.
pub fn parse_record(rec: &DeviceRecord) -> (r: Result<UsbDevice, ParseError>)
    ensures
        spec_parse_record(rec@) is Some ==> r is Ok && r.unwrap()@ == spec_parse_record(
            rec@,
        ).unwrap(),
        spec_parse_record(rec@) is None ==> r is Err,
{
    let vendor_id = match &rec.vendor_id {
        Some(s) => match get_pid_or_vid(s.as_str()) {
            Ok(v) => v,
            Err(e) => {
                return Err(e);
            },
        },
        None => {
            return Err(ParseError);
        },
    };
    let product_id = match &rec.product_id {
        Some(s) => match get_pid_or_vid(s.as_str()) {
            Ok(v) => v,
            Err(e) => {
                return Err(e);
            },
        },
        None => {
            return Err(ParseError);
        },
    };
    let id = match &rec.path {
        Some(s) => s.clone(),
        None => {
            return Err(ParseError);
        },
    };
    let description = match &rec.model_from_database {
        Some(s) => Some(s.clone()),
        None => match &rec.model {
            Some(s) => Some(s.clone()),
            None => None,
        },
    };
    let serial_number = match &rec.serial {
        Some(s) => Some(s.clone()),
        None => {
            return Err(ParseError);
        },
    };
    let class_value = match &rec.class_code {
        Some(s) => match get_pid_or_vid(s.as_str()) {
            Ok(v) => v,
            Err(e) => {
                return Err(e);
            },
        },
        None => {
            return Err(ParseError);
        },
    };
    if class_value > 0xFF {
        return Err(ParseError);
    }
    let base_class = match DeviceBaseClass::from_code(class_value as u8) {
        Ok(c) => c,
        Err(e) => {
            return Err(e);
        },
    };
    let d = UsbDevice { id, vendor_id, product_id, description, serial_number, base_class };
    proof {
        assert(d@ =~= spec_parse_record(rec@).unwrap());
    }
    Ok(d)
}

/// The models of the devices the records describe that pass the filters, in
/// record order, before de-duplication.
pub open spec fn enumerated_models(
    rs: Seq<RecordModel>,
    vendor_id: Option<u16>,
    product_id: Option<u16>,
) -> Seq<DeviceModel>
    decreases rs.len(),
{
    if rs.len() == 0 {
        Seq::empty()
    } else {
        let front = enumerated_models(rs.drop_last(), vendor_id, product_id);
        match spec_parse_record(rs.last()) {
            None => front,
            Some(m) => if spec_matches_filter(m, vendor_id, product_id) {
                front.push(m)
            } else {
                front
            },
        }
    }
}

proof fn lemma_enumerated_matches(
    rs: Seq<RecordModel>,
    vendor_id: Option<u16>,
    product_id: Option<u16>,
)
    ensures
        forall|k: int|
            0 <= k < enumerated_models(rs, vendor_id, product_id).len() ==> spec_matches_filter(
                #[trigger] enumerated_models(rs, vendor_id, product_id)[k],
                vendor_id,
                product_id,
            ),
    decreases rs.len(),
{
    if rs.len() > 0 {
        lemma_enumerated_matches(rs.drop_last(), vendor_id, product_id);
        let front = enumerated_models(rs.drop_last(), vendor_id, product_id);
        let em = enumerated_models(rs, vendor_id, product_id);
        assert forall|k: int| 0 <= k < em.len() implies spec_matches_filter(
            #[trigger] em[k],
            vendor_id,
            product_id,
        ) by {
            match spec_parse_record(rs.last()) {
                None => {
                    assert(em[k] == front[k]);
                },
                Some(m) => {
                    if spec_matches_filter(m, vendor_id, product_id) {
                        assert(em == front.push(m));
                        if k < front.len() {
                            assert(em[k] == front[k]);
                        } else {
                            assert(em[k] == m);
                        }
                    } else {
                        assert(em[k] == front[k]);
                    }
                },
            }
        }
    }
}

/// Turn the raw records of one OS query into the filtered, de-duplicated
/// device list: records that fail to decode are skipped, every returned
/// device passes both filters, and no device occurs twice.
pub fn enumerate(
    records: &Vec<DeviceRecord>,
    vendor_id: Option<u16>,
    product_id: Option<u16>,
) -> (devices: Vec<UsbDevice>)
    ensures
        device_models(devices@) == dedup_models(
            enumerated_models(record_models(records@), vendor_id, product_id),
        ),
        forall|i: int|
            0 <= i < devices@.len() ==> spec_matches_filter(
                #[trigger] devices@[i]@,
                vendor_id,
                product_id,
            ),
{
    let ghost rm = record_models(records@);
    let mut kept: Vec<UsbDevice> = Vec::new();
    let mut i: usize = 0;
    while i < records.len()
        invariant
            i <= records@.len(),
            rm == record_models(records@),
            device_models(kept@) == enumerated_models(rm.take(i as int), vendor_id, product_id),
        decreases records@.len() - i,
    {
        let ghost kept_before = device_models(kept@);
        match parse_record(&records[i]) {
            Ok(d) => {
                if matches_filter(&d, vendor_id, product_id) {
                    let ghost dm = d@;
                    kept.push(d);
                    proof {
                        assert(device_models(kept@) =~= kept_before.push(dm));
                    }
                }
            },
            Err(_) => {},
        }
        proof {
            assert(rm.take(i + 1).drop_last() =~= rm.take(i as int));
            assert(rm.take(i + 1).last() == records@[i as int]@);
        }
        i = i + 1;
    }
    proof {
        assert(rm.take(records@.len() as int) =~= rm);
    }
    let devices = dedup_devices(&kept);
    proof {
        let em = enumerated_models(rm, vendor_id, product_id);
        lemma_enumerated_matches(rm, vendor_id, product_id);
        lemma_dedup_models_props(em);
        assert forall|k: int| 0 <= k < devices@.len() implies spec_matches_filter(
            #[trigger] devices@[k]@,
            vendor_id,
            product_id,
        ) by {
            assert(device_models(devices@)[k] == devices@[k]@);
            assert(dedup_models(em).contains(devices@[k]@));
            assert(em.contains(devices@[k]@));
            let w = choose|w: int| 0 <= w < em.len() && em[w] == devices@[k]@;
            assert(spec_matches_filter(em[w], vendor_id, product_id));
        }
    }
    devices
}

} // verus!
