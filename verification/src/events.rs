//! The events a subscription's worker emits.

use vstd::prelude::*;

use crate::device::device_models;
use crate::device::DeviceModel;
use crate::device::UsbDevice;

verus! {

/// Model of an event: device payloads stand as their models.
#[verifier::ext_equal]
pub enum EventModel {
    Initial(Seq<DeviceModel>),
    Connect(DeviceModel),
    Disconnect(DeviceModel),
}

/// Events sent from the Observer.
#[derive(Debug, Clone)]
pub enum Event {
    /// Initial list of devices when polling starts
    Initial(Vec<UsbDevice>),
    /// A device that has just been connected
    Connect(UsbDevice),
    /// A device that has just disconnected
    Disconnect(UsbDevice),
}

impl View for Event {
    type V = EventModel;

    open spec fn view(&self) -> EventModel {
        match self {
            Event::Initial(devices) => EventModel::Initial(device_models(devices@)),
            Event::Connect(d) => EventModel::Connect(d@),
            Event::Disconnect(d) => EventModel::Disconnect(d@),
        }
    }
}

/// The models of a sequence of events, in order.
pub open spec fn event_models(s: Seq<Event>) -> Seq<EventModel> {
    s.map_values(|e: Event| e@)
}

} // verus!
