//! The observer configuration and the worker's poll-diff-emit protocol on
//! concrete snapshot histories.

use usb_enumeration::DeviceBaseClass;
use usb_enumeration::Event;
use usb_enumeration::Observer;
use usb_enumeration::UsbDevice;
use usb_enumeration::WaitCounter;
use usb_enumeration::Worker;

fn device(id: &str, vendor_id: u16, product_id: u16) -> UsbDevice {
    UsbDevice {
        id: id.to_string(),
        vendor_id,
        product_id,
        description: None,
        serial_number: None,
        base_class: DeviceBaseClass::MassStorage,
    }
}

#[test]
fn observer_builder() {
    let o = Observer::new()
        .with_poll_interval(2)
        .with_vendor_id(0x1234)
        .with_product_id(0x5678);
    assert_eq!(o.poll_interval(), 2);
    assert_eq!(o.vendor_id(), Some(0x1234));
    assert_eq!(o.product_id(), Some(0x5678));
}

#[test]
fn observer_defaults() {
    let o = Observer::new();
    assert_eq!(o.poll_interval(), 1);
    assert_eq!(o.vendor_id(), None);
    assert_eq!(o.product_id(), None);
    let d = Observer::default();
    assert_eq!(d.poll_interval(), 1);
    assert_eq!(d.vendor_id(), None);
    assert_eq!(d.product_id(), None);
}

#[test]
fn start_emits_initial_first_even_when_empty() {
    let (_worker, event) = Worker::start(vec![]);
    match event {
        Event::Initial(devices) => assert!(devices.is_empty()),
        other => panic!("expected the initial event, got {other:?}"),
    }
}

#[test]
fn start_initial_carries_the_snapshot() {
    let a = device("a", 0x1234, 0x5678);
    let (mut worker, event) = Worker::start(vec![a.clone()]);
    match event {
        Event::Initial(devices) => assert_eq!(devices, vec![a.clone()]),
        other => panic!("expected the initial event, got {other:?}"),
    }
    // no later tick repeats the initial event
    let events = worker.tick(vec![a.clone()]);
    assert!(events.is_empty());
    let events = worker.tick(vec![]);
    assert!(events.iter().all(|e| !matches!(e, Event::Initial(_))));
}

#[test]
fn unplug_emits_one_disconnect() {
    let a = device("a", 0x1234, 0x5678);
    let (mut worker, _initial) = Worker::start(vec![a.clone()]);
    let events = worker.tick(vec![]);
    assert_eq!(events.len(), 1);
    match &events[0] {
        Event::Disconnect(d) => assert_eq!(*d, a),
        other => panic!("expected a disconnect, got {other:?}"),
    }
}

#[test]
fn plug_emits_one_connect() {
    let a = device("a", 0x1234, 0x5678);
    let (mut worker, _initial) = Worker::start(vec![]);
    let events = worker.tick(vec![a.clone()]);
    assert_eq!(events.len(), 1);
    match &events[0] {
        Event::Connect(d) => assert_eq!(*d, a),
        other => panic!("expected a connect, got {other:?}"),
    }
}

#[test]
fn unchanged_population_emits_nothing() {
    let a = device("a", 0x1234, 0x5678);
    let (mut worker, _initial) = Worker::start(vec![a.clone()]);
    let events = worker.tick(vec![a.clone()]);
    assert!(events.is_empty());
}

#[test]
fn replug_with_same_ids_is_disconnect_then_connect() {
    // identity is the full device value, not the vendor/product pair alone
    let old = device("path-old", 0x1234, 0x5678);
    let new = device("path-new", 0x1234, 0x5678);
    let (mut worker, _initial) = Worker::start(vec![old.clone()]);
    let events = worker.tick(vec![new.clone()]);
    assert_eq!(events.len(), 2);
    match &events[0] {
        Event::Disconnect(d) => assert_eq!(*d, old),
        other => panic!("expected a disconnect first, got {other:?}"),
    }
    match &events[1] {
        Event::Connect(d) => assert_eq!(*d, new),
        other => panic!("expected a connect second, got {other:?}"),
    }
}

#[test]
fn disconnects_come_before_connects() {
    let a = device("a", 1, 1);
    let b = device("b", 2, 2);
    let c = device("c", 3, 3);
    let d = device("d", 4, 4);
    let (mut worker, _initial) = Worker::start(vec![a, b]);
    let events = worker.tick(vec![c, d]);
    assert_eq!(events.len(), 4);
    assert!(matches!(events[0], Event::Disconnect(_)));
    assert!(matches!(events[1], Event::Disconnect(_)));
    assert!(matches!(events[2], Event::Connect(_)));
    assert!(matches!(events[3], Event::Connect(_)));
}

#[test]
fn duplicate_devices_in_a_snapshot_count_once() {
    let a = device("a", 0x1234, 0x5678);
    let (mut worker, _initial) = Worker::start(vec![a.clone(), a.clone()]);
    let events = worker.tick(vec![]);
    assert_eq!(events.len(), 1);
    assert!(matches!(&events[0], Event::Disconnect(d) if *d == a));
}

#[test]
fn cancellation_stops_the_wait_at_one_increment() {
    // an hour-long interval still stops at the first increment
    let mut wait = WaitCounter::new(3600);
    assert!(!wait.done());
    assert!(wait.step(true));
}

#[test]
fn wait_runs_four_increments_per_second() {
    let mut wait = WaitCounter::new(1);
    let mut steps: u32 = 0;
    while !wait.done() {
        assert!(!wait.step(false));
        steps += 1;
    }
    assert_eq!(steps, 4);
    let mut none = WaitCounter::new(0);
    assert!(none.done());
}
