//! Configuration of the polling observer.

use vstd::prelude::*;

verus! {

/// Immutable-after-construction configuration for observing device changes:
/// the poll interval in whole seconds and optional vendor and product
/// filters. Each builder method returns an updated copy; none has side
/// effects.
#[derive(Debug, Clone)]
pub struct Observer {
    poll_interval: u32,
    vendor_id: Option<u16>,
    product_id: Option<u16>,
}

impl Observer {
    /// The configured poll interval, in seconds.
    pub closed spec fn spec_poll_interval(&self) -> u32 {
        self.poll_interval
    }

    /// The configured vendor filter.
    pub closed spec fn spec_vendor_id(&self) -> Option<u16> {
        self.vendor_id
    }

    /// The configured product filter.
    pub closed spec fn spec_product_id(&self) -> Option<u16> {
        self.product_id
    }

    /// Create a new Observer: a one-second poll interval and no filters.
    pub fn new() -> (o: Observer)
        ensures
            o.spec_poll_interval() == 1,
            o.spec_vendor_id() is None,
            o.spec_product_id() is None,
    {
        Observer { poll_interval: 1, vendor_id: None, product_id: None }
    }

    /// Set the poll interval, in seconds.
    pub fn with_poll_interval(self, seconds: u32) -> (o: Observer)
        ensures
            o.spec_poll_interval() == seconds,
            o.spec_vendor_id() == self.spec_vendor_id(),
            o.spec_product_id() == self.spec_product_id(),
    {
        Observer { poll_interval: seconds, vendor_id: self.vendor_id, product_id: self.product_id }
    }

    /// Filter results by USB Vendor ID.
    pub fn with_vendor_id(self, vendor_id: u16) -> (o: Observer)
        ensures
            o.spec_vendor_id() == Some(vendor_id),
            o.spec_poll_interval() == self.spec_poll_interval(),
            o.spec_product_id() == self.spec_product_id(),
    {
        Observer {
            poll_interval: self.poll_interval,
            vendor_id: Some(vendor_id),
            product_id: self.product_id,
        }
    }

    /// Filter results by USB Product ID.
    pub fn with_product_id(self, product_id: u16) -> (o: Observer)
        ensures
            o.spec_product_id() == Some(product_id),
            o.spec_poll_interval() == self.spec_poll_interval(),
            o.spec_vendor_id() == self.spec_vendor_id(),
    {
        Observer {
            poll_interval: self.poll_interval,
            vendor_id: self.vendor_id,
            product_id: Some(product_id),
        }
    }

    /// The configured poll interval, in seconds.
    pub fn poll_interval(&self) -> (r: u32)
        ensures
            r == self.spec_poll_interval(),
    {
        self.poll_interval
    }

    /// The configured vendor filter.
    pub fn vendor_id(&self) -> (r: Option<u16>)
        ensures
            r == self.spec_vendor_id(),
    {
        self.vendor_id
    }

    /// The configured product filter.
    pub fn product_id(&self) -> (r: Option<u16>)
        ensures
            r == self.spec_product_id(),
    {
        self.product_id
    }
}

impl Default for Observer {
    /// The default configuration: a one-second poll interval and no filters.
    fn default() -> (o: Observer)
        ensures
            o.spec_poll_interval() == 1,
            o.spec_vendor_id() is None,
            o.spec_product_id() is None,
    {
        Observer::new()
    }
}

} // verus!
