//! A control request as both USB stacks deliver it.

use vstd::prelude::*;

verus! {

/// What kind of request it is.
#[derive(Clone, Copy, Debug, PartialEq, Eq, Structural)]
pub enum RequestType {
    Standard,
    Class,
    Vendor,
    Reserved,
}

/// What it is addressed to.
#[derive(Clone, Copy, Debug, PartialEq, Eq, Structural)]
pub enum Recipient {
    Device,
    Interface,
    Endpoint,
    Other,
    Reserved,
}

/// The setup packet of a control transfer.
#[derive(Clone, Copy, Debug, PartialEq, Eq, Structural)]
pub struct Request {
    pub request_type: RequestType,
    pub recipient: Recipient,
    pub request: u8,
    pub value: u16,
    pub index: u16,
    pub length: u16,
}

/// A vendor request to the device or to the interface with this number.
pub open spec fn for_vendor_interface(interface: u8, r: Request) -> bool {
    &&& r.request_type == RequestType::Vendor
    &&& r.recipient == Recipient::Device || (r.recipient == Recipient::Interface && r.index
        == interface)
}

/// Whether the display's vendor interface, which has this number, answers the
/// request.
pub fn is_ours(interface: u8, req: &Request) -> (ours: bool)
    ensures
        ours == for_vendor_interface(interface, *req),
{
    req.request_type == RequestType::Vendor && match req.recipient {
        Recipient::Interface => req.index == interface as u16,
        Recipient::Device => true,
        _ => false,
    }
}

} // verus!
