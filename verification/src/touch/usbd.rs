//! HID touch screen class for a USB stack: one interface, one interrupt IN
//! endpoint, and the class requests of HID 1.11 section 7.
//!
//! A touch screen has to answer GET_REPORT for the Contact Count Maximum
//! feature report, which ready-made HID classes stall.

use vstd::prelude::*;

use crate::bytes;
use crate::touch::hid::{
    self, ReportCell, ReportKind, TouchHidState, TouchReport, TOUCH_REPORT_LEN,
};
use crate::usb::{Recipient, Request, RequestType};

verus! {

pub const CLASS_HID: u8 = 0x03;
pub const DESCRIPTOR_HID: u8 = 0x21;
pub const DESCRIPTOR_REPORT: u8 = 0x22;
pub const REQ_GET_DESCRIPTOR: u8 = 0x06;
pub const REQ_GET_REPORT: u8 = 0x01;
pub const REQ_GET_IDLE: u8 = 0x02;
pub const REQ_SET_IDLE: u8 = 0x0A;

/// What to do with a control IN transfer.
#[derive(Clone, Copy, Debug, PartialEq, Eq, Structural)]
pub enum Reply {
    /// Nothing: it is another's.
    Leave,
    Reject,
    /// Accept with this many bytes of the buffer.
    Accept(usize),
    /// Accept with the report descriptor.
    AcceptDescriptor,
}

/// What to do with a control OUT transfer.
#[derive(Clone, Copy, Debug, PartialEq, Eq, Structural)]
pub enum Verdict {
    /// Nothing: it is another's.
    Leave,
    Reject,
    Accept,
}

/// The body of the HID descriptor for a report descriptor of this length:
/// version 1.11, not localised, one descriptor.
pub open spec fn hid_descriptor(len: int) -> Seq<u8> {
    seq![0x11u8, 0x01, 0x00, 0x01, DESCRIPTOR_REPORT] + bytes::le16(len)
}

/// What the answer to a control IN request holds.
pub enum Content {
    Leave,
    Reject,
    Bytes(Seq<u8>),
    Descriptor,
}

/// The content of the answer to a control IN request to the interface with
/// this number, while `last` is the report most recently sent. The idle rate is
/// told in 4 ms units; 0 is indefinite.
pub open spec fn answer_to(
    interface: u8,
    descriptor_len: int,
    idle_ms: u32,
    last: TouchReport,
    r: Request,
) -> Content {
    if r.recipient != Recipient::Interface || r.index != interface {
        Content::Leave
    } else if r.request_type == RequestType::Standard && r.request == REQ_GET_DESCRIPTOR {
        if r.value / 256 == DESCRIPTOR_REPORT {
            Content::Descriptor
        } else if r.value / 256 == DESCRIPTOR_HID {
            Content::Bytes(seq![9u8, DESCRIPTOR_HID] + hid_descriptor(descriptor_len))
        } else {
            Content::Reject
        }
    } else if r.request_type != RequestType::Class {
        Content::Leave
    } else if r.request == REQ_GET_REPORT {
        match ReportKind::named(r.value) {
            Some(kind) => match hid::requested_report(kind, (r.value % 256) as u8, last) {
                Some(report) => Content::Bytes(report),
                None => Content::Reject,
            },
            None => Content::Reject,
        }
    } else if r.request == REQ_GET_IDLE {
        Content::Bytes(seq![(idle_ms / 4 % 256) as u8])
    } else {
        Content::Reject
    }
}

/// A reply in a buffer has this content.
pub open spec fn replies(
    content: Content,
    before: Seq<u8>,
    after: Seq<u8>,
    reply: Reply,
) -> bool {
    match content {
        Content::Leave => reply == Reply::Leave && after == before,
        Content::Reject => reply == Reply::Reject && after == before,
        Content::Descriptor => reply == Reply::AcceptDescriptor && after == before,
        Content::Bytes(b) => reply == Reply::Accept(b.len() as usize) && after == b + before.skip(
            b.len() as int,
        ),
    }
}

pub struct TouchHidClass {
    interface: u8,
    report_descriptor: &'static [u8],
    last: &'static ReportCell,
    state: TouchHidState,
}

impl TouchHidClass {
    pub closed spec fn number(self) -> u8 {
        self.interface
    }

    pub closed spec fn descriptor(self) -> Seq<u8> {
        self.report_descriptor@
    }

    pub closed spec fn idle(self) -> u32 {
        self.state.idle()
    }

    /// The cell with the report most recently sent.
    pub closed spec fn cell(self) -> ReportCell {
        *self.last
    }

    pub fn new(
        interface: u8,
        report_descriptor: &'static [u8],
        last: &'static ReportCell,
    ) -> (c: Self)
        ensures
            c.number() == interface,
            c.descriptor() == report_descriptor@,
            c.idle() == 0,
            c.cell() == *last,
    {
        TouchHidClass { interface, report_descriptor, last, state: TouchHidState::new(last) }
    }

    /// The report descriptor, for a reply that accepts with it.
    pub fn report_descriptor(&self) -> (d: &'static [u8])
        ensures
            d@ == self.descriptor(),
    {
        self.report_descriptor
    }

    /// The bytes to queue on the interrupt endpoint for a report.
    pub fn push(&self, report: &TouchReport) -> (b: [u8; TOUCH_REPORT_LEN])
        ensures
            b@ == hid::report_bytes(*report),
    {
        report.to_bytes()
    }

    /// The endpoint has taken a report: from now on GET_REPORT returns it.
    pub fn pushed(&self, report: &TouchReport)
        ensures
            exists|xy: u32, rest: u32|
                #[trigger] self.cell().took(xy, rest) && hid::unpacked(xy, rest) == *report,
    {
        self.last.store(report);
        assert(self.cell() == *self.last);
    }

    /// The length of the report descriptor as the descriptors carry it.
    fn descriptor_len(&self) -> (b: (u8, u8))
        ensures
            seq![b.0, b.1] == bytes::le16(self.descriptor().len() as int),
    {
        let len: usize = self.report_descriptor.len();
        ((len % 256) as u8, (len / 256 % 256) as u8)
    }

    /// The body of the HID descriptor that stands in the configuration.
    pub fn get_configuration_descriptors(&self) -> (b: [u8; 7])
        ensures
            b@ == hid_descriptor(self.descriptor().len() as int),
    {
        let (lo, hi) = self.descriptor_len();
        // bcdHID 1.11, bCountryCode: not localised, bNumDescriptors
        let b: [u8; 7] = [0x11, 0x01, 0x00, 0x01, DESCRIPTOR_REPORT, lo, hi];
        assert(b@ =~= hid_descriptor(self.descriptor().len() as int));
        b
    }

    fn is_ours(&self, req: &Request) -> (ours: bool)
        ensures
            ours == (req.recipient == Recipient::Interface && req.index == self.number()),
    {
        req.recipient == Recipient::Interface && req.index == self.interface as u16
    }

    /// Answers a control IN request. The report most recently sent is the one
    /// in the cell.
    pub fn control_in(&self, req: &Request, buf: &mut [u8]) -> (reply: Reply)
        requires
            old(buf)@.len() >= TOUCH_REPORT_LEN,
        ensures
            exists|last: TouchReport|
                call_ensures(ReportCell::load, (&self.cell(),), last) && replies(
                    #[trigger] answer_to(
                        self.number(),
                        self.descriptor().len() as int,
                        self.idle(),
                        last,
                        *req,
                    ),
                    old(buf)@,
                    final(buf)@,
                    reply,
                ),
    {
        let last = self.last.load();
        self.answer(req, &last, buf)
    }

    /// Answers a control IN request while `last` is the report most recently
    /// sent.
    pub fn answer(
        &self,
        req: &Request,
        last: &TouchReport,
        buf: &mut [u8],
    ) -> (reply: Reply)
        requires
            old(buf)@.len() >= TOUCH_REPORT_LEN,
        ensures
            replies(
                answer_to(
                    self.number(),
                    self.descriptor().len() as int,
                    self.idle(),
                    *last,
                    *req,
                ),
                old(buf)@,
                final(buf)@,
                reply,
            ),
    {
        if !self.is_ours(req) {
            return Reply::Leave;
        }
        match (req.request_type, req.request) {
            (RequestType::Standard, REQ_GET_DESCRIPTOR) => match (req.value / 256) as u8 {
                DESCRIPTOR_REPORT => Reply::AcceptDescriptor,
                DESCRIPTOR_HID => {
                    let (lo, hi) = self.descriptor_len();
                    let b: [u8; 9] = [
                        9,
                        DESCRIPTOR_HID,
                        0x11,
                        0x01,
                        0x00,
                        0x01,
                        DESCRIPTOR_REPORT,
                        lo,
                        hi,
                    ];
                    assert(b@ =~= seq![9u8, DESCRIPTOR_HID] + hid_descriptor(
                        self.descriptor().len() as int,
                    ));
                    accept(&b, buf)
                },
                _ => Reply::Reject,
            },
            (RequestType::Class, REQ_GET_REPORT) => match ReportKind::from_wvalue(req.value) {
                Some(kind) => {
                    let id: u8 = (req.value % 256) as u8;
                    match hid::serve_report(kind, id, last, buf) {
                        Some(len) => Reply::Accept(len),
                        None => Reply::Reject,
                    }
                },
                None => Reply::Reject,
            },
            (RequestType::Class, REQ_GET_IDLE) => {
                // Idle rate is reported in 4 ms units; 0 is indefinite.
                let b: [u8; 1] = [(self.state.idle_ms() / 4 % 256) as u8];
                assert(b@ =~= seq![(self.idle() / 4 % 256) as u8]);
                accept(&b, buf)
            },
            (RequestType::Class, _) => Reply::Reject,
            _ => Reply::Leave,
        }
    }

    /// Handles a control OUT request.
    pub fn control_out(&mut self, req: &Request) -> (v: Verdict)
        ensures
            final(self).number() == old(self).number(),
            final(self).descriptor() == old(self).descriptor(),
            final(self).cell() == old(self).cell(),
            ({
                let ours = req.recipient == Recipient::Interface && req.index
                    == old(self).number() && req.request_type == RequestType::Class;
                let idle = ours && req.request == REQ_SET_IDLE;
                &&& v == if !ours {
                    Verdict::Leave
                } else if idle {
                    Verdict::Accept
                } else {
                    Verdict::Reject
                }
                &&& final(self).idle() == if idle {
                    (req.value / 256 * 4) as u32
                } else {
                    old(self).idle()
                }
            }),
    {
        if !self.is_ours(req) || req.request_type != RequestType::Class {
            return Verdict::Leave;
        }
        match req.request {
            REQ_SET_IDLE => {
                self.state.set_idle((req.value / 256) as u32 * 4);
                Verdict::Accept
            },
            // No output or writable feature reports (SET_REPORT); boot
            // protocol is not offered, so SET_PROTOCOL is rejected too.
            _ => Verdict::Reject,
        }
    }
}

/// Accepts with these bytes.
fn accept<const N: usize>(b: &[u8; N], buf: &mut [u8]) -> (reply: Reply)
    requires
        N <= old(buf)@.len(),
    ensures
        reply == Reply::Accept(N),
        final(buf)@ == b@ + old(buf)@.skip(N as int),
{
    let _ = hid::copy_report(b, buf);
    Reply::Accept(N)
}

} // verus!
