//! The composite HID class state machine: two interfaces, descriptor
//! service, input-report streaming with endpoint backpressure, and the
//! decoding of control transfers into configuration commands.
//!
//! Everything here works on plain request values; the device adapter owns
//! the USB stack, forwards each control transfer's fields and data, and
//! performs the endpoint writes the decisions here call for.

use vstd::prelude::*;

use crate::cmd_queue::{queue_enqueue, queue_items, queue_new, QUEUE_CAPACITY};
use crate::key_code::{valid_usage, KbHidReport, KeyCode};
use crate::packets::{AppCommand, Request, VendorCommand};

verus! {

/// USB vendor id of the keypad.
pub const VID: u16 = 0x1209;

/// USB product id of the keypad.
pub const PID: u16 = 0x000D;

/// Interface number of the boot keyboard.
pub const KEYBOARD_INTERFACE: u8 = 0;

/// Interface number of the vendor control interface.
pub const CTRL_INTERFACE: u8 = 1;

/// `bcdHID` of the class descriptors.
pub const SPECIFICATION_RELEASE: u16 = 0x111;

/// `bInterfaceClass` of an HID interface.
pub const INTERFACE_CLASS_HID: u8 = 0x03;

/// `bInterfaceSubClass`: no boot subclass advertised.
pub const SUBCLASS_NONE: u8 = 0x00;

/// `bInterfaceProtocol` of a boot keyboard.
pub const KEYBOARD_PROTOCOL: u8 = 0x01;

/// Request code of GetDescriptor.
pub const REQUEST_GET_DESCRIPTOR: u8 = 6;

/// Direction of a control request.
#[derive(Debug, Clone, Copy, PartialEq, Eq, Structural)]
pub enum UsbDirection {
    Out,
    In,
}

/// Type of a control request.
#[derive(Debug, Clone, Copy, PartialEq, Eq, Structural)]
pub enum RequestType {
    Standard,
    Class,
    Vendor,
    Reserved,
}

/// Recipient of a control request.
#[derive(Debug, Clone, Copy, PartialEq, Eq, Structural)]
pub enum Recipient {
    Device,
    Interface,
    Endpoint,
    Other,
    Reserved,
}

/// The decoded setup packet of a control transfer, as the device adapter
/// hands it over.
#[derive(Debug, Clone, Copy, PartialEq, Eq, Structural)]
pub struct ControlRequest {
    pub direction: UsbDirection,
    pub request_type: RequestType,
    pub recipient: Recipient,
    pub request: u8,
    pub value: u16,
    pub index: u16,
    pub length: u16,
}

/// The boot-keyboard report descriptor.
pub open spec fn spec_key_report_descriptor() -> Seq<u8> {
    seq![
        0x05u8, 0x01,  // Usage Page (Generic Desktop)
        0x09, 0x06,  // Usage (Keyboard)
        0xA1, 0x01,  // Collection (Application)
        0x05, 0x07,  //   Usage Page (Keyboard/Keypad)
        0x19, 0xE0,  //   Usage Minimum (0xE0)
        0x29, 0xE7,  //   Usage Maximum (0xE7)
        0x15, 0x00,  //   Logical Minimum (0)
        0x25, 0x01,  //   Logical Maximum (1)
        0x75, 0x01,  //   Report Size (1)
        0x95, 0x08,  //   Report Count (8)
        0x81, 0x02,  //   Input (Data, Variable, Absolute): the modifiers
        0x95, 0x01,  //   Report Count (1)
        0x75, 0x08,  //   Report Size (8)
        0x81, 0x03,  //   Input (Constant): the reserved byte
        0x95, 0x06,  //   Report Count (6)
        0x75, 0x08,  //   Report Size (8)
        0x15, 0x00,  //   Logical Minimum (0)
        0x26, 0xFB, 0x00,  //   Logical Maximum (0xFB)
        0x05, 0x07,  //   Usage Page (Keyboard/Keypad)
        0x19, 0x00,  //   Usage Minimum (0)
        0x29, 0xFB,  //   Usage Maximum (0xFB)
        0x81, 0x00,  //   Input (Data, Array): the six key slots
        0xC0,  // End Collection
    ]
}

/// The vendor control interface's report descriptor: one two-byte feature
/// report on the vendor-defined usage page.
pub open spec fn spec_ctrl_report_descriptor() -> Seq<u8> {
    seq![
        0x06u8, 0x00, 0xFF,  // Usage Page (vendor defined)
        0x09, 0x01,  // Usage (vendor 1)
        0xA1, 0x01,  // Collection (Application)
        0x09, 0x01,  //   Usage (vendor 1)
        0x15, 0x00,  //   Logical Minimum (0)
        0x26, 0xFF, 0x00,  //   Logical Maximum (255)
        0x75, 0x08,  //   Report Size (8)
        0x95, 0x02,  //   Report Count (2)
        0xB1, 0x02,  //   Feature (Data, Variable, Absolute)
        0xC0,  // End Collection
    ]
}

/// The boot-keyboard report descriptor, byte-exact.
pub fn key_report_descriptor() -> (r: Vec<u8>)
    ensures
        r@ == spec_key_report_descriptor(),
        r@.len() == 46,
{
    let r = vec![
        0x05u8, 0x01, 0x09, 0x06, 0xA1, 0x01, 0x05, 0x07, 0x19, 0xE0, 0x29, 0xE7, 0x15, 0x00,
        0x25, 0x01, 0x75, 0x01, 0x95, 0x08, 0x81, 0x02, 0x95, 0x01, 0x75, 0x08, 0x81, 0x03,
        0x95, 0x06, 0x75, 0x08, 0x15, 0x00, 0x26, 0xFB, 0x00, 0x05, 0x07, 0x19, 0x00, 0x29,
        0xFB, 0x81, 0x00, 0xC0,
    ];
    proof {
        assert(r@ =~= spec_key_report_descriptor());
    }
    r
}

/// The control interface's report descriptor, byte-exact.
pub fn ctrl_report_descriptor() -> (r: Vec<u8>)
    ensures
        r@ == spec_ctrl_report_descriptor(),
        r@.len() == 21,
{
    let r = vec![
        0x06u8, 0x00, 0xFF, 0x09, 0x01, 0xA1, 0x01, 0x09, 0x01, 0x15, 0x00, 0x26, 0xFF, 0x00,
        0x75, 0x08, 0x95, 0x02, 0xB1, 0x02, 0xC0,
    ];
    proof {
        assert(r@ =~= spec_ctrl_report_descriptor());
    }
    r
}

/// Payload of the class-specific HID descriptor referencing a report
/// descriptor of the given length.
pub open spec fn spec_hid_descriptor_payload(descriptor_len: u16) -> Seq<u8> {
    seq![
        (SPECIFICATION_RELEASE % 256) as u8,
        (SPECIFICATION_RELEASE / 256) as u8,
        0u8,  // country code: not supported
        1u8,  // one class descriptor follows
        0x22u8,  // it is a report descriptor
        (descriptor_len % 256) as u8,
        (descriptor_len / 256) as u8,
    ]
}

/// Builds the class-specific HID descriptor payload.
pub fn hid_descriptor_payload(descriptor_len: u16) -> (r: Vec<u8>)
    ensures
        r@ == spec_hid_descriptor_payload(descriptor_len),
        r@.len() == 7,
{
    let lo = (descriptor_len % 256) as u8;
    let hi = (descriptor_len / 256) as u8;
    let r = vec![0x11u8, 0x01, 0x00, 0x01, 0x22, lo, hi];
    proof {
        assert(r@ =~= spec_hid_descriptor_payload(descriptor_len));
    }
    r
}

/// One piece of the configuration descriptor set, in emission order.
#[derive(Debug)]
pub enum DescriptorChunk {
    /// An interface descriptor.
    Interface { number: u8, class: u8, subclass: u8, protocol: u8 },
    /// A class-specific descriptor with its type byte and payload.
    Class { descriptor_type: u8, payload: Vec<u8> },
    /// The keyboard's interrupt-IN endpoint.
    KeyboardEndpoint,
    /// The control interface's interrupt-IN endpoint; present only to
    /// satisfy host drivers, never written to.
    DummyEndpoint,
}

/// The decision a control-IN transfer gets.
#[derive(Debug)]
pub enum ControlInAction {
    /// Accept the transfer with exactly these bytes.
    SendBytes(Vec<u8>),
    /// Reject the transfer.
    Reject,
    /// Not addressed to this class: leave the transfer alone.
    Ignore,
}

/// Spec-level counterpart of `ControlInAction`.
pub enum SpecInAction {
    Bytes(Seq<u8>),
    Rejected,
    Ignored,
}

/// `min(len, limit)` as a prefix length.
pub open spec fn clip_len(len: int, limit: int) -> int {
    if limit < len {
        limit
    } else {
        len
    }
}

/// What a control-IN request gets, per the class protocol: a report
/// descriptor request is served with the matching descriptor, clipped to
/// the requested length; GetReport answers with the last keyboard report
/// (or zeroes for the control interface) if the requested length is large
/// enough and the report type is Input or Feature; everything else is left
/// alone.
pub open spec fn spec_control_in(report: Seq<u8>, req: ControlRequest) -> SpecInAction {
    if req.request_type is Standard && req.recipient is Interface {
        if req.request == REQUEST_GET_DESCRIPTOR && req.value / 256 == 0x22 {
            let iface = req.index;
            if iface == KEYBOARD_INTERFACE as u16 {
                SpecInAction::Bytes(
                    spec_key_report_descriptor().take(clip_len(46, req.length as int)),
                )
            } else if iface == CTRL_INTERFACE as u16 {
                SpecInAction::Bytes(
                    spec_ctrl_report_descriptor().take(clip_len(21, req.length as int)),
                )
            } else {
                SpecInAction::Ignored
            }
        } else {
            SpecInAction::Ignored
        }
    } else if req.request_type is Class && req.recipient is Interface {
        if Request::spec_new(req.request) == Some(Request::GetReport) {
            let report_type = crate::packets::spec_report_type((req.value / 256) as u8);
            let iface = (req.index % 256) as u8;
            if iface == KEYBOARD_INTERFACE || iface == CTRL_INTERFACE {
                let response = if iface == KEYBOARD_INTERFACE {
                    report
                } else {
                    seq![0u8, 0, 0, 0, 0, 0, 0, 0]
                };
                if (req.length as int) < response.len() {
                    SpecInAction::Rejected
                } else if report_type is Input || report_type is Feature {
                    SpecInAction::Bytes(response)
                } else {
                    SpecInAction::Rejected
                }
            } else {
                SpecInAction::Ignored
            }
        } else {
            SpecInAction::Ignored
        }
    } else {
        SpecInAction::Ignored
    }
}

/// Whether a control-OUT transfer is addressed to the control interface as
/// a SetReport.
pub open spec fn spec_control_out_matches(req: ControlRequest) -> bool {
    &&& req.request_type is Class
    &&& req.recipient is Interface
    &&& req.index == CTRL_INTERFACE as u16
    &&& Request::spec_new(req.request) == Some(Request::SetReport)
}

/// The command carried by a control-OUT payload: exactly two bytes, the
/// first a vendor command; a remap also needs its value byte to be a valid
/// usage code, while persist ignores it.
pub open spec fn spec_decode_command(data: Seq<u8>) -> Option<AppCommand> {
    if data.len() != 2 {
        None
    } else {
        match VendorCommand::spec_from_byte(data[0]) {
            Some(VendorCommand::Save) => Some(AppCommand::Save),
            Some(VendorCommand::GetOSFeature) => None,
            Some(vc) => if valid_usage(data[1]) {
                AppCommand::spec_from_req_value(vc, KeyCode { code: data[1] })
            } else {
                None
            },
            None => None,
        }
    }
}

/// Decodes a control-OUT payload into a configuration command.
pub fn decode_command(data: &Vec<u8>) -> (r: Option<AppCommand>)
    ensures
        r == spec_decode_command(data@),
        r matches Some(c) ==> c.wf(),
{
    if data.len() != 2 {
        return None;
    }
    match VendorCommand::from_byte(data[0]) {
        Some(VendorCommand::Save) => Some(AppCommand::Save),
        Some(VendorCommand::GetOSFeature) => None,
        Some(vc) => match KeyCode::try_from_byte(data[1]) {
            Some(k) => AppCommand::from_req_value(vc, k),
            None => None,
        },
        None => None,
    }
}

/// The HID class state: the two interface numbers, the backpressure flag
/// of the interrupt-IN endpoint, the last keyboard report, and the command
/// queue filled by the control channel.
pub struct Keykey {
    interface: u8,
    ctrl_interface: u8,
    endpoint_addr: u8,
    expect_interrupt_in_complete: bool,
    report: KbHidReport,
    cmd_queue: heapless::spsc::Queue<AppCommand, 9>,
}

impl Keykey {
    /// The keyboard interface number.
    pub closed spec fn spec_interface(&self) -> u8 {
        self.interface
    }

    /// The control interface number.
    pub closed spec fn spec_ctrl_interface(&self) -> u8 {
        self.ctrl_interface
    }

    /// The address of the keyboard's interrupt-IN endpoint.
    pub closed spec fn spec_endpoint_addr(&self) -> u8 {
        self.endpoint_addr
    }

    /// Whether a full-report transfer is still in flight.
    pub closed spec fn spec_expect(&self) -> bool {
        self.expect_interrupt_in_complete
    }

    /// The last keyboard report set.
    pub closed spec fn spec_report(&self) -> Seq<u8> {
        self.report@
    }

    /// The commands decoded but not yet consumed, oldest first.
    pub closed spec fn spec_queue(&self) -> Seq<AppCommand> {
        queue_items(self.cmd_queue)
    }

    /// Class invariant: the fixed interface numbers, a full-size report,
    /// and a queue within capacity holding only well-formed commands.
    pub open spec fn wf(&self) -> bool {
        &&& self.spec_interface() == KEYBOARD_INTERFACE
        &&& self.spec_ctrl_interface() == CTRL_INTERFACE
        &&& self.spec_report().len() == 8
        &&& self.spec_queue().len() <= QUEUE_CAPACITY
        &&& forall|i: int| 0 <= i < self.spec_queue().len() ==> (#[trigger] self.spec_queue()[i]).wf()
    }

    /// A fresh class instance: all-released report, no transfer in flight,
    /// an empty command queue.
    pub fn new(endpoint_addr: u8) -> (k: Keykey)
        ensures
            k.wf(),
            !k.spec_expect(),
            k.spec_report() =~= seq![0u8, 0, 0, 0, 0, 0, 0, 0],
            k.spec_queue() == Seq::<AppCommand>::empty(),
            k.spec_endpoint_addr() == endpoint_addr,
    {
        Keykey {
            interface: KEYBOARD_INTERFACE,
            ctrl_interface: CTRL_INTERFACE,
            endpoint_addr,
            expect_interrupt_in_complete: false,
            report: KbHidReport::new(),
            cmd_queue: queue_new(),
        }
    }

    /// The bytes of the last keyboard report.
    pub fn report_bytes(&self) -> (r: Vec<u8>)
        requires
            self.wf(),
        ensures
            r@ == self.spec_report(),
    {
        let src = self.report.as_bytes();
        let mut r: Vec<u8> = Vec::new();
        let mut i: usize = 0;
        while i < src.len()
            invariant
                0 <= i <= src@.len(),
                r@.len() == i,
                src@ == self.spec_report(),
                forall|t: int| 0 <= t < i ==> r@[t] == src@[t],
            decreases src@.len() - i,
        {
            r.push(src[i]);
            i = i + 1;
        }
        proof {
            assert(r@ =~= self.spec_report());
        }
        r
    }

    /// Stores the report to stream next; reports the report changed.
    pub fn set_keyboard_report(&mut self, report: KbHidReport) -> (changed: bool)
        requires
            old(self).wf(),
            report@.len() == 8,
        ensures
            final(self).wf(),
            changed == (report@ != old(self).spec_report()),
            changed ==> final(self).spec_report() == report@,
            !changed ==> final(self).spec_report() == old(self).spec_report(),
            final(self).spec_expect() == old(self).spec_expect(),
            final(self).spec_queue() == old(self).spec_queue(),
            final(self).spec_endpoint_addr() == old(self).spec_endpoint_addr(),
    {
        if report == self.report {
            false
        } else {
            self.report = report;
            true
        }
    }

    /// Write guard of the interrupt-IN endpoint: decides whether a payload of
    /// `len` bytes may be handed to the endpoint now.  While a full-report
    /// transfer is in flight nothing is written; otherwise the write may
    /// proceed, and a payload of a full report arms the backpressure flag
    /// until the endpoint-complete interrupt clears it.
    pub fn write(&mut self, len: usize) -> (go: bool)
        requires
            old(self).wf(),
        ensures
            final(self).wf(),
            old(self).spec_expect() ==> (!go && *final(self) == *old(self)),
            !old(self).spec_expect() ==> (go && final(self).spec_expect() == (len >= 8)),
            final(self).spec_report() == old(self).spec_report(),
            final(self).spec_queue() == old(self).spec_queue(),
            final(self).spec_endpoint_addr() == old(self).spec_endpoint_addr(),
    {
        if self.expect_interrupt_in_complete {
            return false;
        }
        if len >= 8 {
            self.expect_interrupt_in_complete = true;
        }
        true
    }

    /// Clears the backpressure flag when the keyboard endpoint's transfer
    /// completes; a completion on any other endpoint changes nothing.
    pub fn endpoint_in_complete(&mut self, addr: u8)
        requires
            old(self).wf(),
        ensures
            final(self).wf(),
            addr == old(self).spec_endpoint_addr() ==> !final(self).spec_expect(),
            addr != old(self).spec_endpoint_addr() ==> final(self).spec_expect() == old(self).spec_expect(),
            final(self).spec_report() == old(self).spec_report(),
            final(self).spec_queue() == old(self).spec_queue(),
            final(self).spec_endpoint_addr() == old(self).spec_endpoint_addr(),
    {
        if addr == self.endpoint_addr {
            self.expect_interrupt_in_complete = false;
        }
    }

    /// A bus reset clears the backpressure flag.
    pub fn reset(&mut self)
        requires
            old(self).wf(),
        ensures
            final(self).wf(),
            !final(self).spec_expect(),
            final(self).spec_report() == old(self).spec_report(),
            final(self).spec_queue() == old(self).spec_queue(),
            final(self).spec_endpoint_addr() == old(self).spec_endpoint_addr(),
    {
        self.expect_interrupt_in_complete = false;
    }

    /// The configuration descriptor plan, in emission order: the keyboard
    /// interface with its HID descriptor and interrupt endpoint, then the
    /// control interface with its own HID descriptor and placeholder
    /// endpoint.
    pub fn get_configuration_descriptors(&self) -> (plan: Vec<DescriptorChunk>)
        requires
            self.wf(),
        ensures
            plan@.len() == 6,
            plan@[0] matches DescriptorChunk::Interface { number, class, subclass, protocol }
                && number == KEYBOARD_INTERFACE && class == INTERFACE_CLASS_HID && subclass
                == SUBCLASS_NONE && protocol == KEYBOARD_PROTOCOL,
            plan@[1] matches DescriptorChunk::Class { descriptor_type, payload }
                && descriptor_type == 0x21 && payload@ == spec_hid_descriptor_payload(46),
            plan@[2] is KeyboardEndpoint,
            plan@[3] matches DescriptorChunk::Interface { number, class, subclass, protocol }
                && number == CTRL_INTERFACE && class == INTERFACE_CLASS_HID && subclass
                == SUBCLASS_NONE && protocol == 0,
            plan@[4] matches DescriptorChunk::Class { descriptor_type, payload }
                && descriptor_type == 0x21 && payload@ == spec_hid_descriptor_payload(21),
            plan@[5] is DummyEndpoint,
    {
        let mut plan: Vec<DescriptorChunk> = Vec::new();
        plan.push(
            DescriptorChunk::Interface {
                number: self.interface,
                class: INTERFACE_CLASS_HID,
                subclass: SUBCLASS_NONE,
                protocol: KEYBOARD_PROTOCOL,
            },
        );
        plan.push(
            DescriptorChunk::Class { descriptor_type: 0x21, payload: hid_descriptor_payload(46) },
        );
        plan.push(DescriptorChunk::KeyboardEndpoint);
        plan.push(
            DescriptorChunk::Interface {
                number: self.ctrl_interface,
                class: INTERFACE_CLASS_HID,
                subclass: SUBCLASS_NONE,
                protocol: 0,
            },
        );
        plan.push(
            DescriptorChunk::Class { descriptor_type: 0x21, payload: hid_descriptor_payload(21) },
        );
        plan.push(DescriptorChunk::DummyEndpoint);
        plan
    }

    /// Decides a control-IN transfer per the class protocol.
    pub fn control_in(&self, req: &ControlRequest) -> (a: ControlInAction)
        requires
            self.wf(),
        ensures
            ({
                let sa = spec_control_in(self.spec_report(), *req);
                &&& (a is Ignore <==> sa is Ignored)
                &&& (a is Reject <==> sa is Rejected)
                &&& (a matches ControlInAction::SendBytes(v) ==> (sa matches SpecInAction::Bytes(b)
                    && v@ == b))
            }),
    {
        match (req.request_type, req.recipient) {
            (RequestType::Standard, Recipient::Interface) => {
                if req.request == REQUEST_GET_DESCRIPTOR && req.value / 256 == 0x22 {
                    let iface = req.index;
                    if iface == KEYBOARD_INTERFACE as u16 {
                        let desc = key_report_descriptor();
                        let clipped = prefix_bytes(&desc, req.length as usize);
                        ControlInAction::SendBytes(clipped)
                    } else if iface == CTRL_INTERFACE as u16 {
                        let desc = ctrl_report_descriptor();
                        let clipped = prefix_bytes(&desc, req.length as usize);
                        ControlInAction::SendBytes(clipped)
                    } else {
                        ControlInAction::Ignore
                    }
                } else {
                    ControlInAction::Ignore
                }
            },
            (RequestType::Class, Recipient::Interface) => {
                match Request::new(req.request) {
                    Some(Request::GetReport) => self.get_report(req),
                    _ => ControlInAction::Ignore,
                }
            },
            _ => ControlInAction::Ignore,
        }
    }

    /// Serves a GetReport request: the last keyboard report on the
    /// keyboard interface, zeroes on the control interface.
    fn get_report(&self, req: &ControlRequest) -> (a: ControlInAction)
        requires
            self.wf(),
            req.request_type is Class,
            req.recipient is Interface,
            Request::spec_new(req.request) == Some(Request::GetReport),
        ensures
            ({
                let sa = spec_control_in(self.spec_report(), *req);
                &&& (a is Ignore <==> sa is Ignored)
                &&& (a is Reject <==> sa is Rejected)
                &&& (a matches ControlInAction::SendBytes(v) ==> (sa matches SpecInAction::Bytes(b)
                    && v@ == b))
            }),
    {
        let report_type_byte = (req.value / 256) as u8;
        let iface = (req.index % 256) as u8;
        let response: Vec<u8> = if iface == KEYBOARD_INTERFACE {
            self.report_bytes()
        } else if iface == CTRL_INTERFACE {
            let z = vec![0u8, 0, 0, 0, 0, 0, 0, 0];
            proof {
                assert(z@ =~= seq![0u8, 0, 0, 0, 0, 0, 0, 0]);
            }
            z
        } else {
            return ControlInAction::Ignore;
        };
        if (req.length as usize) < response.len() {
            return ControlInAction::Reject;
        }
        let rt = crate::packets::ReportType::from(report_type_byte);
        match rt {
            crate::packets::ReportType::Input => ControlInAction::SendBytes(response),
            crate::packets::ReportType::Feature => ControlInAction::SendBytes(response),
            _ => ControlInAction::Reject,
        }
    }

    /// Decodes a control-OUT transfer and queues its command.  The
    /// transfer is accepted iff it is a SetReport on the control interface
    /// whose two data bytes decode to a command and the queue has room; a
    /// full queue turns the transfer away so the host retries.
    pub fn control_out(&mut self, req: &ControlRequest, data: &Vec<u8>) -> (accepted: bool)
        requires
            old(self).wf(),
        ensures
            final(self).wf(),
            final(self).spec_report() == old(self).spec_report(),
            final(self).spec_expect() == old(self).spec_expect(),
            final(self).spec_endpoint_addr() == old(self).spec_endpoint_addr(),
            ({
                let dec = if spec_control_out_matches(*req) {
                    spec_decode_command(data@)
                } else {
                    None
                };
                match dec {
                    Some(c) => {
                        &&& (old(self).spec_queue().len() < QUEUE_CAPACITY ==> (accepted
                            && final(self).spec_queue() == old(self).spec_queue().push(c)))
                        &&& (old(self).spec_queue().len() >= QUEUE_CAPACITY ==> (!accepted
                            && final(self).spec_queue() == old(self).spec_queue()))
                    },
                    None => !accepted && final(self).spec_queue() == old(self).spec_queue(),
                }
            }),
    {
        let is_class = match req.request_type {
            RequestType::Class => true,
            _ => false,
        };
        let is_iface = match req.recipient {
            Recipient::Interface => true,
            _ => false,
        };
        if is_class && is_iface && req.index == CTRL_INTERFACE as u16 {
            match Request::new(req.request) {
                Some(Request::SetReport) => {
                    match decode_command(data) {
                        Some(cmd) => {
                            match queue_enqueue(&mut self.cmd_queue, cmd) {
                                Ok(()) => true,
                                Err(_) => false,
                            }
                        },
                        None => false,
                    }
                },
                _ => false,
            }
        } else {
            false
        }
    }

    /// Removes the oldest queued command, if any; the scan task consumes
    /// one per tick.
    pub fn dequeue_command(&mut self) -> (r: Option<AppCommand>)
        requires
            old(self).wf(),
        ensures
            final(self).wf(),
            final(self).spec_report() == old(self).spec_report(),
            final(self).spec_expect() == old(self).spec_expect(),
            final(self).spec_endpoint_addr() == old(self).spec_endpoint_addr(),
            old(self).spec_queue().len() == 0 ==> (r is None
                && final(self).spec_queue() == old(self).spec_queue()),
            old(self).spec_queue().len() > 0 ==> (r == Some(old(self).spec_queue()[0])
                && final(self).spec_queue() == old(self).spec_queue().drop_first()),
            r matches Some(c) ==> c.wf(),
    {
        crate::cmd_queue::queue_dequeue(&mut self.cmd_queue)
    }
}

/// The first `n` bytes of `v`, or all of it if `n` is larger.
pub fn prefix_bytes(v: &Vec<u8>, n: usize) -> (r: Vec<u8>)
    ensures
        r@ == v@.take(clip_len(v@.len() as int, n as int)),
{
    let limit = if n < v.len() {
        n
    } else {
        v.len()
    };
    let mut r: Vec<u8> = Vec::new();
    let mut i: usize = 0;
    while i < limit
        invariant
            0 <= i <= limit,
            limit <= v@.len(),
            r@.len() == i,
            forall|t: int| 0 <= t < i ==> r@[t] == v@[t],
        decreases limit - i,
    {
        r.push(v[i]);
        i = i + 1;
    }
    proof {
        assert(r@ =~= v@.take(clip_len(v@.len() as int, n as int)));
    }
    r
}

} // verus!
