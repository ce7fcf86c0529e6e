//! Wire-level constants and decoders of the control channel: HID class
//! requests, descriptor types, report types, and the vendor command set the
//! host uses to reconfigure the keypad.

use vstd::prelude::*;

use crate::key_code::KeyCode;

verus! {

/// Descriptor types of the HID class.
#[derive(Debug, Clone, Copy, PartialEq, Eq, Structural)]
pub enum DescriptorType {
    Hid,
    Report,
    Physical,
}

impl DescriptorType {
    /// The wire value of the descriptor type.
    pub open spec fn spec_value(self) -> u8 {
        match self {
            DescriptorType::Hid => 0x21,
            DescriptorType::Report => 0x22,
            DescriptorType::Physical => 0x23,
        }
    }

    /// The wire value of the descriptor type.
    #[verifier::when_used_as_spec(spec_value)]
    pub fn value(self) -> (r: u8)
        ensures
            r == self.spec_value(),
    {
        match self {
            DescriptorType::Hid => 0x21,
            DescriptorType::Report => 0x22,
            DescriptorType::Physical => 0x23,
        }
    }
}

/// Class-specific HID requests.
#[derive(Debug, Clone, Copy, PartialEq, Eq, Structural)]
pub enum Request {
    GetReport,
    GetIdle,
    GetProtocol,
    SetReport,
    SetIdle,
    SetProtocol,
}

impl Request {
    /// The request decoded from one request byte, if any.
    pub open spec fn spec_new(u: u8) -> Option<Request> {
        match u {
            0x01 => Some(Request::GetReport),
            0x02 => Some(Request::GetIdle),
            0x03 => Some(Request::GetProtocol),
            0x09 => Some(Request::SetReport),
            0x0a => Some(Request::SetIdle),
            0x0b => Some(Request::SetProtocol),
            _ => None,
        }
    }

    /// Decodes one request byte.
    pub fn new(u: u8) -> (r: Option<Request>)
        ensures
            r == Request::spec_new(u),
    {
        match u {
            0x01 => Some(Request::GetReport),
            0x02 => Some(Request::GetIdle),
            0x03 => Some(Request::GetProtocol),
            0x09 => Some(Request::SetReport),
            0x0a => Some(Request::SetIdle),
            0x0b => Some(Request::SetProtocol),
            _ => None,
        }
    }
}

/// Report types named by the high byte of `wValue` in Get/SetReport.
#[derive(Debug, Clone, Copy, PartialEq, Eq, Structural)]
pub enum ReportType {
    Input,
    Output,
    Feature,
    Reserved(u8),
}

/// The report type denoted by one byte.
pub open spec fn spec_report_type(val: u8) -> ReportType {
    match val {
        1 => ReportType::Input,
        2 => ReportType::Output,
        3 => ReportType::Feature,
        _ => ReportType::Reserved(val),
    }
}

impl From<u8> for ReportType {
    fn from(val: u8) -> (r: ReportType) {
        match val {
            1 => ReportType::Input,
            2 => ReportType::Output,
            3 => ReportType::Feature,
            _ => ReportType::Reserved(val),
        }
    }
}

impl vstd::std_specs::convert::FromSpecImpl<u8> for ReportType {
    open spec fn obeys_from_spec() -> bool {
        true
    }

    open spec fn from_spec(val: u8) -> ReportType {
        spec_report_type(val)
    }
}

/// Commands of the vendor control protocol, as sent on the wire.
#[derive(Debug, Clone, Copy, PartialEq, Eq, Structural)]
pub enum VendorCommand {
    Set1,
    Set2,
    Set3,
    Save,
    /// Request byte reserved for the OS feature descriptor exchange.
    GetOSFeature,
}

impl VendorCommand {
    /// The wire value of the command: remaps are 1..3, persist is 4, and the
    /// OS feature request shares the byte `F`.
    pub open spec fn spec_value(self) -> u8 {
        match self {
            VendorCommand::Set1 => 1,
            VendorCommand::Set2 => 2,
            VendorCommand::Set3 => 3,
            VendorCommand::Save => 4,
            VendorCommand::GetOSFeature => 70,
        }
    }

    /// The wire value of the command.
    #[verifier::when_used_as_spec(spec_value)]
    pub fn value(self) -> (r: u8)
        ensures
            r == self.spec_value(),
    {
        match self {
            VendorCommand::Set1 => 1,
            VendorCommand::Set2 => 2,
            VendorCommand::Set3 => 3,
            VendorCommand::Save => 4,
            VendorCommand::GetOSFeature => 70,
        }
    }

    /// The command decoded from one byte, if any.
    pub open spec fn spec_from_byte(v: u8) -> Option<VendorCommand> {
        match v {
            1 => Some(VendorCommand::Set1),
            2 => Some(VendorCommand::Set2),
            3 => Some(VendorCommand::Set3),
            4 => Some(VendorCommand::Save),
            70 => Some(VendorCommand::GetOSFeature),
            _ => None,
        }
    }

    /// Decodes one command byte.
    pub fn from_byte(v: u8) -> (r: Option<VendorCommand>)
        ensures
            r == VendorCommand::spec_from_byte(v),
    {
        match v {
            1 => Some(VendorCommand::Set1),
            2 => Some(VendorCommand::Set2),
            3 => Some(VendorCommand::Set3),
            4 => Some(VendorCommand::Save),
            70 => Some(VendorCommand::GetOSFeature),
            _ => None,
        }
    }
}

/// A decoded configuration command, as consumed by the scan task.
#[derive(Debug, Clone, Copy, PartialEq, Eq, Structural)]
pub enum AppCommand {
    Set1(KeyCode),
    Set2(KeyCode),
    Set3(KeyCode),
    Save,
}

impl AppCommand {
    /// A command is well formed iff the key it carries, if any, is a valid
    /// usage code.
    pub open spec fn wf(self) -> bool {
        match self {
            AppCommand::Set1(k) => k.wf(),
            AppCommand::Set2(k) => k.wf(),
            AppCommand::Set3(k) => k.wf(),
            AppCommand::Save => true,
        }
    }

    /// The command built from a decoded vendor request and its value byte.
    pub open spec fn spec_from_req_value(req: VendorCommand, value: KeyCode) -> Option<AppCommand> {
        match req {
            VendorCommand::Set1 => Some(AppCommand::Set1(value)),
            VendorCommand::Set2 => Some(AppCommand::Set2(value)),
            VendorCommand::Set3 => Some(AppCommand::Set3(value)),
            VendorCommand::Save => Some(AppCommand::Save),
            VendorCommand::GetOSFeature => None,
        }
    }

    /// Builds the command for a decoded vendor request; the OS feature
    /// request carries no configuration command.
    pub fn from_req_value(req: VendorCommand, value: KeyCode) -> (r: Option<AppCommand>)
        ensures
            r == AppCommand::spec_from_req_value(req, value),
    {
        match req {
            VendorCommand::Set1 => Some(AppCommand::Set1(value)),
            VendorCommand::Set2 => Some(AppCommand::Set2(value)),
            VendorCommand::Set3 => Some(AppCommand::Set3(value)),
            VendorCommand::Save => Some(AppCommand::Save),
            VendorCommand::GetOSFeature => None,
        }
    }
}

} // verus!
