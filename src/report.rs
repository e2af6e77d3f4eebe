//! Outcome records, one for each target whose capture was saved.

use vstd::prelude::*;
use crate::target::{output_file, output_path, Target};

verus! {

/// A saved VNC capture: the target and the image's path relative to the
/// output directory.
#[derive(Debug)]
pub struct VncOutput {
    target: String,
    file: String,
}

/// A saved capture of a web or RDP target.
#[derive(Debug)]
pub struct CaptureOutput {
    pub target: String,
    pub file: String,
}

/// The message that the reporter receives for each saved capture, tagged
/// by protocol.
#[derive(Debug)]
pub enum ReportMessage {
    WebOutput(CaptureOutput),
    RdpOutput(CaptureOutput),
    VncOutput(VncOutput),
}

impl VncOutput {
    pub closed spec fn spec_target(&self) -> Seq<char> {
        self.target@
    }

    pub closed spec fn spec_file(&self) -> Seq<char> {
        self.file@
    }

    /// The record of a target's saved capture, `vnc/<file name>.png`.
    pub fn for_target(target: &Target) -> (r: VncOutput)
        ensures
            r.spec_target() == target.text(),
            r.spec_file() == output_path("vnc"@, target.text()),
    {
        VncOutput { target: target.to_text(), file: output_file("vnc", target) }
    }

    pub fn target(&self) -> (r: &str)
        ensures
            r@ == self.spec_target(),
    {
        self.target.as_str()
    }

    pub fn file(&self) -> (r: &str)
        ensures
            r@ == self.spec_file(),
    {
        self.file.as_str()
    }

    /// Wraps the record as a reporter message.
    pub fn as_report_message(self) -> (r: ReportMessage)
        ensures
            r == ReportMessage::VncOutput(self),
    {
        ReportMessage::VncOutput(self)
    }
}

impl ReportMessage {
    /// The target that the message is about.
    pub open spec fn spec_target(&self) -> Seq<char> {
        match self {
            ReportMessage::WebOutput(o) => o.target@,
            ReportMessage::RdpOutput(o) => o.target@,
            ReportMessage::VncOutput(o) => o.spec_target(),
        }
    }

    /// The saved image's relative path.
    pub open spec fn spec_file(&self) -> Seq<char> {
        match self {
            ReportMessage::WebOutput(o) => o.file@,
            ReportMessage::RdpOutput(o) => o.file@,
            ReportMessage::VncOutput(o) => o.spec_file(),
        }
    }

    pub fn target(&self) -> (r: &str)
        ensures
            r@ == self.spec_target(),
    {
        match self {
            ReportMessage::WebOutput(o) => o.target.as_str(),
            ReportMessage::RdpOutput(o) => o.target.as_str(),
            ReportMessage::VncOutput(o) => o.target(),
        }
    }

    pub fn file(&self) -> (r: &str)
        ensures
            r@ == self.spec_file(),
    {
        match self {
            ReportMessage::WebOutput(o) => o.file.as_str(),
            ReportMessage::RdpOutput(o) => o.file.as_str(),
            ReportMessage::VncOutput(o) => o.file(),
        }
    }
}

} // verus!
