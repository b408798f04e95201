//! The screens of the wizard and the operations it offers.

use vstd::prelude::*;

verus! {

/// A screen of the wizard.
#[derive(Debug, Clone, Copy, PartialEq, Eq, Structural)]
pub enum Step {
    Interface,
    Identify,
    Unlock,
    Operation,
    Firmware,
    Preflight,
    Confirm,
    Flashing,
    Done,
}

pub const BLURB_INTERFACE: &'static str =
    "Pick the interface you are using to reach the car. Nothing is sent to the \
    vehicle on this screen.";

pub const BLURB_IDENTIFY: &'static str =
    "The wizard reads identification records from each control module address and \
    works out what is connected.";

pub const BLURB_UNLOCK: &'static str =
    "A Simos ECU only accepts modified software once its bootloader has been \
    unlocked. This checks whether that has already been done.";

pub const BLURB_OPERATION: &'static str =
    "A calibration flash writes only the tune. A full flash rewrites the \
    application software as well, and a relock does the same without patching \
    the bootloader. All of them rewrite the calibration area, so all are checked \
    against the immobilizer.";

pub const BLURB_PREFLIGHT: &'static str =
    "Checksums are corrected and the ECU is checked for conditions that would \
    leave it unable to start.";

pub const BLURB_FLASHING: &'static str =
    "Do not disconnect the adapter, switch off the ignition, or close this window.";

impl Step {
    /// The title of a screen.
    pub open spec fn spec_title(self) -> Seq<char> {
        match self {
            Step::Interface => "Connect an adapter"@,
            Step::Identify => "Identify the control module"@,
            Step::Unlock => "Unlock status"@,
            Step::Operation => "What do you want to flash?"@,
            Step::Firmware => "Choose the firmware file"@,
            Step::Preflight => "Safety checks"@,
            Step::Confirm => "Confirm"@,
            Step::Flashing => "Flashing"@,
            Step::Done => "Finished"@,
        }
    }

    /// The title of a screen.
    pub fn title(self) -> (s: &'static str)
        ensures
            s@ == self.spec_title(),
    {
        match self {
            Step::Interface => "Connect an adapter",
            Step::Identify => "Identify the control module",
            Step::Unlock => "Unlock status",
            Step::Operation => "What do you want to flash?",
            Step::Firmware => "Choose the firmware file",
            Step::Preflight => "Safety checks",
            Step::Confirm => "Confirm",
            Step::Flashing => "Flashing",
            Step::Done => "Finished",
        }
    }

    /// One sentence telling the user what a screen is for.
    pub open spec fn spec_blurb(self) -> Seq<char> {
        match self {
            Step::Interface => BLURB_INTERFACE@,
            Step::Identify => BLURB_IDENTIFY@,
            Step::Unlock => BLURB_UNLOCK@,
            Step::Operation => BLURB_OPERATION@,
            Step::Firmware => "Choose the file to write. It is inspected before anything is sent."@,
            Step::Preflight => BLURB_PREFLIGHT@,
            Step::Confirm => "This is exactly what will be written. Nothing has been sent yet."@,
            Step::Flashing => BLURB_FLASHING@,
            Step::Done => ""@,
        }
    }

    /// One sentence telling the user what a screen is for.
    pub fn blurb(self) -> (s: &'static str)
        ensures
            s@ == self.spec_blurb(),
    {
        match self {
            Step::Interface => BLURB_INTERFACE,
            Step::Identify => BLURB_IDENTIFY,
            Step::Unlock => BLURB_UNLOCK,
            Step::Operation => BLURB_OPERATION,
            Step::Firmware => "Choose the file to write. It is inspected before anything is sent.",
            Step::Preflight => BLURB_PREFLIGHT,
            Step::Confirm => "This is exactly what will be written. Nothing has been sent yet.",
            Step::Flashing => BLURB_FLASHING,
            Step::Done => "",
        }
    }
}

/// Which flash the user asked for.
#[derive(Debug, Clone, Copy, PartialEq, Eq, Structural)]
pub enum Operation {
    /// Every block in the file, with the CBOOT sample-mode patch applied.
    FullFlash,
    /// Every block in the file, with CBOOT written exactly as the file has it,
    /// which puts the ECU back to validating signatures.
    Relock,
    /// The calibration block only.
    CalibrationFlash,
    /// Write the unlock patch.
    Unlock,
}

impl Operation {
    /// The name of an operation.
    pub open spec fn spec_label(self) -> Seq<char> {
        match self {
            Operation::FullFlash => "Full flash"@,
            Operation::Relock => "Relock"@,
            Operation::CalibrationFlash => "Calibration flash"@,
            Operation::Unlock => "Unlock"@,
        }
    }

    /// The name of an operation.
    pub fn label(self) -> (s: &'static str)
        ensures
            s@ == self.spec_label(),
    {
        match self {
            Operation::FullFlash => "Full flash",
            Operation::Relock => "Relock",
            Operation::CalibrationFlash => "Calibration flash",
            Operation::Unlock => "Unlock",
        }
    }
}

/// The kinds of adapter the wizard offers.
#[derive(Debug, Clone, Copy, PartialEq, Eq, Structural)]
pub enum InterfaceKind {
    Panda,
    /// A PassThru device used as a raw CAN adapter.
    J2534,
    /// A PassThru device that does the ISO-TP framing itself.
    J2534IsoTp,
    SocketCan,
}

} // verus!
