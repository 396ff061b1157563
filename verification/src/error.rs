//! The ways in which a run can fail before any command is issued.

use vstd::prelude::*;
use vstd::string::*;

verus! {

/// Why a run was given up.
#[derive(Clone, Copy, Debug, PartialEq, Eq, Structural)]
pub enum MigError {
    /// A device identifier does not end with the NVIDIA vendor code.
    InvalidHardwareId,
    /// A row of the hardware query does not have three fields.
    MalformedInventory,
    /// A profile cannot be read as a partition layout for the GPU.
    InvalidProfile,
    /// The instance holds GPUs of more than one model.
    HeterogeneousGpu,
    /// The instance holds no GPU.
    NoGpu,
}

impl MigError {
    /// The text that a user is shown for this error.
    pub open spec fn message_text(self) -> Seq<char> {
        match self {
            MigError::InvalidHardwareId => "Nvidia GPU not available."@,
            MigError::MalformedInventory =>
                "NvidiaSmi command failed or has incorrect output format."@,
            MigError::InvalidProfile => "Invalid MIG Profile provided in the Settings."@,
            MigError::HeterogeneousGpu =>
                "MIG is unsupported because multiple variants of Nvidia GPU present."@,
            MigError::NoGpu => "Nvidia GPU not available."@,
        }
    }

    /// Renders the error for the user.
    pub fn message(&self) -> (text: String)
        ensures
            text@ == self.message_text(),
    {
        match self {
            MigError::InvalidHardwareId => String::from_str("Nvidia GPU not available."),
            MigError::MalformedInventory => String::from_str(
                "NvidiaSmi command failed or has incorrect output format.",
            ),
            MigError::InvalidProfile => String::from_str(
                "Invalid MIG Profile provided in the Settings.",
            ),
            MigError::HeterogeneousGpu => String::from_str(
                "MIG is unsupported because multiple variants of Nvidia GPU present.",
            ),
            MigError::NoGpu => String::from_str("Nvidia GPU not available."),
        }
    }
}

} // verus!
