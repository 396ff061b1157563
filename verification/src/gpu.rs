//! GPU models, MIG states and the inventory of an instance.

use crate::error::MigError;
use crate::text::{
    ends_with, find, find_from, lemma_find_from_bounds, lemma_find_from_none_in_part, starts_with,
    str_equal,
};
use vstd::prelude::*;
use vstd::string::*;

verus! {

/// The GPU models whose partition layouts are known, and a marker for the rest.
#[allow(non_camel_case_types)]
#[derive(Clone, Copy, Debug, PartialEq, Eq, Structural)]
pub enum NvidiaGpu {
    A100_40GB,
    A100_80GB,
    H100_80GB,
    H200_141GB,
    Other,
}

impl NvidiaGpu {
    /// Ampere cards need a full reset, hence a reboot, to leave a transitional
    /// state.
    pub open spec fn spec_is_ampere(&self) -> bool {
        *self == NvidiaGpu::A100_40GB || *self == NvidiaGpu::A100_80GB
    }

    /// Tells whether a change of MIG mode on this model needs a reboot.
    #[verifier::when_used_as_spec(spec_is_ampere)]
    pub fn is_ampere(&self) -> (r: bool)
        ensures
            r == self.spec_is_ampere(),
    {
        matches!(self, NvidiaGpu::A100_40GB | NvidiaGpu::A100_80GB)
    }

    /// The key under which the configuration holds this model's profile.
    pub open spec fn key_text(self) -> Seq<char> {
        match self {
            NvidiaGpu::A100_40GB => "a100.40gb"@,
            NvidiaGpu::A100_80GB => "a100.80gb"@,
            NvidiaGpu::H100_80GB => "h100.80gb"@,
            NvidiaGpu::H200_141GB => "h200.141gb"@,
            NvidiaGpu::Other => Seq::empty(),
        }
    }
}

/// The MIG state of one GPU.
#[derive(Clone, Copy, Debug, PartialEq, Eq, Hash, Structural)]
pub enum MigState {
    Unsupported,
    Enabled,
    Disabled,
    Transition,
    Unknown,
}

impl MigState {
    pub open spec fn spec_is_disabled(&self) -> bool {
        *self == MigState::Disabled
    }

    /// Tells whether MIG is off, now and after the next reset.
    #[verifier::when_used_as_spec(spec_is_disabled)]
    pub fn is_disabled(&self) -> (r: bool)
        ensures
            r == self.spec_is_disabled(),
    {
        matches!(self, MigState::Disabled)
    }

    pub open spec fn spec_is_enabled(&self) -> bool {
        *self == MigState::Enabled
    }

    /// Tells whether MIG is on, now and after the next reset.
    #[verifier::when_used_as_spec(spec_is_enabled)]
    pub fn is_enabled(&self) -> (r: bool)
        ensures
            r == self.spec_is_enabled(),
    {
        matches!(self, MigState::Enabled)
    }

    pub open spec fn spec_is_unsupported(&self) -> bool {
        *self == MigState::Unsupported
    }

    /// Tells whether the GPU has no MIG mode at all.
    #[verifier::when_used_as_spec(spec_is_unsupported)]
    pub fn is_unsupported(&self) -> (r: bool)
        ensures
            r == self.spec_is_unsupported(),
    {
        matches!(self, MigState::Unsupported)
    }
}

/// One installed GPU: its model and its MIG state.
#[derive(Clone, Copy, Debug, PartialEq, Eq, Structural)]
pub struct MigGpu {
    pub model: NvidiaGpu,
    pub state: MigState,
}

/// The model that a PCI device identifier of NVIDIA stands for.
pub open spec fn gpu_model_of(id: Seq<char>) -> NvidiaGpu {
    if "0x20B0"@.is_prefix_of(id) {
        NvidiaGpu::A100_40GB
    } else if "0x20B2"@.is_prefix_of(id) || "0x20B5"@.is_prefix_of(id) {
        NvidiaGpu::A100_80GB
    } else if "0x2330"@.is_prefix_of(id) || "0x2321"@.is_prefix_of(id) || "0x2331"@.is_prefix_of(
        id,
    ) || "0x2339"@.is_prefix_of(id) {
        NvidiaGpu::H100_80GB
    } else if "0x2335"@.is_prefix_of(id) || "0x233B"@.is_prefix_of(id) || "0x2348"@.is_prefix_of(
        id,
    ) {
        NvidiaGpu::H200_141GB
    } else {
        NvidiaGpu::Other
    }
}

/// What identifying a device gives: its model where the identifier ends with
/// the NVIDIA vendor code, and an error where it does not.
pub open spec fn gpu_model_result(id: Seq<char>) -> Result<NvidiaGpu, MigError> {
    if "10DE"@.is_suffix_of(id) {
        Ok(gpu_model_of(id))
    } else {
        Err(MigError::InvalidHardwareId)
    }
}

/// Finds the GPU model from a PCI device identifier.
pub fn get_gpu_model(pci_device_id: &str) -> (r: Result<NvidiaGpu, MigError>)
    ensures
        r == gpu_model_result(pci_device_id@),
{
    if !ends_with(pci_device_id, "10DE") {
        return Err(MigError::InvalidHardwareId);
    }
    if starts_with(pci_device_id, "0x20B0") {
        Ok(NvidiaGpu::A100_40GB)
    } else if starts_with(pci_device_id, "0x20B2") || starts_with(pci_device_id, "0x20B5") {
        Ok(NvidiaGpu::A100_80GB)
    } else if starts_with(pci_device_id, "0x2330") || starts_with(pci_device_id, "0x2321")
        || starts_with(pci_device_id, "0x2331") || starts_with(pci_device_id, "0x2339") {
        Ok(NvidiaGpu::H100_80GB)
    } else if starts_with(pci_device_id, "0x2335") || starts_with(pci_device_id, "0x233B")
        || starts_with(pci_device_id, "0x2348") {
        Ok(NvidiaGpu::H200_141GB)
    } else {
        Ok(NvidiaGpu::Other)
    }
}

/// The state that a pair of reported modes stands for.
pub open spec fn gpu_state_of(current: Seq<char>, pending: Seq<char>) -> MigState {
    if current != pending {
        MigState::Transition
    } else if current == "Enabled"@ {
        MigState::Enabled
    } else if current == "Disabled"@ {
        MigState::Disabled
    } else if current == "[N/A]"@ {
        MigState::Unsupported
    } else {
        MigState::Unknown
    }
}

/// Classifies a GPU by its current MIG mode and the one pending for the next
/// reset.
pub fn get_gpu_state(current_state: &str, next_state: &str) -> (state: MigState)
    ensures
        state == gpu_state_of(current_state@, next_state@),
{
    if !str_equal(current_state, next_state) {
        MigState::Transition
    } else if str_equal(current_state, "Enabled") {
        MigState::Enabled
    } else if str_equal(current_state, "Disabled") {
        MigState::Disabled
    } else if str_equal(current_state, "[N/A]") {
        MigState::Unsupported
    } else {
        MigState::Unknown
    }
}

/// The three fields of a row of the hardware query, which are separated by a
/// comma and a space; none where the row does not have exactly three.
pub open spec fn row_fields(row: Seq<char>) -> Option<(Seq<char>, Seq<char>, Seq<char>)> {
    match find_from(row, ", "@, 0) {
        None => None,
        Some(first) => match find_from(row, ", "@, first + 2) {
            None => None,
            Some(second) => match find_from(row, ", "@, second + 2) {
                Some(_) => None,
                None => Some(
                    (
                        row.subrange(0, first),
                        row.subrange(first + 2, second),
                        row.subrange(second + 2, row.len() as int),
                    ),
                ),
            },
        },
    }
}

/// A row of three fields is its fields with a comma and a space between them,
/// and neither of the first two fields holds that separator.
pub proof fn lemma_row_fields_rebuild(row: Seq<char>)
    requires
        row_fields(row) is Some,
    ensures
        ({
            let (id, current, pending) = row_fields(row)->0;
            &&& row == id + ", "@ + current + ", "@ + pending
            &&& find_from(id, ", "@, 0) is None
            &&& find_from(current, ", "@, 0) is None
            &&& find_from(pending, ", "@, 0) is None
        }),
{
    reveal_strlit(", ");
    let sep = ", "@;
    let first = find_from(row, sep, 0)->0;
    let second = find_from(row, sep, first + 2)->0;
    lemma_find_from_bounds(row, sep, 0);
    lemma_find_from_bounds(row, sep, first + 2);
    let (id, current, pending) = row_fields(row)->0;
    assert(row =~= id + row.subrange(first, first + 2) + current + row.subrange(second, second + 2)
        + pending);
    lemma_find_from_none_in_part(row, sep, 0, first);
    lemma_find_from_none_in_part(row, sep, first + 2, second);
    lemma_find_from_none_in_part(row, sep, second + 2, row.len() as int);
}

/// The GPU that a row of the hardware query describes: device identifier,
/// current MIG mode, pending MIG mode.
pub open spec fn gpu_of_row(row: Seq<char>) -> Result<MigGpu, MigError> {
    match row_fields(row) {
        None => Err(MigError::MalformedInventory),
        Some((id, current, pending)) => match gpu_model_result(id) {
            Err(e) => Err(e),
            Ok(model) => Ok(MigGpu { model, state: gpu_state_of(current, pending) }),
        },
    }
}

/// Reads one row of the hardware query.
pub fn parse_gpu_row(row: &str) -> (r: Result<MigGpu, MigError>)
    ensures
        r == gpu_of_row(row@),
{
    proof {
        reveal_strlit(", ");
    }
    let n: usize = row.unicode_len();
    let first: usize = match find(row, ", ", 0) {
        Some(p) => p,
        None => {
            return Err(MigError::MalformedInventory);
        },
    };
    let second: usize = match find(row, ", ", first + 2) {
        Some(p) => p,
        None => {
            return Err(MigError::MalformedInventory);
        },
    };
    if find(row, ", ", second + 2).is_some() {
        return Err(MigError::MalformedInventory);
    }
    let id = row.substring_char(0, first);
    let current = row.substring_char(first + 2, second);
    let pending = row.substring_char(second + 2, n);
    match get_gpu_model(id) {
        Err(e) => Err(e),
        Ok(model) => Ok(MigGpu { model, state: get_gpu_state(current, pending) }),
    }
}

/// Where the line that begins at `from` stops: at the next line feed, or at
/// the end of the text.
pub open spec fn line_end(text: Seq<char>, from: int) -> int {
    match find_from(text, "\n"@, from) {
        Some(p) => p,
        None => text.len() as int,
    }
}

/// The line that begins at `from`, without its terminator. A carriage return
/// just before the line feed belongs to the terminator.
pub open spec fn line_at(text: Seq<char>, from: int) -> Seq<char> {
    let end = line_end(text, from);
    if from < end < text.len() && text[end - 1] == '\r' {
        text.subrange(from, end - 1)
    } else {
        text.subrange(from, end)
    }
}

/// Where the line after the one at `from` begins.
pub open spec fn next_line(text: Seq<char>, from: int) -> int {
    let end = line_end(text, from);
    if end < text.len() {
        end + 1
    } else {
        end
    }
}

/// The GPUs that the lines of the hardware query describe, from offset `from`
/// on, in their order; the error of the first row that describes none.
pub open spec fn inventory_from(text: Seq<char>, from: int) -> Result<Seq<MigGpu>, MigError>
    decreases text.len() - from,
    via inventory_from_decreases
{
    if from < 0 || from >= text.len() {
        Ok(Seq::empty())
    } else {
        match gpu_of_row(line_at(text, from)) {
            Err(e) => Err(e),
            Ok(gpu) => match inventory_from(text, next_line(text, from)) {
                Err(e) => Err(e),
                Ok(rest) => Ok(seq![gpu] + rest),
            },
        }
    }
}

#[via_fn]
proof fn inventory_from_decreases(text: Seq<char>, from: int) {
    reveal_strlit("\n");
    lemma_find_from_bounds(text, "\n"@, from);
}

/// The inventory as a sequence, or the error in its place.
pub open spec fn inventory_view(r: Result<Vec<MigGpu>, MigError>) -> Result<Seq<MigGpu>, MigError> {
    match r {
        Ok(gpus) => Ok(gpus@),
        Err(e) => Err(e),
    }
}

/// `gpus`, followed by what the rest of the text gives.
pub open spec fn followed_by(gpus: Seq<MigGpu>, rest: Result<Seq<MigGpu>, MigError>) -> Result<
    Seq<MigGpu>,
    MigError,
> {
    match rest {
        Ok(more) => Ok(gpus + more),
        Err(e) => Err(e),
    }
}

/// Reads the answer of the hardware query, one GPU per line.
pub fn get_gpu_info(output: &str) -> (r: Result<Vec<MigGpu>, MigError>)
    ensures
        inventory_view(r) == inventory_from(output@, 0),
{
    proof {
        reveal_strlit("\n");
    }
    let n: usize = output.unicode_len();
    let mut gpu_info: Vec<MigGpu> = Vec::new();
    let mut pos: usize = 0;
    proof {
        assert(Seq::<MigGpu>::empty() + inventory_from(output@, 0)->Ok_0 =~= inventory_from(
            output@,
            0,
        )->Ok_0);
    }
    while pos < n
        invariant
            n == output@.len(),
            pos <= n,
            "\n"@.len() == 1,
            inventory_from(output@, 0) == followed_by(
                gpu_info@,
                inventory_from(output@, pos as int),
            ),
        decreases n - pos,
    {
        let found = find(output, "\n", pos);
        let end: usize = match found {
            Some(p) => p,
            None => n,
        };
        let next: usize = if end < n {
            end + 1
        } else {
            end
        };
        let stop: usize = if pos < end && end < n && output.get_char(end - 1) == '\r' {
            end - 1
        } else {
            end
        };
        let row = output.substring_char(pos, stop);
        assert(row@ == line_at(output@, pos as int));
        assert(next as int == next_line(output@, pos as int));
        match parse_gpu_row(row) {
            Err(e) => {
                return Err(e);
            },
            Ok(gpu) => {
                proof {
                    let rest = inventory_from(output@, next as int);
                    if rest is Ok {
                        assert(gpu_info@ + (seq![gpu] + rest->Ok_0) =~= gpu_info@.push(gpu)
                            + rest->Ok_0);
                    }
                }
                gpu_info.push(gpu);
                pos = next;
            },
        }
    }
    proof {
        assert(gpu_info@ + Seq::<MigGpu>::empty() =~= gpu_info@);
    }
    Ok(gpu_info)
}

} // verus!
