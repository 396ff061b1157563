//! Partition layouts for GPU models that the profile tables do not list.
//!
//! Such a model is described by a key like `a100.40gb`, which holds its total
//! VRAM, and a profile like `1g.5gb`, which holds the compute slices and the
//! VRAM of one partition. Both are read with regular expressions.

use crate::error::MigError;
use crate::text::{number_or_zero, optional_text, parse_decimal, repeat_joined, repeat_layout};
use vstd::prelude::*;
use vstd::string::*;

verus! {

/// The text of capture group `group` in the leftmost match of the regular
/// expression `pattern` in `haystack`; `None` where the pattern does not
/// compile, nothing matches, or the group took no part in the match.
pub uninterp spec fn captured_group(pattern: Seq<char>, haystack: Seq<char>, group: usize) -> Option<
    Seq<char>,
>;

/// Compiles `pattern` with `regex::Regex::new`, searches `haystack` with
/// `Regex::captures` and reads one group with `Captures::get`. Nothing is
/// proved of the search: the contract only gives its outcome a name, which
/// rests on the search being a function of the pattern and the haystack.
#[verifier::external_body]
fn capture_group(pattern: &str, haystack: &str, group: usize) -> (text: Option<String>)
    ensures
        optional_text(text) == captured_group(pattern@, haystack@, group),
{
    let compiled = regex::Regex::new(pattern).ok()?;
    let found = compiled.captures(haystack)?;
    found.get(group).map(|m| m.as_str().to_string())
}

/// The pattern of a GPU key; its group is the total VRAM in gigabytes.
pub open spec fn gpu_model_pattern() -> Seq<char> {
    "[A-Za-z]\\d+\\.(\\d+)gb"@
}

/// The pattern of a profile; its groups are the compute slices and the VRAM
/// of one partition.
pub open spec fn mig_profile_pattern() -> Seq<char> {
    "(\\d+)g\\.(\\d+)gb"@
}

/// Every GPU with MIG has seven compute slices.
pub const COMPUTE_SLICES: u64 = 7;

/// How many partitions fit: as many as the VRAM allows and as the seven
/// compute slices allow, whichever is fewer.
pub open spec fn partition_count(gpu_ram: int, compute_slices: int, slice_ram: int) -> nat
    recommends
        compute_slices > 0,
        slice_ram > 0,
{
    let ram_limit: int = gpu_ram / slice_ram;
    let compute_limit = 7int / compute_slices;
    if ram_limit <= compute_limit {
        ram_limit as nat
    } else {
        compute_limit as nat
    }
}

/// Computes how many partitions of the given size fit on a GPU. They never
/// take more than the GPU's VRAM nor more than its seven compute slices.
pub fn count_partitions(gpu_ram: u64, compute_slices: u64, slice_ram: u64) -> (n: u64)
    requires
        compute_slices > 0,
        slice_ram > 0,
    ensures
        n == partition_count(gpu_ram as int, compute_slices as int, slice_ram as int),
        n * slice_ram <= gpu_ram,
        n * compute_slices <= 7,
{
    let ram_limit: u64 = gpu_ram / slice_ram;
    let compute_limit: u64 = COMPUTE_SLICES / compute_slices;
    proof {
        assert(ram_limit * slice_ram <= gpu_ram) by (nonlinear_arith)
            requires
                ram_limit == gpu_ram / slice_ram,
                slice_ram > 0,
        ;
        assert(compute_limit * compute_slices <= 7) by (nonlinear_arith)
            requires
                compute_limit == 7u64 / compute_slices,
                compute_slices > 0,
        ;
        if ram_limit <= compute_limit {
            assert(ram_limit * compute_slices <= compute_limit * compute_slices) by (nonlinear_arith)
                requires
                    ram_limit <= compute_limit,
            ;
        } else {
            assert(compute_limit * slice_ram <= ram_limit * slice_ram) by (nonlinear_arith)
                requires
                    compute_limit <= ram_limit,
            ;
        }
    }
    if ram_limit <= compute_limit {
        ram_limit
    } else {
        compute_limit
    }
}

/// The layout that the captured fields give. The profile must be longer than
/// one character, every field must have been captured, and none may be zero;
/// the layout then repeats the profile once per partition.
pub open spec fn layout_of_fields(
    mig_profile: Seq<char>,
    gpu_ram: Option<Seq<char>>,
    compute_slices: Option<Seq<char>>,
    slice_ram: Option<Seq<char>>,
) -> Result<Seq<char>, MigError> {
    if mig_profile.len() <= 1 || gpu_ram is None || compute_slices is None || slice_ram is None {
        Err(MigError::InvalidProfile)
    } else if number_or_zero(gpu_ram->0) == 0 || number_or_zero(compute_slices->0) == 0
        || number_or_zero(slice_ram->0) == 0 {
        Err(MigError::InvalidProfile)
    } else {
        Ok(
            repeat_joined(
                mig_profile,
                partition_count(
                    number_or_zero(gpu_ram->0),
                    number_or_zero(compute_slices->0),
                    number_or_zero(slice_ram->0),
                ),
            ),
        )
    }
}

/// The code points of a layout, or the error in its place.
pub open spec fn layout_text(r: Result<String, MigError>) -> Result<Seq<char>, MigError> {
    match r {
        Ok(layout) => Ok(layout@),
        Err(e) => Err(e),
    }
}

/// Builds the layout from a profile and the fields captured from it and from
/// the GPU key.
pub fn layout_from_fields(
    mig_profile: &str,
    gpu_ram: Option<&str>,
    compute_slices: Option<&str>,
    slice_ram: Option<&str>,
) -> (r: Result<String, MigError>)
    ensures
        layout_text(r) == layout_of_fields(
            mig_profile@,
            match gpu_ram {
                Some(t) => Some(t@),
                None => None,
            },
            match compute_slices {
                Some(t) => Some(t@),
                None => None,
            },
            match slice_ram {
                Some(t) => Some(t@),
                None => None,
            },
        ),
{
    if mig_profile.unicode_len() <= 1 {
        return Err(MigError::InvalidProfile);
    }
    match (gpu_ram, compute_slices, slice_ram) {
        (Some(total), Some(compute), Some(ram)) => {
            let gpu_ram: u64 = parse_decimal(total);
            let compute_slices: u64 = parse_decimal(compute);
            let slice_ram: u64 = parse_decimal(ram);
            if gpu_ram == 0 || compute_slices == 0 || slice_ram == 0 {
                return Err(MigError::InvalidProfile);
            }
            let n: u64 = count_partitions(gpu_ram, compute_slices, slice_ram);
            Ok(repeat_layout(mig_profile, n))
        },
        _ => Err(MigError::InvalidProfile),
    }
}

/// The layout for a GPU that the profile tables do not list, from its key and
/// an exact profile.
pub open spec fn unknown_gpu_layout(gpu: Seq<char>, mig_profile: Seq<char>) -> Result<
    Seq<char>,
    MigError,
> {
    layout_of_fields(
        mig_profile,
        captured_group(gpu_model_pattern(), gpu, 1),
        captured_group(mig_profile_pattern(), mig_profile, 1),
        captured_group(mig_profile_pattern(), mig_profile, 2),
    )
}

/// Borrows the text of an optional string.
fn borrowed(text: &Option<String>) -> (r: Option<&str>)
    ensures
        match r {
            Some(t) => optional_text(*text) == Some(t@),
            None => text is None,
        },
{
    match text {
        Some(t) => Some(t.as_str()),
        None => None,
    }
}

/// Resolves the layout for a GPU model outside the profile tables.
pub fn process_unknown_gpu_mig_config(gpu: &str, mig_profile: &str) -> (r: Result<
    String,
    MigError,
>)
    ensures
        layout_text(r) == unknown_gpu_layout(gpu@, mig_profile@),
{
    if mig_profile.unicode_len() <= 1 {
        return Err(MigError::InvalidProfile);
    }
    let gpu_ram = capture_group("[A-Za-z]\\d+\\.(\\d+)gb", gpu, 1);
    let compute_slices = capture_group("(\\d+)g\\.(\\d+)gb", mig_profile, 1);
    let slice_ram = capture_group("(\\d+)g\\.(\\d+)gb", mig_profile, 2);
    layout_from_fields(
        mig_profile,
        borrowed(&gpu_ram),
        borrowed(&compute_slices),
        borrowed(&slice_ram),
    )
}

/// A profile of at most one character gives no layout, whatever the GPU key.
pub proof fn lemma_short_profile_is_invalid(gpu: Seq<char>, mig_profile: Seq<char>)
    requires
        mig_profile.len() <= 1,
    ensures
        unknown_gpu_layout(gpu, mig_profile) == Err::<Seq<char>, MigError>(MigError::InvalidProfile),
{
}

/// A profile whose compute slices or VRAM per partition read as zero gives no
/// layout, and neither does a GPU key whose VRAM reads as zero.
pub proof fn lemma_zero_field_is_invalid(
    mig_profile: Seq<char>,
    gpu_ram: Option<Seq<char>>,
    compute_slices: Option<Seq<char>>,
    slice_ram: Option<Seq<char>>,
)
    requires
        (gpu_ram matches Some(t) && number_or_zero(t) == 0) || (compute_slices matches Some(t)
            && number_or_zero(t) == 0) || (slice_ram matches Some(t) && number_or_zero(t) == 0),
    ensures
        layout_of_fields(mig_profile, gpu_ram, compute_slices, slice_ram) == Err::<
            Seq<char>,
            MigError,
        >(MigError::InvalidProfile),
{
}

/// A layout never takes more than the VRAM of the GPU nor more than its seven
/// compute slices.
pub proof fn lemma_partitions_fit(gpu_ram: int, compute_slices: int, slice_ram: int)
    requires
        gpu_ram >= 0,
        compute_slices > 0,
        slice_ram > 0,
    ensures
        partition_count(gpu_ram, compute_slices, slice_ram) * slice_ram <= gpu_ram,
        partition_count(gpu_ram, compute_slices, slice_ram) * compute_slices <= 7,
{
    let ram_limit: int = gpu_ram / slice_ram;
    let compute_limit: int = 7int / compute_slices;
    assert(ram_limit * slice_ram <= gpu_ram && ram_limit >= 0) by (nonlinear_arith)
        requires
            ram_limit == gpu_ram / slice_ram,
            slice_ram > 0,
            gpu_ram >= 0,
    ;
    assert(compute_limit * compute_slices <= 7 && compute_limit >= 0) by (nonlinear_arith)
        requires
            compute_limit == 7int / compute_slices,
            compute_slices > 0,
    ;
    if ram_limit <= compute_limit {
        assert(ram_limit * compute_slices <= compute_limit * compute_slices) by (nonlinear_arith)
            requires
                ram_limit <= compute_limit,
                compute_slices > 0,
        ;
    } else {
        assert(compute_limit * slice_ram <= ram_limit * slice_ram) by (nonlinear_arith)
            requires
                compute_limit <= ram_limit,
                slice_ram > 0,
        ;
    }
}

} // verus!
