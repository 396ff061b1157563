//! The partition layouts of the known GPU models.
//!
//! Each model has a closed set of layouts. A setting names one of them by its
//! profile name or by the number of partitions it gives; any other setting
//! stands for the whole GPU as a single partition.

use crate::gpu::NvidiaGpu;
use crate::text::{
    all_digits, is_digit, lemma_repeat_joined_segments, lemma_short_number, number_or_zero,
    optional_text, repeat_joined, repeat_layout, segment_count, str_equal,
};
use vstd::prelude::*;
use vstd::string::*;

verus! {

/// The layouts of an A100 with 40 GB.
#[allow(non_camel_case_types)]
#[derive(Clone, Copy, Debug, PartialEq, Eq, Structural)]
pub enum NvidiaA100_40gbMigProfile {
    Mig1g5gb,
    Mig2g10gb,
    Mig3g20gb,
    Mig7g40gb,
}

impl NvidiaA100_40gbMigProfile {
    /// The layout that a setting asks for: matched exactly, by profile name or
    /// by partition count, and the whole GPU where nothing matches.
    pub open spec fn of_setting(setting: Seq<char>) -> Self {
        if setting == "1g.5gb"@ || setting == "7"@ {
            NvidiaA100_40gbMigProfile::Mig1g5gb
        } else if setting == "2g.10gb"@ || setting == "3"@ {
            NvidiaA100_40gbMigProfile::Mig2g10gb
        } else if setting == "3g.20gb"@ || setting == "2"@ {
            NvidiaA100_40gbMigProfile::Mig3g20gb
        } else {
            NvidiaA100_40gbMigProfile::Mig7g40gb
        }
    }

    /// Reads a setting as a layout of this model.
    pub fn from_setting(setting: &str) -> (profile: Self)
        ensures
            profile == Self::of_setting(setting@),
    {
        if str_equal(setting, "1g.5gb") || str_equal(setting, "7") {
            NvidiaA100_40gbMigProfile::Mig1g5gb
        } else if str_equal(setting, "2g.10gb") || str_equal(setting, "3") {
            NvidiaA100_40gbMigProfile::Mig2g10gb
        } else if str_equal(setting, "3g.20gb") || str_equal(setting, "2") {
            NvidiaA100_40gbMigProfile::Mig3g20gb
        } else {
            NvidiaA100_40gbMigProfile::Mig7g40gb
        }
    }

    /// The descriptor of one partition.
    pub open spec fn descriptor_text(self) -> Seq<char> {
        match self {
            NvidiaA100_40gbMigProfile::Mig1g5gb => "1g.5gb"@,
            NvidiaA100_40gbMigProfile::Mig2g10gb => "2g.10gb"@,
            NvidiaA100_40gbMigProfile::Mig3g20gb => "3g.20gb"@,
            NvidiaA100_40gbMigProfile::Mig7g40gb => "7g.40gb"@,
        }
    }

    /// The number of partitions.
    pub open spec fn slices(self) -> nat {
        match self {
            NvidiaA100_40gbMigProfile::Mig1g5gb => 7,
            NvidiaA100_40gbMigProfile::Mig2g10gb => 3,
            NvidiaA100_40gbMigProfile::Mig3g20gb => 2,
            NvidiaA100_40gbMigProfile::Mig7g40gb => 1,
        }
    }

    /// The descriptor of one partition of this layout.
    pub fn descriptor(&self) -> (name: &'static str)
        ensures
            name@ == self.descriptor_text(),
    {
        match self {
            NvidiaA100_40gbMigProfile::Mig1g5gb => "1g.5gb",
            NvidiaA100_40gbMigProfile::Mig2g10gb => "2g.10gb",
            NvidiaA100_40gbMigProfile::Mig3g20gb => "3g.20gb",
            NvidiaA100_40gbMigProfile::Mig7g40gb => "7g.40gb",
        }
    }

    /// The number of partitions that this layout cuts the GPU into.
    pub fn slice_count(&self) -> (n: u64)
        ensures
            n == self.slices(),
    {
        match self {
            NvidiaA100_40gbMigProfile::Mig1g5gb => 7,
            NvidiaA100_40gbMigProfile::Mig2g10gb => 3,
            NvidiaA100_40gbMigProfile::Mig3g20gb => 2,
            NvidiaA100_40gbMigProfile::Mig7g40gb => 1,
        }
    }

    /// The layout as the profile command takes it: the descriptor once per
    /// partition, joined by commas.
    pub fn get_mig_profile(&self) -> (layout: String)
        ensures
            layout@ == repeat_joined(self.descriptor_text(), self.slices()),
    {
        repeat_layout(self.descriptor(), self.slice_count())
    }
}

/// The layouts of an A100 with 80 GB.
#[allow(non_camel_case_types)]
#[derive(Clone, Copy, Debug, PartialEq, Eq, Structural)]
pub enum NvidiaA100_80gbMigProfile {
    Mig1g10gb,
    Mig2g20gb,
    Mig3g40gb,
    Mig7g80gb,
}

impl NvidiaA100_80gbMigProfile {
    /// The layout that a setting asks for: matched exactly, by profile name or
    /// by partition count, and the whole GPU where nothing matches.
    pub open spec fn of_setting(setting: Seq<char>) -> Self {
        if setting == "1g.10gb"@ || setting == "7"@ {
            NvidiaA100_80gbMigProfile::Mig1g10gb
        } else if setting == "2g.20gb"@ || setting == "3"@ {
            NvidiaA100_80gbMigProfile::Mig2g20gb
        } else if setting == "3g.40gb"@ || setting == "2"@ {
            NvidiaA100_80gbMigProfile::Mig3g40gb
        } else {
            NvidiaA100_80gbMigProfile::Mig7g80gb
        }
    }

    /// Reads a setting as a layout of this model.
    pub fn from_setting(setting: &str) -> (profile: Self)
        ensures
            profile == Self::of_setting(setting@),
    {
        if str_equal(setting, "1g.10gb") || str_equal(setting, "7") {
            NvidiaA100_80gbMigProfile::Mig1g10gb
        } else if str_equal(setting, "2g.20gb") || str_equal(setting, "3") {
            NvidiaA100_80gbMigProfile::Mig2g20gb
        } else if str_equal(setting, "3g.40gb") || str_equal(setting, "2") {
            NvidiaA100_80gbMigProfile::Mig3g40gb
        } else {
            NvidiaA100_80gbMigProfile::Mig7g80gb
        }
    }

    /// The descriptor of one partition.
    pub open spec fn descriptor_text(self) -> Seq<char> {
        match self {
            NvidiaA100_80gbMigProfile::Mig1g10gb => "1g.10gb"@,
            NvidiaA100_80gbMigProfile::Mig2g20gb => "2g.20gb"@,
            NvidiaA100_80gbMigProfile::Mig3g40gb => "3g.40gb"@,
            NvidiaA100_80gbMigProfile::Mig7g80gb => "7g.80gb"@,
        }
    }

    /// The number of partitions.
    pub open spec fn slices(self) -> nat {
        match self {
            NvidiaA100_80gbMigProfile::Mig1g10gb => 7,
            NvidiaA100_80gbMigProfile::Mig2g20gb => 3,
            NvidiaA100_80gbMigProfile::Mig3g40gb => 2,
            NvidiaA100_80gbMigProfile::Mig7g80gb => 1,
        }
    }

    /// The descriptor of one partition of this layout.
    pub fn descriptor(&self) -> (name: &'static str)
        ensures
            name@ == self.descriptor_text(),
    {
        match self {
            NvidiaA100_80gbMigProfile::Mig1g10gb => "1g.10gb",
            NvidiaA100_80gbMigProfile::Mig2g20gb => "2g.20gb",
            NvidiaA100_80gbMigProfile::Mig3g40gb => "3g.40gb",
            NvidiaA100_80gbMigProfile::Mig7g80gb => "7g.80gb",
        }
    }

    /// The number of partitions that this layout cuts the GPU into.
    pub fn slice_count(&self) -> (n: u64)
        ensures
            n == self.slices(),
    {
        match self {
            NvidiaA100_80gbMigProfile::Mig1g10gb => 7,
            NvidiaA100_80gbMigProfile::Mig2g20gb => 3,
            NvidiaA100_80gbMigProfile::Mig3g40gb => 2,
            NvidiaA100_80gbMigProfile::Mig7g80gb => 1,
        }
    }

    /// The layout as the profile command takes it: the descriptor once per
    /// partition, joined by commas.
    pub fn get_mig_profile(&self) -> (layout: String)
        ensures
            layout@ == repeat_joined(self.descriptor_text(), self.slices()),
    {
        repeat_layout(self.descriptor(), self.slice_count())
    }
}

/// The layouts of an H100 with 80 GB.
#[allow(non_camel_case_types)]
#[derive(Clone, Copy, Debug, PartialEq, Eq, Structural)]
pub enum NvidiaH100_80gbMigProfile {
    Mig1g10gb,
    Mig1g20gb,
    Mig2g20gb,
    Mig3g40gb,
    Mig7g80gb,
}

impl NvidiaH100_80gbMigProfile {
    /// The layout that a setting asks for: matched exactly, by profile name or
    /// by partition count, and the whole GPU where nothing matches.
    pub open spec fn of_setting(setting: Seq<char>) -> Self {
        if setting == "1g.10gb"@ || setting == "7"@ {
            NvidiaH100_80gbMigProfile::Mig1g10gb
        } else if setting == "1g.20gb"@ || setting == "4"@ {
            NvidiaH100_80gbMigProfile::Mig1g20gb
        } else if setting == "2g.20gb"@ || setting == "3"@ {
            NvidiaH100_80gbMigProfile::Mig2g20gb
        } else if setting == "3g.40gb"@ || setting == "2"@ {
            NvidiaH100_80gbMigProfile::Mig3g40gb
        } else {
            NvidiaH100_80gbMigProfile::Mig7g80gb
        }
    }

    /// Reads a setting as a layout of this model.
    pub fn from_setting(setting: &str) -> (profile: Self)
        ensures
            profile == Self::of_setting(setting@),
    {
        if str_equal(setting, "1g.10gb") || str_equal(setting, "7") {
            NvidiaH100_80gbMigProfile::Mig1g10gb
        } else if str_equal(setting, "1g.20gb") || str_equal(setting, "4") {
            NvidiaH100_80gbMigProfile::Mig1g20gb
        } else if str_equal(setting, "2g.20gb") || str_equal(setting, "3") {
            NvidiaH100_80gbMigProfile::Mig2g20gb
        } else if str_equal(setting, "3g.40gb") || str_equal(setting, "2") {
            NvidiaH100_80gbMigProfile::Mig3g40gb
        } else {
            NvidiaH100_80gbMigProfile::Mig7g80gb
        }
    }

    /// The descriptor of one partition.
    pub open spec fn descriptor_text(self) -> Seq<char> {
        match self {
            NvidiaH100_80gbMigProfile::Mig1g10gb => "1g.10gb"@,
            NvidiaH100_80gbMigProfile::Mig1g20gb => "1g.20gb"@,
            NvidiaH100_80gbMigProfile::Mig2g20gb => "2g.20gb"@,
            NvidiaH100_80gbMigProfile::Mig3g40gb => "3g.40gb"@,
            NvidiaH100_80gbMigProfile::Mig7g80gb => "7g.80gb"@,
        }
    }

    /// The number of partitions.
    pub open spec fn slices(self) -> nat {
        match self {
            NvidiaH100_80gbMigProfile::Mig1g10gb => 7,
            NvidiaH100_80gbMigProfile::Mig1g20gb => 4,
            NvidiaH100_80gbMigProfile::Mig2g20gb => 3,
            NvidiaH100_80gbMigProfile::Mig3g40gb => 2,
            NvidiaH100_80gbMigProfile::Mig7g80gb => 1,
        }
    }

    /// The descriptor of one partition of this layout.
    pub fn descriptor(&self) -> (name: &'static str)
        ensures
            name@ == self.descriptor_text(),
    {
        match self {
            NvidiaH100_80gbMigProfile::Mig1g10gb => "1g.10gb",
            NvidiaH100_80gbMigProfile::Mig1g20gb => "1g.20gb",
            NvidiaH100_80gbMigProfile::Mig2g20gb => "2g.20gb",
            NvidiaH100_80gbMigProfile::Mig3g40gb => "3g.40gb",
            NvidiaH100_80gbMigProfile::Mig7g80gb => "7g.80gb",
        }
    }

    /// The number of partitions that this layout cuts the GPU into.
    pub fn slice_count(&self) -> (n: u64)
        ensures
            n == self.slices(),
    {
        match self {
            NvidiaH100_80gbMigProfile::Mig1g10gb => 7,
            NvidiaH100_80gbMigProfile::Mig1g20gb => 4,
            NvidiaH100_80gbMigProfile::Mig2g20gb => 3,
            NvidiaH100_80gbMigProfile::Mig3g40gb => 2,
            NvidiaH100_80gbMigProfile::Mig7g80gb => 1,
        }
    }

    /// The layout as the profile command takes it: the descriptor once per
    /// partition, joined by commas.
    pub fn get_mig_profile(&self) -> (layout: String)
        ensures
            layout@ == repeat_joined(self.descriptor_text(), self.slices()),
    {
        repeat_layout(self.descriptor(), self.slice_count())
    }
}

/// The layouts of an H200 with 141 GB.
#[allow(non_camel_case_types)]
#[derive(Clone, Copy, Debug, PartialEq, Eq, Structural)]
pub enum NvidiaH200_141gbMigProfile {
    Mig1g18gb,
    Mig1g35gb,
    Mig2g35gb,
    Mig3g71gb,
    Mig7g141gb,
}

impl NvidiaH200_141gbMigProfile {
    /// The layout that a setting asks for: matched exactly, by profile name or
    /// by partition count, and the whole GPU where nothing matches.
    pub open spec fn of_setting(setting: Seq<char>) -> Self {
        if setting == "1g.18gb"@ || setting == "7"@ {
            NvidiaH200_141gbMigProfile::Mig1g18gb
        } else if setting == "1g.35gb"@ || setting == "4"@ {
            NvidiaH200_141gbMigProfile::Mig1g35gb
        } else if setting == "2g.35gb"@ || setting == "3"@ {
            NvidiaH200_141gbMigProfile::Mig2g35gb
        } else if setting == "3g.71gb"@ || setting == "2"@ {
            NvidiaH200_141gbMigProfile::Mig3g71gb
        } else {
            NvidiaH200_141gbMigProfile::Mig7g141gb
        }
    }

    /// Reads a setting as a layout of this model.
    pub fn from_setting(setting: &str) -> (profile: Self)
        ensures
            profile == Self::of_setting(setting@),
    {
        if str_equal(setting, "1g.18gb") || str_equal(setting, "7") {
            NvidiaH200_141gbMigProfile::Mig1g18gb
        } else if str_equal(setting, "1g.35gb") || str_equal(setting, "4") {
            NvidiaH200_141gbMigProfile::Mig1g35gb
        } else if str_equal(setting, "2g.35gb") || str_equal(setting, "3") {
            NvidiaH200_141gbMigProfile::Mig2g35gb
        } else if str_equal(setting, "3g.71gb") || str_equal(setting, "2") {
            NvidiaH200_141gbMigProfile::Mig3g71gb
        } else {
            NvidiaH200_141gbMigProfile::Mig7g141gb
        }
    }

    /// The descriptor of one partition.
    pub open spec fn descriptor_text(self) -> Seq<char> {
        match self {
            NvidiaH200_141gbMigProfile::Mig1g18gb => "1g.18gb"@,
            NvidiaH200_141gbMigProfile::Mig1g35gb => "1g.35gb"@,
            NvidiaH200_141gbMigProfile::Mig2g35gb => "2g.35gb"@,
            NvidiaH200_141gbMigProfile::Mig3g71gb => "3g.71gb"@,
            NvidiaH200_141gbMigProfile::Mig7g141gb => "7g.141gb"@,
        }
    }

    /// The number of partitions.
    pub open spec fn slices(self) -> nat {
        match self {
            NvidiaH200_141gbMigProfile::Mig1g18gb => 7,
            NvidiaH200_141gbMigProfile::Mig1g35gb => 4,
            NvidiaH200_141gbMigProfile::Mig2g35gb => 3,
            NvidiaH200_141gbMigProfile::Mig3g71gb => 2,
            NvidiaH200_141gbMigProfile::Mig7g141gb => 1,
        }
    }

    /// The descriptor of one partition of this layout.
    pub fn descriptor(&self) -> (name: &'static str)
        ensures
            name@ == self.descriptor_text(),
    {
        match self {
            NvidiaH200_141gbMigProfile::Mig1g18gb => "1g.18gb",
            NvidiaH200_141gbMigProfile::Mig1g35gb => "1g.35gb",
            NvidiaH200_141gbMigProfile::Mig2g35gb => "2g.35gb",
            NvidiaH200_141gbMigProfile::Mig3g71gb => "3g.71gb",
            NvidiaH200_141gbMigProfile::Mig7g141gb => "7g.141gb",
        }
    }

    /// The number of partitions that this layout cuts the GPU into.
    pub fn slice_count(&self) -> (n: u64)
        ensures
            n == self.slices(),
    {
        match self {
            NvidiaH200_141gbMigProfile::Mig1g18gb => 7,
            NvidiaH200_141gbMigProfile::Mig1g35gb => 4,
            NvidiaH200_141gbMigProfile::Mig2g35gb => 3,
            NvidiaH200_141gbMigProfile::Mig3g71gb => 2,
            NvidiaH200_141gbMigProfile::Mig7g141gb => 1,
        }
    }

    /// The layout as the profile command takes it: the descriptor once per
    /// partition, joined by commas.
    pub fn get_mig_profile(&self) -> (layout: String)
        ensures
            layout@ == repeat_joined(self.descriptor_text(), self.slices()),
    {
        repeat_layout(self.descriptor(), self.slice_count())
    }
}

/// The layout that a setting gives on a known GPU model; none for a model
/// outside the tables.
pub open spec fn known_layout(gpu: NvidiaGpu, setting: Seq<char>) -> Option<Seq<char>> {
    match gpu {
        NvidiaGpu::A100_40GB => {
            let p = NvidiaA100_40gbMigProfile::of_setting(setting);
            Some(repeat_joined(p.descriptor_text(), p.slices()))
        },
        NvidiaGpu::A100_80GB => {
            let p = NvidiaA100_80gbMigProfile::of_setting(setting);
            Some(repeat_joined(p.descriptor_text(), p.slices()))
        },
        NvidiaGpu::H100_80GB => {
            let p = NvidiaH100_80gbMigProfile::of_setting(setting);
            Some(repeat_joined(p.descriptor_text(), p.slices()))
        },
        NvidiaGpu::H200_141GB => {
            let p = NvidiaH200_141gbMigProfile::of_setting(setting);
            Some(repeat_joined(p.descriptor_text(), p.slices()))
        },
        NvidiaGpu::Other => None,
    }
}

/// Resolves a setting to the layout of a known GPU model.
pub fn resolve_known(gpu: NvidiaGpu, setting: &str) -> (layout: Option<String>)
    ensures
        optional_text(layout) == known_layout(gpu, setting@),
{
    match gpu {
        NvidiaGpu::A100_40GB => Some(
            NvidiaA100_40gbMigProfile::from_setting(setting).get_mig_profile(),
        ),
        NvidiaGpu::A100_80GB => Some(
            NvidiaA100_80gbMigProfile::from_setting(setting).get_mig_profile(),
        ),
        NvidiaGpu::H100_80GB => Some(
            NvidiaH100_80gbMigProfile::from_setting(setting).get_mig_profile(),
        ),
        NvidiaGpu::H200_141GB => Some(
            NvidiaH200_141gbMigProfile::from_setting(setting).get_mig_profile(),
        ),
        NvidiaGpu::Other => None,
    }
}

/// A partition count as a setting writes it.
pub open spec fn count_text(n: nat) -> Seq<char> {
    if n == 1 {
        "1"@
    } else if n == 2 {
        "2"@
    } else if n == 3 {
        "3"@
    } else if n == 4 {
        "4"@
    } else if n == 7 {
        "7"@
    } else {
        Seq::empty()
    }
}

/// The model has a layout of `n` partitions.
pub open spec fn declares_count(gpu: NvidiaGpu, n: nat) -> bool {
    match gpu {
        NvidiaGpu::A100_40GB | NvidiaGpu::A100_80GB => n == 1 || n == 2 || n == 3 || n == 7,
        NvidiaGpu::H100_80GB | NvidiaGpu::H200_141GB => n == 1 || n == 2 || n == 3 || n == 4 || n
            == 7,
        NvidiaGpu::Other => false,
    }
}

/// The descriptor of one partition where the model is cut into `n`.
pub open spec fn slice_descriptor(gpu: NvidiaGpu, n: nat) -> Seq<char> {
    match gpu {
        NvidiaGpu::A100_40GB => if n == 7 {
            "1g.5gb"@
        } else if n == 3 {
            "2g.10gb"@
        } else if n == 2 {
            "3g.20gb"@
        } else {
            "7g.40gb"@
        },
        NvidiaGpu::A100_80GB => if n == 7 {
            "1g.10gb"@
        } else if n == 3 {
            "2g.20gb"@
        } else if n == 2 {
            "3g.40gb"@
        } else {
            "7g.80gb"@
        },
        NvidiaGpu::H100_80GB => if n == 7 {
            "1g.10gb"@
        } else if n == 4 {
            "1g.20gb"@
        } else if n == 3 {
            "2g.20gb"@
        } else if n == 2 {
            "3g.40gb"@
        } else {
            "7g.80gb"@
        },
        NvidiaGpu::H200_141GB => if n == 7 {
            "1g.18gb"@
        } else if n == 4 {
            "1g.35gb"@
        } else if n == 3 {
            "2g.35gb"@
        } else if n == 2 {
            "3g.71gb"@
        } else {
            "7g.141gb"@
        },
        NvidiaGpu::Other => Seq::empty(),
    }
}

/// Makes known how long each partition count and profile name is, and the
/// characters by which they differ.
pub proof fn lemma_profile_names_differ()
    ensures
        "1"@.len() == 1 && "1"@[0] == '1',
        "2"@.len() == 1 && "2"@[0] == '2',
        "3"@.len() == 1 && "3"@[0] == '3',
        "4"@.len() == 1 && "4"@[0] == '4',
        "7"@.len() == 1 && "7"@[0] == '7',
        "1g.5gb"@.len() == 6 && "1g.5gb"@[0] == '1' && "1g.5gb"@[3] == '5',
        "2g.10gb"@.len() == 7 && "2g.10gb"@[0] == '2' && "2g.10gb"@[3] == '1',
        "3g.20gb"@.len() == 7 && "3g.20gb"@[0] == '3' && "3g.20gb"@[3] == '2',
        "7g.40gb"@.len() == 7 && "7g.40gb"@[0] == '7' && "7g.40gb"@[3] == '4',
        "1g.10gb"@.len() == 7 && "1g.10gb"@[0] == '1' && "1g.10gb"@[3] == '1',
        "2g.20gb"@.len() == 7 && "2g.20gb"@[0] == '2' && "2g.20gb"@[3] == '2',
        "3g.40gb"@.len() == 7 && "3g.40gb"@[0] == '3' && "3g.40gb"@[3] == '4',
        "7g.80gb"@.len() == 7 && "7g.80gb"@[0] == '7' && "7g.80gb"@[3] == '8',
        "1g.20gb"@.len() == 7 && "1g.20gb"@[0] == '1' && "1g.20gb"@[3] == '2',
        "1g.18gb"@.len() == 7 && "1g.18gb"@[0] == '1' && "1g.18gb"@[3] == '1',
        "1g.35gb"@.len() == 7 && "1g.35gb"@[0] == '1' && "1g.35gb"@[3] == '3',
        "2g.35gb"@.len() == 7 && "2g.35gb"@[0] == '2' && "2g.35gb"@[3] == '3',
        "3g.71gb"@.len() == 7 && "3g.71gb"@[0] == '3' && "3g.71gb"@[3] == '7',
        "7g.141gb"@.len() == 8 && "7g.141gb"@[0] == '7' && "7g.141gb"@[3] == '1',
{
    reveal_strlit("1");
    reveal_strlit("2");
    reveal_strlit("3");
    reveal_strlit("4");
    reveal_strlit("7");
    reveal_strlit("1g.5gb");
    reveal_strlit("2g.10gb");
    reveal_strlit("3g.20gb");
    reveal_strlit("7g.40gb");
    reveal_strlit("1g.10gb");
    reveal_strlit("2g.20gb");
    reveal_strlit("3g.40gb");
    reveal_strlit("7g.80gb");
    reveal_strlit("1g.20gb");
    reveal_strlit("1g.18gb");
    reveal_strlit("1g.35gb");
    reveal_strlit("2g.35gb");
    reveal_strlit("3g.71gb");
    reveal_strlit("7g.141gb");
}

/// No descriptor of a partition holds a comma.
pub proof fn lemma_descriptor_without_comma(gpu: NvidiaGpu, n: nat)
    ensures
        !slice_descriptor(gpu, n).contains(','),
{
    reveal_strlit("1g.5gb");
    reveal_strlit("2g.10gb");
    reveal_strlit("3g.20gb");
    reveal_strlit("7g.40gb");
    reveal_strlit("1g.10gb");
    reveal_strlit("2g.20gb");
    reveal_strlit("3g.40gb");
    reveal_strlit("7g.80gb");
    reveal_strlit("1g.20gb");
    reveal_strlit("1g.18gb");
    reveal_strlit("1g.35gb");
    reveal_strlit("2g.35gb");
    reveal_strlit("3g.71gb");
    reveal_strlit("7g.141gb");
    let d = slice_descriptor(gpu, n);
    assert forall|i: int| 0 <= i < d.len() implies d[i] != ',' by {
        if i == 0 {
        } else if i == 1 {
        } else if i == 2 {
        } else if i == 3 {
        } else if i == 4 {
        } else if i == 5 {
        } else if i == 6 {
        } else {
        }
    }
}

/// On every known model, a declared partition count resolves to a layout of
/// that many comma-separated segments, each of them the descriptor of one
/// partition of the model at that count.
pub proof fn lemma_count_resolves(gpu: NvidiaGpu, n: nat)
    requires
        declares_count(gpu, n),
    ensures
        known_layout(gpu, count_text(n)) == Some(repeat_joined(slice_descriptor(gpu, n), n)),
        segment_count(repeat_joined(slice_descriptor(gpu, n), n)) == n,
{
    lemma_profile_names_differ();
    lemma_descriptor_without_comma(gpu, n);
    lemma_repeat_joined_segments(slice_descriptor(gpu, n), n);
}

/// On every known model, the name of a layout resolves as its partition count
/// does.
pub proof fn lemma_name_resolves(gpu: NvidiaGpu, n: nat)
    requires
        declares_count(gpu, n),
    ensures
        known_layout(gpu, slice_descriptor(gpu, n)) == known_layout(gpu, count_text(n)),
{
    lemma_profile_names_differ();
}

/// The compute slices of one partition where a known model is cut into `n`.
pub open spec fn slice_compute(n: nat) -> nat {
    if n == 7 || n == 4 {
        1
    } else if n == 3 {
        2
    } else if n == 2 {
        3
    } else {
        7
    }
}

/// The VRAM of one partition, in gigabytes, where the model is cut into `n`.
pub open spec fn slice_ram(gpu: NvidiaGpu, n: nat) -> nat {
    match gpu {
        NvidiaGpu::A100_40GB => if n == 7 {
            5
        } else if n == 3 {
            10
        } else if n == 2 {
            20
        } else {
            40
        },
        NvidiaGpu::A100_80GB => if n == 7 {
            10
        } else if n == 3 {
            20
        } else if n == 2 {
            40
        } else {
            80
        },
        NvidiaGpu::H100_80GB => if n == 7 {
            10
        } else if n == 4 || n == 3 {
            20
        } else if n == 2 {
            40
        } else {
            80
        },
        NvidiaGpu::H200_141GB => if n == 7 {
            18
        } else if n == 4 || n == 3 {
            35
        } else if n == 2 {
            71
        } else {
            141
        },
        NvidiaGpu::Other => 0,
    }
}

/// The total VRAM of a known model, in gigabytes.
pub open spec fn total_ram(gpu: NvidiaGpu) -> nat {
    match gpu {
        NvidiaGpu::A100_40GB => 40,
        NvidiaGpu::A100_80GB | NvidiaGpu::H100_80GB => 80,
        NvidiaGpu::H200_141GB => 141,
        NvidiaGpu::Other => 0,
    }
}

/// The descriptor of a partition writes its compute slices before `g.` and
/// its VRAM before `gb`.
pub proof fn lemma_descriptor_reads(gpu: NvidiaGpu, n: nat)
    requires
        declares_count(gpu, n),
    ensures
        ({
            let d = slice_descriptor(gpu, n);
            &&& d.len() >= 6
            &&& number_or_zero(d.subrange(0, 1)) == slice_compute(n)
            &&& d[1] == 'g' && d[2] == '.'
            &&& number_or_zero(d.subrange(3, d.len() - 2)) == slice_ram(gpu, n)
            &&& d[d.len() - 2] == 'g' && d[d.len() - 1] == 'b'
        }),
{
    reveal_strlit("1g.5gb");
    reveal_strlit("2g.10gb");
    reveal_strlit("3g.20gb");
    reveal_strlit("7g.40gb");
    reveal_strlit("1g.10gb");
    reveal_strlit("2g.20gb");
    reveal_strlit("3g.40gb");
    reveal_strlit("7g.80gb");
    reveal_strlit("1g.20gb");
    reveal_strlit("1g.18gb");
    reveal_strlit("1g.35gb");
    reveal_strlit("2g.35gb");
    reveal_strlit("3g.71gb");
    reveal_strlit("7g.141gb");
    let d = slice_descriptor(gpu, n);
    let compute = d.subrange(0, 1);
    let ram = d.subrange(3, d.len() - 2);
    assert(is_digit(d[0]) && is_digit(d[3]));
    assert(d.len() >= 7 ==> is_digit(d[4]));
    assert(d.len() >= 8 ==> is_digit(d[5]));
    assert(compute[0] == d[0]);
    assert(ram[0] == d[3]);
    assert(ram.len() >= 2 ==> ram[1] == d[4]);
    assert(ram.len() >= 3 ==> ram[2] == d[5]);
    assert(all_digits(compute));
    assert(all_digits(ram));
    lemma_short_number(compute);
    lemma_short_number(ram);
}

/// The partitions of a layout never take more than the seven compute slices,
/// and never more than the VRAM of the model, but for the two partitions of
/// 71 GB on the 141 GB of an H200.
pub proof fn lemma_known_layout_fits(gpu: NvidiaGpu, n: nat)
    requires
        declares_count(gpu, n),
    ensures
        n * slice_compute(n) <= 7,
        !(gpu == NvidiaGpu::H200_141GB && n == 2) ==> n * slice_ram(gpu, n) <= total_ram(gpu),
{
    if n == 1 {
    } else if n == 2 {
    } else if n == 3 {
    } else if n == 4 {
    } else {
    }
}

/// The layout that leaves a known model whole: a single partition.
pub open spec fn full_gpu_layout(gpu: NvidiaGpu) -> Seq<char> {
    slice_descriptor(gpu, 1)
}

/// On every known model, a setting that names no layout of several partitions,
/// neither by name nor by count, resolves to the single partition that is the
/// whole GPU.
pub proof fn lemma_unmatched_setting_gives_full_gpu(gpu: NvidiaGpu, setting: Seq<char>)
    requires
        gpu != NvidiaGpu::Other,
        forall|n: nat|
            n >= 2 && #[trigger] declares_count(gpu, n) ==> setting != count_text(n) && setting
                != slice_descriptor(gpu, n),
    ensures
        known_layout(gpu, setting) == Some(full_gpu_layout(gpu)),
{
    assert(declares_count(gpu, 2));
    assert(declares_count(gpu, 3));
    assert(declares_count(gpu, 7));
    if gpu == NvidiaGpu::H100_80GB || gpu == NvidiaGpu::H200_141GB {
        assert(declares_count(gpu, 4));
    }
}

} // verus!
