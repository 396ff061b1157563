//! The desired partitioning as the configuration gives it: a strategy and a
//! table of profiles by GPU key.

use crate::text::str_equal;
use vstd::prelude::*;
use vstd::string::*;

verus! {

/// One line of the profile table of the configuration: a GPU key and the
/// profile, or partition count, asked for it.
#[derive(Debug, PartialEq, Eq)]
pub struct ProfileSetting {
    pub gpu: String,
    pub profile: String,
}

impl View for ProfileSetting {
    type V = (Seq<char>, Seq<char>);

    open spec fn view(&self) -> (Seq<char>, Seq<char>) {
        (self.gpu@, self.profile@)
    }
}

/// The desired partitioning: a strategy, which is `mig` to turn MIG on and
/// anything else to turn it off, and the profile of each GPU key.
#[derive(Debug, PartialEq, Eq)]
pub struct NvidiaMigConfig {
    pub device_partitioning_strategy: String,
    pub profile: Vec<ProfileSetting>,
}

/// The configuration as plain text.
pub struct MigConfigView {
    pub strategy: Seq<char>,
    pub profile: Seq<(Seq<char>, Seq<char>)>,
}

impl View for NvidiaMigConfig {
    type V = MigConfigView;

    open spec fn view(&self) -> MigConfigView {
        MigConfigView {
            strategy: self.device_partitioning_strategy@,
            profile: self.profile@.map_values(|e: ProfileSetting| e@),
        }
    }
}

/// The first line at or after `i` whose key is `key`.
pub open spec fn line_from(entries: Seq<(Seq<char>, Seq<char>)>, key: Seq<char>, i: int) -> Option<
    int,
>
    decreases entries.len() - i,
{
    if i < 0 || i >= entries.len() {
        None
    } else if entries[i].0 == key {
        Some(i)
    } else {
        line_from(entries, key, i + 1)
    }
}

/// The profile that the table holds for `key`: that of the first line with
/// this key.
pub open spec fn setting_of(entries: Seq<(Seq<char>, Seq<char>)>, key: Seq<char>) -> Option<
    Seq<char>,
> {
    match line_from(entries, key, 0) {
        Some(i) => Some(entries[i].1),
        None => None,
    }
}

/// The setting that holds for a GPU key: the configured one, and one
/// partition where the table has no line for the key.
pub open spec fn configured_setting(entries: Seq<(Seq<char>, Seq<char>)>, key: Seq<char>) -> Seq<
    char,
> {
    match setting_of(entries, key) {
        Some(setting) => setting,
        None => "1"@,
    }
}

/// No key stands in two lines.
pub open spec fn keys_distinct(entries: Seq<(Seq<char>, Seq<char>)>) -> bool {
    forall|i: int, j: int|
        0 <= i < j < entries.len() ==> (#[trigger] entries[i]).0 != (#[trigger] entries[j]).0
}

/// The table with `profile` set for `key`: in the line of that key where
/// there is one, and in a new last line where there is none.
pub open spec fn with_setting(
    entries: Seq<(Seq<char>, Seq<char>)>,
    key: Seq<char>,
    profile: Seq<char>,
) -> Seq<(Seq<char>, Seq<char>)> {
    match line_from(entries, key, 0) {
        Some(i) => entries.update(i, (key, profile)),
        None => entries.push((key, profile)),
    }
}

/// A line that `line_from` finds lies in the table, holds the key, and is the
/// first to do so.
pub proof fn lemma_line_from(entries: Seq<(Seq<char>, Seq<char>)>, key: Seq<char>, i: int)
    requires
        0 <= i,
    ensures
        match line_from(entries, key, i) {
            Some(k) => i <= k < entries.len() && entries[k].0 == key && forall|j: int|
                i <= j < k ==> (#[trigger] entries[j]).0 != key,
            None => forall|j: int| i <= j < entries.len() ==> (#[trigger] entries[j]).0 != key,
        },
    decreases entries.len() - i,
{
    if i < entries.len() && entries[i].0 != key {
        lemma_line_from(entries, key, i + 1);
    }
}

/// Setting a profile keeps the keys of the table distinct.
pub proof fn lemma_with_setting_keeps_keys_distinct(
    entries: Seq<(Seq<char>, Seq<char>)>,
    key: Seq<char>,
    profile: Seq<char>,
)
    requires
        keys_distinct(entries),
    ensures
        keys_distinct(with_setting(entries, key, profile)),
{
    lemma_line_from(entries, key, 0);
    let after = with_setting(entries, key, profile);
    assert forall|i: int, j: int| 0 <= i < j < after.len() implies (#[trigger] after[i]).0 != (
    #[trigger] after[j]).0 by {
        if i < entries.len() {
            assert(after[i].0 == entries[i].0);
        }
        if j < entries.len() {
            assert(after[j].0 == entries[j].0);
        }
    }
}

/// After a profile is set for a key, the table holds it for that key, and
/// holds for every other key what it held before.
pub proof fn lemma_with_setting_is_found(
    entries: Seq<(Seq<char>, Seq<char>)>,
    key: Seq<char>,
    profile: Seq<char>,
    other: Seq<char>,
)
    ensures
        setting_of(with_setting(entries, key, profile), key) == Some(profile),
        other != key ==> setting_of(with_setting(entries, key, profile), other) == setting_of(
            entries,
            other,
        ),
{
    let after = with_setting(entries, key, profile);
    lemma_line_from(entries, key, 0);
    lemma_line_from(after, key, 0);
    lemma_line_from(entries, other, 0);
    lemma_line_from(after, other, 0);
    match line_from(entries, key, 0) {
        Some(i) => {
            assert(after[i] == (key, profile));
            assert forall|j: int| 0 <= j < entries.len() && j != i implies after[j]
                == entries[j] by {}
            let found = line_from(after, key, 0);
            assert(found == Some(i)) by {
                if found is Some && found->0 < i {
                    assert(after[found->0] == entries[found->0]);
                }
            }
        },
        None => {
            let last = entries.len() as int;
            assert(after[last] == (key, profile));
            assert forall|j: int| 0 <= j < entries.len() implies after[j] == entries[j] by {}
            let found = line_from(after, key, 0);
            assert(found == Some(last)) by {
                if found is Some && found->0 < last {
                    assert(after[found->0] == entries[found->0]);
                }
            }
        },
    }
    if other != key {
        let before_line = line_from(entries, other, 0);
        let after_line = line_from(after, other, 0);
        match before_line {
            Some(k) => {
                assert(after[k].0 == other);
                assert(after[k].1 == entries[k].1);
                if after_line is Some && after_line->0 < k {
                    assert(after[after_line->0].0 == entries[after_line->0].0);
                }
                assert(after_line == Some(k));
            },
            None => {
                if after_line is Some {
                    let m = after_line->0;
                    if m < entries.len() {
                        assert(after[m].0 == entries[m].0);
                    }
                }
                assert(after_line is None);
            },
        }
    }
}

impl NvidiaMigConfig {
    /// No GPU key stands in two lines of the profile table.
    pub open spec fn well_formed(&self) -> bool {
        keys_distinct(self@.profile)
    }

    /// A configuration with the given strategy and an empty profile table.
    pub fn new(device_partitioning_strategy: String) -> (config: Self)
        ensures
            config@.strategy == device_partitioning_strategy@,
            config@.profile == Seq::<(Seq<char>, Seq<char>)>::empty(),
            config.well_formed(),
    {
        let config = NvidiaMigConfig { device_partitioning_strategy, profile: Vec::new() };
        proof {
            assert(config@.profile =~= Seq::<(Seq<char>, Seq<char>)>::empty());
        }
        config
    }

    /// Tells whether the strategy asks for MIG.
    pub fn wants_mig(&self) -> (r: bool)
        ensures
            r == (self@.strategy == "mig"@),
    {
        str_equal(self.device_partitioning_strategy.as_str(), "mig")
    }

    /// Finds the line of a GPU key.
    pub fn position(&self, key: &str) -> (r: Option<usize>)
        ensures
            match r {
                Some(i) => line_from(self@.profile, key@, 0) == Some(i as int) && i
                    < self.profile@.len(),
                None => line_from(self@.profile, key@, 0) is None,
            },
    {
        let n: usize = self.profile.len();
        let mut i: usize = 0;
        while i < n
            invariant
                n == self.profile.len(),
                i <= n,
                line_from(self@.profile, key@, 0) == line_from(self@.profile, key@, i as int),
            decreases n - i,
        {
            let entry = &self.profile[i];
            assert(self@.profile[i as int] == entry@);
            if str_equal(entry.gpu.as_str(), key) {
                return Some(i);
            }
            i += 1;
        }
        None
    }

    /// Looks up the profile configured for a GPU key.
    pub fn get(&self, key: &str) -> (r: Option<&str>)
        ensures
            match r {
                Some(setting) => setting_of(self@.profile, key@) == Some(setting@),
                None => setting_of(self@.profile, key@) is None,
            },
    {
        match self.position(key) {
            Some(i) => {
                assert(self@.profile[i as int] == self.profile@[i as int]@);
                Some(self.profile[i].profile.as_str())
            },
            None => None,
        }
    }

    /// Sets the profile of a GPU key, in place of the one it had.
    pub fn insert(&mut self, gpu: String, profile: String)
        ensures
            final(self)@.strategy == old(self)@.strategy,
            final(self)@.profile == with_setting(old(self)@.profile, gpu@, profile@),
            old(self).well_formed() ==> final(self).well_formed(),
    {
        proof {
            if self.well_formed() {
                lemma_with_setting_keeps_keys_distinct(self@.profile, gpu@, profile@);
            }
        }
        let found = self.position(gpu.as_str());
        let entry = ProfileSetting { gpu, profile };
        match found {
            Some(i) => {
                self.profile.set(i, entry);
            },
            None => {
                self.profile.push(entry);
            },
        }
        proof {
            assert(final(self)@.profile =~= with_setting(old(self)@.profile, entry@.0, entry@.1));
        }
    }
}

} // verus!
