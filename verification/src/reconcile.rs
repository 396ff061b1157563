//! Decides which commands a run has to issue to bring the GPUs of an instance
//! to the configured partitioning.

use crate::config::{configured_setting, setting_of, MigConfigView, NvidiaMigConfig};
use crate::error::MigError;
use crate::gpu::{MigGpu, MigState, NvidiaGpu};
use crate::mig_profile::{
    full_gpu_layout, known_layout, lemma_profile_names_differ,
    lemma_unmatched_setting_gives_full_gpu, resolve_known,
};
use crate::pattern::{process_unknown_gpu_mig_config, unknown_gpu_layout};
use crate::text::{
    lemma_lex_lt_asymmetric, lemma_lex_lt_total, lemma_lex_lt_transitive, lex_lt, optional_text,
    str_equal, str_lt,
};
use vstd::prelude::*;
use vstd::string::*;

verus! {

/// The key under which the configuration holds a model's profile.
pub fn gpu_key(gpu: NvidiaGpu) -> (key: &'static str)
    ensures
        key@ == gpu.key_text(),
{
    match gpu {
        NvidiaGpu::A100_40GB => "a100.40gb",
        NvidiaGpu::A100_80GB => "a100.80gb",
        NvidiaGpu::H100_80GB => "h100.80gb",
        NvidiaGpu::H200_141GB => "h200.141gb",
        NvidiaGpu::Other => {
            proof {
                reveal_strlit("");
                assert(""@ =~= Seq::<char>::empty());
            }
            ""
        },
    }
}

/// Resolves the layout configured for a known GPU model; a model without a
/// line in the profile table gets a single partition.
pub fn process_mig_config(gpu: NvidiaGpu, mig_settings: &NvidiaMigConfig) -> (layout: Option<
    String,
>)
    ensures
        optional_text(layout) == known_layout(
            gpu,
            configured_setting(mig_settings@.profile, gpu.key_text()),
        ),
{
    match mig_settings.get(gpu_key(gpu)) {
        Some(setting) => resolve_known(gpu, setting),
        None => resolve_known(gpu, "1"),
    }
}

/// The key belongs to one of the known GPU models.
pub open spec fn is_known_key(key: Seq<char>) -> bool {
    key == "a100.40gb"@ || key == "a100.80gb"@ || key == "h100.80gb"@ || key == "h200.141gb"@
}

/// Tells whether a key of the profile table belongs to a known GPU model.
pub fn is_known_gpu_key(key: &str) -> (r: bool)
    ensures
        r == is_known_key(key@),
{
    str_equal(key, "a100.40gb") || str_equal(key, "a100.80gb") || str_equal(key, "h100.80gb")
        || str_equal(key, "h200.141gb")
}

/// A line that can serve an unlisted GPU: its key is not that of a known
/// model, and key and profile give a layout.
pub open spec fn is_candidate(entry: (Seq<char>, Seq<char>)) -> bool {
    !is_known_key(entry.0) && unknown_gpu_layout(entry.0, entry.1) is Ok
}

/// Line `i` is tried before line `j`: its key sorts first, and among equal
/// keys the earlier line goes first.
pub open spec fn comes_first(entries: Seq<(Seq<char>, Seq<char>)>, i: int, j: int) -> bool {
    lex_lt(entries[i].0, entries[j].0) || (entries[i].0 == entries[j].0 && i <= j)
}

/// Line `i` is the first candidate in the order of the keys.
pub open spec fn is_selected(entries: Seq<(Seq<char>, Seq<char>)>, i: int) -> bool {
    &&& 0 <= i < entries.len()
    &&& is_candidate(entries[i])
    &&& forall|j: int|
        0 <= j < entries.len() && is_candidate(#[trigger] entries[j]) ==> comes_first(entries, i, j)
}

/// The layout for an unlisted GPU: that of the first candidate in the order
/// of the keys, and none where no line is a candidate.
pub open spec fn selected_layout(entries: Seq<(Seq<char>, Seq<char>)>) -> Option<Seq<char>> {
    if exists|i: int| is_selected(entries, i) {
        let i = choose|i: int| is_selected(entries, i);
        Some(unknown_gpu_layout(entries[i].0, entries[i].1)->Ok_0)
    } else {
        None
    }
}

/// At most one line is selected.
pub proof fn lemma_selected_unique(entries: Seq<(Seq<char>, Seq<char>)>, i: int, j: int)
    requires
        is_selected(entries, i),
        is_selected(entries, j),
    ensures
        i == j,
{
    assert(comes_first(entries, i, j));
    assert(comes_first(entries, j, i));
    lemma_lex_lt_asymmetric(entries[i].0, entries[j].0);
    lemma_lex_lt_asymmetric(entries[i].0, entries[i].0);
}

/// The layout for an unlisted GPU is that of the selected line.
pub proof fn lemma_selected_layout(entries: Seq<(Seq<char>, Seq<char>)>, i: int)
    requires
        is_selected(entries, i),
    ensures
        selected_layout(entries) == Some(unknown_gpu_layout(entries[i].0, entries[i].1)->Ok_0),
{
    let c = choose|c: int| is_selected(entries, c);
    lemma_selected_unique(entries, i, c);
}

/// Scans the profile table for an unlisted GPU. Lines of known models are
/// left out, lines that give no layout are passed over, and of the rest the
/// one whose key sorts first gives the layout.
pub fn select_unknown_profile(mig_settings: &NvidiaMigConfig) -> (layout: Option<String>)
    ensures
        optional_text(layout) == selected_layout(mig_settings@.profile),
{
    let ghost entries = mig_settings@.profile;
    let n: usize = mig_settings.profile.len();
    let mut best: Option<usize> = None;
    let mut best_layout: Option<String> = None;
    let mut i: usize = 0;
    while i < n
        invariant
            n == mig_settings.profile.len(),
            entries == mig_settings@.profile,
            entries.len() == n,
            i <= n,
            match best {
                None => best_layout is None && forall|j: int|
                    0 <= j < i ==> !is_candidate(#[trigger] entries[j]),
                Some(b) => {
                    &&& b < i
                    &&& is_candidate(entries[b as int])
                    &&& best_layout is Some
                    &&& Ok::<Seq<char>, MigError>(best_layout->0@) == unknown_gpu_layout(
                        entries[b as int].0,
                        entries[b as int].1,
                    )
                    &&& forall|j: int|
                        0 <= j < i && is_candidate(#[trigger] entries[j]) ==> comes_first(
                            entries,
                            b as int,
                            j,
                        )
                },
            },
        decreases n - i,
    {
        let entry = &mig_settings.profile[i];
        assert(entries[i as int] == entry@);
        if !is_known_gpu_key(entry.gpu.as_str()) {
            match process_unknown_gpu_mig_config(entry.gpu.as_str(), entry.profile.as_str()) {
                Ok(layout) => {
                    let better: bool = match best {
                        None => true,
                        Some(b) => {
                            assert(entries[b as int] == mig_settings.profile@[b as int]@);
                            str_lt(entry.gpu.as_str(), mig_settings.profile[b].gpu.as_str())
                        },
                    };
                    if better {
                        proof {
                            if let Some(b) = best {
                                assert forall|j: int|
                                    0 <= j < i + 1 && is_candidate(
                                        #[trigger] entries[j],
                                    ) implies comes_first(entries, i as int, j) by {
                                    if j < i {
                                        assert(comes_first(entries, b as int, j));
                                        if lex_lt(entries[b as int].0, entries[j].0) {
                                            lemma_lex_lt_transitive(
                                                entries[i as int].0,
                                                entries[b as int].0,
                                                entries[j].0,
                                            );
                                        }
                                    }
                                }
                            }
                        }
                        best = Some(i);
                        best_layout = Some(layout);
                    } else {
                        proof {
                            let b = best->0 as int;
                            if entries[b].0 != entries[i as int].0 {
                                lemma_lex_lt_total(entries[b].0, entries[i as int].0);
                            }
                            assert(comes_first(entries, b, i as int));
                        }
                    }
                },
                Err(_) => {},
            }
        }
        i += 1;
    }
    proof {
        match best {
            Some(b) => {
                lemma_selected_layout(entries, b as int);
            },
            None => {
                assert forall|c: int| !is_selected(entries, c) by {
                    if 0 <= c < entries.len() {
                        assert(!is_candidate(entries[c]));
                    }
                }
            },
        }
    }
    best_layout
}

/// Some GPU of the inventory needs a reboot to change its MIG mode.
pub open spec fn any_ampere(gpus: Seq<MigGpu>) -> bool {
    exists|i: int| 0 <= i < gpus.len() && (#[trigger] gpus[i]).model.is_ampere()
}

/// Some GPU of the inventory is in the given state.
pub open spec fn any_in_state(gpus: Seq<MigGpu>, state: MigState) -> bool {
    exists|i: int| 0 <= i < gpus.len() && (#[trigger] gpus[i]).state == state
}

/// Every GPU of the inventory is of the model of the first.
pub open spec fn same_model(gpus: Seq<MigGpu>) -> bool {
    forall|i: int| 0 <= i < gpus.len() ==> (#[trigger] gpus[i]).model == gpus[0].model
}

/// Tells whether some GPU needs a reboot to change its MIG mode.
pub fn has_ampere(gpu_info: &[MigGpu]) -> (r: bool)
    ensures
        r == any_ampere(gpu_info@),
{
    let n: usize = gpu_info.len();
    let mut i: usize = 0;
    while i < n
        invariant
            n == gpu_info@.len(),
            i <= n,
            forall|j: int| 0 <= j < i ==> !(#[trigger] gpu_info@[j]).model.is_ampere(),
        decreases n - i,
    {
        if gpu_info[i].model.is_ampere() {
            return true;
        }
        i += 1;
    }
    false
}

/// Tells whether some GPU is in the given state.
pub fn has_state(gpu_info: &[MigGpu], state: MigState) -> (r: bool)
    ensures
        r == any_in_state(gpu_info@, state),
{
    let n: usize = gpu_info.len();
    let mut i: usize = 0;
    while i < n
        invariant
            n == gpu_info@.len(),
            i <= n,
            forall|j: int| 0 <= j < i ==> (#[trigger] gpu_info@[j]).state != state,
        decreases n - i,
    {
        if gpu_info[i].state == state {
            return true;
        }
        i += 1;
    }
    false
}

/// The model of the instance: that of its GPUs where they all share one.
pub fn get_instance_gpu(gpu_info: &[MigGpu]) -> (r: Result<NvidiaGpu, MigError>)
    requires
        gpu_info@.len() > 0,
    ensures
        r == if same_model(gpu_info@) {
            Ok::<NvidiaGpu, MigError>(gpu_info@[0].model)
        } else {
            Err::<NvidiaGpu, MigError>(MigError::HeterogeneousGpu)
        },
{
    let reference: NvidiaGpu = gpu_info[0].model;
    let n: usize = gpu_info.len();
    let mut i: usize = 1;
    while i < n
        invariant
            n == gpu_info@.len(),
            1 <= i <= n,
            reference == gpu_info@[0].model,
            forall|j: int| 0 <= j < i ==> (#[trigger] gpu_info@[j]).model == reference,
        decreases n - i,
    {
        if gpu_info[i].model != reference {
            return Err(MigError::HeterogeneousGpu);
        }
        i += 1;
    }
    Ok(reference)
}

/// Why a reboot is asked for.
#[derive(Clone, Copy, Debug, PartialEq, Eq, Structural)]
pub enum RebootReason {
    EnablingMig,
    DisablingMig,
}

impl RebootReason {
    pub open spec fn note_text(self) -> Seq<char> {
        match self {
            RebootReason::EnablingMig => "Enabling MIG"@,
            RebootReason::DisablingMig => "Disabling MIG"@,
        }
    }

    /// The note that the reboot marker holds for a reader.
    pub fn note(&self) -> (text: &'static str)
        ensures
            text@ == self.note_text(),
    {
        match self {
            RebootReason::EnablingMig => "Enabling MIG",
            RebootReason::DisablingMig => "Disabling MIG",
        }
    }
}

/// What a run has to do, in this order: switch the MIG mode of the whole
/// instance, leave the reboot marker, apply a profile. Each step is taken at
/// most once, and a step that fails ends the run.
#[derive(Debug, PartialEq, Eq)]
pub struct MigPlan {
    pub set_mode: Option<bool>,
    pub reboot_marker: Option<RebootReason>,
    pub apply_profile: Option<String>,
}

/// A plan with its layout as plain text.
pub struct MigPlanView {
    pub set_mode: Option<bool>,
    pub reboot_marker: Option<RebootReason>,
    pub apply_profile: Option<Seq<char>>,
}

impl View for MigPlan {
    type V = MigPlanView;

    open spec fn view(&self) -> MigPlanView {
        MigPlanView {
            set_mode: self.set_mode,
            reboot_marker: self.reboot_marker,
            apply_profile: optional_text(self.apply_profile),
        }
    }
}

/// The plan of a run, or the error in its place.
pub open spec fn plan_view(r: Result<MigPlan, MigError>) -> Result<MigPlanView, MigError> {
    match r {
        Ok(plan) => Ok(plan@),
        Err(e) => Err(e),
    }
}

/// The layout that the configuration gives for the model of the instance.
pub open spec fn configured_layout(entries: Seq<(Seq<char>, Seq<char>)>, gpu: NvidiaGpu) -> Option<
    Seq<char>,
> {
    if gpu == NvidiaGpu::Other {
        selected_layout(entries)
    } else {
        known_layout(gpu, configured_setting(entries, gpu.key_text()))
    }
}

/// What turning MIG on takes. An empty inventory and one of mixed models are
/// errors, and nothing is done. Where some GPU has MIG off, the mode is
/// switched on; if a GPU then needs a reboot, the marker is left and the
/// profile waits for the next run. Otherwise the configured layout is applied.
pub open spec fn enable_plan(entries: Seq<(Seq<char>, Seq<char>)>, gpus: Seq<MigGpu>) -> Result<
    MigPlanView,
    MigError,
> {
    if gpus.len() == 0 {
        Err(MigError::NoGpu)
    } else if !same_model(gpus) {
        Err(MigError::HeterogeneousGpu)
    } else if any_in_state(gpus, MigState::Disabled) && any_ampere(gpus) {
        Ok(
            MigPlanView {
                set_mode: Some(true),
                reboot_marker: Some(RebootReason::EnablingMig),
                apply_profile: None,
            },
        )
    } else {
        Ok(
            MigPlanView {
                set_mode: if any_in_state(gpus, MigState::Disabled) {
                    Some(true)
                } else {
                    None
                },
                reboot_marker: None,
                apply_profile: configured_layout(entries, gpus[0].model),
            },
        )
    }
}

/// What turning MIG off takes: where some GPU has MIG on, the mode is
/// switched off, and the marker is left if a GPU needs a reboot for that.
pub open spec fn disable_plan(gpus: Seq<MigGpu>) -> MigPlanView {
    let toggle = any_in_state(gpus, MigState::Enabled);
    MigPlanView {
        set_mode: if toggle {
            Some(false)
        } else {
            None
        },
        reboot_marker: if toggle && any_ampere(gpus) {
            Some(RebootReason::DisablingMig)
        } else {
            None
        },
        apply_profile: None,
    }
}

/// What a run has to do for a configuration and an inventory.
pub open spec fn reconcile_plan(config: MigConfigView, gpus: Seq<MigGpu>) -> Result<
    MigPlanView,
    MigError,
> {
    if config.strategy == "mig"@ {
        enable_plan(config.profile, gpus)
    } else {
        Ok(disable_plan(gpus))
    }
}

/// Plans the steps that turn MIG on and apply the configured layout.
pub fn enable_mig(mig_settings: &NvidiaMigConfig, gpu_info: &[MigGpu]) -> (r: Result<
    MigPlan,
    MigError,
>)
    ensures
        plan_view(r) == enable_plan(mig_settings@.profile, gpu_info@),
{
    if gpu_info.len() == 0 {
        return Err(MigError::NoGpu);
    }
    let gpu: NvidiaGpu = match get_instance_gpu(gpu_info) {
        Ok(gpu) => gpu,
        Err(e) => {
            return Err(e);
        },
    };
    let has_disabled_mig: bool = has_state(gpu_info, MigState::Disabled);
    if has_disabled_mig && has_ampere(gpu_info) {
        return Ok(
            MigPlan {
                set_mode: Some(true),
                reboot_marker: Some(RebootReason::EnablingMig),
                apply_profile: None,
            },
        );
    }
    let layout: Option<String> = match gpu {
        NvidiaGpu::Other => select_unknown_profile(mig_settings),
        _ => process_mig_config(gpu, mig_settings),
    };
    Ok(
        MigPlan {
            set_mode: if has_disabled_mig {
                Some(true)
            } else {
                None
            },
            reboot_marker: None,
            apply_profile: layout,
        },
    )
}

/// Plans the steps that turn MIG off.
pub fn disable_mig(gpu_info: &[MigGpu]) -> (plan: MigPlan)
    ensures
        plan@ == disable_plan(gpu_info@),
{
    if has_state(gpu_info, MigState::Enabled) {
        MigPlan {
            set_mode: Some(false),
            reboot_marker: if has_ampere(gpu_info) {
                Some(RebootReason::DisablingMig)
            } else {
                None
            },
            apply_profile: None,
        }
    } else {
        MigPlan { set_mode: None, reboot_marker: None, apply_profile: None }
    }
}

/// Plans a run: turns MIG on where the strategy is `mig`, and off for any
/// other strategy.
pub fn handle_mig_manager(mig_settings: &NvidiaMigConfig, gpu_info: &[MigGpu]) -> (r: Result<
    MigPlan,
    MigError,
>)
    ensures
        plan_view(r) == reconcile_plan(mig_settings@, gpu_info@),
{
    if mig_settings.wants_mig() {
        enable_mig(mig_settings, gpu_info)
    } else {
        Ok(disable_mig(gpu_info))
    }
}

/// MIG gets in the way of the fabric manager where the strategy is `mig` and
/// some GPU does not report MIG as unsupported.
pub open spec fn fabric_manager_compatible(config: MigConfigView, gpus: Seq<MigGpu>) -> bool {
    !(config.strategy == "mig"@ && exists|i: int|
        0 <= i < gpus.len() && !(#[trigger] gpus[i]).state.is_unsupported())
}

/// Tells whether the fabric manager can run beside the configured
/// partitioning.
pub fn is_fabric_manager_compatible(mig_settings: &NvidiaMigConfig, gpu_info: &[MigGpu]) -> (r:
    bool)
    ensures
        r == fabric_manager_compatible(mig_settings@, gpu_info@),
{
    if !mig_settings.wants_mig() {
        return true;
    }
    let n: usize = gpu_info.len();
    let mut i: usize = 0;
    while i < n
        invariant
            n == gpu_info@.len(),
            i <= n,
            mig_settings@.strategy == "mig"@,
            forall|j: int| 0 <= j < i ==> (#[trigger] gpu_info@[j]).state.is_unsupported(),
        decreases n - i,
    {
        if !gpu_info[i].state.is_unsupported() {
            proof {
                assert(!gpu_info@[i as int].state.is_unsupported());
            }
            return false;
        }
        i += 1;
    }
    true
}

/// The arguments that make the GPU tool switch MIG on or off on every GPU.
pub fn set_mig_mode(mig_enabled: bool) -> (args: Vec<String>)
    ensures
        args@.len() == 2,
        args@[0]@ == "-mig"@,
        args@[1]@ == if mig_enabled {
            "1"@
        } else {
            "0"@
        },
{
    let mut args: Vec<String> = Vec::new();
    args.push(String::from_str("-mig"));
    if mig_enabled {
        args.push(String::from_str("1"));
    } else {
        args.push(String::from_str("0"));
    }
    args
}

/// The arguments that make the GPU tool apply a layout on every GPU.
pub fn set_mig_profile(profile_string: &str) -> (args: Vec<String>)
    ensures
        args@.len() == 4,
        args@[0]@ == "mig"@,
        args@[1]@ == "-cgi"@,
        args@[2]@ == profile_string@,
        args@[3]@ == "-C"@,
{
    let mut args: Vec<String> = Vec::new();
    args.push(String::from_str("mig"));
    args.push(String::from_str("-cgi"));
    args.push(String::from_str(profile_string));
    args.push(String::from_str("-C"));
    args
}

/// The arguments that make the service manager restart the host, where the
/// reboot marker is there; nothing where it is not.
pub fn reboot_if_required(marker_exists: bool) -> (args: Option<Vec<String>>)
    ensures
        args is Some == marker_exists,
        args matches Some(a) ==> a@.len() == 1 && a@[0]@ == "reboot"@,
{
    if marker_exists {
        let mut args: Vec<String> = Vec::new();
        args.push(String::from_str("reboot"));
        Some(args)
    } else {
        None
    }
}

/// On every known model, a profile table without a line for the model gives
/// the single partition that is the whole GPU.
pub proof fn lemma_absent_key_gives_full_gpu(entries: Seq<(Seq<char>, Seq<char>)>, gpu: NvidiaGpu)
    requires
        gpu != NvidiaGpu::Other,
        setting_of(entries, gpu.key_text()) is None,
    ensures
        configured_layout(entries, gpu) == Some(full_gpu_layout(gpu)),
{
    lemma_profile_names_differ();
    lemma_unmatched_setting_gives_full_gpu(gpu, "1"@);
}

/// With a strategy other than `mig` and MIG off on every GPU, a run does
/// nothing: no mode is switched, no marker left, no profile applied.
pub proof fn lemma_disable_is_idempotent(config: MigConfigView, gpus: Seq<MigGpu>)
    requires
        config.strategy != "mig"@,
        forall|i: int| 0 <= i < gpus.len() ==> (#[trigger] gpus[i]).state == MigState::Disabled,
    ensures
        reconcile_plan(config, gpus) == Ok::<MigPlanView, MigError>(
            MigPlanView { set_mode: None, reboot_marker: None, apply_profile: None },
        ),
{
}

/// With the strategy `mig` and MIG off on every GPU of an inventory of one
/// model that needs a reboot, a run switches MIG on, leaves the reboot marker
/// and applies no profile.
pub proof fn lemma_enable_waits_for_reboot(config: MigConfigView, gpus: Seq<MigGpu>)
    requires
        config.strategy == "mig"@,
        gpus.len() > 0,
        same_model(gpus),
        gpus[0].model.is_ampere(),
        forall|i: int| 0 <= i < gpus.len() ==> (#[trigger] gpus[i]).state == MigState::Disabled,
    ensures
        reconcile_plan(config, gpus) == Ok::<MigPlanView, MigError>(
            MigPlanView {
                set_mode: Some(true),
                reboot_marker: Some(RebootReason::EnablingMig),
                apply_profile: None,
            },
        ),
{
    assert(gpus[0].state == MigState::Disabled);
}

/// With the strategy `mig`, a GPU on which MIG is on or in transition rules
/// the fabric manager out.
pub proof fn lemma_active_mig_is_incompatible(config: MigConfigView, gpus: Seq<MigGpu>, i: int)
    requires
        config.strategy == "mig"@,
        0 <= i < gpus.len(),
        gpus[i].state == MigState::Enabled || gpus[i].state == MigState::Transition,
    ensures
        !fabric_manager_compatible(config, gpus),
{
}

/// Where every GPU reports MIG as unsupported, the fabric manager can run.
pub proof fn lemma_unsupported_is_compatible(config: MigConfigView, gpus: Seq<MigGpu>)
    requires
        forall|i: int| 0 <= i < gpus.len() ==> (#[trigger] gpus[i]).state == MigState::Unsupported,
    ensures
        fabric_manager_compatible(config, gpus),
{
}

/// With the strategy `mig`, an inventory that holds two different models is
/// refused, and no step is planned.
pub proof fn lemma_mixed_models_are_refused(
    config: MigConfigView,
    gpus: Seq<MigGpu>,
    i: int,
    j: int,
)
    requires
        config.strategy == "mig"@,
        0 <= i < gpus.len(),
        0 <= j < gpus.len(),
        gpus[i].model != gpus[j].model,
    ensures
        reconcile_plan(config, gpus) == Err::<MigPlanView, MigError>(MigError::HeterogeneousGpu),
{
}

} // verus!
