use nvidia_migmanager::config::{NvidiaMigConfig, ProfileSetting};
use nvidia_migmanager::error::MigError;
use nvidia_migmanager::gpu::{MigGpu, MigState, NvidiaGpu};
use nvidia_migmanager::reconcile::{
    disable_mig, enable_mig, get_instance_gpu, handle_mig_manager, has_ampere, has_state,
    is_fabric_manager_compatible, process_mig_config, reboot_if_required, select_unknown_profile,
    set_mig_mode, set_mig_profile, MigPlan, RebootReason,
};

fn config(strategy: &str, profile: &[(&str, &str)]) -> NvidiaMigConfig {
    NvidiaMigConfig {
        device_partitioning_strategy: strategy.to_string(),
        profile: profile
            .iter()
            .map(|(gpu, profile)| ProfileSetting {
                gpu: gpu.to_string(),
                profile: profile.to_string(),
            })
            .collect(),
    }
}

fn gpus(model: NvidiaGpu, states: &[MigState]) -> Vec<MigGpu> {
    states.iter().map(|state| MigGpu { model, state: *state }).collect()
}

fn nothing() -> MigPlan {
    MigPlan { set_mode: None, reboot_marker: None, apply_profile: None }
}

#[test]
fn disable_with_everything_disabled_does_nothing() {
    let inventory = gpus(NvidiaGpu::A100_40GB, &[MigState::Disabled, MigState::Disabled]);
    assert_eq!(handle_mig_manager(&config("none", &[]), &inventory), Ok(nothing()));
    assert_eq!(handle_mig_manager(&config("", &[]), &inventory), Ok(nothing()));
    assert_eq!(handle_mig_manager(&config("MIG", &[]), &inventory), Ok(nothing()));
    assert_eq!(disable_mig(&inventory), nothing());
    assert_eq!(disable_mig(&[]), nothing());
}

#[test]
fn disable_switches_mig_off() {
    let inventory = gpus(NvidiaGpu::H100_80GB, &[MigState::Disabled, MigState::Enabled]);
    assert_eq!(
        handle_mig_manager(&config("time-slicing", &[]), &inventory),
        Ok(MigPlan { set_mode: Some(false), reboot_marker: None, apply_profile: None })
    );
}

#[test]
fn disable_on_ampere_asks_for_reboot() {
    let inventory = gpus(NvidiaGpu::A100_80GB, &[MigState::Enabled]);
    assert_eq!(
        disable_mig(&inventory),
        MigPlan {
            set_mode: Some(false),
            reboot_marker: Some(RebootReason::DisablingMig),
            apply_profile: None,
        }
    );
}

#[test]
fn disable_ignores_transition() {
    let inventory = gpus(NvidiaGpu::A100_80GB, &[MigState::Transition, MigState::Unknown]);
    assert_eq!(disable_mig(&inventory), nothing());
}

#[test]
fn enable_on_disabled_ampere_waits_for_reboot() {
    let inventory = gpus(NvidiaGpu::A100_40GB, &[MigState::Disabled, MigState::Disabled]);
    let settings = config("mig", &[("a100.40gb", "7")]);
    assert_eq!(
        handle_mig_manager(&settings, &inventory),
        Ok(MigPlan {
            set_mode: Some(true),
            reboot_marker: Some(RebootReason::EnablingMig),
            apply_profile: None,
        })
    );
}

#[test]
fn enable_on_enabled_ampere_applies_profile() {
    let inventory = gpus(NvidiaGpu::A100_40GB, &[MigState::Enabled, MigState::Enabled]);
    let settings = config("mig", &[("a100.80gb", "3"), ("a100.40gb", "2")]);
    assert_eq!(
        handle_mig_manager(&settings, &inventory),
        Ok(MigPlan {
            set_mode: None,
            reboot_marker: None,
            apply_profile: Some("3g.20gb,3g.20gb".to_string()),
        })
    );
}

#[test]
fn enable_on_disabled_hopper_switches_and_applies() {
    let inventory = gpus(NvidiaGpu::H200_141GB, &[MigState::Disabled, MigState::Enabled]);
    let settings = config("mig", &[("h200.141gb", "1g.35gb")]);
    assert_eq!(
        enable_mig(&settings, &inventory),
        Ok(MigPlan {
            set_mode: Some(true),
            reboot_marker: None,
            apply_profile: Some("1g.35gb,1g.35gb,1g.35gb,1g.35gb".to_string()),
        })
    );
}

#[test]
fn enable_without_a_configured_profile_uses_the_whole_gpu() {
    let inventory = gpus(NvidiaGpu::H100_80GB, &[MigState::Enabled]);
    assert_eq!(
        enable_mig(&config("mig", &[]), &inventory),
        Ok(MigPlan {
            set_mode: None,
            reboot_marker: None,
            apply_profile: Some("7g.80gb".to_string()),
        })
    );
    assert_eq!(
        enable_mig(&config("mig", &[("a100.40gb", "7")]), &inventory),
        Ok(MigPlan {
            set_mode: None,
            reboot_marker: None,
            apply_profile: Some("7g.80gb".to_string()),
        })
    );
}

#[test]
fn enable_without_gpus_fails() {
    assert_eq!(handle_mig_manager(&config("mig", &[]), &[]), Err(MigError::NoGpu));
}

#[test]
fn enable_with_mixed_models_fails() {
    let inventory = vec![
        MigGpu { model: NvidiaGpu::A100_40GB, state: MigState::Disabled },
        MigGpu { model: NvidiaGpu::H100_80GB, state: MigState::Disabled },
    ];
    assert_eq!(
        handle_mig_manager(&config("mig", &[]), &inventory),
        Err(MigError::HeterogeneousGpu)
    );
    let inventory = vec![
        MigGpu { model: NvidiaGpu::H100_80GB, state: MigState::Enabled },
        MigGpu { model: NvidiaGpu::H100_80GB, state: MigState::Enabled },
        MigGpu { model: NvidiaGpu::H200_141GB, state: MigState::Enabled },
    ];
    assert_eq!(
        handle_mig_manager(&config("mig", &[]), &inventory),
        Err(MigError::HeterogeneousGpu)
    );
    assert_eq!(get_instance_gpu(&inventory), Err(MigError::HeterogeneousGpu));
}

#[test]
fn instance_model() {
    let inventory = gpus(NvidiaGpu::H200_141GB, &[MigState::Enabled, MigState::Unknown]);
    assert_eq!(get_instance_gpu(&inventory), Ok(NvidiaGpu::H200_141GB));
    assert!(!has_ampere(&inventory));
    assert!(has_state(&inventory, MigState::Unknown));
    assert!(!has_state(&inventory, MigState::Disabled));
    assert!(has_ampere(&gpus(NvidiaGpu::A100_80GB, &[MigState::Unknown])));
    assert!(!has_ampere(&[]));
}

#[test]
fn unlisted_gpu_takes_the_first_key_that_gives_a_layout() {
    let inventory = gpus(NvidiaGpu::Other, &[MigState::Enabled]);
    let settings = config(
        "mig",
        &[
            ("z900.64gb", "2g.16gb"),
            ("b200.192gb", "1g.24gb"),
            ("a100.40gb", "1g.5gb"),
            ("a30.24gb", "4"),
            ("c300.48gb", "1g.12gb"),
        ],
    );
    assert_eq!(
        select_unknown_profile(&settings),
        Some("1g.24gb,1g.24gb,1g.24gb,1g.24gb,1g.24gb,1g.24gb,1g.24gb".to_string())
    );
    assert_eq!(
        handle_mig_manager(&settings, &inventory),
        Ok(MigPlan {
            set_mode: None,
            reboot_marker: None,
            apply_profile: Some(
                "1g.24gb,1g.24gb,1g.24gb,1g.24gb,1g.24gb,1g.24gb,1g.24gb".to_string()
            ),
        })
    );
}

#[test]
fn unlisted_gpu_without_a_usable_profile_applies_nothing() {
    let inventory = gpus(NvidiaGpu::Other, &[MigState::Disabled]);
    let settings = config("mig", &[("a100.40gb", "1g.5gb"), ("a30.24gb", "4"), ("x", "1g.5gb")]);
    assert_eq!(select_unknown_profile(&settings), None);
    assert_eq!(
        handle_mig_manager(&settings, &inventory),
        Ok(MigPlan { set_mode: Some(true), reboot_marker: None, apply_profile: None })
    );
    assert_eq!(select_unknown_profile(&config("mig", &[])), None);
}

#[test]
fn known_model_profile_lookup() {
    let settings = config("mig", &[("a100.40gb", "2"), ("h100.80gb", "4")]);
    assert_eq!(settings.get("h100.80gb"), Some("4"));
    assert_eq!(settings.get("h200.141gb"), None);
    assert!(settings.wants_mig());
    assert!(!config("Mig", &[]).wants_mig());
    assert_eq!(
        process_mig_config(NvidiaGpu::H100_80GB, &settings),
        Some("1g.20gb,1g.20gb,1g.20gb,1g.20gb".to_string())
    );
    assert_eq!(
        process_mig_config(NvidiaGpu::H200_141GB, &settings),
        Some("7g.141gb".to_string())
    );
    assert_eq!(process_mig_config(NvidiaGpu::Other, &settings), None);
}

#[test]
fn fabric_manager_compatibility() {
    let mig = config("mig", &[]);
    let off = config("none", &[]);
    let unsupported = gpus(NvidiaGpu::Other, &[MigState::Unsupported, MigState::Unsupported]);
    assert!(is_fabric_manager_compatible(&mig, &unsupported));
    assert!(is_fabric_manager_compatible(&mig, &[]));
    for state in [MigState::Enabled, MigState::Transition, MigState::Disabled, MigState::Unknown] {
        let inventory = gpus(NvidiaGpu::H100_80GB, &[MigState::Unsupported, state]);
        assert!(!is_fabric_manager_compatible(&mig, &inventory));
        assert!(is_fabric_manager_compatible(&off, &inventory));
    }
}

#[test]
fn command_arguments() {
    assert_eq!(set_mig_mode(true), vec!["-mig".to_string(), "1".to_string()]);
    assert_eq!(set_mig_mode(false), vec!["-mig".to_string(), "0".to_string()]);
    assert_eq!(
        set_mig_profile("3g.20gb,3g.20gb"),
        vec![
            "mig".to_string(),
            "-cgi".to_string(),
            "3g.20gb,3g.20gb".to_string(),
            "-C".to_string()
        ]
    );
    assert_eq!(reboot_if_required(true), Some(vec!["reboot".to_string()]));
    assert_eq!(reboot_if_required(false), None);
    assert_eq!(RebootReason::EnablingMig.note(), "Enabling MIG");
    assert_eq!(RebootReason::DisablingMig.note(), "Disabling MIG");
}

#[test]
fn profile_table_holds_one_line_per_key() {
    let mut settings = NvidiaMigConfig::new("mig".to_string());
    assert!(settings.wants_mig());
    assert_eq!(settings.profile.len(), 0);
    settings.insert("a100.40gb".to_string(), "2".to_string());
    settings.insert("h100.80gb".to_string(), "4".to_string());
    settings.insert("a100.40gb".to_string(), "7".to_string());
    assert_eq!(
        settings,
        config("mig", &[("a100.40gb", "7"), ("h100.80gb", "4")])
    );
    assert_eq!(settings.position("h100.80gb"), Some(1));
    assert_eq!(settings.position("h200.141gb"), None);
    assert_eq!(settings.get("a100.40gb"), Some("7"));
}
