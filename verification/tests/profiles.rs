use nvidia_migmanager::error::MigError;
use nvidia_migmanager::gpu::NvidiaGpu;
use nvidia_migmanager::mig_profile::{
    resolve_known, NvidiaA100_40gbMigProfile, NvidiaA100_80gbMigProfile,
    NvidiaH100_80gbMigProfile, NvidiaH200_141gbMigProfile,
};
use nvidia_migmanager::pattern::{
    count_partitions, layout_from_fields, process_unknown_gpu_mig_config,
};

#[test]
fn test_get_mig_profile_deserialization() {
    let mig_profile = "1g.5gb".to_string();
    let profile = NvidiaA100_40gbMigProfile::from_setting(mig_profile.as_str());

    let profile_string = profile.get_mig_profile();
    let expected_profile_string = "1g.5gb,1g.5gb,1g.5gb,1g.5gb,1g.5gb,1g.5gb,1g.5gb";

    assert_eq!(profile_string, expected_profile_string)
}

#[test]
fn test_get_mig_profile_deserialization_default() {
    let mig_profile = "1g.8gb".to_string();
    let profile = NvidiaA100_40gbMigProfile::from_setting(mig_profile.as_str());
    let profile_string = profile.get_mig_profile();
    let expected_profile_string = "7g.40gb";

    assert_eq!(profile_string, expected_profile_string)
}

#[test]
fn test_get_mig_profile_unknown_gpu() {
    let gpu = "a100.40gb";
    let mig_profile = "1g.5gb";

    let profile_string = process_unknown_gpu_mig_config(gpu, mig_profile).unwrap();

    let expected_profile_string = "1g.5gb,1g.5gb,1g.5gb,1g.5gb,1g.5gb,1g.5gb,1g.5gb";

    assert_eq!(profile_string, expected_profile_string)
}

#[test]
fn a100_40gb_counts_and_names() {
    let cases = [
        ("7", "1g.5gb,1g.5gb,1g.5gb,1g.5gb,1g.5gb,1g.5gb,1g.5gb"),
        ("1g.5gb", "1g.5gb,1g.5gb,1g.5gb,1g.5gb,1g.5gb,1g.5gb,1g.5gb"),
        ("3", "2g.10gb,2g.10gb,2g.10gb"),
        ("2g.10gb", "2g.10gb,2g.10gb,2g.10gb"),
        ("2", "3g.20gb,3g.20gb"),
        ("3g.20gb", "3g.20gb,3g.20gb"),
        ("1", "7g.40gb"),
        ("7g.40gb", "7g.40gb"),
    ];
    for (setting, expected) in cases {
        assert_eq!(
            NvidiaA100_40gbMigProfile::from_setting(setting).get_mig_profile(),
            expected
        );
        assert_eq!(
            resolve_known(NvidiaGpu::A100_40GB, setting),
            Some(expected.to_string())
        );
    }
}

#[test]
fn a100_80gb_counts_and_names() {
    let cases = [
        ("7", "1g.10gb,1g.10gb,1g.10gb,1g.10gb,1g.10gb,1g.10gb,1g.10gb"),
        ("1g.10gb", "1g.10gb,1g.10gb,1g.10gb,1g.10gb,1g.10gb,1g.10gb,1g.10gb"),
        ("3", "2g.20gb,2g.20gb,2g.20gb"),
        ("2g.20gb", "2g.20gb,2g.20gb,2g.20gb"),
        ("2", "3g.40gb,3g.40gb"),
        ("3g.40gb", "3g.40gb,3g.40gb"),
        ("1", "7g.80gb"),
        ("7g.80gb", "7g.80gb"),
    ];
    for (setting, expected) in cases {
        assert_eq!(
            NvidiaA100_80gbMigProfile::from_setting(setting).get_mig_profile(),
            expected
        );
        assert_eq!(
            resolve_known(NvidiaGpu::A100_80GB, setting),
            Some(expected.to_string())
        );
    }
}

#[test]
fn h100_80gb_counts_and_names() {
    let cases = [
        ("7", "1g.10gb,1g.10gb,1g.10gb,1g.10gb,1g.10gb,1g.10gb,1g.10gb"),
        ("1g.10gb", "1g.10gb,1g.10gb,1g.10gb,1g.10gb,1g.10gb,1g.10gb,1g.10gb"),
        ("4", "1g.20gb,1g.20gb,1g.20gb,1g.20gb"),
        ("1g.20gb", "1g.20gb,1g.20gb,1g.20gb,1g.20gb"),
        ("3", "2g.20gb,2g.20gb,2g.20gb"),
        ("2g.20gb", "2g.20gb,2g.20gb,2g.20gb"),
        ("2", "3g.40gb,3g.40gb"),
        ("3g.40gb", "3g.40gb,3g.40gb"),
        ("1", "7g.80gb"),
        ("7g.80gb", "7g.80gb"),
    ];
    for (setting, expected) in cases {
        assert_eq!(
            NvidiaH100_80gbMigProfile::from_setting(setting).get_mig_profile(),
            expected
        );
        assert_eq!(
            resolve_known(NvidiaGpu::H100_80GB, setting),
            Some(expected.to_string())
        );
    }
}

#[test]
fn h200_141gb_counts_and_names() {
    let cases = [
        ("7", "1g.18gb,1g.18gb,1g.18gb,1g.18gb,1g.18gb,1g.18gb,1g.18gb"),
        ("1g.18gb", "1g.18gb,1g.18gb,1g.18gb,1g.18gb,1g.18gb,1g.18gb,1g.18gb"),
        ("4", "1g.35gb,1g.35gb,1g.35gb,1g.35gb"),
        ("1g.35gb", "1g.35gb,1g.35gb,1g.35gb,1g.35gb"),
        ("3", "2g.35gb,2g.35gb,2g.35gb"),
        ("2g.35gb", "2g.35gb,2g.35gb,2g.35gb"),
        ("2", "3g.71gb,3g.71gb"),
        ("3g.71gb", "3g.71gb,3g.71gb"),
        ("1", "7g.141gb"),
        ("7g.141gb", "7g.141gb"),
    ];
    for (setting, expected) in cases {
        assert_eq!(
            NvidiaH200_141gbMigProfile::from_setting(setting).get_mig_profile(),
            expected
        );
        assert_eq!(
            resolve_known(NvidiaGpu::H200_141GB, setting),
            Some(expected.to_string())
        );
    }
}

#[test]
fn segment_count_equals_partition_count() {
    for (setting, count) in [("1", 1usize), ("2", 2), ("3", 3), ("4", 4), ("7", 7)] {
        let layout = NvidiaH100_80gbMigProfile::from_setting(setting).get_mig_profile();
        assert_eq!(layout.split(',').count(), count);
        let profile = NvidiaH100_80gbMigProfile::from_setting(setting);
        assert_eq!(profile.slice_count(), count as u64);
        assert!(layout.split(',').all(|segment| segment == profile.descriptor()));
    }
}

#[test]
fn unmatched_settings_give_the_whole_gpu() {
    for setting in ["", "5", "6", "8", "1G.5GB", "1g.5gb ", "4", "Mig1g5gb", "07"] {
        assert_eq!(
            resolve_known(NvidiaGpu::A100_40GB, setting),
            Some("7g.40gb".to_string())
        );
    }
    for setting in ["", "5", "4", "1g.5gb", "1g.20gb"] {
        assert_eq!(
            resolve_known(NvidiaGpu::A100_80GB, setting),
            Some("7g.80gb".to_string())
        );
    }
    for setting in ["", "5", "1g.5gb", "1g.35gb"] {
        assert_eq!(
            resolve_known(NvidiaGpu::H100_80GB, setting),
            Some("7g.80gb".to_string())
        );
    }
    for setting in ["", "5", "1g.5gb", "1g.20gb"] {
        assert_eq!(
            resolve_known(NvidiaGpu::H200_141GB, setting),
            Some("7g.141gb".to_string())
        );
    }
}

#[test]
fn unlisted_model_has_no_table() {
    assert_eq!(resolve_known(NvidiaGpu::Other, "7"), None);
}

#[test]
fn unknown_gpu_with_vram_as_limit() {
    assert_eq!(
        process_unknown_gpu_mig_config("a100.40gb", "1g.10gb"),
        Ok("1g.10gb,1g.10gb,1g.10gb,1g.10gb".to_string())
    );
}

#[test]
fn unknown_gpu_with_compute_slices_as_limit() {
    assert_eq!(
        process_unknown_gpu_mig_config("b200.192gb", "3g.20gb"),
        Ok("3g.20gb,3g.20gb".to_string())
    );
    assert_eq!(
        process_unknown_gpu_mig_config("b200.192gb", "7g.192gb"),
        Ok("7g.192gb".to_string())
    );
}

#[test]
fn unknown_gpu_with_nothing_that_fits() {
    assert_eq!(
        process_unknown_gpu_mig_config("a100.40gb", "8g.5gb"),
        Ok(String::new())
    );
    assert_eq!(
        process_unknown_gpu_mig_config("a100.40gb", "1g.80gb"),
        Ok(String::new())
    );
}

#[test]
fn unknown_gpu_short_profile_is_invalid() {
    assert_eq!(
        process_unknown_gpu_mig_config("a100.40gb", "7"),
        Err(MigError::InvalidProfile)
    );
    assert_eq!(
        process_unknown_gpu_mig_config("a100.40gb", ""),
        Err(MigError::InvalidProfile)
    );
}

#[test]
fn unknown_gpu_zero_fields_are_invalid() {
    assert_eq!(
        process_unknown_gpu_mig_config("a100.40gb", "0g.5gb"),
        Err(MigError::InvalidProfile)
    );
    assert_eq!(
        process_unknown_gpu_mig_config("a100.40gb", "1g.0gb"),
        Err(MigError::InvalidProfile)
    );
    assert_eq!(
        process_unknown_gpu_mig_config("a100.0gb", "1g.5gb"),
        Err(MigError::InvalidProfile)
    );
}

#[test]
fn unknown_gpu_unmatched_patterns_are_invalid() {
    assert_eq!(
        process_unknown_gpu_mig_config("a100.40gb", "12"),
        Err(MigError::InvalidProfile)
    );
    assert_eq!(
        process_unknown_gpu_mig_config("a100.40gb", "1g-5gb"),
        Err(MigError::InvalidProfile)
    );
    assert_eq!(
        process_unknown_gpu_mig_config("a100", "1g.5gb"),
        Err(MigError::InvalidProfile)
    );
    assert_eq!(
        process_unknown_gpu_mig_config("100.40gb", "1g.5gb"),
        Err(MigError::InvalidProfile)
    );
}

#[test]
fn unknown_gpu_numbers_that_do_not_fit_are_invalid() {
    assert_eq!(
        process_unknown_gpu_mig_config("a100.40gb", "1g.99999999999999999999999gb"),
        Err(MigError::InvalidProfile)
    );
}

#[test]
fn unknown_gpu_pattern_is_searched_anywhere() {
    assert_eq!(
        process_unknown_gpu_mig_config("nvidia-a100.40gb-sxm", "1g.20gb"),
        Ok("1g.20gb,1g.20gb".to_string())
    );
}

#[test]
fn layout_from_captured_fields() {
    assert_eq!(
        layout_from_fields("1g.5gb", Some("40"), Some("1"), Some("5")),
        Ok("1g.5gb,1g.5gb,1g.5gb,1g.5gb,1g.5gb,1g.5gb,1g.5gb".to_string())
    );
    assert_eq!(
        layout_from_fields("2g.10gb", Some("40"), Some("2"), Some("10")),
        Ok("2g.10gb,2g.10gb,2g.10gb".to_string())
    );
    assert_eq!(
        layout_from_fields("x", Some("40"), Some("1"), Some("5")),
        Err(MigError::InvalidProfile)
    );
    assert_eq!(
        layout_from_fields("1g.5gb", None, Some("1"), Some("5")),
        Err(MigError::InvalidProfile)
    );
    assert_eq!(
        layout_from_fields("1g.5gb", Some("40"), None, Some("5")),
        Err(MigError::InvalidProfile)
    );
    assert_eq!(
        layout_from_fields("1g.5gb", Some("40"), Some("1"), None),
        Err(MigError::InvalidProfile)
    );
    assert_eq!(
        layout_from_fields("1g.5gb", Some("40"), Some("0"), Some("5")),
        Err(MigError::InvalidProfile)
    );
    assert_eq!(
        layout_from_fields("1g.5gb", Some("40"), Some("1"), Some("x")),
        Err(MigError::InvalidProfile)
    );
    assert_eq!(
        layout_from_fields("1g.5gb", Some("٤٠"), Some("1"), Some("5")),
        Err(MigError::InvalidProfile)
    );
}

#[test]
fn partition_count_formula() {
    assert_eq!(count_partitions(40, 1, 5), 7);
    assert_eq!(count_partitions(40, 1, 10), 4);
    assert_eq!(count_partitions(80, 3, 40), 2);
    assert_eq!(count_partitions(141, 7, 141), 1);
    assert_eq!(count_partitions(40, 8, 5), 0);
    assert_eq!(count_partitions(4, 1, 5), 0);
    assert_eq!(count_partitions(u64::MAX, 1, 1), 7);
}
