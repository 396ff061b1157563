use nvidia_migmanager::error::MigError;
use nvidia_migmanager::gpu::{
    get_gpu_info, get_gpu_model, get_gpu_state, parse_gpu_row, MigGpu, MigState, NvidiaGpu,
};
use nvidia_migmanager::text::{
    ends_with, find, matches_at, parse_decimal, repeat_layout, starts_with, str_equal, str_lt,
};

#[test]
fn classify_states() {
    assert_eq!(get_gpu_state("Enabled", "Enabled"), MigState::Enabled);
    assert_eq!(get_gpu_state("Enabled", "Disabled"), MigState::Transition);
    assert_eq!(get_gpu_state("Disabled", "Enabled"), MigState::Transition);
    assert_eq!(get_gpu_state("Disabled", "Disabled"), MigState::Disabled);
    assert_eq!(get_gpu_state("[N/A]", "[N/A]"), MigState::Unsupported);
    assert_eq!(get_gpu_state("X", "X"), MigState::Unknown);
    assert_eq!(get_gpu_state("", ""), MigState::Unknown);
    assert_eq!(get_gpu_state("enabled", "enabled"), MigState::Unknown);
    assert_eq!(get_gpu_state("[N/A]", "Enabled"), MigState::Transition);
}

#[test]
fn state_predicates() {
    assert!(MigState::Disabled.is_disabled());
    assert!(!MigState::Enabled.is_disabled());
    assert!(MigState::Enabled.is_enabled());
    assert!(!MigState::Transition.is_enabled());
    assert!(MigState::Unsupported.is_unsupported());
    assert!(!MigState::Unknown.is_unsupported());
}

#[test]
fn ampere_models() {
    assert!(NvidiaGpu::A100_40GB.is_ampere());
    assert!(NvidiaGpu::A100_80GB.is_ampere());
    assert!(!NvidiaGpu::H100_80GB.is_ampere());
    assert!(!NvidiaGpu::H200_141GB.is_ampere());
    assert!(!NvidiaGpu::Other.is_ampere());
}

#[test]
fn identify_models() {
    assert_eq!(get_gpu_model("0x20B010DE"), Ok(NvidiaGpu::A100_40GB));
    assert_eq!(get_gpu_model("0x20B210DE"), Ok(NvidiaGpu::A100_80GB));
    assert_eq!(get_gpu_model("0x20B510DE"), Ok(NvidiaGpu::A100_80GB));
    assert_eq!(get_gpu_model("0x233010DE"), Ok(NvidiaGpu::H100_80GB));
    assert_eq!(get_gpu_model("0x232110DE"), Ok(NvidiaGpu::H100_80GB));
    assert_eq!(get_gpu_model("0x233110DE"), Ok(NvidiaGpu::H100_80GB));
    assert_eq!(get_gpu_model("0x233910DE"), Ok(NvidiaGpu::H100_80GB));
    assert_eq!(get_gpu_model("0x233510DE"), Ok(NvidiaGpu::H200_141GB));
    assert_eq!(get_gpu_model("0x233B10DE"), Ok(NvidiaGpu::H200_141GB));
    assert_eq!(get_gpu_model("0x234810DE"), Ok(NvidiaGpu::H200_141GB));
    assert_eq!(get_gpu_model("0x1EB810DE"), Ok(NvidiaGpu::Other));
    assert_eq!(get_gpu_model("10DE"), Ok(NvidiaGpu::Other));
}

#[test]
fn identify_rejects_other_vendors() {
    assert_eq!(get_gpu_model("0x20B01002"), Err(MigError::InvalidHardwareId));
    assert_eq!(get_gpu_model("0x20B010de"), Err(MigError::InvalidHardwareId));
    assert_eq!(get_gpu_model(""), Err(MigError::InvalidHardwareId));
    assert_eq!(get_gpu_model("0DE"), Err(MigError::InvalidHardwareId));
    assert_eq!(get_gpu_model("0x20B010DE "), Err(MigError::InvalidHardwareId));
}

#[test]
fn read_one_row() {
    assert_eq!(
        parse_gpu_row("0x20B010DE, Enabled, Enabled"),
        Ok(MigGpu { model: NvidiaGpu::A100_40GB, state: MigState::Enabled })
    );
    assert_eq!(
        parse_gpu_row("0x233010DE, Disabled, Enabled"),
        Ok(MigGpu { model: NvidiaGpu::H100_80GB, state: MigState::Transition })
    );
    assert_eq!(
        parse_gpu_row("0x1EB810DE, [N/A], [N/A]"),
        Ok(MigGpu { model: NvidiaGpu::Other, state: MigState::Unsupported })
    );
}

#[test]
fn malformed_rows() {
    assert_eq!(parse_gpu_row(""), Err(MigError::MalformedInventory));
    assert_eq!(parse_gpu_row("0x20B010DE"), Err(MigError::MalformedInventory));
    assert_eq!(parse_gpu_row("0x20B010DE, Enabled"), Err(MigError::MalformedInventory));
    assert_eq!(
        parse_gpu_row("0x20B010DE, Enabled, Enabled, Enabled"),
        Err(MigError::MalformedInventory)
    );
    assert_eq!(
        parse_gpu_row("0x20B010DE,Enabled,Enabled"),
        Err(MigError::MalformedInventory)
    );
    assert_eq!(
        parse_gpu_row("0x20B01002, Enabled, Enabled"),
        Err(MigError::InvalidHardwareId)
    );
}

#[test]
fn read_inventory() {
    let output = "0x20B010DE, Disabled, Disabled\n0x20B010DE, Enabled, Disabled\n";
    assert_eq!(
        get_gpu_info(output),
        Ok(vec![
            MigGpu { model: NvidiaGpu::A100_40GB, state: MigState::Disabled },
            MigGpu { model: NvidiaGpu::A100_40GB, state: MigState::Transition },
        ])
    );
}

#[test]
fn read_inventory_line_endings() {
    assert_eq!(get_gpu_info(""), Ok(vec![]));
    assert_eq!(
        get_gpu_info("0x233510DE, Enabled, Enabled"),
        Ok(vec![MigGpu { model: NvidiaGpu::H200_141GB, state: MigState::Enabled }])
    );
    assert_eq!(
        get_gpu_info("0x233510DE, Enabled, Enabled\r\n0x233510DE, [N/A], [N/A]\r\n"),
        Ok(vec![
            MigGpu { model: NvidiaGpu::H200_141GB, state: MigState::Enabled },
            MigGpu { model: NvidiaGpu::H200_141GB, state: MigState::Unsupported },
        ])
    );
    assert_eq!(
        get_gpu_info("0x233510DE, Enabled, Enabled\r"),
        Ok(vec![MigGpu { model: NvidiaGpu::H200_141GB, state: MigState::Transition }])
    );
}

#[test]
fn read_inventory_errors() {
    assert_eq!(get_gpu_info("\n"), Err(MigError::MalformedInventory));
    assert_eq!(
        get_gpu_info("0x20B010DE, Enabled, Enabled\n\n"),
        Err(MigError::MalformedInventory)
    );
    assert_eq!(
        get_gpu_info("0x20B010DE, Enabled, Enabled\nNo devices were found\n"),
        Err(MigError::MalformedInventory)
    );
    assert_eq!(
        get_gpu_info("0x20B01002, Enabled, Enabled\nbroken\n"),
        Err(MigError::InvalidHardwareId)
    );
}

#[test]
fn text_search() {
    assert!(matches_at("hello", 1, "ell"));
    assert!(!matches_at("hello", 2, "ell"));
    assert!(!matches_at("hello", 4, "lo"));
    assert!(matches_at("hello", 5, ""));
    assert!(!matches_at("hello", 6, ""));
    assert_eq!(find("a, b, c", ", ", 0), Some(1));
    assert_eq!(find("a, b, c", ", ", 2), Some(4));
    assert_eq!(find("a, b, c", ", ", 5), None);
    assert_eq!(find("abc", "abcd", 0), None);
    assert_eq!(find("abc", "c", 7), None);
    assert!(starts_with("0x20B0", "0x20"));
    assert!(!starts_with("0x2", "0x20"));
    assert!(ends_with("0x20B010DE", "10DE"));
    assert!(!ends_with("DE", "10DE"));
    assert!(str_equal("mig", "mig"));
    assert!(!str_equal("mig", "mi"));
    assert!(!str_equal("mig", "miG"));
}

#[test]
fn text_order_is_that_of_strings() {
    let words = ["", "a", "a100.40gb", "a30.24gb", "b", "ab", "B", "é", "z", "a1", "a10"];
    for a in words {
        for b in words {
            assert_eq!(str_lt(a, b), a < b);
        }
    }
}

#[test]
fn decimal_numbers() {
    assert_eq!(parse_decimal("0"), 0);
    assert_eq!(parse_decimal("7"), 7);
    assert_eq!(parse_decimal("141"), 141);
    assert_eq!(parse_decimal("007"), 7);
    assert_eq!(parse_decimal("18446744073709551615"), u64::MAX);
    assert_eq!(parse_decimal("18446744073709551616"), 0);
    assert_eq!(parse_decimal("184467440737095516150"), 0);
    assert_eq!(parse_decimal(""), 0);
    assert_eq!(parse_decimal("12a"), 0);
    assert_eq!(parse_decimal("+5"), 0);
    assert_eq!(parse_decimal("٣"), 0);
}

#[test]
fn repeated_layouts() {
    assert_eq!(repeat_layout("1g.5gb", 0), "");
    assert_eq!(repeat_layout("1g.5gb", 1), "1g.5gb");
    assert_eq!(repeat_layout("1g.5gb", 3), "1g.5gb,1g.5gb,1g.5gb");
}

#[test]
fn error_messages() {
    assert_eq!(MigError::InvalidHardwareId.message(), "Nvidia GPU not available.");
    assert_eq!(MigError::NoGpu.message(), "Nvidia GPU not available.");
    assert_eq!(
        MigError::MalformedInventory.message(),
        "NvidiaSmi command failed or has incorrect output format."
    );
    assert_eq!(
        MigError::InvalidProfile.message(),
        "Invalid MIG Profile provided in the Settings."
    );
    assert_eq!(
        MigError::HeterogeneousGpu.message(),
        "MIG is unsupported because multiple variants of Nvidia GPU present."
    );
}
