use asol_naki::hardware::FullHardwareInfo;
use asol_naki::integrity::{check_cpu_identity, check_storage_capacity, run_checks};
use asol_naki::json::JsonNumber;
use asol_naki::models_db::KnownModels;
use asol_naki::scoring::FlagSeverity;
use asol_naki::storage::{parse_smartctl_json, StorageInfo};

fn parse_helper(json: &str) -> StorageInfo {
    parse_smartctl_json(json)
}

fn honest_hw() -> FullHardwareInfo {
    FullHardwareInfo {
        cpu_name: "Intel Core Ultra 5 125H".into(),
        cpu_threads: 18,
        cpu_cores_physical: Some(14),
        total_memory_mb: 16384,
        os_name: "Windows".into(),
        os_version: "11".into(),
        kernel_version: "10.0".into(),
        hostname: "PROBOOK".into(),
        motherboard: None,
        bios_vendor: None,
        bios_version: None,
        gpus: None,
    }
}

fn spoofed_hw() -> FullHardwareInfo {
    // A relabeled i3's firmware string claims Ultra 5; the OS counts leak the truth.
    FullHardwareInfo {
        cpu_name: "Intel Core Ultra 5 125H".into(),
        cpu_threads: 4,
        cpu_cores_physical: Some(2),
        ..honest_hw()
    }
}

fn nvme_1tb_healthy() -> StorageInfo {
    parse_helper(
        r#"{
        "device_protocol": "NVMe",
        "model_name": "Samsung SSD 980 PRO 1TB",
        "user_capacity": {"bytes": 1000204886016},
        "smart_status": {"passed": true},
        "nvme_smart_health_information_log": {"percentage_used": 3}
    }"#,
    )
}

#[test]
fn honest_probook_profile_passes_clean() {
    let db = KnownModels::embedded();
    let r = run_checks(&honest_hw(), &[nvme_1tb_healthy()], &db);
    assert!(r.flags.is_empty(), "flags: {:?}", r.flags);
    assert!(!r.has_critical);
}

#[test]
fn phase2_exit_gate_spoofed_cpu_is_caught() {
    let db = KnownModels::embedded();
    let r = run_checks(&spoofed_hw(), &[nvme_1tb_healthy()], &db);
    assert!(r.has_critical, "spoof must raise Critical");
    assert!(r
        .flags
        .iter()
        .any(|f| f.check_id == "cpu_thread_count_mismatch"));
    assert!(r
        .flags
        .iter()
        .any(|f| f.check_id == "cpu_core_count_mismatch"));
}

#[test]
fn unknown_cpu_never_flagged() {
    let mut hw = spoofed_hw();
    hw.cpu_name = "Mystery Chip 9000".into();
    let db = KnownModels::embedded();
    let r = run_checks(&hw, &[], &db);
    assert!(!r.has_critical);
}

#[test]
fn fake_nvme_missing_endurance_flagged() {
    let db = KnownModels::embedded();
    let fake = parse_helper(
        r#"{
        "device_protocol": "NVMe",
        "model_name": "Generic SSD 1TB",
        "user_capacity": {"bytes": 512110190592},
        "smart_status": {"passed": true}
    }"#,
    );
    let r = run_checks(&honest_hw(), &[fake], &db);
    assert!(r.has_critical);
    assert!(r.flags.iter().any(|f| f.check_id == "fake_nvme_capacity"));
}

#[test]
fn tiny_nvme_flagged_absurd() {
    let db = KnownModels::embedded();
    let tiny = parse_helper(
        r#"{
        "device_protocol": "NVMe",
        "model_name": "SuperSpeed 8GB",
        "user_capacity": {"bytes": 8000000000},
        "nvme_smart_health_information_log": {"percentage_used": 1}
    }"#,
    );
    let r = run_checks(&honest_hw(), &[tiny], &db);
    assert!(r.has_critical);
    assert!(r.flags.iter().any(|f| f.check_id == "absurd_nvme_capacity"));
}

#[test]
fn sata_drive_without_nvme_endurance_not_fake_flagged() {
    let db = KnownModels::embedded();
    let sata = parse_helper(
        r#"{
        "device_protocol": "ATA",
        "model_name": "WDC WD10SPZX",
        "user_capacity": {"bytes": 1000204886016},
        "smart_status": {"passed": true}
    }"#,
    );
    let r = run_checks(&honest_hw(), &[sata], &db);
    assert!(!r.has_critical, "flags: {:?}", r.flags);
}

#[test]
fn spoofed_cpu_flags_carry_exact_details() {
    let db = KnownModels::embedded();
    let flags = check_cpu_identity(&spoofed_hw(), &db);
    assert_eq!(flags.len(), 2);
    assert_eq!(flags[0].severity, FlagSeverity::Critical);
    assert_eq!(flags[0].message_key, "fraud.cpuThreadMismatch");
    assert_eq!(
        flags[0].detail.as_deref(),
        Some("reported 'Intel Core Ultra 5 125H' claims 18 threads but OS counts 4")
    );
    assert_eq!(flags[1].message_key, "fraud.cpuCoreMismatch");
    assert_eq!(
        flags[1].detail.as_deref(),
        Some("reported 'Intel Core Ultra 5 125H' claims 14 cores but WMI reports 2")
    );
}

#[test]
fn cores_unknown_checks_threads_only() {
    let db = KnownModels::embedded();
    let mut hw = honest_hw();
    hw.cpu_cores_physical = None;
    assert!(check_cpu_identity(&hw, &db).is_empty());
    hw.cpu_threads = 12;
    let flags = check_cpu_identity(&hw, &db);
    assert_eq!(flags.len(), 1);
    assert_eq!(flags[0].check_id, "cpu_thread_count_mismatch");
}

fn nvme_drive(bytes: u64, endurance: bool, model: Option<&str>) -> StorageInfo {
    let mut d = asol_naki::storage::empty_storage_info();
    d.protocol = Some("nvme".to_string());
    d.total_capacity_bytes = Some(bytes);
    d.model_name = model.map(|m| m.to_string());
    if endurance {
        d.nvme_percentage_used = Some(JsonNumber::PosInt(1));
    }
    d
}

#[test]
fn storage_details_match_float_formatting() {
    let gib = 1024u64 * 1024 * 1024;
    let sizes = [
        400 * gib,
        400 * gib - 1,
        512110190592,
        1000204886016,
        401 * gib + gib / 2,
        402 * gib + gib / 2,
        (1u64 << 53) + 1,
        (1u64 << 60) + 12345,
        u64::MAX,
    ];
    for &b in sizes.iter() {
        let flags = check_storage_capacity(&[nvme_drive(b, false, Some("X"))]);
        if b >= 400 * gib {
            let gb = b as f64 / 1024.0 / 1024.0 / 1024.0;
            let expected = format!("'X' reports {:.0} GB over NVMe but no endurance data", gb);
            assert_eq!(flags.len(), 1, "bytes {b}");
            assert_eq!(flags[0].detail.as_deref(), Some(expected.as_str()), "bytes {b}");
        } else {
            assert!(flags.is_empty(), "bytes {b}");
        }
    }
    let small = [0u64, 1, gib / 20, gib / 4, 3 * gib / 4, 8000000000, 16 * gib - 1, 5 * gib / 2];
    for &b in small.iter() {
        let flags = check_storage_capacity(&[nvme_drive(b, true, None)]);
        let gb = b as f64 / 1024.0 / 1024.0 / 1024.0;
        let expected = format!("{gb:.1} GB advertised as NVMe SSD");
        assert_eq!(flags.len(), 1, "bytes {b}");
        assert_eq!(flags[0].detail.as_deref(), Some(expected.as_str()), "bytes {b}");
    }
}

#[test]
fn unnamed_fake_nvme_reports_unknown_model() {
    let flags = check_storage_capacity(&[nvme_drive(500 * 1024 * 1024 * 1024, false, None)]);
    assert_eq!(
        flags[0].detail.as_deref(),
        Some("'unknown' reports 500 GB over NVMe but no endurance data")
    );
}

#[test]
fn sixteen_gib_is_not_absurd_and_capacity_unknown_is_skipped() {
    let gib = 1024u64 * 1024 * 1024;
    assert!(check_storage_capacity(&[nvme_drive(16 * gib, true, None)]).is_empty());
    let mut d = nvme_drive(1, false, None);
    d.total_capacity_bytes = None;
    assert!(check_storage_capacity(&[d]).is_empty());
}

#[test]
fn report_flags_are_cpu_then_storage() {
    let db = KnownModels::embedded();
    let gib = 1024u64 * 1024 * 1024;
    let r = run_checks(
        &spoofed_hw(),
        &[nvme_drive(4 * gib, false, None), nvme_drive(600 * gib, false, None)],
        &db,
    );
    let ids: Vec<&str> = r.flags.iter().map(|f| f.check_id.as_str()).collect();
    assert_eq!(
        ids,
        vec![
            "cpu_thread_count_mismatch",
            "cpu_core_count_mismatch",
            "absurd_nvme_capacity",
            "fake_nvme_capacity"
        ]
    );
    assert!(r.has_critical);
    assert!(!r.has_warning);
}
