use asol_naki::hardware::{
    apply_wmi_readings, basic_from_full, full_info_from_system, BiosReading, BoardReading,
    GpuReading, WmiHardwareReadings,
};

#[test]
fn system_readings_with_defaults() {
    let full = full_info_from_system(Some("   ".to_string()), 8, 17179869184 + 5, None, None, None, None);
    assert_eq!(full.cpu_name, "Unknown CPU");
    assert_eq!(full.cpu_threads, 8);
    assert_eq!(full.total_memory_mb, 16384);
    assert_eq!(full.os_name, "Unknown");
    assert_eq!(full.os_version, "");
    assert_eq!(full.kernel_version, "");
    assert_eq!(full.hostname, "Unknown");
    assert!(full.gpus.is_none() && full.motherboard.is_none());
}

#[test]
fn system_readings_are_kept_and_brand_trimmed() {
    let full = full_info_from_system(
        Some("  Intel(R) Core(TM) Ultra 5 125H ".to_string()),
        18,
        1024 * 1024 - 1,
        Some("Windows".to_string()),
        Some("11".to_string()),
        Some("10.0.22631".to_string()),
        Some("PROBOOK".to_string()),
    );
    assert_eq!(full.cpu_name, "Intel(R) Core(TM) Ultra 5 125H");
    assert_eq!(full.total_memory_mb, 0);
    let basic = basic_from_full(full);
    assert_eq!(basic.cpu_name, "Intel(R) Core(TM) Ultra 5 125H");
    assert_eq!(basic.os_version, "11");
    assert_eq!(basic.kernel_version, "10.0.22631");
    assert_eq!(basic.hostname, "PROBOOK");
    assert_eq!(basic.cpu_threads, 18);
}

fn gpu(name: Option<&str>, ram: Option<u32>) -> GpuReading {
    GpuReading {
        name: name.map(|s| s.to_string()),
        adapter_ram: ram,
        driver_version: Some("31.0".to_string()),
    }
}

#[test]
fn wmi_readings_fill_the_summary() {
    let mut full = full_info_from_system(None, 4, 0, None, None, None, None);
    apply_wmi_readings(
        &mut full,
        WmiHardwareReadings {
            cpu_cores: Some(2),
            board: Some(BoardReading {
                manufacturer: Some(" HP ".to_string()),
                product: Some(" 8B41 ".to_string()),
            }),
            bios: Some(BiosReading {
                manufacturer: Some(" HP ".to_string()),
                smbios_version: Some("  ".to_string()),
            }),
            gpus: Some(vec![
                gpu(Some(" Intel(R) Arc(TM) Graphics "), Some(128 * 1024 * 1024)),
                gpu(Some("Microsoft Basic Display Adapter"), None),
                gpu(Some("   "), None),
                gpu(None, Some(1)),
            ]),
        },
    );
    assert_eq!(full.cpu_cores_physical, Some(2));
    assert_eq!(full.motherboard.as_deref(), Some("HP 8B41"));
    assert_eq!(full.bios_vendor.as_deref(), Some("HP"));
    assert_eq!(full.bios_version, None);
    let gpus = full.gpus.expect("one GPU listed");
    assert_eq!(gpus.len(), 1);
    assert_eq!(gpus[0].name, "Intel(R) Arc(TM) Graphics");
    assert_eq!(gpus[0].vram_bytes, Some(134217728));
    assert_eq!(gpus[0].driver_version.as_deref(), Some("31.0"));
}

#[test]
fn wmi_blank_board_and_no_listed_gpu_leave_summary() {
    let mut full = full_info_from_system(None, 4, 0, None, None, None, None);
    full.motherboard = Some("kept".to_string());
    apply_wmi_readings(
        &mut full,
        WmiHardwareReadings {
            cpu_cores: None,
            board: Some(BoardReading { manufacturer: None, product: Some(" ".to_string()) }),
            bios: None,
            gpus: Some(vec![gpu(Some("basic display"), None)]),
        },
    );
    assert_eq!(full.motherboard.as_deref(), Some("kept"));
    assert!(full.gpus.is_none());
    assert!(full.bios_vendor.is_none());
}

#[test]
fn board_with_only_product() {
    let mut full = full_info_from_system(None, 1, 0, None, None, None, None);
    apply_wmi_readings(
        &mut full,
        WmiHardwareReadings {
            cpu_cores: None,
            board: Some(BoardReading { manufacturer: None, product: Some("X1".to_string()) }),
            bios: None,
            gpus: None,
        },
    );
    assert_eq!(full.motherboard.as_deref(), Some("X1"));
}
