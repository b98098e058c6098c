use asol_naki::json::{parse_json, JsonNumber, JsonValue};
use asol_naki::storage::{
    join_device_outputs, parse_smartctl_json, smartctl_device_names, split_json_documents,
    storage_from_disk_drive, storage_info_from_json, DiskDriveReading,
};

const FIXTURE_NVME: &str = r#"{
  "device": {"name": "/dev/nvme0", "type": "nvme", "protocol": "NVMe"},
  "device_protocol": "NVMe",
  "model_name": "Samsung SSD 980 PRO 1TB",
  "serial_number": "S5GXNX0R123456X",
  "user_capacity": {"blocks": 1953525168, "bytes": 1000204886016},
  "logical_block_size": 512,
  "smart_status": {"passed": true, "nvme": {"value": 0}},
  "nvme_smart_health_information_log": {
    "critical_warning": 0,
    "temperature": 41,
    "available_spare": 100,
    "percentage_used": 3,
    "media_errors": 0,
    "power_on_hours": 2871
  }
}"#;

#[test]
fn nvme_fixture_parses_completely() {
    let s = parse_smartctl_json(FIXTURE_NVME);
    assert_eq!(s.model_name.as_deref(), Some("Samsung SSD 980 PRO 1TB"));
}

#[test]
fn nvme_fixture_every_field() {
    let s = parse_smartctl_json(FIXTURE_NVME);
    assert_eq!(s.serial.as_deref(), Some("S5GXNX0R123456X"));
    assert_eq!(s.protocol.as_deref(), Some("nvme"));
    assert_eq!(s.total_capacity_bytes, Some(1000204886016));
    assert_eq!(s.sector_size, Some(512));
    assert_eq!(s.smart_status.as_deref(), Some("passed"));
    assert_eq!(s.nvme_percentage_used, Some(JsonNumber::PosInt(3)));
    assert_eq!(s.media_errors, Some(0));
    assert_eq!(s.power_on_hours, Some(2871));
    assert_eq!(s.temperature_c, Some(JsonNumber::PosInt(41)));
    assert_eq!(s.realloc_sector_count, None);
    assert_eq!(s.pending_sector_count, None);
}

#[test]
fn ata_attributes_and_fallbacks() {
    let s = parse_smartctl_json(
        r#"{
        "device_protocol": " ATA ",
        "model_name": "   ",
        "model_family": " WD Blue ",
        "nvme_total_capacity": 500107862016,
        "sector_sizes": {"logical": 4096},
        "smart_status": {"passed": false},
        "ata_smart_attributes": {"table": [
            {"name": "Reallocated_Sector_Ct", "raw": {"value": 8}},
            {"name": "Reallocated_Event_Count", "raw": {"value": 9}},
            {"name": "Current_Pending_Sector", "raw": {"value": 2}},
            {"name": "Power_On_Hours", "raw": {"string": "  1234 (12 days)"}},
            {"name": "Temperature_Celsius", "raw": {"value": 37}},
            {"name": "Temperature_Celsius", "raw": {"value": 99}},
            {"name": "Current_Pending_Sector", "raw": {"string": "n/a"}}
        ]}
    }"#,
    );
    assert_eq!(s.model_name.as_deref(), Some("WD Blue"));
    assert_eq!(s.protocol.as_deref(), Some("ata"));
    assert_eq!(s.total_capacity_bytes, Some(500107862016));
    assert_eq!(s.sector_size, Some(4096));
    assert_eq!(s.smart_status.as_deref(), Some("failed"));
    assert_eq!(s.realloc_sector_count, Some(8));
    // The last pending-sector row wins, even when unreadable.
    assert_eq!(s.pending_sector_count, None);
    assert_eq!(s.power_on_hours, Some(1234));
    assert_eq!(s.temperature_c, Some(JsonNumber::PosInt(37)));
    assert_eq!(s.nvme_percentage_used, None);
}

#[test]
fn health_status_number_and_float_percentages() {
    let s = parse_smartctl_json(
        r#"{"smart_health_status": -7,
            "nvme_smart_health_information_log": {"percentage_used": 2.5, "temperature": -3}}"#,
    );
    assert_eq!(s.smart_status.as_deref(), Some("-7"));
    assert_eq!(
        s.nvme_percentage_used,
        Some(JsonNumber::Float { bits: 2.5f64.to_bits() })
    );
    assert_eq!(s.temperature_c, Some(JsonNumber::NegInt(-3)));
    let t = parse_smartctl_json(r#"{"smart_status": {"passed": null}, "smart_health_status": 90}"#);
    assert_eq!(t.smart_status.as_deref(), Some("failed"));
    let u = parse_smartctl_json(r#"{"smart_health_status": 90}"#);
    assert_eq!(u.smart_status.as_deref(), Some("90"));
}

#[test]
fn wrong_types_are_ignored() {
    let s = parse_smartctl_json(
        r#"{"model_name": 5, "user_capacity": {"bytes": "1000"}, "logical_block_size": -512,
            "ata_smart_attributes": {"table": {"name": "x"}}}"#,
    );
    assert_eq!(s.model_name, None);
    assert_eq!(s.total_capacity_bytes, None);
    assert_eq!(s.sector_size, None);
    assert_eq!(s.realloc_sector_count, None);
}

#[test]
fn unreadable_document_gives_nothing() {
    let s = parse_smartctl_json("not json");
    assert!(s.model_name.is_none() && s.protocol.is_none() && s.total_capacity_bytes.is_none());
}

#[test]
fn split_keeps_drive_documents_only() {
    let text = r#"{"device": {"name": "a"}, "model_name": "A"}
{"scan": true}
noise {"user_capacity": {"bytes": 1}, "x": "}"} tail"#;
    let docs = split_json_documents(text);
    assert_eq!(
        docs,
        vec![
            r#"{"device": {"name": "a"}, "model_name": "A"}"#.to_string(),
            r#"{"user_capacity": {"bytes": 1}, "x": "}"#.to_string(),
        ]
    );
}

#[test]
fn split_without_drive_documents_keeps_whole_text() {
    assert_eq!(split_json_documents("{} {}"), vec!["{} {}".to_string()]);
    assert_eq!(split_json_documents(""), vec!["".to_string()]);
}

#[test]
fn split_handles_non_ascii_text() {
    let text = "é{\"model_name\": \"ü\"}ß";
    assert_eq!(
        split_json_documents(text),
        vec!["{\"model_name\": \"ü\"}".to_string()]
    );
}

#[test]
fn disk_drive_row_maps_to_storage() {
    let s = storage_from_disk_drive(DiskDriveReading {
        model: Some(" Disk ".to_string()),
        serial_number: Some("   ".to_string()),
        size: Some(256060514304),
        status: Some("OK".to_string()),
        interface_type: Some("SCSI".to_string()),
    });
    assert_eq!(s.model_name.as_deref(), Some(" Disk "));
    assert_eq!(s.serial, None);
    assert_eq!(s.protocol.as_deref(), Some("scsi"));
    assert_eq!(s.total_capacity_bytes, Some(256060514304));
    assert_eq!(s.sector_size, Some(512));
    assert_eq!(s.smart_status.as_deref(), Some("ok"));
    assert_eq!(s.power_on_hours, None);
}

#[test]
fn parse_json_gives_plain_tree() {
    match parse_json(r#"{"a": [1, -2, 2.5, "x", null, true]}"#) {
        Some(JsonValue::Object(members)) => {
            assert_eq!(members.len(), 1);
            assert_eq!(members[0].0, "a");
            match &members[0].1 {
                JsonValue::Array(items) => {
                    assert_eq!(items.len(), 6);
                    assert!(matches!(items[0], JsonValue::Number(JsonNumber::PosInt(1))));
                    assert!(matches!(items[1], JsonValue::Number(JsonNumber::NegInt(-2))));
                    assert!(matches!(items[2], JsonValue::Number(JsonNumber::Float { bits }) if bits == 2.5f64.to_bits()));
                    assert!(matches!(&items[3], JsonValue::String(t) if t == "x"));
                    assert!(matches!(items[4], JsonValue::Null));
                    assert!(matches!(items[5], JsonValue::Bool(true)));
                }
                other => panic!("not an array: {:?}", other),
            }
        }
        other => panic!("not an object: {:?}", other),
    }
    assert!(parse_json("{").is_none());
    assert!(parse_json("1 2").is_none());
}

#[test]
fn parsed_document_and_tree_agree() {
    let tree = parse_json(FIXTURE_NVME).expect("fixture is JSON");
    let a = storage_info_from_json(&tree);
    let b = parse_smartctl_json(FIXTURE_NVME);
    assert_eq!(a.serial, b.serial);
    assert_eq!(a.power_on_hours, b.power_on_hours);
}

fn drives() -> Vec<String> {
    (0..16).map(|i| format!(r"\\.\PhysicalDrive{i}")).collect()
}

#[test]
fn device_names_from_scan_then_physical_drives() {
    let scan = "{\"devices\": []}\n{\"device\": {\"name\": \"/dev/sda\"}}\r\nnot json\n{\"device\": {\"name\": \"/dev/sda\"}}\n{\"device\": {\"name\": \"/dev/nvme0\"}}";
    let mut expected = vec!["/dev/sda".to_string(), "/dev/nvme0".to_string()];
    expected.extend(drives());
    assert_eq!(smartctl_device_names(scan), expected);
}

#[test]
fn device_names_without_scan_are_the_physical_drives() {
    assert_eq!(smartctl_device_names(""), drives());
    let scan = r#"{"device": {"name": "\\\\.\\PhysicalDrive0"}}"#;
    // The scanned name equals the first physical drive, so it appears once.
    assert_eq!(smartctl_device_names(scan), drives());
}

#[test]
fn join_keeps_outputs_that_mention_a_device() {
    let outs = vec![
        "{\"device\": 1}".to_string(),
        "error".to_string(),
        "{\"device\": 2}".to_string(),
    ];
    assert_eq!(join_device_outputs(outs), "{\"device\": 1}\n{\"device\": 2}\n");
    assert_eq!(join_device_outputs(vec![]), "");
}
