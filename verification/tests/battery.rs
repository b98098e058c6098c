use asol_naki::battery::{
    battery_from_wmi, parse_battery_report_xml, report_health_permille, BatteryStaticReading,
};

const FIXTURE_HEALTHY: &str = r#"<?xml version="1.0" encoding="utf-8"?>
<BatteryReport>
  <Batteries>
    <Battery>
      <Id>SMP HP04XL 1234</Id>
      <Manufacturer>SMP</Manufacturer>
      <SerialNumber>12345</SerialNumber>
      <Chemistry>LION</Chemistry>
      <DesignCapacity>68472</DesignCapacity>
      <FullChargeCapacity>61240</FullChargeCapacity>
      <CycleCount>142</CycleCount>
    </Battery>
  </Batteries>
</BatteryReport>"#;

#[test]
fn healthy_probook_like_fixture_parses() {
    let b = parse_battery_report_xml(FIXTURE_HEALTHY);
    assert_eq!(b.design_capacity_mwh, Some(68472));
    assert_eq!(b.full_charge_capacity_mwh, Some(61240));
    assert_eq!(b.cycle_count, Some(142));
}

#[test]
fn fixture_names_and_health() {
    let b = parse_battery_report_xml(FIXTURE_HEALTHY);
    assert_eq!(b.manufacturer.as_deref(), Some("SMP"));
    assert_eq!(b.chemistry.as_deref(), Some("LION"));
    // 61240 / 68472 = 89.438...% -> 89.4
    assert_eq!(report_health_permille(&b), Some(894));
}

#[test]
fn values_are_trimmed_and_blank_names_dropped() {
    let xml = "<Battery><Manufacturer>   </Manufacturer><Chemistry>\n Li-poly \t</Chemistry>\
               <DesignCapacity> +500 </DesignCapacity><FullChargeCapacity>x1</FullChargeCapacity>\
               <CycleCount>99999999999</CycleCount></Battery>";
    let b = parse_battery_report_xml(xml);
    assert_eq!(b.manufacturer, None);
    assert_eq!(b.chemistry.as_deref(), Some("Li-poly"));
    assert_eq!(b.design_capacity_mwh, Some(500));
    assert_eq!(b.full_charge_capacity_mwh, None);
    // Too large for u32: recorded as 0.
    assert_eq!(b.cycle_count, Some(0));
    assert_eq!(report_health_permille(&b), None);
}

#[test]
fn names_outside_a_battery_element_are_ignored() {
    let xml = "<Manufacturer>ACME</Manufacturer><DesignCapacity>10</DesignCapacity>";
    let b = parse_battery_report_xml(xml);
    assert_eq!(b.manufacturer, None);
    assert_eq!(b.design_capacity_mwh, Some(10));
    assert_eq!(b.cycle_count, None);
}

#[test]
fn empty_report_has_nothing() {
    let b = parse_battery_report_xml("");
    assert_eq!(b.design_capacity_mwh, None);
    assert_eq!(b.full_charge_capacity_mwh, None);
    assert_eq!(b.cycle_count, None);
    assert_eq!(b.manufacturer, None);
    assert_eq!(b.chemistry, None);
}

#[test]
fn health_rounds_half_up_and_needs_design_capacity() {
    let mut b = parse_battery_report_xml(
        "<DesignCapacity>2000</DesignCapacity><FullChargeCapacity>1001</FullChargeCapacity>",
    );
    // 1001 / 2000 = 50.05% -> 50.1
    assert_eq!(report_health_permille(&b), Some(501));
    b.design_capacity_mwh = Some(0);
    assert_eq!(report_health_permille(&b), None);
}

fn stat(cap: Option<u32>, m: Option<&str>) -> BatteryStaticReading {
    BatteryStaticReading {
        designed_capacity: cap,
        manufacturer: m.map(|s| s.to_string()),
        chemistry: Some("LION".to_string()),
    }
}

#[test]
fn wmi_first_real_battery_is_used() {
    let r = battery_from_wmi(
        vec![stat(Some(0), Some("A")), stat(None, Some("B")), stat(Some(50000), Some(" C "))],
        vec![None, Some(0), Some(45000), Some(1)],
        vec![None, Some(7), Some(8)],
    )
    .unwrap();
    assert_eq!(r.design_capacity_mwh, Some(50000));
    assert_eq!(r.full_charge_capacity_mwh, Some(45000));
    assert_eq!(r.cycle_count, Some(7));
    assert_eq!(r.manufacturer.as_deref(), Some(" C "));
    assert_eq!(r.chemistry.as_deref(), Some("LION"));
}

#[test]
fn wmi_without_battery_is_an_error() {
    let r = battery_from_wmi(vec![stat(Some(0), None)], vec![Some(10)], vec![]);
    assert_eq!(
        r.unwrap_err(),
        "No battery present (desktop or missing driver)."
    );
}

#[test]
fn wmi_blank_manufacturer_is_dropped() {
    let r = battery_from_wmi(vec![stat(Some(1), Some("  "))], vec![], vec![]).unwrap();
    assert_eq!(r.manufacturer, None);
    assert_eq!(r.full_charge_capacity_mwh, None);
    assert_eq!(r.cycle_count, None);
}
