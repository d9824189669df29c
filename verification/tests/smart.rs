//! Decoding and interpreting S.M.A.R.T. health data.

use dbus_udisks2::smart::{
    PrettyUnit, PrettyValue, RawSmartAttribute, SmartAssessment, SmartAttribute, SmartData,
    SmartStatus, SmartValue,
};

fn raw(name: &str, value: i32, worst: i32, threshold: i32, unit: i32) -> RawSmartAttribute {
    RawSmartAttribute {
        id: 5,
        name: name.to_string(),
        flags: 0b11,
        value,
        worst,
        threshold,
        pretty_value: 1500,
        pretty_unit: unit,
    }
}

#[test]
fn unsupported_drive_short_circuits() {
    assert_eq!(
        SmartValue::from_flags(false, true, 7),
        Some(SmartValue::NotSupported)
    );
}

#[test]
fn supported_but_not_enabled_short_circuits() {
    assert_eq!(
        SmartValue::from_flags(true, false, 0),
        Some(SmartValue::NotEnabled)
    );
}

#[test]
fn enabled_but_never_updated_short_circuits() {
    assert_eq!(
        SmartValue::from_flags(true, true, 0),
        Some(SmartValue::NotUpdated)
    );
}

#[test]
fn enabled_and_updated_proceeds_to_fetch() {
    assert_eq!(SmartValue::from_flags(true, true, 1_700_000_000), None);
}

#[test]
fn assessment_failing_when_normalized_at_threshold() {
    let attr = SmartAttribute::from(raw("reallocated", 5, 50, 10, 1));
    assert_eq!(attr.assessment(), SmartAssessment::Failing);
}

#[test]
fn assessment_failed_in_past_when_worst_at_threshold() {
    let attr = SmartAttribute::from(raw("reallocated", 20, 5, 10, 1));
    assert_eq!(attr.assessment(), SmartAssessment::FailedInPast);
}

#[test]
fn assessment_healthy_when_above_threshold() {
    let attr = SmartAttribute::from(raw("reallocated", 20, 50, 10, 1));
    assert_eq!(attr.assessment(), SmartAssessment::Healthy);
}

#[test]
fn assessment_skipped_when_fields_nonpositive() {
    // threshold unknown (-1): nothing to compare against
    let attr = SmartAttribute::from(raw("odometer", 1, 1, -1, 1));
    assert_eq!(attr.assessment(), SmartAssessment::Healthy);
}

#[test]
fn attribute_decode_passes_numeric_fields_through() {
    let attr = SmartAttribute::from(raw("temperature", 64, 50, 45, 4));
    assert_eq!(attr.id, 5);
    assert_eq!(attr.name, "temperature");
    assert_eq!(attr.flags, 0b11);
    assert_eq!(attr.normalized, 64);
    assert_eq!(attr.worst, 50);
    assert_eq!(attr.threshold, 45);
    assert_eq!(
        attr.pretty,
        Some(PrettyValue {
            value: 1500,
            unit: PrettyUnit::Millikelvin
        })
    );
}

#[test]
fn unit_tag_outside_known_range_yields_no_interpreted_value() {
    assert_eq!(SmartAttribute::from(raw("x", 1, 1, 1, 0)).pretty, None);
    assert_eq!(SmartAttribute::from(raw("x", 1, 1, 1, 5)).pretty, None);
    assert_eq!(SmartAttribute::from(raw("x", 1, 1, 1, -7)).pretty, None);
    assert_eq!(
        SmartAttribute::from(raw("x", 1, 1, 1, 2)).pretty.map(|p| p.unit),
        Some(PrettyUnit::Milliseconds)
    );
}

#[test]
fn flag_bits_distinguish_prefail_and_online() {
    let prefail_online = SmartAttribute::from(raw("a", 1, 1, 1, 1));
    assert!(prefail_online.pre_fail());
    assert!(prefail_online.online());
    let mut oldage = raw("b", 1, 1, 1, 1);
    oldage.flags = 0b10;
    let oldage_attr = SmartAttribute::from(oldage);
    assert!(!oldage_attr.pre_fail());
    assert!(oldage_attr.online());
}

#[test]
fn status_strings_decode_to_their_statuses() {
    assert_eq!(SmartStatus::from_str("success"), Ok(SmartStatus::Success));
    assert_eq!(
        SmartStatus::from_str("error_servo"),
        Ok(SmartStatus::ServoError)
    );
    assert_eq!(
        SmartStatus::from_str("inprogress"),
        Ok(SmartStatus::InProgress)
    );
    assert_eq!(SmartStatus::from_str("anything else"), Err(()));
}

#[test]
fn smart_data_assembles_all_parts() {
    let data = SmartData::from_parts(
        1_700_000_000,
        false,
        9000,
        310_000,
        0,
        1,
        -1,
        "aborted",
        vec![raw("a", 100, 100, 10, 1), raw("b", 90, 80, 10, 3)],
    );
    assert_eq!(data.updated, 1_700_000_000);
    assert!(!data.failing);
    assert_eq!(data.time_powered_on, 9000);
    assert_eq!(data.temperature_millikelvin, 310_000);
    assert_eq!(data.failing_attrs_count, 0);
    assert_eq!(data.past_failing_attrs_count, 1);
    assert_eq!(data.bad_sectors, -1);
    assert_eq!(data.status, SmartStatus::Aborted);
    assert_eq!(data.attributes.len(), 2);
    assert_eq!(data.attributes[0].name, "a");
    assert_eq!(
        data.attributes[1].pretty,
        Some(PrettyValue {
            value: 1500,
            unit: PrettyUnit::Sectors
        })
    );
}

#[test]
fn unknown_status_string_decodes_to_unknown() {
    let data = SmartData::from_parts(1, true, 0, 0, -1, -1, 0, "brand_new_status", vec![]);
    assert_eq!(data.status, SmartStatus::Unknown);
    assert!(data.attributes.is_empty());
}
