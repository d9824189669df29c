//! Types related to the S.M.A.R.T. health data of drives.
//!
//! Health data is fetched per drive, on demand, rather than as part of
//! the bulk object decode. The caller fetches the raw scalars and the
//! attribute tuples from the bus and hands them to the decoders here,
//! which are total: no raw record, however shaped, fails to decode.

use vstd::prelude::*;

use crate::utils::str_eq;

verus! {

/// The status of a S.M.A.R.T. self-test.
#[derive(Debug, Eq, PartialEq, Copy, Clone, Hash, Structural)]
#[non_exhaustive]
pub enum SmartStatus {
    /// Last self-test was a success (or never ran).
    Success,
    /// Last self-test was aborted.
    Aborted,
    /// Last self-test was interrupted.
    Interrupted,
    /// Last self-test did not complete.
    Fatal,
    /// Last self-test failed (unknown reason).
    UnknownError,
    /// Last self-test failed (electrical).
    ElectricalError,
    /// Last self-test failed (servo).
    ServoError,
    /// Last self-test failed (read).
    ReadError,
    /// Last self-test failed (damage).
    HandlingError,
    /// Self-test is currently in progress.
    InProgress,
    /// Unknown status.
    Unknown,
}

/// The status named by a wire status string, or `None` for a string that
/// names no known status.
pub open spec fn spec_status_from_str(s: Seq<char>) -> Option<SmartStatus> {
    if s == "success"@ {
        Some(SmartStatus::Success)
    } else if s == "aborted"@ {
        Some(SmartStatus::Aborted)
    } else if s == "interrupted"@ {
        Some(SmartStatus::Interrupted)
    } else if s == "fatal"@ {
        Some(SmartStatus::Fatal)
    } else if s == "error_unknown"@ {
        Some(SmartStatus::UnknownError)
    } else if s == "error_electrical"@ {
        Some(SmartStatus::ElectricalError)
    } else if s == "error_servo"@ {
        Some(SmartStatus::ServoError)
    } else if s == "error_read"@ {
        Some(SmartStatus::ReadError)
    } else if s == "error_handling"@ {
        Some(SmartStatus::HandlingError)
    } else if s == "inprogress"@ {
        Some(SmartStatus::InProgress)
    } else {
        None
    }
}

impl SmartStatus {
    /// Decode a wire status string; `Err` for a string that names no
    /// known status.
    pub fn from_str(s: &str) -> (r: Result<SmartStatus, ()>)
        ensures
            r == match spec_status_from_str(s@) {
                Some(status) => Result::<SmartStatus, ()>::Ok(status),
                None => Result::<SmartStatus, ()>::Err(()),
            },
    {
        if str_eq(s, "success") {
            Ok(SmartStatus::Success)
        } else if str_eq(s, "aborted") {
            Ok(SmartStatus::Aborted)
        } else if str_eq(s, "interrupted") {
            Ok(SmartStatus::Interrupted)
        } else if str_eq(s, "fatal") {
            Ok(SmartStatus::Fatal)
        } else if str_eq(s, "error_unknown") {
            Ok(SmartStatus::UnknownError)
        } else if str_eq(s, "error_electrical") {
            Ok(SmartStatus::ElectricalError)
        } else if str_eq(s, "error_servo") {
            Ok(SmartStatus::ServoError)
        } else if str_eq(s, "error_read") {
            Ok(SmartStatus::ReadError)
        } else if str_eq(s, "error_handling") {
            Ok(SmartStatus::HandlingError)
        } else if str_eq(s, "inprogress") {
            Ok(SmartStatus::InProgress)
        } else {
            Err(())
        }
    }
}

/// The unit tag of an interpreted attribute value.
#[derive(Debug, Eq, PartialEq, Copy, Clone, Hash, Structural)]
#[non_exhaustive]
pub enum PrettyUnit {
    Dimensionless,
    Milliseconds,
    Sectors,
    Millikelvin,
}

/// The unit named by a wire unit tag: tags run from 1 (dimensionless) to
/// 4 (millikelvin); anything outside that range names no unit.
pub open spec fn spec_pretty_unit(value: u8) -> Option<PrettyUnit> {
    if value == 1 {
        Some(PrettyUnit::Dimensionless)
    } else if value == 2 {
        Some(PrettyUnit::Milliseconds)
    } else if value == 3 {
        Some(PrettyUnit::Sectors)
    } else if value == 4 {
        Some(PrettyUnit::Millikelvin)
    } else {
        None
    }
}

impl PrettyUnit {
    /// Decode a wire unit tag; `None` for a tag outside the known range.
    pub fn try_from_primitive(value: u8) -> (r: Option<PrettyUnit>)
        ensures
            r == spec_pretty_unit(value),
    {
        if value == 1 {
            Some(PrettyUnit::Dimensionless)
        } else if value == 2 {
            Some(PrettyUnit::Milliseconds)
        } else if value == 3 {
            Some(PrettyUnit::Sectors)
        } else if value == 4 {
            Some(PrettyUnit::Millikelvin)
        } else {
            None
        }
    }
}

/// An interpreted attribute value tagged with its unit.
#[derive(Debug, Eq, PartialEq, Copy, Clone, Hash, Structural)]
pub struct PrettyValue {
    pub value: i64,
    pub unit: PrettyUnit,
}

/// The pass/fail assessment of one attribute.
#[derive(Copy, Clone, Eq, PartialEq, Hash, Debug, Structural)]
pub enum SmartAssessment {
    Failing,
    FailedInPast,
    Healthy,
}

/// One raw attribute record as fetched from the bus: a fixed-arity tuple
/// of numeric fields around the attribute name. The wire tuple carries a
/// final reserved expansion table, which the decoder ignores and which is
/// therefore not modelled here.
#[derive(Clone, Debug, PartialEq, Eq)]
pub struct RawSmartAttribute {
    pub id: u8,
    pub name: String,
    pub flags: u16,
    pub value: i32,
    pub worst: i32,
    pub threshold: i32,
    pub pretty_value: i64,
    pub pretty_unit: i32,
}

/// A decoded S.M.A.R.T. attribute.
#[derive(Clone, Debug, PartialEq, Eq)]
pub struct SmartAttribute {
    /// Attribute identifier.
    pub id: u8,
    /// The identifier as a string.
    pub name: String,
    /// 16-bit attribute flags (bit 0 is prefail/oldage, bit 1 is
    /// online/offline).
    pub flags: u16,
    /// The current value, or -1 if unknown.
    pub normalized: i32,
    /// The worst value, or -1 if unknown.
    pub worst: i32,
    /// The threshold, or -1 if unknown.
    pub threshold: i32,
    /// An interpretation of the value.
    pub pretty: Option<PrettyValue>,
}

/// The mathematical model of a decoded attribute.
pub struct SmartAttributeModel {
    pub id: u8,
    pub name: Seq<char>,
    pub flags: u16,
    pub normalized: i32,
    pub worst: i32,
    pub threshold: i32,
    pub pretty: Option<PrettyValue>,
}

impl View for SmartAttribute {
    type V = SmartAttributeModel;

    open spec fn view(&self) -> SmartAttributeModel {
        SmartAttributeModel {
            id: self.id,
            name: self.name@,
            flags: self.flags,
            normalized: self.normalized,
            worst: self.worst,
            threshold: self.threshold,
            pretty: self.pretty,
        }
    }
}

/// The model of a raw attribute record.
pub struct RawSmartAttributeModel {
    pub id: u8,
    pub name: Seq<char>,
    pub flags: u16,
    pub value: i32,
    pub worst: i32,
    pub threshold: i32,
    pub pretty_value: i64,
    pub pretty_unit: i32,
}

impl View for RawSmartAttribute {
    type V = RawSmartAttributeModel;

    open spec fn view(&self) -> RawSmartAttributeModel {
        RawSmartAttributeModel {
            id: self.id,
            name: self.name@,
            flags: self.flags,
            value: self.value,
            worst: self.worst,
            threshold: self.threshold,
            pretty_value: self.pretty_value,
            pretty_unit: self.pretty_unit,
        }
    }
}

/// The attribute decoded from one raw record: the numeric fields pass
/// through unchanged; the interpreted value is present exactly when the
/// unit tag, truncated to a byte, names a known unit.
pub open spec fn spec_attribute_from_raw(raw: RawSmartAttributeModel) -> SmartAttributeModel {
    SmartAttributeModel {
        id: raw.id,
        name: raw.name,
        flags: raw.flags,
        normalized: raw.value,
        worst: raw.worst,
        threshold: raw.threshold,
        pretty: match spec_pretty_unit(raw.pretty_unit as u8) {
            Some(unit) => Some(PrettyValue { value: raw.pretty_value, unit }),
            None => None,
        },
    }
}

impl SmartAttribute {
    /// Whether this attribute determines if the drive is failing
    /// (`true`) or simply old (`false`).
    pub fn pre_fail(&self) -> (r: bool)
        ensures
            r == (self.flags & 0x01 != 0),
    {
        self.flags & 0x01 != 0
    }

    /// Whether this attribute is updated online.
    pub fn online(&self) -> (r: bool)
        ensures
            r == (self.flags & 0x02 != 0),
    {
        self.flags & 0x02 != 0
    }

    /// Assess this attribute from its three threshold-comparison fields.
    pub fn assessment(&self) -> (r: SmartAssessment)
        ensures
            r == spec_assessment(self.normalized, self.worst, self.threshold),
    {
        if self.normalized > 0 && self.threshold > 0 && self.normalized <= self.threshold {
            SmartAssessment::Failing
        } else if self.worst > 0 && self.threshold > 0 && self.worst <= self.threshold {
            SmartAssessment::FailedInPast
        } else {
            SmartAssessment::Healthy
        }
    }
}

/// The assessment rule: evaluated only when the compared fields are
/// strictly positive; normalized at or under the threshold is failing
/// now, else worst at or under the threshold has failed in the past,
/// else the attribute is sound.
pub open spec fn spec_assessment(normalized: i32, worst: i32, threshold: i32) -> SmartAssessment {
    if normalized > 0 && threshold > 0 && normalized <= threshold {
        SmartAssessment::Failing
    } else if worst > 0 && threshold > 0 && worst <= threshold {
        SmartAssessment::FailedInPast
    } else {
        SmartAssessment::Healthy
    }
}

impl From<RawSmartAttribute> for SmartAttribute {
    /// Decode one raw attribute record; total over all records.
    fn from(raw: RawSmartAttribute) -> (r: SmartAttribute) {
        let pretty_tag = #[verifier::truncate] (raw.pretty_unit as u8);
        let pretty = match PrettyUnit::try_from_primitive(pretty_tag) {
            Some(unit) => Some(PrettyValue { value: raw.pretty_value, unit }),
            None => None,
        };
        SmartAttribute {
            id: raw.id,
            name: raw.name,
            flags: raw.flags,
            normalized: raw.value,
            worst: raw.worst,
            threshold: raw.threshold,
            pretty,
        }
    }
}

/// The S.M.A.R.T. data of a drive.
#[derive(Clone, Debug, PartialEq, Eq)]
pub struct SmartData {
    pub attributes: Vec<SmartAttribute>,
    /// The point in time (seconds since the Unix Epoch) that the data was
    /// updated.
    pub updated: u64,
    /// Set to `true` if the disk is about to fail, as read from the disk
    /// itself without interpretation.
    pub failing: bool,
    /// The amount of time the disk has been powered on, or 0 if unknown.
    pub time_powered_on: u64,
    /// The temperature of the disk in millikelvin, or 0 if unknown.
    pub temperature_millikelvin: u64,
    /// The number of attributes failing right now, or -1 if unknown.
    pub failing_attrs_count: i32,
    /// The number of attributes that have failed in the past, or -1 if
    /// unknown.
    pub past_failing_attrs_count: i32,
    /// The number of bad sectors (pending and reallocated), or -1 if
    /// unknown.
    pub bad_sectors: i64,
    /// The status of the last self-test.
    pub status: SmartStatus,
}

/// Whether a drive supports S.M.A.R.T., and its data when it does.
#[derive(Clone, Debug, PartialEq, Eq)]
pub enum SmartValue {
    /// The drive does not support S.M.A.R.T.
    NotSupported,
    /// The drive supports S.M.A.R.T., but it is not enabled.
    NotEnabled,
    /// S.M.A.R.T. is supported and enabled, but its data has never been
    /// read.
    NotUpdated,
    Enabled(SmartData),
}

/// The health state decided by the three preliminary scalars alone:
/// unsupported, not enabled and never-updated short-circuit the decode;
/// `None` says the data itself must be fetched and decoded.
pub open spec fn spec_smart_value_from_flags(
    supported: bool,
    enabled: bool,
    updated: u64,
) -> Option<SmartValue> {
    if !supported {
        Some(SmartValue::NotSupported)
    } else if !enabled {
        Some(SmartValue::NotEnabled)
    } else if updated == 0 {
        Some(SmartValue::NotUpdated)
    } else {
        None
    }
}

impl SmartValue {
    /// Decide the health state from the three preliminary scalars:
    /// `None` exactly when S.M.A.R.T. is supported, enabled and updated,
    /// so that the attribute data is worth fetching at all.
    pub fn from_flags(supported: bool, enabled: bool, updated: u64) -> (r: Option<SmartValue>)
        ensures
            r == spec_smart_value_from_flags(supported, enabled, updated),
    {
        if !supported {
            Some(SmartValue::NotSupported)
        } else if !enabled {
            Some(SmartValue::NotEnabled)
        } else if updated == 0 {
            Some(SmartValue::NotUpdated)
        } else {
            None
        }
    }
}

impl SmartData {
    /// Assemble the enabled health record from the fetched aggregates,
    /// the wire status string and the raw attribute records. Total: every
    /// attribute record decodes, and an unknown status string decodes to
    /// `SmartStatus::Unknown`.
    pub fn from_parts(
        updated: u64,
        failing: bool,
        time_powered_on: u64,
        temperature_millikelvin: u64,
        failing_attrs_count: i32,
        past_failing_attrs_count: i32,
        bad_sectors: i64,
        status: &str,
        attributes: Vec<RawSmartAttribute>,
    ) -> (r: SmartData)
        ensures
            r.updated == updated,
            r.failing == failing,
            r.time_powered_on == time_powered_on,
            r.temperature_millikelvin == temperature_millikelvin,
            r.failing_attrs_count == failing_attrs_count,
            r.past_failing_attrs_count == past_failing_attrs_count,
            r.bad_sectors == bad_sectors,
            r.status == match spec_status_from_str(status@) {
                Some(st) => st,
                None => SmartStatus::Unknown,
            },
            r.attributes@.len() == attributes@.len(),
            forall|i: int|
                0 <= i < attributes@.len() ==> r.attributes@[i]@ == spec_attribute_from_raw(
                    #[trigger] attributes@[i]@,
                ),
    {
        let ghost raws = attributes@;
        let mut remaining = attributes;
        let mut decoded: Vec<SmartAttribute> = Vec::new();
        while remaining.len() > 0
            invariant
                decoded@.len() + remaining@.len() == raws.len(),
                remaining@ == raws.skip(decoded@.len() as int),
                forall|i: int|
                    0 <= i < decoded@.len() ==> decoded@[i]@ == spec_attribute_from_raw(
                        #[trigger] raws[i]@,
                    ),
            decreases remaining@.len(),
        {
            let raw = remaining.remove(0);
            assert(raw == raws[decoded@.len() as int]);
            decoded.push(SmartAttribute::from(raw));
            assert(remaining@ =~= raws.skip(decoded@.len() as int));
        }
        let parsed_status = match SmartStatus::from_str(status) {
            Ok(st) => st,
            Err(()) => SmartStatus::Unknown,
        };
        SmartData {
            attributes: decoded,
            updated,
            failing,
            time_powered_on,
            temperature_millikelvin,
            failing_attrs_count,
            past_failing_attrs_count,
            bad_sectors,
            status: parsed_status,
        }
    }
}

impl vstd::std_specs::convert::FromSpecImpl<RawSmartAttribute> for SmartAttribute {
    open spec fn obeys_from_spec() -> bool {
        true
    }

    open spec fn from_spec(raw: RawSmartAttribute) -> SmartAttribute {
        SmartAttribute {
            id: raw.id,
            name: raw.name,
            flags: raw.flags,
            normalized: raw.value,
            worst: raw.worst,
            threshold: raw.threshold,
            pretty: match spec_pretty_unit(raw.pretty_unit as u8) {
                Some(unit) => Some(PrettyValue { value: raw.pretty_value, unit }),
                None => None,
            },
        }
    }
}

} // verus!
