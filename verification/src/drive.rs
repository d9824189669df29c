//! The Drive entity and its decoder.

use vstd::prelude::*;

use crate::graph::{find_interface, spec_find_interface, Interface, Prop};
use crate::utils::{
    get_bool, get_string, get_u64, spec_get_bool, spec_get_string, spec_get_u64,
    spec_string_or_empty, spec_strings_or_empty, str_eq, string_or_empty, strings_or_empty,
};
use crate::value::Value;

verus! {

/// One physical or logical drive, identified by its object path. String
/// and list fields left unset by the wire stay at their type default;
/// `media` distinguishes "absent" from any present value.
#[derive(Clone, Debug, PartialEq, Eq)]
pub struct Drive {
    pub can_power_off: bool,
    pub connection_bus: String,
    pub ejectable: bool,
    pub id: String,
    pub media_available: bool,
    pub media_change_detected: bool,
    pub media_compatibility: Vec<String>,
    pub media_removable: bool,
    pub media: Option<String>,
    pub model: String,
    pub optical: bool,
    pub optical_blank: bool,
    pub optical_num_tracks: u64,
    pub optical_num_audio_tracks: u64,
    pub optical_num_data_tracks: u64,
    pub optical_num_sessions: u64,
    pub path: String,
    pub removable: bool,
    pub revision: String,
    pub rotation_rate: i64,
    pub seat: String,
    pub serial: String,
    pub sibling_id: String,
    pub size: u64,
    pub sort_key: String,
    pub time_detected: u64,
    pub time_media_detected: u64,
    pub vendor: String,
    pub wwn: String,
}

/// The mathematical model of a drive.
#[verifier::ext_equal]
pub struct DriveModel {
    pub can_power_off: bool,
    pub connection_bus: Seq<char>,
    pub ejectable: bool,
    pub id: Seq<char>,
    pub media_available: bool,
    pub media_change_detected: bool,
    pub media_compatibility: Seq<Seq<char>>,
    pub media_removable: bool,
    pub media: Option<Seq<char>>,
    pub model: Seq<char>,
    pub optical: bool,
    pub optical_blank: bool,
    pub optical_num_tracks: u64,
    pub optical_num_audio_tracks: u64,
    pub optical_num_data_tracks: u64,
    pub optical_num_sessions: u64,
    pub path: Seq<char>,
    pub removable: bool,
    pub revision: Seq<char>,
    pub rotation_rate: i64,
    pub seat: Seq<char>,
    pub serial: Seq<char>,
    pub sibling_id: Seq<char>,
    pub size: u64,
    pub sort_key: Seq<char>,
    pub time_detected: u64,
    pub time_media_detected: u64,
    pub vendor: Seq<char>,
    pub wwn: Seq<char>,
}

impl View for Drive {
    type V = DriveModel;

    open spec fn view(&self) -> DriveModel {
        DriveModel {
            can_power_off: self.can_power_off,
            connection_bus: self.connection_bus@,
            ejectable: self.ejectable,
            id: self.id@,
            media_available: self.media_available,
            media_change_detected: self.media_change_detected,
            media_compatibility: self.media_compatibility.deep_view(),
            media_removable: self.media_removable,
            media: match self.media {
                Some(m) => Some(m@),
                None => None,
            },
            model: self.model@,
            optical: self.optical,
            optical_blank: self.optical_blank,
            optical_num_tracks: self.optical_num_tracks,
            optical_num_audio_tracks: self.optical_num_audio_tracks,
            optical_num_data_tracks: self.optical_num_data_tracks,
            optical_num_sessions: self.optical_num_sessions,
            path: self.path@,
            removable: self.removable,
            revision: self.revision@,
            rotation_rate: self.rotation_rate,
            seat: self.seat@,
            serial: self.serial@,
            sibling_id: self.sibling_id@,
            size: self.size,
            sort_key: self.sort_key@,
            time_detected: self.time_detected,
            time_media_detected: self.time_media_detected,
            vendor: self.vendor@,
            wwn: self.wwn@,
        }
    }
}

impl DeepView for Drive {
    type V = DriveModel;

    open spec fn deep_view(&self) -> DriveModel {
        self.view()
    }
}

/// The default drive model: every field at its type default, under the
/// given object path.
pub open spec fn spec_default_drive(path: Seq<char>) -> DriveModel {
    DriveModel {
        can_power_off: false,
        connection_bus: Seq::empty(),
        ejectable: false,
        id: Seq::empty(),
        media_available: false,
        media_change_detected: false,
        media_compatibility: Seq::empty(),
        media_removable: false,
        media: None,
        model: Seq::empty(),
        optical: false,
        optical_blank: false,
        optical_num_tracks: 0,
        optical_num_audio_tracks: 0,
        optical_num_data_tracks: 0,
        optical_num_sessions: 0,
        path: path,
        removable: false,
        revision: Seq::empty(),
        rotation_rate: 0,
        seat: Seq::empty(),
        serial: Seq::empty(),
        sibling_id: Seq::empty(),
        size: 0,
        sort_key: Seq::empty(),
        time_detected: 0,
        time_media_detected: 0,
        vendor: Seq::empty(),
        wwn: Seq::empty(),
    }
}

/// The drive updated by one named property. A property with an
/// unrecognized name leaves the drive untouched.
pub open spec fn spec_apply_drive_prop(d: DriveModel, name: Seq<char>, v: Value) -> DriveModel {
    if name == "CanPowerOff"@ {
        DriveModel { can_power_off: spec_get_bool(v), ..d }
    } else if name == "ConnectionBus"@ {
        DriveModel { connection_bus: spec_string_or_empty(v), ..d }
    } else if name == "Ejectable"@ {
        DriveModel { ejectable: spec_get_bool(v), ..d }
    } else if name == "Id"@ {
        DriveModel { id: spec_string_or_empty(v), ..d }
    } else if name == "Media"@ {
        DriveModel { media: spec_get_string(v), ..d }
    } else if name == "MediaAvailable"@ {
        DriveModel { media_available: spec_get_bool(v), ..d }
    } else if name == "MediaChangeDetected"@ {
        DriveModel { media_change_detected: spec_get_bool(v), ..d }
    } else if name == "MediaCompatibility"@ {
        DriveModel { media_compatibility: spec_strings_or_empty(v), ..d }
    } else if name == "MediaRemovable"@ {
        DriveModel { media_removable: spec_get_bool(v), ..d }
    } else if name == "Model"@ {
        DriveModel { model: spec_string_or_empty(v), ..d }
    } else if name == "Optical"@ {
        DriveModel { optical: spec_get_bool(v), ..d }
    } else if name == "OpticalBlank"@ {
        DriveModel { optical_blank: spec_get_bool(v), ..d }
    } else if name == "OpticalNumTracks"@ {
        DriveModel { optical_num_tracks: spec_get_u64(v), ..d }
    } else if name == "OpticalNumAudioTracks"@ {
        DriveModel { optical_num_audio_tracks: spec_get_u64(v), ..d }
    } else if name == "OpticalNumDataTracks"@ {
        DriveModel { optical_num_data_tracks: spec_get_u64(v), ..d }
    } else if name == "OpticalNumSessions"@ {
        DriveModel { optical_num_sessions: spec_get_u64(v), ..d }
    } else if name == "Removable"@ {
        DriveModel { removable: spec_get_bool(v), ..d }
    } else if name == "Revision"@ {
        DriveModel { revision: spec_string_or_empty(v), ..d }
    } else if name == "RotationRate"@ {
        DriveModel { rotation_rate: spec_get_u64(v) as i64, ..d }
    } else if name == "Seat"@ {
        DriveModel { seat: spec_string_or_empty(v), ..d }
    } else if name == "Serial"@ {
        DriveModel { serial: spec_string_or_empty(v), ..d }
    } else if name == "SiblingId"@ {
        DriveModel { sibling_id: spec_string_or_empty(v), ..d }
    } else if name == "Size"@ {
        DriveModel { size: spec_get_u64(v), ..d }
    } else if name == "SortKey"@ {
        DriveModel { sort_key: spec_string_or_empty(v), ..d }
    } else if name == "TimeDetected"@ {
        DriveModel { time_detected: spec_get_u64(v), ..d }
    } else if name == "TimeMediaDetected"@ {
        DriveModel { time_media_detected: spec_get_u64(v), ..d }
    } else if name == "Vendor"@ {
        DriveModel { vendor: spec_string_or_empty(v), ..d }
    } else if name == "WWN"@ {
        DriveModel { wwn: spec_string_or_empty(v), ..d }
    } else {
        d
    }
}

/// The drive after the first `n` properties have been applied in order.
pub open spec fn spec_fold_drive_props(d: DriveModel, props: Seq<Prop>, n: int) -> DriveModel
    decreases n,
{
    if n <= 0 {
        d
    } else {
        spec_apply_drive_prop(
            spec_fold_drive_props(d, props, n - 1),
            props[n - 1].name@,
            props[n - 1].value,
        )
    }
}

/// The drive decoded from one managed object: absent when the object
/// exposes no drive interface; otherwise the default drive under the
/// object's path, updated by every property of that interface in order.
pub open spec fn spec_parse_drive(path: Seq<char>, interfaces: Seq<Interface>) -> Option<
    DriveModel,
> {
    match spec_find_interface(interfaces, "org.freedesktop.UDisks2.Drive"@) {
        Some(props) => Some(
            spec_fold_drive_props(spec_default_drive(path), props, props.len() as int),
        ),
        None => None,
    }
}

impl Default for Drive {
    /// The drive with every field at its type default.
    fn default() -> (d: Drive)
        ensures
            d@ == spec_default_drive(Seq::<char>::empty()),
    {
        let d = Drive {
            can_power_off: false,
            connection_bus: String::new(),
            ejectable: false,
            id: String::new(),
            media_available: false,
            media_change_detected: false,
            media_compatibility: Vec::new(),
            media_removable: false,
            media: None,
            model: String::new(),
            optical: false,
            optical_blank: false,
            optical_num_tracks: 0,
            optical_num_audio_tracks: 0,
            optical_num_data_tracks: 0,
            optical_num_sessions: 0,
            path: String::new(),
            removable: false,
            revision: String::new(),
            rotation_rate: 0,
            seat: String::new(),
            serial: String::new(),
            sibling_id: String::new(),
            size: 0,
            sort_key: String::new(),
            time_detected: 0,
            time_media_detected: 0,
            vendor: String::new(),
            wwn: String::new(),
        };
        proof {
            assert(d@ =~= spec_default_drive(Seq::<char>::empty()));
        }
        d
    }
}

impl Drive {
    /// Apply every property of the drive interface to this drive, in
    /// order. Unrecognized property names are skipped; they change no
    /// other field.
    fn parse(&mut self, props: &Vec<Prop>)
        ensures
            final(self)@ == spec_fold_drive_props(old(self)@, props@, props@.len() as int),
    {
        let ghost initial = *self;
        let mut i: usize = 0;
        while i < props.len()
            invariant
                i <= props.len(),
                self@ == spec_fold_drive_props(initial@, props@, i as int),
            decreases props.len() - i,
        {
            self.apply_prop(props[i].name.as_str(), &props[i].value);
            i = i + 1;
        }
    }

    /// Apply one named property to this drive; an unrecognized name
    /// changes nothing.
    #[verifier::rlimit(50)]
    fn apply_prop(&mut self, name: &str, v: &Value)
        ensures
            final(self)@ == spec_apply_drive_prop(old(self)@, name@, *v),
    {
        {
            if str_eq(name, "CanPowerOff") {
                self.can_power_off = get_bool(v);
            } else if str_eq(name, "ConnectionBus") {
                self.connection_bus = string_or_empty(v);
            } else if str_eq(name, "Ejectable") {
                self.ejectable = get_bool(v);
            } else if str_eq(name, "Id") {
                self.id = string_or_empty(v);
            } else if str_eq(name, "Media") {
                self.media = get_string(v);
            } else if str_eq(name, "MediaAvailable") {
                self.media_available = get_bool(v);
            } else if str_eq(name, "MediaChangeDetected") {
                self.media_change_detected = get_bool(v);
            } else if str_eq(name, "MediaCompatibility") {
                self.media_compatibility = strings_or_empty(v);
            } else if str_eq(name, "MediaRemovable") {
                self.media_removable = get_bool(v);
            } else if str_eq(name, "Model") {
                self.model = string_or_empty(v);
            } else if str_eq(name, "Optical") {
                self.optical = get_bool(v);
            } else if str_eq(name, "OpticalBlank") {
                self.optical_blank = get_bool(v);
            } else if str_eq(name, "OpticalNumTracks") {
                self.optical_num_tracks = get_u64(v);
            } else if str_eq(name, "OpticalNumAudioTracks") {
                self.optical_num_audio_tracks = get_u64(v);
            } else if str_eq(name, "OpticalNumDataTracks") {
                self.optical_num_data_tracks = get_u64(v);
            } else if str_eq(name, "OpticalNumSessions") {
                self.optical_num_sessions = get_u64(v);
            } else if str_eq(name, "Removable") {
                self.removable = get_bool(v);
            } else if str_eq(name, "Revision") {
                self.revision = string_or_empty(v);
            } else if str_eq(name, "RotationRate") {
                self.rotation_rate = get_u64(v) as i64;
            } else if str_eq(name, "Seat") {
                self.seat = string_or_empty(v);
            } else if str_eq(name, "Serial") {
                self.serial = string_or_empty(v);
            } else if str_eq(name, "SiblingId") {
                self.sibling_id = string_or_empty(v);
            } else if str_eq(name, "Size") {
                self.size = get_u64(v);
            } else if str_eq(name, "SortKey") {
                self.sort_key = string_or_empty(v);
            } else if str_eq(name, "TimeDetected") {
                self.time_detected = get_u64(v);
            } else if str_eq(name, "TimeMediaDetected") {
                self.time_media_detected = get_u64(v);
            } else if str_eq(name, "Vendor") {
                self.vendor = string_or_empty(v);
            } else if str_eq(name, "WWN") {
                self.wwn = string_or_empty(v);
            }
        }
    }

    /// Decode the drive exposed by one managed object; `None` when the
    /// object exposes no drive interface.
    pub fn parse_from(path: &str, interfaces: &Vec<Interface>) -> (r: Option<Drive>)
        ensures
            r matches Some(d) ==> spec_parse_drive(path@, interfaces@) == Some(d@),
            r is None ==> spec_parse_drive(path@, interfaces@) is None,
    {
        match find_interface(interfaces, "org.freedesktop.UDisks2.Drive") {
            Some(props) => {
                let mut drive = Drive::default();
                drive.path = path.to_owned();
                drive.parse(props);
                Some(drive)
            },
            None => None,
        }
    }
}

} // verus!
