//! The record and view types of the stations table.
//!
//! A station is stored as a row `{ id, label, key }`; the `key` is an
//! internal secret and must never appear in any external representation.
//! The public view `Station` carries the id, the label, and optionally the
//! sensors that belong to the station; its serialized form never includes
//! the key.

use vstd::prelude::*;

verus! {

/// One character of a station key: ASCII letter or digit.
pub open spec fn is_alnum(c: char) -> bool {
    ('a' <= c && c <= 'z') || ('A' <= c && c <= 'Z') || ('0' <= c && c <= '9')
}

/// A whole key drawn for a station: fixed length, alphanumeric throughout.
pub open spec fn is_station_key(s: Seq<char>) -> bool {
    s.len() == 24 && forall|i: int| 0 <= i < s.len() ==> is_alnum(#[trigger] s[i])
}

/// The stored row shape of the stations table.
///
/// The id stands for the row's UUID primary key, carried as its 128-bit
/// value; `key` is the internal secret.
pub struct StationsModel {
    pub id: u128,
    pub label: String,
    pub key: String,
}

/// The mathematical content of a stored row.
#[verifier::ext_equal]
pub ghost struct ModelView {
    pub id: u128,
    pub label: Seq<char>,
    pub key: Seq<char>,
}

impl View for StationsModel {
    type V = ModelView;

    open spec fn view(&self) -> ModelView {
        ModelView { id: self.id, label: self.label@, key: self.key@ }
    }
}

/// A summary of one sensor record, owned by a station through the
/// `station_id` foreign key.
pub struct SensorSummary {
    pub id: u128,
    pub station_id: u128,
    pub label: String,
}

/// The mathematical content of a sensor summary.
#[verifier::ext_equal]
pub ghost struct SensorView {
    pub id: u128,
    pub station_id: u128,
    pub label: Seq<char>,
}

impl View for SensorSummary {
    type V = SensorView;

    open spec fn view(&self) -> SensorView {
        SensorView { id: self.id, station_id: self.station_id, label: self.label@ }
    }
}

/// The contents of a list of sensor summaries.
pub open spec fn sensor_views(s: Seq<SensorSummary>) -> Seq<SensorView> {
    s.map_values(|x: SensorSummary| x@)
}

/// The public view of a station.
///
/// `sensors` is `None` where the association was not loaded, and
/// `Some(list)` (possibly empty) where it was fetched. The `key` field is
/// kept for internal use only: the serialized form of this view never
/// contains it.
pub struct Station {
    pub id: u128,
    pub label: String,
    pub key: String,
    pub sensors: Option<Vec<SensorSummary>>,
}

/// The mathematical content of a public view.
#[verifier::ext_equal]
pub ghost struct StationView {
    pub id: u128,
    pub label: Seq<char>,
    pub key: Seq<char>,
    pub sensors: Option<Seq<SensorView>>,
}

impl View for Station {
    type V = StationView;

    open spec fn view(&self) -> StationView {
        StationView {
            id: self.id,
            label: self.label@,
            key: self.key@,
            sensors: match self.sensors {
                Option::None => Option::None,
                Option::Some(v) => Option::Some(sensor_views(v@)),
            },
        }
    }
}

/// The payload of a label change, as handed in by a caller.
pub struct StationsChangeset {
    pub label: String,
}

/// The single error type of the data-access layer.
#[derive(Clone, Copy, Debug, PartialEq, Eq, Structural)]
pub enum StationsError {
    /// No row matches the requested id.
    NotFound,
    /// A row with the same id already exists.
    Conflict,
}

impl StationsError {
    /// The HTTP status code an outer layer would map this error to.
    pub fn status_code(&self) -> (code: u16)
        ensures
            code == (match self {
                StationsError::NotFound => 404u16,
                StationsError::Conflict => 409u16,
            }),
    {
        match self {
            StationsError::NotFound => 404,
            StationsError::Conflict => 409,
        }
    }

    /// A short human-readable description of the error.
    pub fn describe(&self) -> (msg: String)
        ensures
            msg@ == (match self {
                StationsError::NotFound => "station not found"@,
                StationsError::Conflict => "station id already taken"@,
            }),
    {
        match self {
            StationsError::NotFound => "station not found".to_owned(),
            StationsError::Conflict => "station id already taken".to_owned(),
        }
    }
}

} // verus!
