//! The normalized analytics schema rows that converted FHIR resources are
//! stored as. Times are held as plain calendar values so that the
//! conversion rules can be stated and checked exactly; the storage layer
//! carries its own serializable copies of these rows.

use vstd::prelude::*;

verus! {

/// A calendar date, held as plain year, month and day values.
#[derive(Debug, Clone, Copy, PartialEq, Eq, Structural)]
pub struct PlainDate {
    pub year: i32,
    pub month: u8,
    pub day: u8,
}

/// An instant, held as a date, seconds into that date, and a UTC offset in
/// seconds.
#[derive(Debug, Clone, Copy, PartialEq, Eq, Structural)]
pub struct Timestamp {
    pub date: PlainDate,
    pub second_of_day: u32,
    pub offset_seconds: i32,
}

/// The Unix epoch, used where a required period bound is absent.
pub open spec fn spec_unix_epoch() -> Timestamp {
    Timestamp { date: PlainDate { year: 1970, month: 1, day: 1 }, second_of_day: 0, offset_seconds: 0 }
}

/// Midnight UTC of the given date.
pub open spec fn spec_midnight(d: PlainDate) -> Timestamp {
    Timestamp { date: d, second_of_day: 0, offset_seconds: 0 }
}

/// The Unix epoch as a value.
pub fn unix_epoch() -> (t: Timestamp)
    ensures
        t == spec_unix_epoch(),
{
    Timestamp { date: PlainDate { year: 1970, month: 1, day: 1 }, second_of_day: 0, offset_seconds: 0 }
}

/// How precisely a birth time was given in the source.
#[derive(Debug, Clone, Copy, PartialEq, Eq, Structural)]
pub enum TimeResolution {
    Year,
    Month,
    Day,
}

/// The storage label of a time resolution.
pub open spec fn spec_time_resolution_label(t: TimeResolution) -> Seq<char> {
    match t {
        TimeResolution::Year => "year"@,
        TimeResolution::Month => "month"@,
        TimeResolution::Day => "day"@,
    }
}

impl TimeResolution {
    /// The label this resolution is serialized as.
    pub fn label(&self) -> (r: String)
        ensures
            r@ == spec_time_resolution_label(*self),
    {
        match self {
            TimeResolution::Year => String::from_str("year"),
            TimeResolution::Month => String::from_str("month"),
            TimeResolution::Day => String::from_str("day"),
        }
    }
}

/// Whether the patient is known to be alive or dead.
#[derive(Debug, Clone, Copy, PartialEq, Eq, Structural)]
pub enum Deceased {
    Unknown,
    Alive,
    Dead,
}

/// The use of a stored address.
#[derive(Debug, Clone, Copy, PartialEq, Eq, Structural)]
pub enum AddressUse {
    Unknown,
    Billing,
    Home,
    Old,
    Temp,
    Work,
}

/// The type of a stored address.
#[derive(Debug, Clone, Copy, PartialEq, Eq, Structural)]
pub enum AddressType {
    Unknown,
    Physical,
    Postal,
    Both,
}

/// The status of a stored encounter.
#[derive(Debug, Clone, Copy, PartialEq, Eq, Structural)]
pub enum EncounterStatus {
    Arrived,
    Cancelled,
    EnteredInError,
    Finished,
    InProgress,
    Onleave,
    Planned,
    Triaged,
    Unknown,
}

/// One aggregated patient row.
#[derive(Debug)]
pub struct AggregatePatient {
    pub id: String,
    pub name_given: String,
    pub name_family: String,
    pub birth_time: PlainDate,
    pub birth_time_resolution: TimeResolution,
    pub death_time: Option<Timestamp>,
    pub deceased: Deceased,
    pub addresses_use: Vec<AddressUse>,
    pub addresses_type: Vec<AddressType>,
    pub addresses_city: Vec<String>,
    pub addresses_line: Vec<String>,
}

/// One encounter row.
#[derive(Debug)]
pub struct Encounter {
    pub id: String,
    pub status: EncounterStatus,
    /// Patient id.
    pub subject: String,
    pub period_start: Timestamp,
    pub period_end: Timestamp,
    pub class_code: String,
    pub class_description: String,
    pub class_system: String,
}

/// One converted resource of a bundle.
#[derive(Debug)]
pub enum Resource {
    Patient(AggregatePatient),
    Encounter(Encounter),
}

} // verus!
