//! Conversion of FHIR R4B resources into the analytics schema.
//!
//! The resource fields this conversion reads are held as plain values —
//! dates as year, month and day; strings as strings — so that every
//! remapping rule can be stated and checked exactly. The layer that decodes
//! wire-format FHIR converts into these types before calling in here.

use vstd::prelude::*;

use crate::schemav1;
use crate::schemav1::PlainDate;
use crate::schemav1::TimeResolution;
use crate::schemav1::Timestamp;
use crate::schemav1::spec_midnight;
use crate::schemav1::spec_unix_epoch;
use crate::util::find_char;
use crate::util::find_char_from;
use crate::util::first_present;
use crate::util::spec_join_name;
use crate::util::spec_present_prefix;
use crate::util::str_eq_str;
use crate::util::join_name;

verus! {

/// A conversion could not be carried out.
#[derive(Debug, Clone, Copy, PartialEq, Eq, Structural)]
pub struct ConversionError {}

pub type ConversionResult<T> = Result<T, ConversionError>;

/// A FHIR date of year, year-month or full-day precision.
#[derive(Debug, Clone, Copy, PartialEq, Eq, Structural)]
pub enum Date {
    Year(i32),
    YearMonth(i32, u8),
    Date(PlainDate),
}

/// A FHIR instant.
#[derive(Debug, Clone, Copy, PartialEq, Eq, Structural)]
pub struct Instant(pub Timestamp);

/// A FHIR dateTime: a date of partial precision, or a full instant.
#[derive(Debug, Clone, Copy, PartialEq, Eq, Structural)]
pub enum DateTime {
    Date(Date),
    DateTime(Instant),
}

/// How a FHIR patient's death is recorded.
#[derive(Debug, Clone, Copy, PartialEq, Eq, Structural)]
pub enum PatientDeceased {
    Boolean(bool),
    DateTime(DateTime),
}

/// A FHIR human name: given name parts and a family name.
#[derive(Debug)]
pub struct HumanName {
    pub given: Vec<Option<String>>,
    pub family: Option<String>,
}

/// A FHIR address use code.
#[derive(Debug, Clone, Copy, PartialEq, Eq, Structural)]
pub enum AddressUse {
    Home,
    Work,
    Temp,
    Old,
    Billing,
}

/// A FHIR address type code.
#[derive(Debug, Clone, Copy, PartialEq, Eq, Structural)]
pub enum AddressType {
    Postal,
    Physical,
    Both,
}

/// The parts of a FHIR address this conversion reads.
#[derive(Debug)]
pub struct Address {
    pub use_: Option<AddressUse>,
    pub type_: Option<AddressType>,
    pub city: Option<String>,
    pub line: Vec<Option<String>>,
    pub state: Option<String>,
    pub country: Option<String>,
}

/// The parts of a FHIR patient this conversion reads.
#[derive(Debug)]
pub struct Patient {
    pub id: Option<String>,
    pub name: Vec<Option<HumanName>>,
    pub birth_date: Option<Date>,
    pub deceased: Option<PatientDeceased>,
    pub address: Vec<Option<Address>>,
}

/// A FHIR reference to another resource.
#[derive(Debug)]
pub struct Reference {
    pub type_: Option<String>,
    pub reference: Option<String>,
}

/// A FHIR period.
#[derive(Debug, Clone, Copy, PartialEq, Eq, Structural)]
pub struct Period {
    pub start: Option<DateTime>,
    pub end: Option<DateTime>,
}

/// A FHIR coding, as used for an encounter's class.
#[derive(Debug)]
pub struct Coding {
    pub code: Option<String>,
    pub display: Option<String>,
    pub system: Option<String>,
}

/// A FHIR encounter status code.
#[derive(Debug, Clone, Copy, PartialEq, Eq, Structural)]
pub enum EncounterStatus {
    Arrived,
    Cancelled,
    EnteredInError,
    Finished,
    InProgress,
    Onleave,
    Planned,
    Triaged,
    Unknown,
}

/// The parts of a FHIR encounter this conversion reads.
#[derive(Debug)]
pub struct Encounter {
    pub id: Option<String>,
    pub status: EncounterStatus,
    pub subject: Option<Reference>,
    pub period: Option<Period>,
    pub class: Coding,
}

/// One resource of a FHIR bundle; kinds the conversion does not store are
/// carried as `Other` and skipped.
#[derive(Debug)]
pub enum Resource {
    Patient(Patient),
    Encounter(Encounter),
    Other,
}

/// One entry of a FHIR bundle.
#[derive(Debug)]
pub struct BundleEntry {
    pub resource: Option<Resource>,
}

/// A FHIR bundle.
#[derive(Debug)]
pub struct Bundle {
    pub entry: Vec<Option<BundleEntry>>,
}

/// The rows a bundle converts to.
#[derive(Debug)]
pub struct ConvertedBundle {
    pub resources: Vec<schemav1::Resource>,
}

// ---------------------------------------------------------------------------
// Dates.
// ---------------------------------------------------------------------------

/// The least and greatest representable years of the stored calendar.
pub open spec fn spec_year_in_range(y: i32) -> bool {
    -9999 <= y <= 9999
}

/// What a partial-precision date converts to: its first day, with the
/// resolution preserved; a year outside the representable range, or a
/// month outside 1..=12, cannot be converted.
pub open spec fn spec_convert_date(d: Date) -> Result<(PlainDate, TimeResolution), ConversionError> {
    match d {
        Date::Year(y) => if spec_year_in_range(y) {
            Ok((PlainDate { year: y, month: 1, day: 1 }, TimeResolution::Year))
        } else {
            Err(ConversionError {})
        },
        Date::YearMonth(y, m) => if !spec_year_in_range(y) {
            Err(ConversionError {})
        } else if 1 <= m <= 12 {
            Ok((PlainDate { year: y, month: m, day: 1 }, TimeResolution::Month))
        } else {
            Err(ConversionError {})
        },
        Date::Date(pd) => Ok((pd, TimeResolution::Day)),
    }
}

/// Converts a partial-precision date to its first day plus a resolution.
fn convert_date(d: &Date) -> (r: ConversionResult<(PlainDate, TimeResolution)>)
    ensures
        r == spec_convert_date(*d),
{
    match d {
        Date::Year(y) => {
            if -9999 <= *y && *y <= 9999 {
                Ok((PlainDate { year: *y, month: 1, day: 1 }, TimeResolution::Year))
            } else {
                Err(ConversionError {})
            }
        },
        Date::YearMonth(y, m) => {
            if !(-9999 <= *y && *y <= 9999) {
                Err(ConversionError {})
            } else if 1 <= *m && *m <= 12 {
                Ok((PlainDate { year: *y, month: *m, day: 1 }, TimeResolution::Month))
            } else {
                Err(ConversionError {})
            }
        },
        Date::Date(pd) => Ok((*pd, TimeResolution::Day)),
    }
}

/// What a FHIR dateTime converts to: midnight UTC of a partial date, or
/// the carried instant unchanged.
pub open spec fn spec_parse_datetime(dt: DateTime) -> Result<Timestamp, ConversionError> {
    match dt {
        DateTime::Date(d) => match spec_convert_date(d) {
            Ok(v) => Ok(spec_midnight(v.0)),
            Err(e) => Err(e),
        },
        DateTime::DateTime(inst) => Ok(inst.0),
    }
}

/// Converts a FHIR dateTime to a timestamp.
fn parse_datetime(dt: &DateTime) -> (r: ConversionResult<Timestamp>)
    ensures
        r == spec_parse_datetime(*dt),
{
    match dt {
        DateTime::Date(d) => match convert_date(d) {
            Ok((pd, _res)) => Ok(Timestamp { date: pd, second_of_day: 0, offset_seconds: 0 }),
            Err(e) => Err(e),
        },
        DateTime::DateTime(inst) => Ok(inst.0),
    }
}

// ---------------------------------------------------------------------------
// Patient conversion.
// ---------------------------------------------------------------------------

/// What a recorded death converts to: a liveness flag and, where a death
/// time was given, its timestamp.
pub open spec fn spec_convert_deceased(d: Option<PatientDeceased>) -> Result<
    (schemav1::Deceased, Option<Timestamp>),
    ConversionError,
> {
    match d {
        None => Ok((schemav1::Deceased::Unknown, None)),
        Some(PatientDeceased::Boolean(died)) => if died {
            Ok((schemav1::Deceased::Dead, None))
        } else {
            Ok((schemav1::Deceased::Alive, None))
        },
        Some(PatientDeceased::DateTime(dt)) => match spec_parse_datetime(dt) {
            Ok(t) => Ok((schemav1::Deceased::Dead, Some(t))),
            Err(e) => Err(e),
        },
    }
}

/// Converts a recorded death.
fn convert_deceased(d: &Option<PatientDeceased>) -> (r: ConversionResult<
    (schemav1::Deceased, Option<Timestamp>),
>)
    ensures
        r == spec_convert_deceased(*d),
{
    match d {
        None => Ok((schemav1::Deceased::Unknown, None)),
        Some(PatientDeceased::Boolean(died)) => {
            if *died {
                Ok((schemav1::Deceased::Dead, None))
            } else {
                Ok((schemav1::Deceased::Alive, None))
            }
        },
        Some(PatientDeceased::DateTime(dt)) => match parse_datetime(dt) {
            Ok(t) => Ok((schemav1::Deceased::Dead, Some(t))),
            Err(e) => Err(e),
        },
    }
}

/// The given names of a patient's first present name, joined with spaces;
/// empty when the patient carries no name.
pub open spec fn spec_name_given(src: Patient) -> Seq<char> {
    match first_present(src.name@, 0) {
        Some(h) => spec_join_name(h.given.deep_view(), 0),
        None => Seq::empty(),
    }
}

/// The family name of a patient's first present name; empty when absent.
pub open spec fn spec_name_family(src: Patient) -> Seq<char> {
    match first_present(src.name@, 0) {
        Some(h) => match h.family {
            Some(f) => f@,
            None => Seq::empty(),
        },
        None => Seq::empty(),
    }
}

/// The first present name of a patient, if any.
fn first_present_name(name: &Vec<Option<HumanName>>, i: usize) -> (r: Option<&HumanName>)
    requires
        i <= name@.len(),
    ensures
        match r {
            Some(h) => first_present(name@, i as int) == Some(*h),
            None => first_present(name@, i as int) is None,
        },
    decreases name@.len() - i,
{
    let n = name.len();
    if i >= n {
        return None;
    }
    match &name[i] {
        Some(h) => Some(h),
        None => first_present_name(name, i + 1),
    }
}

/// The stored use of one address.
pub open spec fn spec_addr_use(a: Address) -> schemav1::AddressUse {
    match a.use_ {
        None => schemav1::AddressUse::Unknown,
        Some(AddressUse::Old) => schemav1::AddressUse::Old,
        Some(AddressUse::Home) => schemav1::AddressUse::Home,
        Some(AddressUse::Temp) => schemav1::AddressUse::Temp,
        Some(AddressUse::Work) => schemav1::AddressUse::Work,
        Some(AddressUse::Billing) => schemav1::AddressUse::Billing,
    }
}

/// The stored type of one address.
pub open spec fn spec_addr_type(a: Address) -> schemav1::AddressType {
    match a.type_ {
        None => schemav1::AddressType::Unknown,
        Some(AddressType::Physical) => schemav1::AddressType::Physical,
        Some(AddressType::Postal) => schemav1::AddressType::Postal,
        Some(AddressType::Both) => schemav1::AddressType::Both,
    }
}

/// The stored city of one address; empty when absent.
pub open spec fn spec_addr_city(a: Address) -> Seq<char> {
    match a.city {
        Some(c) => c@,
        None => Seq::empty(),
    }
}

/// The stored line of one address: its present line parts joined with
/// spaces.
pub open spec fn spec_addr_line(a: Address) -> Seq<char> {
    spec_join_name(a.line.deep_view(), 0)
}

/// The stored state of one address; empty when absent.
pub open spec fn spec_addr_state(a: Address) -> Seq<char> {
    match a.state {
        Some(s) => s@,
        None => Seq::empty(),
    }
}

/// The stored country of one address; empty when absent.
pub open spec fn spec_addr_country(a: Address) -> Seq<char> {
    match a.country {
        Some(c) => c@,
        None => Seq::empty(),
    }
}

/// The six address columns, one entry per present address, in order.
pub type AddressList = (
    Vec<schemav1::AddressUse>,
    Vec<schemav1::AddressType>,
    Vec<String>,
    Vec<String>,
    Vec<String>,
    Vec<String>,
);

/// Splits the present addresses into the six address columns: uses, types,
/// cities, lines, states and countries, each column holding one entry per
/// present address, in order.
fn parse_addresses(addresses: &Vec<Option<Address>>) -> (r: ConversionResult<AddressList>)
    ensures
        r matches Ok(cols) ==> {
            let pres = spec_present_prefix(addresses@, addresses@.len() as int);
            &&& cols.0@.len() == pres.len()
            &&& cols.1@.len() == pres.len()
            &&& cols.2@.len() == pres.len()
            &&& cols.3@.len() == pres.len()
            &&& cols.4@.len() == pres.len()
            &&& cols.5@.len() == pres.len()
            &&& forall|k: int|
                0 <= k < pres.len() ==> {
                    &&& cols.0@[k] == spec_addr_use(#[trigger] pres[k])
                    &&& cols.1@[k] == spec_addr_type(pres[k])
                    &&& cols.2@[k]@ == spec_addr_city(pres[k])
                    &&& cols.3@[k]@ == spec_addr_line(pres[k])
                    &&& cols.4@[k]@ == spec_addr_state(pres[k])
                    &&& cols.5@[k]@ == spec_addr_country(pres[k])
                }
        },
        r is Ok,
{
    let n = addresses.len();
    let mut uses: Vec<schemav1::AddressUse> = Vec::new();
    let mut types: Vec<schemav1::AddressType> = Vec::new();
    let mut cities: Vec<String> = Vec::new();
    let mut lines: Vec<String> = Vec::new();
    let mut states: Vec<String> = Vec::new();
    let mut countries: Vec<String> = Vec::new();
    let mut i: usize = 0;
    while i < n
        invariant
            i <= n,
            n == addresses@.len(),
            ({
                let pres = spec_present_prefix(addresses@, i as int);
                &&& uses@.len() == pres.len()
                &&& types@.len() == pres.len()
                &&& cities@.len() == pres.len()
                &&& lines@.len() == pres.len()
                &&& states@.len() == pres.len()
                &&& countries@.len() == pres.len()
                &&& forall|k: int|
                    0 <= k < pres.len() ==> {
                        &&& uses@[k] == spec_addr_use(#[trigger] pres[k])
                        &&& types@[k] == spec_addr_type(pres[k])
                        &&& cities@[k]@ == spec_addr_city(pres[k])
                        &&& lines@[k]@ == spec_addr_line(pres[k])
                        &&& states@[k]@ == spec_addr_state(pres[k])
                        &&& countries@[k]@ == spec_addr_country(pres[k])
                    }
            }),
        decreases n - i,
    {
        match &addresses[i] {
            None => {},
            Some(addr) => {
                uses.push(
                    match &addr.use_ {
                        None => schemav1::AddressUse::Unknown,
                        Some(AddressUse::Old) => schemav1::AddressUse::Old,
                        Some(AddressUse::Home) => schemav1::AddressUse::Home,
                        Some(AddressUse::Temp) => schemav1::AddressUse::Temp,
                        Some(AddressUse::Work) => schemav1::AddressUse::Work,
                        Some(AddressUse::Billing) => schemav1::AddressUse::Billing,
                    },
                );
                types.push(
                    match &addr.type_ {
                        None => schemav1::AddressType::Unknown,
                        Some(AddressType::Physical) => schemav1::AddressType::Physical,
                        Some(AddressType::Postal) => schemav1::AddressType::Postal,
                        Some(AddressType::Both) => schemav1::AddressType::Both,
                    },
                );
                cities.push(
                    match &addr.city {
                        None => String::new(),
                        Some(city) => city.clone(),
                    },
                );
                lines.push(join_name(&addr.line));
                states.push(
                    match &addr.state {
                        None => String::new(),
                        Some(s) => s.clone(),
                    },
                );
                countries.push(
                    match &addr.country {
                        None => String::new(),
                        Some(c) => c.clone(),
                    },
                );
            },
        }
        i = i + 1;
    }
    Ok((uses, types, cities, lines, states, countries))
}

/// Whether a patient resource can be converted: it must carry an id, a
/// birth date whose year and month are representable, and a death record,
/// if timed, whose time is representable.
pub open spec fn spec_patient_convertible(src: Patient) -> bool {
    &&& src.id is Some
    &&& src.birth_date matches Some(d) && spec_convert_date(d) is Ok
    &&& spec_convert_deceased(src.deceased) is Ok
}

/// Exactly how one converted patient row relates to its source resource.
pub open spec fn spec_patient_row_matches(src: Patient, p: schemav1::AggregatePatient) -> bool {
    let pres = spec_present_prefix(src.address@, src.address@.len() as int);
    &&& src.id matches Some(id) && p.id@ == id@
    &&& p.name_given@ == spec_name_given(src)
    &&& p.name_family@ == spec_name_family(src)
    &&& src.birth_date matches Some(d) && spec_convert_date(d) == Ok::<
        (PlainDate, TimeResolution),
        ConversionError,
    >((p.birth_time, p.birth_time_resolution))
    &&& spec_convert_deceased(src.deceased) == Ok::<
        (schemav1::Deceased, Option<Timestamp>),
        ConversionError,
    >((p.deceased, p.death_time))
    &&& p.addresses_use@.len() == pres.len()
    &&& p.addresses_type@.len() == pres.len()
    &&& p.addresses_city@.len() == pres.len()
    &&& p.addresses_line@.len() == pres.len()
    &&& forall|k: int|
        0 <= k < pres.len() ==> {
            &&& p.addresses_use@[k] == spec_addr_use(#[trigger] pres[k])
            &&& p.addresses_type@[k] == spec_addr_type(pres[k])
            &&& p.addresses_city@[k]@ == spec_addr_city(pres[k])
            &&& p.addresses_line@[k]@ == spec_addr_line(pres[k])
        }
}

/// Converts one FHIR patient into an aggregated patient row: succeeds if
/// and only if the resource is convertible, and then every column of the
/// row is exactly what `spec_patient_row_matches` states.
pub fn convert_patient(src: &Patient) -> (r: ConversionResult<schemav1::AggregatePatient>)
    ensures
        r is Ok <==> spec_patient_convertible(*src),
        r matches Ok(p) ==> spec_patient_row_matches(*src, p),
{
    let (birth_time, birth_time_resolution): (PlainDate, TimeResolution) = match &src.birth_date {
        None => {
            return Err(ConversionError {});
        },
        Some(d) => match convert_date(d) {
            Ok(v) => v,
            Err(e) => {
                return Err(e);
            },
        },
    };
    let (deceased, death_time): (schemav1::Deceased, Option<Timestamp>) = match convert_deceased(
        &src.deceased,
    ) {
        Ok(v) => v,
        Err(e) => {
            return Err(e);
        },
    };
    let (uses, types, cities, lines, _states, _countries): AddressList = match parse_addresses(
        &src.address,
    ) {
        Ok(v) => v,
        Err(e) => {
            return Err(e);
        },
    };
    let id: String = match &src.id {
        None => {
            return Err(ConversionError {});
        },
        Some(id) => id.clone(),
    };
    let (name_given, name_family): (String, String) = match first_present_name(&src.name, 0) {
        None => (String::new(), String::new()),
        Some(first) => (
            join_name(&first.given),
            match &first.family {
                Some(f) => f.clone(),
                None => String::new(),
            },
        ),
    };
    Ok(
        schemav1::AggregatePatient {
            id,
            name_given,
            name_family,
            birth_time,
            birth_time_resolution,
            death_time,
            deceased,
            addresses_use: uses,
            addresses_type: types,
            addresses_city: cities,
            addresses_line: lines,
        },
    )
}

// ---------------------------------------------------------------------------
// Encounter conversion.
// ---------------------------------------------------------------------------

/// The stored status of an encounter.
pub open spec fn spec_convert_status(s: EncounterStatus) -> schemav1::EncounterStatus {
    match s {
        EncounterStatus::Arrived => schemav1::EncounterStatus::Arrived,
        EncounterStatus::Cancelled => schemav1::EncounterStatus::Cancelled,
        EncounterStatus::EnteredInError => schemav1::EncounterStatus::EnteredInError,
        EncounterStatus::Finished => schemav1::EncounterStatus::Finished,
        EncounterStatus::InProgress => schemav1::EncounterStatus::InProgress,
        EncounterStatus::Onleave => schemav1::EncounterStatus::Onleave,
        EncounterStatus::Planned => schemav1::EncounterStatus::Planned,
        EncounterStatus::Triaged => schemav1::EncounterStatus::Triaged,
        EncounterStatus::Unknown => schemav1::EncounterStatus::Unknown,
    }
}

/// What a patient reference resolves to: the second segment of a relative
/// `Patient/<id>` reference. A reference whose declared type is not
/// `Patient`, or whose path has no second segment or does not start with
/// `Patient`, or which is absent altogether, cannot be resolved.
pub open spec fn spec_patient_reference(reff: Reference) -> Result<Seq<char>, ConversionError> {
    if reff.type_ matches Some(t) && t@ != "Patient"@ {
        Err(ConversionError {})
    } else {
        match reff.reference {
            None => Err(ConversionError {}),
            Some(rs) => match find_char_from(rs@, '/', 0) {
                None => Err(ConversionError {}),
                Some(s1) => if rs@.subrange(0, s1) != "Patient"@ {
                    Err(ConversionError {})
                } else {
                    Ok(
                        rs@.subrange(
                            s1 + 1,
                            match find_char_from(rs@, '/', s1 + 1) {
                                Some(s2) => s2,
                                None => rs@.len() as int,
                            },
                        ),
                    )
                },
            },
        }
    }
}

/// Resolves a relative patient reference to the referenced patient id.
fn parse_patient_reference(reff: &Reference) -> (r: ConversionResult<String>)
    ensures
        match r {
            Ok(s) => spec_patient_reference(*reff) == Ok::<Seq<char>, ConversionError>(s@),
            Err(e) => spec_patient_reference(*reff) == Err::<Seq<char>, ConversionError>(e),
        },
{
    if let Some(ty) = &reff.type_ {
        if !str_eq_str(ty.as_str(), "Patient") {
            return Err(ConversionError {});
        }
    }
    match &reff.reference {
        None => Err(ConversionError {}),
        Some(rs) => {
            let s = rs.as_str();
            let n = s.unicode_len();
            match find_char(s, '/', 0) {
                None => Err(ConversionError {}),
                Some(s1) => {
                    let head = s.substring_char(0, s1);
                    if !str_eq_str(head, "Patient") {
                        return Err(ConversionError {});
                    }
                    let end: usize = match find_char(s, '/', s1 + 1) {
                        Some(s2) => s2,
                        None => n,
                    };
                    let seg = s.substring_char(s1 + 1, end);
                    Ok(String::from_str(seg))
                },
            }
        },
    }
}

/// Whether an encounter resource can be converted: it must carry an id, a
/// resolvable subject reference if it has one, and representable period
/// bounds where given.
pub open spec fn spec_encounter_convertible(src: Encounter) -> bool {
    &&& src.id is Some
    &&& (src.subject matches Some(reff) ==> spec_patient_reference(reff) is Ok)
    &&& (src.period matches Some(p) ==> {
        &&& (p.start matches Some(t) ==> spec_parse_datetime(t) is Ok)
        &&& (p.end matches Some(t) ==> spec_parse_datetime(t) is Ok)
    })
}

/// The stored value of an optional period bound: the parsed bound, or the
/// Unix epoch where the period or the bound is absent.
pub open spec fn spec_period_bound(period: Option<Period>, start: bool) -> Result<
    Timestamp,
    ConversionError,
> {
    match period {
        None => Ok(spec_unix_epoch()),
        Some(p) => match (if start {
            p.start
        } else {
            p.end
        }) {
            None => Ok(spec_unix_epoch()),
            Some(t) => spec_parse_datetime(t),
        },
    }
}

/// Exactly how one converted encounter row relates to its source resource.
pub open spec fn spec_encounter_row_matches(src: Encounter, en: schemav1::Encounter) -> bool {
    &&& src.id matches Some(id) && en.id@ == id@
    &&& en.status == spec_convert_status(src.status)
    &&& en.subject@ == match src.subject {
        None => Seq::<char>::empty(),
        Some(reff) => match spec_patient_reference(reff) {
            Ok(s) => s,
            Err(_) => Seq::empty(),
        },
    }
    &&& spec_period_bound(src.period, true) == Ok::<Timestamp, ConversionError>(en.period_start)
    &&& spec_period_bound(src.period, false) == Ok::<Timestamp, ConversionError>(en.period_end)
    &&& en.class_code@ == match src.class.code {
        Some(c) => c@,
        None => Seq::<char>::empty(),
    }
    &&& en.class_description@ == match src.class.display {
        Some(c) => c@,
        None => Seq::<char>::empty(),
    }
    &&& en.class_system@ == match src.class.system {
        Some(c) => c@,
        None => Seq::<char>::empty(),
    }
}

/// Converts one FHIR encounter into an encounter row: succeeds if and only
/// if the resource is convertible, and then every column of the row is
/// exactly what `spec_encounter_row_matches` states.
pub fn convert_encounter(src: &Encounter) -> (r: ConversionResult<schemav1::Encounter>)
    ensures
        r is Ok <==> spec_encounter_convertible(*src),
        r matches Ok(en) ==> spec_encounter_row_matches(*src, en),
{
    let encounter_id: String = match &src.id {
        None => {
            return Err(ConversionError {});
        },
        Some(id) => id.clone(),
    };
    let status = match src.status {
        EncounterStatus::Arrived => schemav1::EncounterStatus::Arrived,
        EncounterStatus::Cancelled => schemav1::EncounterStatus::Cancelled,
        EncounterStatus::EnteredInError => schemav1::EncounterStatus::EnteredInError,
        EncounterStatus::Finished => schemav1::EncounterStatus::Finished,
        EncounterStatus::InProgress => schemav1::EncounterStatus::InProgress,
        EncounterStatus::Onleave => schemav1::EncounterStatus::Onleave,
        EncounterStatus::Planned => schemav1::EncounterStatus::Planned,
        EncounterStatus::Triaged => schemav1::EncounterStatus::Triaged,
        EncounterStatus::Unknown => schemav1::EncounterStatus::Unknown,
    };
    let subject: String = match &src.subject {
        None => String::new(),
        Some(reff) => match parse_patient_reference(reff) {
            Ok(s) => s,
            Err(e) => {
                return Err(e);
            },
        },
    };
    let (start, end): (Timestamp, Timestamp) = match &src.period {
        None => (unix_epoch_ts(), unix_epoch_ts()),
        Some(p) => {
            let start = match &p.start {
                None => unix_epoch_ts(),
                Some(t) => match parse_datetime(t) {
                    Ok(v) => v,
                    Err(e) => {
                        return Err(e);
                    },
                },
            };
            let end = match &p.end {
                None => unix_epoch_ts(),
                Some(t) => match parse_datetime(t) {
                    Ok(v) => v,
                    Err(e) => {
                        return Err(e);
                    },
                },
            };
            (start, end)
        },
    };
    Ok(
        schemav1::Encounter {
            id: encounter_id,
            status,
            subject,
            period_start: start,
            period_end: end,
            class_code: match &src.class.code {
                Some(c) => c.clone(),
                None => String::new(),
            },
            class_description: match &src.class.display {
                Some(c) => c.clone(),
                None => String::new(),
            },
            class_system: match &src.class.system {
                Some(c) => c.clone(),
                None => String::new(),
            },
        },
    )
}

/// The Unix epoch as a timestamp value.
fn unix_epoch_ts() -> (t: Timestamp)
    ensures
        t == spec_unix_epoch(),
{
    crate::schemav1::unix_epoch()
}

// ---------------------------------------------------------------------------
// Bundle conversion.
// ---------------------------------------------------------------------------

/// The storable resources among the first `i` bundle entries, in order:
/// the patients and encounters of the present entries that carry a
/// resource; everything else is skipped.
pub open spec fn spec_storable_prefix(entries: Seq<Option<BundleEntry>>, i: int) -> Seq<Resource>
    decreases i,
{
    if i <= 0 {
        Seq::empty()
    } else {
        let rest = spec_storable_prefix(entries, i - 1);
        match entries[i - 1] {
            None => rest,
            Some(be) => match be.resource {
                None => rest,
                Some(Resource::Other) => rest,
                Some(r) => rest.push(r),
            },
        }
    }
}

/// A longer prefix of bundle entries yields at least the same storable
/// resources, in the same places.
proof fn lemma_storable_prefix_extends(entries: Seq<Option<BundleEntry>>, i: int, j: int)
    requires
        0 <= i <= j,
    ensures
        spec_storable_prefix(entries, i).len() <= spec_storable_prefix(entries, j).len(),
        forall|k: int|
            0 <= k < spec_storable_prefix(entries, i).len() ==> spec_storable_prefix(entries, j)[k]
                == spec_storable_prefix(entries, i)[k],
    decreases j - i,
{
    if i < j {
        lemma_storable_prefix_extends(entries, i, j - 1);
    }
}

/// Whether one storable resource can be converted.
pub open spec fn spec_resource_convertible(r: Resource) -> bool {
    match r {
        Resource::Patient(p) => spec_patient_convertible(p),
        Resource::Encounter(e) => spec_encounter_convertible(e),
        Resource::Other => true,
    }
}

/// Exactly how one converted row relates to its storable source resource.
pub open spec fn spec_resource_row_matches(src: Resource, out: schemav1::Resource) -> bool {
    match (src, out) {
        (Resource::Patient(p), schemav1::Resource::Patient(row)) => spec_patient_row_matches(
            p,
            row,
        ),
        (Resource::Encounter(e), schemav1::Resource::Encounter(row))
            => spec_encounter_row_matches(e, row),
        _ => false,
    }
}

/// Converts every storable resource of a bundle, in order: succeeds if and
/// only if each of them is convertible, and then yields exactly one row per
/// storable resource, each matching its source.
pub fn convert_bundle(src: &Bundle) -> (r: ConversionResult<ConvertedBundle>)
    ensures
        ({
            let storable = spec_storable_prefix(src.entry@, src.entry@.len() as int);
            &&& (r is Ok <==> (forall|k: int|
                0 <= k < storable.len() ==> spec_resource_convertible(#[trigger] storable[k])))
            &&& (r matches Ok(b) ==> b.resources@.len() == storable.len() && (forall|k: int|
                0 <= k < storable.len() ==> spec_resource_row_matches(
                    #[trigger] storable[k],
                    b.resources@[k],
                )))
        }),
{
    let n = src.entry.len();
    let mut result: Vec<schemav1::Resource> = Vec::new();
    let mut i: usize = 0;
    while i < n
        invariant
            i <= n,
            n == src.entry@.len(),
            ({
                let storable = spec_storable_prefix(src.entry@, i as int);
                &&& result@.len() == storable.len()
                &&& forall|k: int|
                    0 <= k < storable.len() ==> spec_resource_convertible(#[trigger] storable[k])
                &&& forall|k: int|
                    0 <= k < storable.len() ==> spec_resource_row_matches(
                        #[trigger] storable[k],
                        result@[k],
                    )
            }),
        decreases n - i,
    {
        match &src.entry[i] {
            None => {},
            Some(be) => match &be.resource {
                None => {},
                Some(Resource::Other) => {},
                Some(Resource::Patient(p)) => match convert_patient(p) {
                    Ok(row) => {
                        result.push(schemav1::Resource::Patient(row));
                    },
                    Err(e) => {
                        proof {
                            let full = src.entry@.len() as int;
                            lemma_storable_prefix_extends(src.entry@, i as int + 1, full);
                            assert(!spec_resource_convertible(
                                spec_storable_prefix(src.entry@, full)[result@.len() as int],
                            ));
                        }
                        return Err(e);
                    },
                },
                Some(Resource::Encounter(en)) => match convert_encounter(en) {
                    Ok(row) => {
                        result.push(schemav1::Resource::Encounter(row));
                    },
                    Err(e) => {
                        proof {
                            let full = src.entry@.len() as int;
                            lemma_storable_prefix_extends(src.entry@, i as int + 1, full);
                            assert(!spec_resource_convertible(
                                spec_storable_prefix(src.entry@, full)[result@.len() as int],
                            ));
                        }
                        return Err(e);
                    },
                },
            },
        }
        i = i + 1;
    }
    Ok(ConvertedBundle { resources: result })
}

} // verus!
