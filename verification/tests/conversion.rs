use clinical_formats::fhir_r4b::{
    convert_bundle, convert_encounter, convert_patient, Address, AddressType, AddressUse, Bundle,
    BundleEntry, Coding, Date, DateTime, Encounter, EncounterStatus, HumanName, Instant, Patient,
    PatientDeceased, Period, Reference, Resource,
};
use clinical_formats::schemav1::{self, unix_epoch, PlainDate, TimeResolution, Timestamp};

fn some_name() -> Vec<Option<HumanName>> {
    vec![
        None,
        Some(HumanName {
            given: vec![Some("Alice".to_string()), None, Some("B".to_string())],
            family: Some("Newman".to_string()),
        }),
    ]
}

fn base_patient() -> Patient {
    Patient {
        id: Some("p-1".to_string()),
        name: some_name(),
        birth_date: Some(Date::YearMonth(1990, 5)),
        deceased: None,
        address: vec![
            Some(Address {
                use_: Some(AddressUse::Home),
                type_: Some(AddressType::Postal),
                city: Some("Springfield".to_string()),
                line: vec![Some("12 Oak St".to_string()), Some("Apt 3".to_string())],
                state: Some("IL".to_string()),
                country: Some("US".to_string()),
            }),
            None,
            Some(Address {
                use_: None,
                type_: None,
                city: None,
                line: vec![],
                state: None,
                country: None,
            }),
        ],
    }
}

#[test]
fn test_convert_patient_full() {
    let row = convert_patient(&base_patient()).unwrap();
    assert_eq!(row.id, "p-1");
    assert_eq!(row.name_given, "Alice B");
    assert_eq!(row.name_family, "Newman");
    assert_eq!(row.birth_time, PlainDate { year: 1990, month: 5, day: 1 });
    assert_eq!(row.birth_time_resolution, TimeResolution::Month);
    assert_eq!(row.deceased, schemav1::Deceased::Unknown);
    assert_eq!(row.death_time, None);
    assert_eq!(
        row.addresses_use,
        vec![schemav1::AddressUse::Home, schemav1::AddressUse::Unknown]
    );
    assert_eq!(
        row.addresses_type,
        vec![schemav1::AddressType::Postal, schemav1::AddressType::Unknown]
    );
    assert_eq!(row.addresses_city, vec!["Springfield".to_string(), "".to_string()]);
    assert_eq!(row.addresses_line, vec!["12 Oak St Apt 3".to_string(), "".to_string()]);
}

#[test]
fn test_convert_patient_birth_year_only() {
    let mut src = base_patient();
    src.birth_date = Some(Date::Year(2001));
    let row = convert_patient(&src).unwrap();
    assert_eq!(row.birth_time, PlainDate { year: 2001, month: 1, day: 1 });
    assert_eq!(row.birth_time_resolution, TimeResolution::Year);
}

#[test]
fn test_convert_patient_full_day_birth() {
    let mut src = base_patient();
    src.birth_date = Some(Date::Date(PlainDate { year: 1984, month: 2, day: 29 }));
    let row = convert_patient(&src).unwrap();
    assert_eq!(row.birth_time, PlainDate { year: 1984, month: 2, day: 29 });
    assert_eq!(row.birth_time_resolution, TimeResolution::Day);
}

#[test]
fn test_convert_patient_deceased_boolean() {
    let mut src = base_patient();
    src.deceased = Some(PatientDeceased::Boolean(true));
    let row = convert_patient(&src).unwrap();
    assert_eq!(row.deceased, schemav1::Deceased::Dead);
    assert_eq!(row.death_time, None);

    src.deceased = Some(PatientDeceased::Boolean(false));
    let row = convert_patient(&src).unwrap();
    assert_eq!(row.deceased, schemav1::Deceased::Alive);
}

#[test]
fn test_convert_patient_deceased_datetime() {
    let mut src = base_patient();
    src.deceased = Some(PatientDeceased::DateTime(DateTime::Date(Date::Year(2020))));
    let row = convert_patient(&src).unwrap();
    assert_eq!(row.deceased, schemav1::Deceased::Dead);
    assert_eq!(
        row.death_time,
        Some(Timestamp {
            date: PlainDate { year: 2020, month: 1, day: 1 },
            second_of_day: 0,
            offset_seconds: 0,
        })
    );
}

#[test]
fn test_convert_patient_missing_id() {
    let mut src = base_patient();
    src.id = None;
    assert!(convert_patient(&src).is_err());
}

#[test]
fn test_convert_patient_missing_birth_date() {
    let mut src = base_patient();
    src.birth_date = None;
    assert!(convert_patient(&src).is_err());
}

#[test]
fn test_convert_patient_year_out_of_range() {
    let mut src = base_patient();
    src.birth_date = Some(Date::Year(10000));
    assert!(convert_patient(&src).is_err());
}

#[test]
fn test_convert_patient_bad_month() {
    let mut src = base_patient();
    src.birth_date = Some(Date::YearMonth(1990, 13));
    assert!(convert_patient(&src).is_err());
}

#[test]
fn test_convert_patient_no_name() {
    let mut src = base_patient();
    src.name = vec![];
    let row = convert_patient(&src).unwrap();
    assert_eq!(row.name_given, "");
    assert_eq!(row.name_family, "");
}

fn base_encounter() -> Encounter {
    Encounter {
        id: Some("e-9".to_string()),
        status: EncounterStatus::Finished,
        subject: Some(Reference {
            type_: Some("Patient".to_string()),
            reference: Some("Patient/7d9aa431".to_string()),
        }),
        period: Some(Period {
            start: Some(DateTime::DateTime(Instant(Timestamp {
                date: PlainDate { year: 1998, month: 4, day: 16 },
                second_of_day: 57577,
                offset_seconds: -14400,
            }))),
            end: None,
        }),
        class: Coding {
            code: Some("AMB".to_string()),
            display: Some("ambulatory".to_string()),
            system: None,
        },
    }
}

#[test]
fn test_convert_encounter_full() {
    let row = convert_encounter(&base_encounter()).unwrap();
    assert_eq!(row.id, "e-9");
    assert_eq!(row.status, schemav1::EncounterStatus::Finished);
    assert_eq!(row.subject, "7d9aa431");
    assert_eq!(
        row.period_start,
        Timestamp {
            date: PlainDate { year: 1998, month: 4, day: 16 },
            second_of_day: 57577,
            offset_seconds: -14400,
        }
    );
    assert_eq!(row.period_end, unix_epoch());
    assert_eq!(row.class_code, "AMB");
    assert_eq!(row.class_description, "ambulatory");
    assert_eq!(row.class_system, "");
}

#[test]
fn test_convert_encounter_statuses() {
    let mut src = base_encounter();
    src.status = EncounterStatus::Planned;
    assert_eq!(
        convert_encounter(&src).unwrap().status,
        schemav1::EncounterStatus::Planned
    );
    src.status = EncounterStatus::EnteredInError;
    assert_eq!(
        convert_encounter(&src).unwrap().status,
        schemav1::EncounterStatus::EnteredInError
    );
}

#[test]
fn test_convert_encounter_no_period() {
    let mut src = base_encounter();
    src.period = None;
    let row = convert_encounter(&src).unwrap();
    assert_eq!(row.period_start, unix_epoch());
    assert_eq!(row.period_end, unix_epoch());
}

#[test]
fn test_convert_encounter_missing_id() {
    let mut src = base_encounter();
    src.id = None;
    assert!(convert_encounter(&src).is_err());
}

#[test]
fn test_patient_reference_second_segment() {
    let mut src = base_encounter();
    src.subject = Some(Reference {
        type_: None,
        reference: Some("Patient/abc/def".to_string()),
    });
    assert_eq!(convert_encounter(&src).unwrap().subject, "abc");
}

#[test]
fn test_patient_reference_wrong_type() {
    let mut src = base_encounter();
    src.subject = Some(Reference {
        type_: Some("Group".to_string()),
        reference: Some("Patient/abc".to_string()),
    });
    assert!(convert_encounter(&src).is_err());
}

#[test]
fn test_patient_reference_wrong_collection() {
    let mut src = base_encounter();
    src.subject = Some(Reference {
        type_: None,
        reference: Some("Observation/abc".to_string()),
    });
    assert!(convert_encounter(&src).is_err());
}

#[test]
fn test_patient_reference_no_slash() {
    let mut src = base_encounter();
    src.subject = Some(Reference { type_: None, reference: Some("Patient".to_string()) });
    assert!(convert_encounter(&src).is_err());
}

#[test]
fn test_patient_reference_absent() {
    let mut src = base_encounter();
    src.subject = Some(Reference { type_: Some("Patient".to_string()), reference: None });
    assert!(convert_encounter(&src).is_err());
}

#[test]
fn test_convert_bundle_mixed() {
    let bundle = Bundle {
        entry: vec![
            Some(BundleEntry { resource: Some(Resource::Patient(base_patient())) }),
            None,
            Some(BundleEntry { resource: None }),
            Some(BundleEntry { resource: Some(Resource::Other) }),
            Some(BundleEntry { resource: Some(Resource::Encounter(base_encounter())) }),
        ],
    };
    let converted = convert_bundle(&bundle).unwrap();
    assert_eq!(converted.resources.len(), 2);
    assert!(matches!(converted.resources[0], schemav1::Resource::Patient(_)));
    assert!(matches!(converted.resources[1], schemav1::Resource::Encounter(_)));
}

#[test]
fn test_convert_bundle_propagates_error() {
    let mut bad = base_patient();
    bad.id = None;
    let bundle = Bundle {
        entry: vec![Some(BundleEntry { resource: Some(Resource::Patient(bad)) })],
    };
    assert!(convert_bundle(&bundle).is_err());
}

#[test]
fn test_time_resolution_labels() {
    assert_eq!(TimeResolution::Year.label(), "year");
    assert_eq!(TimeResolution::Month.label(), "month");
    assert_eq!(TimeResolution::Day.label(), "day");
}
