use clinical_formats::ccda::{
    parse, parse_events, AdministrativeGender, CcdaParseError, ContactPointUse, Patient,
    TeleContactPoint, TelecomSystem,
};
use clinical_formats::xml::{tokenize, XmlAttr, XmlEvent, XmlTag};

fn attr(key: &str, value: &str) -> XmlAttr {
    XmlAttr { key: key.to_string(), value: value.to_string() }
}

fn tag(name: &str, attrs: Vec<XmlAttr>) -> XmlTag {
    XmlTag { name: name.to_string(), attrs }
}

#[test]
fn test_1_patient_role() {
    // The shape of a one-patient health summary: identifiers, three telecom
    // contact points and an administrative gender, surrounded by unmodeled
    // content that the parser must skip.
    let content = r#"<?xml version="1.0" encoding="UTF-8"?>
<ClinicalDocument xmlns="urn:hl7-org:v3">
  <realmCode code="US"/>
  <templateId root="2.16.840.1.113883.10.20.22.1.1"/>
  <title>Health Summary</title>
  <recordTarget>
    <patientRole>
      <id root="2.16.840.1.113883.4.1" extension="T-10118"/>
      <telecom use="MC" value="tel:+1(555)-777-1234"/>
      <telecom use="HP" value="tel:+1(555)-723-1544"/>
      <telecom value="mailto:360mu.alice.newman@gmail.com"/>
      <patient>
        <administrativeGenderCode code="F"/>
        <languageCommunication>
          <languageCode code="en"/>
        </languageCommunication>
      </patient>
    </patientRole>
  </recordTarget>
  <component>
    <structuredBody>
      <component>
        <section>
          <text>Not modeled</text>
        </section>
      </component>
    </structuredBody>
  </component>
</ClinicalDocument>"#;
    let arena = bumpalo::Bump::new();
    let top = parse(content, &arena).unwrap();

    assert_eq!(
        top.doc.record_targets,
        vec![Patient {
            id_root: Some("2.16.840.1.113883.4.1"),
            id_extension: Some("T-10118"),
            given_names: vec![],
            family_name: None,
            suffix: None,
            birth_sex: None,
            telecontacts: vec![
                TeleContactPoint {
                    system: TelecomSystem::Phone,
                    value: "+1(555)-777-1234",
                    use_pt: Some(ContactPointUse::Mobile),
                    rank: None,
                },
                TeleContactPoint {
                    system: TelecomSystem::Phone,
                    value: "+1(555)-723-1544",
                    use_pt: Some(ContactPointUse::Home),
                    rank: None,
                },
                TeleContactPoint {
                    system: TelecomSystem::Email,
                    value: "360mu.alice.newman@gmail.com",
                    use_pt: None,
                    rank: None,
                },
            ],
            address: None,
            administrativeGender: Some(AdministrativeGender::Female),
            birth_time: None,
            race: None,
            language: None,
            ethnicity: None,
        }]
    );
}

#[test]
fn test_concrete_success() {
    let content = r#"<ClinicalDocument><recordTarget><patientRole><id root="2.16.840.1.113883.4.1" extension="T-10118"/><telecom use="MC" value="tel:+1(555)-777-1234"/><patient><administrativeGenderCode code="F"/></patient></patientRole></recordTarget></ClinicalDocument>"#;
    let arena = bumpalo::Bump::new();
    let top = parse(content, &arena).unwrap();
    assert_eq!(top.doc.record_targets.len(), 1);
    let p = &top.doc.record_targets[0];
    assert_eq!(p.id_root, Some("2.16.840.1.113883.4.1"));
    assert_eq!(p.id_extension, Some("T-10118"));
    assert_eq!(p.telecontacts.len(), 1);
    assert_eq!(p.telecontacts[0].system, TelecomSystem::Phone);
    assert_eq!(p.telecontacts[0].value, "+1(555)-777-1234");
    assert_eq!(p.telecontacts[0].use_pt, Some(ContactPointUse::Mobile));
    assert_eq!(p.telecontacts[0].rank, None);
    assert_eq!(p.administrativeGender, Some(AdministrativeGender::Female));
}

#[test]
fn test_concrete_failure_unmodeled_gender() {
    // Identical to the success case but with an unrecognized gender code:
    // the document fails rather than defaulting the gender.
    let content = r#"<ClinicalDocument><recordTarget><patientRole><id root="2.16.840.1.113883.4.1" extension="T-10118"/><telecom use="MC" value="tel:+1(555)-777-1234"/><patient><administrativeGenderCode code="U"/></patient></patientRole></recordTarget></ClinicalDocument>"#;
    let arena = bumpalo::Bump::new();
    let err = parse(content, &arena).err().unwrap();
    assert_eq!(err, CcdaParseError::UnmodeledValue);
}

#[test]
fn test_zero_record_targets() {
    let content = "<ClinicalDocument><!-- empty --></ClinicalDocument>";
    let arena = bumpalo::Bump::new();
    let err = parse(content, &arena).err().unwrap();
    assert_eq!(err, CcdaParseError::StructuralViolation);
}

#[test]
fn test_duplicate_patient_id() {
    let content = r#"<ClinicalDocument><recordTarget><patientRole><id root="a"/><id root="b"/></patientRole></recordTarget></ClinicalDocument>"#;
    let arena = bumpalo::Bump::new();
    let err = parse(content, &arena).err().unwrap();
    assert_eq!(err, CcdaParseError::StructuralViolation);
}

#[test]
fn test_missing_patient_id() {
    let content = r#"<ClinicalDocument><recordTarget><patientRole><telecom value="tel:1"/></patientRole></recordTarget></ClinicalDocument>"#;
    let arena = bumpalo::Bump::new();
    let err = parse(content, &arena).err().unwrap();
    assert_eq!(err, CcdaParseError::StructuralViolation);
}

#[test]
fn test_skip_deep_same_named_nesting() {
    // Arbitrarily deep nesting of same-named unrecognized elements must be
    // skipped exactly to the matching close tag, leaving the id readable.
    let content = r#"<ClinicalDocument><recordTarget><patientRole><junk><junk><junk>text</junk><junk/></junk></junk><id root="r" extension="e"/></patientRole></recordTarget></ClinicalDocument>"#;
    let arena = bumpalo::Bump::new();
    let top = parse(content, &arena).unwrap();
    assert_eq!(top.doc.record_targets.len(), 1);
    assert_eq!(top.doc.record_targets[0].id_root, Some("r"));
    assert_eq!(top.doc.record_targets[0].id_extension, Some("e"));
}

#[test]
fn test_two_patient_roles() {
    let content = r#"<ClinicalDocument><recordTarget><patientRole><id root="a"/></patientRole><patientRole><id root="b"/></patientRole></recordTarget></ClinicalDocument>"#;
    let arena = bumpalo::Bump::new();
    let err = parse(content, &arena).err().unwrap();
    assert_eq!(err, CcdaParseError::StructuralViolation);
}

#[test]
fn test_two_record_targets() {
    let content = r#"<ClinicalDocument><recordTarget><patientRole><id root="a"/></patientRole></recordTarget><recordTarget><patientRole><id root="b"/></patientRole></recordTarget></ClinicalDocument>"#;
    let arena = bumpalo::Bump::new();
    let top = parse(content, &arena).unwrap();
    assert_eq!(top.doc.record_targets.len(), 2);
    assert_eq!(top.doc.record_targets[0].id_root, Some("a"));
    assert_eq!(top.doc.record_targets[1].id_root, Some("b"));
}

#[test]
fn test_second_gender_element() {
    let content = r#"<ClinicalDocument><recordTarget><patientRole><id root="a"/><patient><administrativeGenderCode code="F"/><administrativeGenderCode code="M"/></patient></patientRole></recordTarget></ClinicalDocument>"#;
    let arena = bumpalo::Bump::new();
    let err = parse(content, &arena).err().unwrap();
    assert_eq!(err, CcdaParseError::StructuralViolation);
}

#[test]
fn test_gender_male_code() {
    let content = r#"<ClinicalDocument><recordTarget><patientRole><id root="a"/><patient><administrativeGenderCode code="M"/></patient></patientRole></recordTarget></ClinicalDocument>"#;
    let arena = bumpalo::Bump::new();
    let top = parse(content, &arena).unwrap();
    assert_eq!(
        top.doc.record_targets[0].administrativeGender,
        Some(AdministrativeGender::Male)
    );
}

#[test]
fn test_gender_element_without_code() {
    let content = r#"<ClinicalDocument><recordTarget><patientRole><id root="a"/><patient><administrativeGenderCode codeSystem="2.16.840.1.113883.5.1"/></patient></patientRole></recordTarget></ClinicalDocument>"#;
    let arena = bumpalo::Bump::new();
    let top = parse(content, &arena).unwrap();
    assert_eq!(top.doc.record_targets[0].administrativeGender, None);
}

#[test]
fn test_unknown_telecom_scheme() {
    let content = r#"<ClinicalDocument><recordTarget><patientRole><id root="a"/><telecom value="fax:+1-555"/></patientRole></recordTarget></ClinicalDocument>"#;
    let arena = bumpalo::Bump::new();
    let err = parse(content, &arena).err().unwrap();
    assert_eq!(err, CcdaParseError::UnmodeledValue);
}

#[test]
fn test_unknown_telecom_use() {
    let content = r#"<ClinicalDocument><recordTarget><patientRole><id root="a"/><telecom use="WP" value="tel:+1-555"/></patientRole></recordTarget></ClinicalDocument>"#;
    let arena = bumpalo::Bump::new();
    let err = parse(content, &arena).err().unwrap();
    assert_eq!(err, CcdaParseError::UnmodeledValue);
}

#[test]
fn test_telecom_without_value() {
    let content = r#"<ClinicalDocument><recordTarget><patientRole><id root="a"/><telecom use="MC"/></patientRole></recordTarget></ClinicalDocument>"#;
    let arena = bumpalo::Bump::new();
    let err = parse(content, &arena).err().unwrap();
    assert_eq!(err, CcdaParseError::StructuralViolation);
}

#[test]
fn test_truncated_document() {
    let content = "<ClinicalDocument><recordTarget><patientRole>";
    let arena = bumpalo::Bump::new();
    let err = parse(content, &arena).err().unwrap();
    assert_eq!(err, CcdaParseError::SyntaxError);
}

#[test]
fn test_mismatched_close_tag() {
    let content = "<ClinicalDocument><recordTarget></patientRole></recordTarget></ClinicalDocument>";
    let arena = bumpalo::Bump::new();
    let err = parse(content, &arena).err().unwrap();
    assert_eq!(err, CcdaParseError::SyntaxError);
}

#[test]
fn test_root_is_not_clinical_document() {
    let content = "<Observation></Observation>";
    let arena = bumpalo::Bump::new();
    let err = parse(content, &arena).err().unwrap();
    assert_eq!(err, CcdaParseError::StructuralViolation);
}

#[test]
fn test_missing_clinical_document() {
    let content = "<?xml version=\"1.0\"?><!-- nothing here -->";
    let arena = bumpalo::Bump::new();
    let err = parse(content, &arena).err().unwrap();
    assert_eq!(err, CcdaParseError::StructuralViolation);
}

#[test]
fn test_second_clinical_document() {
    let content = r#"<ClinicalDocument><recordTarget><patientRole><id root="a"/></patientRole></recordTarget></ClinicalDocument><ClinicalDocument></ClinicalDocument>"#;
    let arena = bumpalo::Bump::new();
    let err = parse(content, &arena).err().unwrap();
    // quick_xml itself rejects a second root element, so this surfaces as a
    // syntax error before the grammar sees the duplicate.
    assert!(matches!(
        err,
        CcdaParseError::SyntaxError | CcdaParseError::StructuralViolation
    ));
}

#[test]
fn test_id_with_unknown_attribute() {
    let content = r#"<ClinicalDocument><recordTarget><patientRole><id root="a" assigningAuthorityName="x"/></patientRole></recordTarget></ClinicalDocument>"#;
    let arena = bumpalo::Bump::new();
    let err = parse(content, &arena).err().unwrap();
    assert_eq!(err, CcdaParseError::StructuralViolation);
}

#[test]
fn test_record_target_with_attributes() {
    let content = r#"<ClinicalDocument><recordTarget contextControlCode="OP"><patientRole><id root="a"/></patientRole></recordTarget></ClinicalDocument>"#;
    let arena = bumpalo::Bump::new();
    let err = parse(content, &arena).err().unwrap();
    assert_eq!(err, CcdaParseError::StructuralViolation);
}

#[test]
fn test_tokenize_events() {
    // The trusted tokenizer boundary must deliver the real names and
    // attribute values, not its input unchanged.
    let events = tokenize(r#"<a x="1"><b/>hi</a>"#).unwrap();
    assert_eq!(
        events,
        vec![
            XmlEvent::Open(tag("a", vec![attr("x", "1")])),
            XmlEvent::SelfClose(tag("b", vec![])),
            XmlEvent::Text,
            XmlEvent::Close("a".to_string()),
            XmlEvent::Eof,
        ]
    );
}

#[test]
fn test_tokenize_strips_namespace_prefix() {
    let events = tokenize(r#"<ns:a ns:x="1"></ns:a>"#).unwrap();
    assert_eq!(
        events,
        vec![
            XmlEvent::Open(tag("a", vec![attr("x", "1")])),
            XmlEvent::Close("a".to_string()),
            XmlEvent::Eof,
        ]
    );
}

#[test]
fn test_parse_events_directly() {
    let events = vec![
        XmlEvent::Open(tag("ClinicalDocument", vec![])),
        XmlEvent::Open(tag("recordTarget", vec![])),
        XmlEvent::Open(tag("patientRole", vec![])),
        XmlEvent::SelfClose(tag("id", vec![attr("root", "R"), attr("extension", "E")])),
        XmlEvent::Close("patientRole".to_string()),
        XmlEvent::Close("recordTarget".to_string()),
        XmlEvent::Close("ClinicalDocument".to_string()),
        XmlEvent::Eof,
    ];
    let arena = bumpalo::Bump::new();
    let top = parse_events(&events, &arena).unwrap();
    assert_eq!(top.doc.record_targets.len(), 1);
    assert_eq!(top.doc.record_targets[0].id_root, Some("R"));
    assert_eq!(top.doc.record_targets[0].id_extension, Some("E"));
}

#[test]
fn test_parse_events_duplicate_id_attribute() {
    // A repeated `root` attribute on one id element; quick_xml would reject
    // this itself, but the grammar also rejects it on a raw event stream.
    let events = vec![
        XmlEvent::Open(tag("ClinicalDocument", vec![])),
        XmlEvent::Open(tag("recordTarget", vec![])),
        XmlEvent::Open(tag("patientRole", vec![])),
        XmlEvent::SelfClose(tag("id", vec![attr("root", "a"), attr("root", "b")])),
        XmlEvent::Close("patientRole".to_string()),
        XmlEvent::Close("recordTarget".to_string()),
        XmlEvent::Close("ClinicalDocument".to_string()),
        XmlEvent::Eof,
    ];
    let arena = bumpalo::Bump::new();
    let err = parse_events(&events, &arena).err().unwrap();
    assert_eq!(err, CcdaParseError::StructuralViolation);
}

#[test]
fn test_parse_events_truncated_skip() {
    // End of input while skipping an unrecognized subtree is a syntax error.
    let events = vec![
        XmlEvent::Open(tag("ClinicalDocument", vec![])),
        XmlEvent::Open(tag("unknown", vec![])),
        XmlEvent::Open(tag("unknown", vec![])),
        XmlEvent::Eof,
    ];
    let arena = bumpalo::Bump::new();
    let err = parse_events(&events, &arena).err().unwrap();
    assert_eq!(err, CcdaParseError::SyntaxError);
}

#[test]
fn test_parse_agrees_with_tokenize_then_parse_events() {
    // Parsing the source is tokenizing it and parsing the event stream:
    // the two paths must yield the same document.
    let content = r#"<ClinicalDocument><recordTarget><patientRole><id root="2.16.840.1.113883.4.1" extension="T-10118"/><telecom use="MC" value="tel:+1(555)-777-1234"/><patient><administrativeGenderCode code="F"/></patient></patientRole></recordTarget></ClinicalDocument>"#;
    let arena_direct = bumpalo::Bump::new();
    let direct = parse(content, &arena_direct).unwrap();
    let events = tokenize(content).unwrap();
    let arena_staged = bumpalo::Bump::new();
    let staged = parse_events(&events, &arena_staged).unwrap();
    assert_eq!(direct.doc.record_targets, staged.doc.record_targets);
}

#[test]
fn test_telecom_value_without_scheme() {
    // With no colon the whole value is the scheme, which is unrecognized.
    let content = r#"<ClinicalDocument><recordTarget><patientRole><id root="a"/><telecom value="5557771234"/></patientRole></recordTarget></ClinicalDocument>"#;
    let arena = bumpalo::Bump::new();
    let err = parse(content, &arena).err().unwrap();
    assert_eq!(err, CcdaParseError::UnmodeledValue);
}

#[test]
fn test_telecom_payload_keeps_later_colons() {
    // Splitting happens at the first colon only.
    let content = r#"<ClinicalDocument><recordTarget><patientRole><id root="a"/><telecom value="tel:+1:ext:9"/></patientRole></recordTarget></ClinicalDocument>"#;
    let arena = bumpalo::Bump::new();
    let top = parse(content, &arena).unwrap();
    assert_eq!(top.doc.record_targets[0].telecontacts[0].value, "+1:ext:9");
}
