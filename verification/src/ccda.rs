//! C-CDA patient-demographics parsing.
//!
//! An arena-backed recursive-descent parser that tokenizes an XML source
//! into events and turns them into a typed `ClinicalDocument`, tolerating
//! unrecognized content by skipping whole subtrees.

use vstd::prelude::*;

use crate::util::str_eq_str;
use crate::xml::XmlAttr;
use crate::xml::events_of;
use crate::xml::XmlEvent;
use crate::xml::XmlTag;
use crate::xml::tokenize;

verus! {

/// Birth sex, a concept distinct from administrative gender.
#[derive(Debug, Eq, PartialEq)]
pub enum Sex {
    Male,
    Female,
}

/// HL7 administrative gender.
#[derive(Debug, Default, Eq, PartialEq)]
pub enum AdministrativeGender {
    #[default]
    Undifferentiated,
    Male,
    Female,
}

/// A time type which preserves the source format's ambiguity.
#[derive(Debug, Default, Eq, PartialEq)]
pub struct AmbiguousTime {}

/// Race; only an unknown stub is modeled so far.
#[derive(Debug, Default, Eq, PartialEq)]
pub enum Race {
    #[default]
    Unknown,
}

/// Ethnicity; only an unknown stub is modeled so far.
#[derive(Debug, Default, Eq, PartialEq)]
pub enum Ethnicity {
    #[default]
    Unknown,
}

/// Spoken language; only an unknown stub is modeled so far.
#[derive(Debug, Default, Eq, PartialEq)]
pub enum SpokenLanguage {
    #[default]
    Unknown,
}

/// FHIR contact-point use.
#[derive(Debug, Eq, PartialEq)]
pub enum ContactPointUse {
    Home,
    Work,
    Mobile,
    Temporary,
    /// Address no longer in use or was never correct to begin with.
    Old,
}

/// FHIR address type.
#[derive(Debug, Eq, PartialEq)]
pub enum AddrType {
    Postal,
    Physical,
    Both,
}

/// FHIR contact-point system.
#[derive(Debug, Eq, PartialEq)]
pub enum TelecomSystem {
    Phone,
    Email,
    Fax,
    Pager,
    Url,
    Sms,
    Other(Option<String>),
}

#[verifier::external_type_specification]
#[verifier::external_body]
pub struct ExCountryCode(rust_iso3166::CountryCode);

#[verifier::external_type_specification]
#[verifier::external_body]
pub struct ExBump<const MIN_ALIGN: usize>(bumpalo::Bump<MIN_ALIGN>);

/// Relies on bumpalo's Bump::alloc_str: the returned slice, owned by the
/// arena, is a copy of the argument.
#[verifier::external_body]
fn alloc_str<'r>(arena: &'r bumpalo::Bump, s: &str) -> (r: &'r str)
    ensures
        r@ == s@,
{
    arena.alloc_str(s)
}

/// A decoded contact channel with usage metadata.
#[derive(Debug, Eq, PartialEq)]
pub struct TeleContactPoint<'a> {
    pub system: TelecomSystem,
    pub value: &'a str,
    pub use_pt: Option<ContactPointUse>,
    pub rank: Option<u16>,
}

/// A postal or physical address; never produced by the modeled grammar yet.
#[derive(Debug, Eq, PartialEq)]
pub struct Address<'a> {
    association: Option<ContactPointUse>,
    typ: Option<AddrType>,
    city: Option<&'a str>,
    country: Option<rust_iso3166::CountryCode>,
    district: Option<&'a str>,
    line: Vec<&'a str>,
    postal_code: Option<&'a str>,
    state: Option<&'a str>,
}

/// One record target of a clinical document.
#[allow(non_snake_case)]
#[derive(Debug, Default, Eq, PartialEq)]
pub struct Patient<'a> {
    pub id_root: Option<&'a str>,
    pub id_extension: Option<&'a str>,
    pub given_names: Vec<&'a str>,
    pub family_name: Option<&'a str>,
    pub suffix: Option<&'a str>,
    pub administrativeGender: Option<AdministrativeGender>,
    pub birth_sex: Option<Sex>,
    pub birth_time: Option<AmbiguousTime>,
    pub race: Option<Race>,
    pub ethnicity: Option<Ethnicity>,
    pub language: Option<SpokenLanguage>,
    pub telecontacts: Vec<TeleContactPoint<'a>>,
    pub address: Option<Address<'a>>,
}

/// A parsed C-CDA document.
pub struct ClinicalDocument<'a> {
    /// The records which this document's content applies to.
    /// Usually one person, except in the rare case of group note taking.
    pub record_targets: Vec<Patient<'a>>,
}

/// A parsed document paired with the arena that owns its strings.
/// The two must not be separated.
pub struct CcdaTopLevel<'a> {
    pub doc: ClinicalDocument<'a>,
    pub data: &'a bumpalo::Bump,
}

/// Why a parse failed. The first failure aborts the whole parse; no partial
/// document is ever returned.
#[derive(Debug, Clone, Copy, PartialEq, Eq, Structural)]
pub enum CcdaParseError {
    /// The XML itself is not well formed (unterminated tag, encoding fault,
    /// end of input before the matching close tag).
    SyntaxError,
    /// A required element is missing, exceeds its allowed cardinality, or
    /// appears where the modeled grammar subset forbids it.
    StructuralViolation,
    /// A recognized element carries an attribute value outside the small
    /// set currently decoded.
    UnmodeledValue,
}

pub type PResult<T> = Result<T, CcdaParseError>;

/// Mathematical model of a `TeleContactPoint`.
pub struct TeleContactPointV {
    pub system: TelecomSystem,
    pub value: Seq<char>,
    pub use_pt: Option<ContactPointUse>,
    pub rank: Option<u16>,
}

impl<'a> View for TeleContactPoint<'a> {
    type V = TeleContactPointV;

    open spec fn view(&self) -> TeleContactPointV {
        TeleContactPointV {
            system: self.system,
            value: self.value@,
            use_pt: self.use_pt,
            rank: self.rank,
        }
    }
}

impl<'a> DeepView for TeleContactPoint<'a> {
    type V = TeleContactPointV;

    open spec fn deep_view(&self) -> TeleContactPointV {
        self.view()
    }
}

/// Mathematical model of an `Address`.
pub struct AddressV {
    pub association: Option<ContactPointUse>,
    pub typ: Option<AddrType>,
    pub city: Option<Seq<char>>,
    pub country: Option<rust_iso3166::CountryCode>,
    pub district: Option<Seq<char>>,
    pub line: Seq<Seq<char>>,
    pub postal_code: Option<Seq<char>>,
    pub state: Option<Seq<char>>,
}

impl<'a> View for Address<'a> {
    type V = AddressV;

    closed spec fn view(&self) -> AddressV {
        AddressV {
            association: self.association,
            typ: self.typ,
            city: self.city.deep_view(),
            country: self.country,
            district: self.district.deep_view(),
            line: self.line.deep_view(),
            postal_code: self.postal_code.deep_view(),
            state: self.state.deep_view(),
        }
    }
}

impl<'a> DeepView for Address<'a> {
    type V = AddressV;

    open spec fn deep_view(&self) -> AddressV {
        self.view()
    }
}

/// Mathematical model of a `Patient`.
#[allow(non_snake_case)]
pub struct PatientV {
    pub id_root: Option<Seq<char>>,
    pub id_extension: Option<Seq<char>>,
    pub given_names: Seq<Seq<char>>,
    pub family_name: Option<Seq<char>>,
    pub suffix: Option<Seq<char>>,
    pub administrativeGender: Option<AdministrativeGender>,
    pub birth_sex: Option<Sex>,
    pub birth_time: Option<AmbiguousTime>,
    pub race: Option<Race>,
    pub ethnicity: Option<Ethnicity>,
    pub language: Option<SpokenLanguage>,
    pub telecontacts: Seq<TeleContactPointV>,
    pub address: Option<AddressV>,
}

impl<'a> View for Patient<'a> {
    type V = PatientV;

    open spec fn view(&self) -> PatientV {
        PatientV {
            id_root: self.id_root.deep_view(),
            id_extension: self.id_extension.deep_view(),
            given_names: self.given_names.deep_view(),
            family_name: self.family_name.deep_view(),
            suffix: self.suffix.deep_view(),
            administrativeGender: self.administrativeGender,
            birth_sex: self.birth_sex,
            birth_time: self.birth_time,
            race: self.race,
            ethnicity: self.ethnicity,
            language: self.language,
            telecontacts: self.telecontacts.deep_view(),
            address: self.address.deep_view(),
        }
    }
}

impl<'a> DeepView for Patient<'a> {
    type V = PatientV;

    open spec fn deep_view(&self) -> PatientV {
        self.view()
    }
}

/// Mathematical model of a `ClinicalDocument`.
pub struct ClinicalDocumentV {
    pub record_targets: Seq<PatientV>,
}

impl<'a> View for ClinicalDocument<'a> {
    type V = ClinicalDocumentV;

    open spec fn view(&self) -> ClinicalDocumentV {
        ClinicalDocumentV { record_targets: self.record_targets.deep_view() }
    }
}

impl<'a> DeepView for ClinicalDocument<'a> {
    type V = ClinicalDocumentV;

    open spec fn deep_view(&self) -> ClinicalDocumentV {
        self.view()
    }
}

// ---------------------------------------------------------------------------
// Attribute decoding.
//
// The recognized code sets are deliberately small; anything outside them
// fails loudly rather than silently defaulting.
// ---------------------------------------------------------------------------

/// `administrativeGenderCode/@code`: "M" and "F" are decoded, nothing else.
pub open spec fn decode_gender(code: Seq<char>) -> Option<AdministrativeGender> {
    if code == "M"@ {
        Some(AdministrativeGender::Male)
    } else if code == "F"@ {
        Some(AdministrativeGender::Female)
    } else {
        None
    }
}

/// `telecom/@use`: "MC" and "HP" are decoded, nothing else.
pub open spec fn decode_telecom_use(code: Seq<char>) -> Option<ContactPointUse> {
    if code == "MC"@ {
        Some(ContactPointUse::Mobile)
    } else if code == "HP"@ {
        Some(ContactPointUse::Home)
    } else {
        None
    }
}

/// URI scheme of `telecom/@value`: "tel" and "mailto" are decoded.
pub open spec fn decode_telecom_scheme(scheme: Seq<char>) -> Option<TelecomSystem> {
    if scheme == "tel"@ {
        Some(TelecomSystem::Phone)
    } else if scheme == "mailto"@ {
        Some(TelecomSystem::Email)
    } else {
        None
    }
}

/// Index of the first `:` at or after `i`, if any.
pub open spec fn first_colon_from(s: Seq<char>, i: int) -> Option<int> {
    crate::util::find_char_from(s, ':', i)
}

/// The scheme part of a telecom value: everything before the first `:`,
/// or the whole value if there is no colon.
pub open spec fn telecom_scheme_of(v: Seq<char>) -> Seq<char> {
    match first_colon_from(v, 0) {
        Some(c) => v.subrange(0, c),
        None => v,
    }
}

/// The payload part of a telecom value: everything after the first `:`,
/// or empty if there is no colon.
pub open spec fn telecom_payload_of(v: Seq<char>) -> Seq<char> {
    match first_colon_from(v, 0) {
        Some(c) => v.subrange(c + 1, v.len() as int),
        None => Seq::empty(),
    }
}

/// What reading the attributes of one `id` element yields, scanning from
/// attribute `i` with the values accumulated so far: the `root` and
/// `extension` values copied verbatim, each optional; a repeated or an
/// unrecognized attribute is a structural violation.
pub open spec fn spec_id_attrs(
    attrs: Seq<XmlAttr>,
    i: int,
    root: Option<Seq<char>>,
    ext: Option<Seq<char>>,
) -> Result<(Option<Seq<char>>, Option<Seq<char>>), CcdaParseError>
    decreases attrs.len() - i,
{
    if i < 0 || i >= attrs.len() {
        Ok((root, ext))
    } else if attrs[i].key@ == "root"@ {
        if root is Some {
            Err(CcdaParseError::StructuralViolation)
        } else {
            spec_id_attrs(attrs, i + 1, Some(attrs[i].value@), ext)
        }
    } else if attrs[i].key@ == "extension"@ {
        if ext is Some {
            Err(CcdaParseError::StructuralViolation)
        } else {
            spec_id_attrs(attrs, i + 1, root, Some(attrs[i].value@))
        }
    } else {
        Err(CcdaParseError::StructuralViolation)
    }
}

/// What reading the attributes of one `administrativeGenderCode` element
/// yields: the decoded `code` value; a code outside the decoded set is an
/// unmodeled value, a repeated `code` a structural violation, and other
/// attributes are ignored.
pub open spec fn spec_gender_attrs(
    attrs: Seq<XmlAttr>,
    i: int,
    gender: Option<AdministrativeGender>,
) -> Result<Option<AdministrativeGender>, CcdaParseError>
    decreases attrs.len() - i,
{
    if i < 0 || i >= attrs.len() {
        Ok(gender)
    } else if attrs[i].key@ == "code"@ {
        if gender is Some {
            Err(CcdaParseError::StructuralViolation)
        } else {
            match decode_gender(attrs[i].value@) {
                Some(g) => spec_gender_attrs(attrs, i + 1, Some(g)),
                None => Err(CcdaParseError::UnmodeledValue),
            }
        }
    } else {
        spec_gender_attrs(attrs, i + 1, gender)
    }
}

/// What reading the attributes of one `telecom` element yields: the decoded
/// system and use, and the payload of the value, copied verbatim after the
/// scheme. A missing value is a structural violation; an unrecognized scheme
/// or use code is an unmodeled value; an unrecognized attribute or a repeated
/// one is a structural violation. A rank is never decoded.
pub open spec fn spec_telecom_attrs(
    attrs: Seq<XmlAttr>,
    i: int,
    use_pt: Option<ContactPointUse>,
    system: Option<TelecomSystem>,
    value: Option<Seq<char>>,
) -> Result<TeleContactPointV, CcdaParseError>
    decreases attrs.len() - i,
{
    if i < 0 || i >= attrs.len() {
        match (system, value) {
            (Some(sys), Some(v)) => Ok(
                TeleContactPointV { system: sys, value: v, use_pt, rank: None },
            ),
            _ => Err(CcdaParseError::StructuralViolation),
        }
    } else if attrs[i].key@ == "use"@ {
        if use_pt is Some {
            Err(CcdaParseError::StructuralViolation)
        } else {
            match decode_telecom_use(attrs[i].value@) {
                Some(u) => spec_telecom_attrs(attrs, i + 1, Some(u), system, value),
                None => Err(CcdaParseError::UnmodeledValue),
            }
        }
    } else if attrs[i].key@ == "value"@ {
        if value is Some || system is Some {
            Err(CcdaParseError::StructuralViolation)
        } else {
            match decode_telecom_scheme(telecom_scheme_of(attrs[i].value@)) {
                Some(sys) => spec_telecom_attrs(
                    attrs,
                    i + 1,
                    use_pt,
                    Some(sys),
                    Some(telecom_payload_of(attrs[i].value@)),
                ),
                None => Err(CcdaParseError::UnmodeledValue),
            }
        }
    } else {
        Err(CcdaParseError::StructuralViolation)
    }
}

// ---------------------------------------------------------------------------
// Leaf element handlers. Each consumes the attributes of one self-closing
// element; the cursor is not advanced here.
// ---------------------------------------------------------------------------

/// Lifts an executable `id` result to its model.
pub open spec fn lift_id<'r>(
    r: PResult<(Option<&'r str>, Option<&'r str>)>,
) -> Result<(Option<Seq<char>>, Option<Seq<char>>), CcdaParseError> {
    match r {
        Ok(v) => Ok((v.0.deep_view(), v.1.deep_view())),
        Err(e) => Err(e),
    }
}

/// Reads `patientRole/id`: `@root` and `@extension` are copied verbatim into
/// the arena, each may be absent independently.
fn p_patient_role__id<'r>(arena: &'r bumpalo::Bump, tag: &XmlTag) -> (r: PResult<
    (Option<&'r str>, Option<&'r str>),
>)
    requires
        tag.name@ == "id"@,
    ensures
        lift_id(r) == spec_id_attrs(tag.attrs@, 0, None, None),
{
    let mut root: Option<&'r str> = None;
    let mut ext: Option<&'r str> = None;
    let n = tag.attrs.len();
    let mut i: usize = 0;
    while i < n
        invariant
            i <= n,
            n == tag.attrs@.len(),
            spec_id_attrs(tag.attrs@, 0, None, None) == spec_id_attrs(
                tag.attrs@,
                i as int,
                root.deep_view(),
                ext.deep_view(),
            ),
        decreases n - i,
    {
        let attr = &tag.attrs[i];
        if str_eq_str(attr.key.as_str(), "root") {
            if root.is_some() {
                return Err(CcdaParseError::StructuralViolation);
            }
            root = Some(alloc_str(arena, attr.value.as_str()));
        } else if str_eq_str(attr.key.as_str(), "extension") {
            if ext.is_some() {
                return Err(CcdaParseError::StructuralViolation);
            }
            ext = Some(alloc_str(arena, attr.value.as_str()));
        } else {
            return Err(CcdaParseError::StructuralViolation);
        }
        i = i + 1;
    }
    Ok((root, ext))
}

/// Reads `patient/administrativeGenderCode`: decodes `@code`, ignoring other
/// attributes; an unrecognized code fails rather than defaulting.
fn p_patient__admin_gender_code(tag: &XmlTag) -> (r: PResult<Option<AdministrativeGender>>)
    requires
        tag.name@ == "administrativeGenderCode"@,
    ensures
        r == spec_gender_attrs(tag.attrs@, 0, None),
{
    let mut gender: Option<AdministrativeGender> = None;
    let n = tag.attrs.len();
    let mut i: usize = 0;
    while i < n
        invariant
            i <= n,
            n == tag.attrs@.len(),
            spec_gender_attrs(tag.attrs@, 0, None) == spec_gender_attrs(
                tag.attrs@,
                i as int,
                gender,
            ),
        decreases n - i,
    {
        let attr = &tag.attrs[i];
        if str_eq_str(attr.key.as_str(), "code") {
            if gender.is_some() {
                return Err(CcdaParseError::StructuralViolation);
            }
            if str_eq_str(attr.value.as_str(), "M") {
                gender = Some(AdministrativeGender::Male);
            } else if str_eq_str(attr.value.as_str(), "F") {
                gender = Some(AdministrativeGender::Female);
            } else {
                return Err(CcdaParseError::UnmodeledValue);
            }
        }
        i = i + 1;
    }
    Ok(gender)
}

/// Lifts an executable `telecom` result to its model.
pub open spec fn lift_telecom<'r>(r: PResult<TeleContactPoint<'r>>) -> Result<
    TeleContactPointV,
    CcdaParseError,
> {
    match r {
        Ok(t) => Ok(t@),
        Err(e) => Err(e),
    }
}

/// Reads `patientRole/telecom`: splits `@value` at the first `:` into scheme
/// and payload, decodes the scheme and `@use`, and copies the payload
/// verbatim into the arena.
fn p_patient_role__telecom<'r>(arena: &'r bumpalo::Bump, tag: &XmlTag) -> (r: PResult<
    TeleContactPoint<'r>,
>)
    requires
        tag.name@ == "telecom"@,
    ensures
        lift_telecom(r) == spec_telecom_attrs(tag.attrs@, 0, None, None, None),
{
    let mut use_pt: Option<ContactPointUse> = None;
    let mut system: Option<TelecomSystem> = None;
    let mut value: Option<&'r str> = None;
    let n = tag.attrs.len();
    let mut i: usize = 0;
    while i < n
        invariant
            i <= n,
            n == tag.attrs@.len(),
            spec_telecom_attrs(tag.attrs@, 0, None, None, None) == spec_telecom_attrs(
                tag.attrs@,
                i as int,
                use_pt,
                system,
                value.deep_view(),
            ),
        decreases n - i,
    {
        let attr = &tag.attrs[i];
        if str_eq_str(attr.key.as_str(), "use") {
            if use_pt.is_some() {
                return Err(CcdaParseError::StructuralViolation);
            }
            if str_eq_str(attr.value.as_str(), "MC") {
                use_pt = Some(ContactPointUse::Mobile);
            } else if str_eq_str(attr.value.as_str(), "HP") {
                use_pt = Some(ContactPointUse::Home);
            } else {
                return Err(CcdaParseError::UnmodeledValue);
            }
        } else if str_eq_str(attr.key.as_str(), "value") {
            if value.is_some() || system.is_some() {
                return Err(CcdaParseError::StructuralViolation);
            }
            let v = attr.value.as_str();
            let vlen = v.unicode_len();
            let (scheme, payload): (&str, &str) = match crate::util::find_char(v, ':', 0) {
                Some(c) => (v.substring_char(0, c), v.substring_char(c + 1, vlen)),
                None => (v, ""),
            };
            proof {
                assert(scheme@ == telecom_scheme_of(attr.value@));
                if first_colon_from(attr.value@, 0) is None {
                    reveal_strlit("");
                    assert(payload@ =~= telecom_payload_of(attr.value@));
                }
                assert(payload@ == telecom_payload_of(attr.value@));
            }
            if str_eq_str(scheme, "tel") {
                system = Some(TelecomSystem::Phone);
            } else if str_eq_str(scheme, "mailto") {
                system = Some(TelecomSystem::Email);
            } else {
                return Err(CcdaParseError::UnmodeledValue);
            }
            value = Some(alloc_str(arena, payload));
        } else {
            return Err(CcdaParseError::StructuralViolation);
        }
        i = i + 1;
    }
    match (system, value) {
        (Some(sys), Some(v)) => Ok(
            TeleContactPoint { system: sys, value: v, use_pt, rank: None },
        ),
        _ => Err(CcdaParseError::StructuralViolation),
    }
}

// ---------------------------------------------------------------------------
// Skip-subtree: discarding all events of an unrecognized element, including
// nested descendants, without interpretation.
// ---------------------------------------------------------------------------

/// Lifts an executable cursor position to its model.
pub open spec fn lift_pos(r: PResult<usize>) -> Result<int, CcdaParseError> {
    match r {
        Ok(j) => Ok(j as int),
        Err(e) => Err(e),
    }
}

/// Where skipping lands: called just after the open tag of the element to
/// discard was consumed, with the running depth (initially 1) and the open
/// tag's local name. Yields the position immediately after the matching
/// close tag. End of input before that close tag is a truncated document;
/// a close tag whose name does not echo the open tag's betrays tokenizer
/// desynchronization; both are syntax errors.
pub open spec fn spec_skip(evs: Seq<XmlEvent>, i: int, depth: int, name: Seq<char>) -> Result<
    int,
    CcdaParseError,
>
    decreases evs.len() - i,
{
    if i < 0 || i >= evs.len() {
        Err(CcdaParseError::SyntaxError)
    } else {
        match evs[i] {
            XmlEvent::Eof => Err(CcdaParseError::SyntaxError),
            XmlEvent::Open(_) => spec_skip(evs, i + 1, depth + 1, name),
            XmlEvent::Close(n) => if depth == 1 {
                if n@ == name {
                    Ok(i + 1)
                } else {
                    Err(CcdaParseError::SyntaxError)
                }
            } else {
                spec_skip(evs, i + 1, depth - 1, name)
            },
            _ => spec_skip(evs, i + 1, depth, name),
        }
    }
}

/// Skipping always consumes at least one event and never passes the end.
pub proof fn lemma_skip_advances(evs: Seq<XmlEvent>, i: int, depth: int, name: Seq<char>)
    ensures
        spec_skip(evs, i, depth, name) matches Ok(j) ==> i < j <= evs.len(),
    decreases evs.len() - i,
{
    if 0 <= i < evs.len() {
        match evs[i] {
            XmlEvent::Eof => {},
            XmlEvent::Open(_) => lemma_skip_advances(evs, i + 1, depth + 1, name),
            XmlEvent::Close(_) => {
                if depth != 1 {
                    lemma_skip_advances(evs, i + 1, depth - 1, name);
                }
            },
            _ => lemma_skip_advances(evs, i + 1, depth, name),
        }
    }
}

/// How much one event changes the element-nesting depth.
pub open spec fn depth_delta(e: XmlEvent) -> int {
    match e {
        XmlEvent::Open(_) => 1,
        XmlEvent::Close(_) => -1,
        _ => 0,
    }
}

/// Net depth change over the events of `[i, j)`.
pub open spec fn depth_sum(evs: Seq<XmlEvent>, i: int, j: int) -> int
    decreases j - i,
{
    if j <= i {
        0
    } else {
        depth_delta(evs[i]) + depth_sum(evs, i + 1, j)
    }
}

/// Skip-subtree is depth-correct, for arbitrarily deep, arbitrarily
/// same-named nesting: whenever it succeeds, it stops at the position
/// immediately after the one close tag that returns the running depth to
/// zero — never earlier (the depth stays positive strictly before it) and
/// never later — and that close tag's local name echoes the open tag's.
#[verifier::rlimit(60)]
pub proof fn lemma_skip_depth_correct(evs: Seq<XmlEvent>, i: int, depth: int, name: Seq<char>)
    requires
        depth >= 1,
        0 <= i,
    ensures
        spec_skip(evs, i, depth, name) matches Ok(j) ==> {
            &&& i < j <= evs.len()
            &&& depth + depth_sum(evs, i, j) == 0
            &&& forall|m: int| i <= m < j ==> depth + depth_sum(evs, i, m) >= 1
            &&& evs[j - 1] matches XmlEvent::Close(n) && n@ == name
        },
    decreases evs.len() - i,
{
    if 0 <= i < evs.len() {
        match evs[i] {
            XmlEvent::Eof => {},
            XmlEvent::Open(_) => {
                lemma_skip_depth_correct(evs, i + 1, depth + 1, name);
                if let Ok(j) = spec_skip(evs, i, depth, name) {
                    assert(depth_sum(evs, i, j) == 1 + depth_sum(evs, i + 1, j));
                    assert forall|m: int| i <= m < j implies depth + depth_sum(evs, i, m)
                        >= 1 by {
                        if m > i {
                            assert(depth_sum(evs, i, m) == 1 + depth_sum(evs, i + 1, m));
                        }
                    }
                }
            },
            XmlEvent::Close(_) => {
                if depth == 1 {
                    if let Ok(j) = spec_skip(evs, i, depth, name) {
                        assert(depth_sum(evs, i + 1, j) == 0);
                        assert(depth_sum(evs, i, j) == -1 + depth_sum(evs, i + 1, j));
                    }
                } else {
                    lemma_skip_depth_correct(evs, i + 1, depth - 1, name);
                    if let Ok(j) = spec_skip(evs, i, depth, name) {
                        assert(depth_sum(evs, i, j) == -1 + depth_sum(evs, i + 1, j));
                        assert forall|m: int| i <= m < j implies depth + depth_sum(evs, i, m)
                            >= 1 by {
                            if m > i {
                                assert(depth_sum(evs, i, m) == -1 + depth_sum(evs, i + 1, m));
                            }
                        }
                    }
                }
            },
            _ => {
                lemma_skip_depth_correct(evs, i + 1, depth, name);
                if let Ok(j) = spec_skip(evs, i, depth, name) {
                    assert(depth_sum(evs, i, j) == depth_sum(evs, i + 1, j));
                    assert forall|m: int| i <= m < j implies depth + depth_sum(evs, i, m)
                        >= 1 by {
                        if m > i {
                            assert(depth_sum(evs, i, m) == depth_sum(evs, i + 1, m));
                        }
                    }
                }
            },
        }
    }
}

/// Skips the element whose open tag, named `name`, was just consumed at
/// position `i - 1`; maintains a depth counter and stops immediately after
/// the matching close tag, checking that its name echoes the open tag's.
fn skip_rec(events: &Vec<XmlEvent>, i: usize, depth: usize, name: &String) -> (r: PResult<usize>)
    requires
        1 <= depth,
        i <= events@.len(),
        depth + (events@.len() - i) <= usize::MAX,
    ensures
        lift_pos(r) == spec_skip(events@, i as int, depth as int, name@),
    decreases events@.len() - i,
{
    if i >= events.len() {
        return Err(CcdaParseError::SyntaxError);
    }
    match &events[i] {
        XmlEvent::Eof => Err(CcdaParseError::SyntaxError),
        XmlEvent::Open(_) => skip_rec(events, i + 1, depth + 1, name),
        XmlEvent::Close(n) => {
            if depth == 1 {
                if str_eq_str(n.as_str(), name.as_str()) {
                    Ok(i + 1)
                } else {
                    Err(CcdaParseError::SyntaxError)
                }
            } else {
                skip_rec(events, i + 1, depth - 1, name)
            }
        },
        _ => skip_rec(events, i + 1, depth, name),
    }
}

// ---------------------------------------------------------------------------
// Grammar handlers. Each non-leaf handler consumes exactly the events of one
// element instance: its children one level down, dispatched to a nested
// handler or to skip, up to and including its own close tag. The spec
// functions are the grammar; each executable handler is proved to compute
// exactly what its spec function says.
// ---------------------------------------------------------------------------

/// What the `patient` element yields, scanning its children from `i`: the
/// decoded administrative gender. `administrativeGenderCode` is allowed at
/// most once; every other child element is skipped.
pub open spec fn spec_patient(
    evs: Seq<XmlEvent>,
    i: int,
    seen_gender: bool,
    gender: Option<AdministrativeGender>,
) -> Result<(Option<AdministrativeGender>, int), CcdaParseError>
    decreases evs.len() - i,
    via spec_patient_dec
{
    if i < 0 || i >= evs.len() {
        Err(CcdaParseError::SyntaxError)
    } else {
        match evs[i] {
            XmlEvent::Close(_) => Ok((gender, i + 1)),
            XmlEvent::Eof => Err(CcdaParseError::SyntaxError),
            XmlEvent::Open(tag) => match spec_skip(evs, i + 1, 1, tag.name@) {
                Ok(j) => spec_patient(evs, j, seen_gender, gender),
                Err(e) => Err(e),
            },
            XmlEvent::SelfClose(tag) => if tag.name@ == "administrativeGenderCode"@ {
                if seen_gender {
                    Err(CcdaParseError::StructuralViolation)
                } else {
                    match spec_gender_attrs(tag.attrs@, 0, None) {
                        Ok(g) => spec_patient(evs, i + 1, true, g),
                        Err(e) => Err(e),
                    }
                }
            } else {
                spec_patient(evs, i + 1, seen_gender, gender)
            },
            XmlEvent::Text | XmlEvent::CData | XmlEvent::Comment | XmlEvent::PI => spec_patient(
                evs,
                i + 1,
                seen_gender,
                gender,
            ),
            XmlEvent::Decl | XmlEvent::DocType => Err(CcdaParseError::StructuralViolation),
        }
    }
}

#[via_fn]
proof fn spec_patient_dec(
    evs: Seq<XmlEvent>,
    i: int,
    seen_gender: bool,
    gender: Option<AdministrativeGender>,
) {
    if 0 <= i < evs.len() {
        if let XmlEvent::Open(tag) = evs[i] {
            lemma_skip_advances(evs, i + 1, 1, tag.name@);
        }
    }
}

/// Scanning a `patient` element always consumes at least one event and
/// never passes the end.
pub proof fn lemma_patient_advances(
    evs: Seq<XmlEvent>,
    i: int,
    seen_gender: bool,
    gender: Option<AdministrativeGender>,
)
    ensures
        spec_patient(evs, i, seen_gender, gender) matches Ok(v) ==> i < v.1 <= evs.len(),
    decreases evs.len() - i,
{
    if 0 <= i < evs.len() {
        match evs[i] {
            XmlEvent::Open(tag) => {
                lemma_skip_advances(evs, i + 1, 1, tag.name@);
                if let Ok(j) = spec_skip(evs, i + 1, 1, tag.name@) {
                    lemma_patient_advances(evs, j, seen_gender, gender);
                }
            },
            XmlEvent::SelfClose(tag) => if tag.name@ == "administrativeGenderCode"@ {
                if !seen_gender {
                    if let Ok(g) = spec_gender_attrs(tag.attrs@, 0, None) {
                        lemma_patient_advances(evs, i + 1, true, g);
                    }
                }
            } else {
                lemma_patient_advances(evs, i + 1, seen_gender, gender);
            },
            XmlEvent::Text | XmlEvent::CData | XmlEvent::Comment | XmlEvent::PI => {
                lemma_patient_advances(evs, i + 1, seen_gender, gender);
            },
            _ => {},
        }
    }
}

/// Lifts an executable `patient` result to its model.
pub open spec fn lift_gender_pos(r: PResult<(Option<AdministrativeGender>, usize)>) -> Result<
    (Option<AdministrativeGender>, int),
    CcdaParseError,
> {
    match r {
        Ok(v) => Ok((v.0, v.1 as int)),
        Err(e) => Err(e),
    }
}

/// Consumes the children of one `patient` element, whose open tag was just
/// consumed, and its close tag; yields the decoded administrative gender.
fn p_patient(events: &Vec<XmlEvent>, i: usize, seen_gender: bool, gender: Option<
    AdministrativeGender,
>) -> (r: PResult<(Option<AdministrativeGender>, usize)>)
    requires
        1 <= i <= events@.len(),
    ensures
        lift_gender_pos(r) == spec_patient(events@, i as int, seen_gender, gender),
    decreases events@.len() - i,
{
    let n = events.len();
    if i >= n {
        return Err(CcdaParseError::SyntaxError);
    }
    match &events[i] {
        XmlEvent::Close(_) => Ok((gender, i + 1)),
        XmlEvent::Eof => Err(CcdaParseError::SyntaxError),
        XmlEvent::Open(tag) => {
            match skip_rec(events, i + 1, 1, &tag.name) {
                Ok(j) => {
                    proof {
                        lemma_skip_advances(events@, i as int + 1, 1, tag.name@);
                    }
                    p_patient(events, j, seen_gender, gender)
                },
                Err(e) => Err(e),
            }
        },
        XmlEvent::SelfClose(tag) => {
            if str_eq_str(tag.name.as_str(), "administrativeGenderCode") {
                if seen_gender {
                    return Err(CcdaParseError::StructuralViolation);
                }
                match p_patient__admin_gender_code(tag) {
                    Ok(g) => p_patient(events, i + 1, true, g),
                    Err(e) => Err(e),
                }
            } else {
                p_patient(events, i + 1, seen_gender, gender)
            }
        },
        XmlEvent::Text | XmlEvent::CData | XmlEvent::Comment | XmlEvent::PI => p_patient(
            events,
            i + 1,
            seen_gender,
            gender,
        ),
        XmlEvent::Decl | XmlEvent::DocType => Err(CcdaParseError::StructuralViolation),
    }
}

/// The patient a `patientRole` scan yields once its close tag is reached:
/// identifier parts, telecom contacts and gender as accumulated; every field
/// the modeled subset does not fill stays empty.
#[allow(non_snake_case)]
pub open spec fn spec_role_patient(
    id_root: Option<Seq<char>>,
    id_extension: Option<Seq<char>>,
    telecontacts: Seq<TeleContactPointV>,
    administrativeGender: Option<AdministrativeGender>,
) -> PatientV {
    PatientV {
        id_root,
        id_extension,
        given_names: Seq::empty(),
        family_name: None,
        suffix: None,
        administrativeGender,
        birth_sex: None,
        birth_time: None,
        race: None,
        ethnicity: None,
        language: None,
        telecontacts,
        address: None,
    }
}

/// What the `patientRole` element yields, scanning its children from `i`
/// with what was already accumulated: one patient. `id` is required exactly
/// once and `patient` at most once; `telecom` may repeat; every other child
/// element is skipped or, when self-closing, ignored.
pub open spec fn spec_patient_role(
    evs: Seq<XmlEvent>,
    i: int,
    seen_id: bool,
    id_root: Option<Seq<char>>,
    id_extension: Option<Seq<char>>,
    telecontacts: Seq<TeleContactPointV>,
    seen_patient: bool,
    gender: Option<AdministrativeGender>,
) -> Result<(PatientV, int), CcdaParseError>
    decreases evs.len() - i,
    via spec_patient_role_dec
{
    if i < 0 || i >= evs.len() {
        Err(CcdaParseError::SyntaxError)
    } else {
        match evs[i] {
            XmlEvent::Close(_) => if seen_id {
                Ok((spec_role_patient(id_root, id_extension, telecontacts, gender), i + 1))
            } else {
                Err(CcdaParseError::StructuralViolation)
            },
            XmlEvent::Eof => Err(CcdaParseError::SyntaxError),
            XmlEvent::Open(tag) => if tag.name@ == "patient"@ {
                if seen_patient {
                    Err(CcdaParseError::StructuralViolation)
                } else {
                    match spec_patient(evs, i + 1, false, None) {
                        Ok(v) => spec_patient_role(
                            evs,
                            v.1,
                            seen_id,
                            id_root,
                            id_extension,
                            telecontacts,
                            true,
                            v.0,
                        ),
                        Err(e) => Err(e),
                    }
                }
            } else {
                match spec_skip(evs, i + 1, 1, tag.name@) {
                    Ok(j) => spec_patient_role(
                        evs,
                        j,
                        seen_id,
                        id_root,
                        id_extension,
                        telecontacts,
                        seen_patient,
                        gender,
                    ),
                    Err(e) => Err(e),
                }
            },
            XmlEvent::SelfClose(tag) => if tag.name@ == "id"@ {
                if seen_id {
                    Err(CcdaParseError::StructuralViolation)
                } else {
                    match spec_id_attrs(tag.attrs@, 0, None, None) {
                        Ok(v) => spec_patient_role(
                            evs,
                            i + 1,
                            true,
                            v.0,
                            v.1,
                            telecontacts,
                            seen_patient,
                            gender,
                        ),
                        Err(e) => Err(e),
                    }
                }
            } else if tag.name@ == "telecom"@ {
                match spec_telecom_attrs(tag.attrs@, 0, None, None, None) {
                    Ok(t) => spec_patient_role(
                        evs,
                        i + 1,
                        seen_id,
                        id_root,
                        id_extension,
                        telecontacts.push(t),
                        seen_patient,
                        gender,
                    ),
                    Err(e) => Err(e),
                }
            } else {
                spec_patient_role(
                    evs,
                    i + 1,
                    seen_id,
                    id_root,
                    id_extension,
                    telecontacts,
                    seen_patient,
                    gender,
                )
            },
            XmlEvent::Text | XmlEvent::CData | XmlEvent::Comment | XmlEvent::PI
                => spec_patient_role(
                evs,
                i + 1,
                seen_id,
                id_root,
                id_extension,
                telecontacts,
                seen_patient,
                gender,
            ),
            XmlEvent::Decl | XmlEvent::DocType => Err(CcdaParseError::StructuralViolation),
        }
    }
}

#[via_fn]
proof fn spec_patient_role_dec(
    evs: Seq<XmlEvent>,
    i: int,
    seen_id: bool,
    id_root: Option<Seq<char>>,
    id_extension: Option<Seq<char>>,
    telecontacts: Seq<TeleContactPointV>,
    seen_patient: bool,
    gender: Option<AdministrativeGender>,
) {
    if 0 <= i < evs.len() {
        if let XmlEvent::Open(tag) = evs[i] {
            if tag.name@ == "patient"@ {
                lemma_patient_advances(evs, i + 1, false, None);
            } else {
                lemma_skip_advances(evs, i + 1, 1, tag.name@);
            }
        }
    }
}

/// Scanning a `patientRole` element always consumes at least one event and
/// never passes the end.
pub proof fn lemma_patient_role_advances(
    evs: Seq<XmlEvent>,
    i: int,
    seen_id: bool,
    id_root: Option<Seq<char>>,
    id_extension: Option<Seq<char>>,
    telecontacts: Seq<TeleContactPointV>,
    seen_patient: bool,
    gender: Option<AdministrativeGender>,
)
    ensures
        spec_patient_role(
            evs,
            i,
            seen_id,
            id_root,
            id_extension,
            telecontacts,
            seen_patient,
            gender,
        ) matches Ok(v) ==> i < v.1 <= evs.len(),
    decreases evs.len() - i,
{
    if 0 <= i < evs.len() {
        match evs[i] {
            XmlEvent::Open(tag) => if tag.name@ == "patient"@ {
                if !seen_patient {
                    lemma_patient_advances(evs, i + 1, false, None);
                    if let Ok(v) = spec_patient(evs, i + 1, false, None) {
                        lemma_patient_role_advances(
                            evs,
                            v.1,
                            seen_id,
                            id_root,
                            id_extension,
                            telecontacts,
                            true,
                            v.0,
                        );
                    }
                }
            } else {
                lemma_skip_advances(evs, i + 1, 1, tag.name@);
                if let Ok(j) = spec_skip(evs, i + 1, 1, tag.name@) {
                    lemma_patient_role_advances(
                        evs,
                        j,
                        seen_id,
                        id_root,
                        id_extension,
                        telecontacts,
                        seen_patient,
                        gender,
                    );
                }
            },
            XmlEvent::SelfClose(tag) => if tag.name@ == "id"@ {
                if !seen_id {
                    if let Ok(v) = spec_id_attrs(tag.attrs@, 0, None, None) {
                        lemma_patient_role_advances(
                            evs,
                            i + 1,
                            true,
                            v.0,
                            v.1,
                            telecontacts,
                            seen_patient,
                            gender,
                        );
                    }
                }
            } else if tag.name@ == "telecom"@ {
                if let Ok(t) = spec_telecom_attrs(tag.attrs@, 0, None, None, None) {
                    lemma_patient_role_advances(
                        evs,
                        i + 1,
                        seen_id,
                        id_root,
                        id_extension,
                        telecontacts.push(t),
                        seen_patient,
                        gender,
                    );
                }
            } else {
                lemma_patient_role_advances(
                    evs,
                    i + 1,
                    seen_id,
                    id_root,
                    id_extension,
                    telecontacts,
                    seen_patient,
                    gender,
                );
            },
            XmlEvent::Text | XmlEvent::CData | XmlEvent::Comment | XmlEvent::PI => {
                lemma_patient_role_advances(
                    evs,
                    i + 1,
                    seen_id,
                    id_root,
                    id_extension,
                    telecontacts,
                    seen_patient,
                    gender,
                );
            },
            _ => {},
        }
    }
}

/// Lifts an executable `patientRole` result to its model.
pub open spec fn lift_patient_pos<'r>(r: PResult<(Patient<'r>, usize)>) -> Result<
    (PatientV, int),
    CcdaParseError,
> {
    match r {
        Ok(v) => Ok((v.0@, v.1 as int)),
        Err(e) => Err(e),
    }
}

/// Consumes the children of one `patientRole` element, whose open tag was
/// just consumed, and its close tag; yields the assembled patient.
fn p_patient_role<'r>(
    arena: &'r bumpalo::Bump,
    events: &Vec<XmlEvent>,
    i: usize,
    seen_id: bool,
    id_root: Option<&'r str>,
    id_extension: Option<&'r str>,
    telecontacts: Vec<TeleContactPoint<'r>>,
    seen_patient: bool,
    gender: Option<AdministrativeGender>,
) -> (r: PResult<(Patient<'r>, usize)>)
    requires
        1 <= i <= events@.len(),
    ensures
        lift_patient_pos(r) == spec_patient_role(
            events@,
            i as int,
            seen_id,
            id_root.deep_view(),
            id_extension.deep_view(),
            telecontacts.deep_view(),
            seen_patient,
            gender,
        ),
    decreases events@.len() - i,
{
    let n = events.len();
    if i >= n {
        return Err(CcdaParseError::SyntaxError);
    }
    match &events[i] {
        XmlEvent::Close(_) => {
            if seen_id {
                let patient = Patient {
                    id_root,
                    id_extension,
                    given_names: Vec::new(),
                    family_name: None,
                    suffix: None,
                    administrativeGender: gender,
                    birth_sex: None,
                    birth_time: None,
                    race: None,
                    ethnicity: None,
                    language: None,
                    telecontacts,
                    address: None,
                };
                proof {
                    assert(patient@.given_names =~= Seq::<Seq<char>>::empty());
                }
                Ok((patient, i + 1))
            } else {
                Err(CcdaParseError::StructuralViolation)
            }
        },
        XmlEvent::Eof => Err(CcdaParseError::SyntaxError),
        XmlEvent::Open(tag) => {
            if str_eq_str(tag.name.as_str(), "patient") {
                if seen_patient {
                    return Err(CcdaParseError::StructuralViolation);
                }
                match p_patient(events, i + 1, false, None) {
                    Ok((g, j)) => {
                        proof {
                            lemma_patient_advances(events@, i as int + 1, false, None);
                        }
                        p_patient_role(
                            arena,
                            events,
                            j,
                            seen_id,
                            id_root,
                            id_extension,
                            telecontacts,
                            true,
                            g,
                        )
                    },
                    Err(e) => Err(e),
                }
            } else {
                match skip_rec(events, i + 1, 1, &tag.name) {
                    Ok(j) => {
                        proof {
                            lemma_skip_advances(events@, i as int + 1, 1, tag.name@);
                        }
                        p_patient_role(
                            arena,
                            events,
                            j,
                            seen_id,
                            id_root,
                            id_extension,
                            telecontacts,
                            seen_patient,
                            gender,
                        )
                    },
                    Err(e) => Err(e),
                }
            }
        },
        XmlEvent::SelfClose(tag) => {
            if str_eq_str(tag.name.as_str(), "id") {
                if seen_id {
                    return Err(CcdaParseError::StructuralViolation);
                }
                match p_patient_role__id(arena, tag) {
                    Ok((root, ext)) => p_patient_role(
                        arena,
                        events,
                        i + 1,
                        true,
                        root,
                        ext,
                        telecontacts,
                        seen_patient,
                        gender,
                    ),
                    Err(e) => Err(e),
                }
            } else if str_eq_str(tag.name.as_str(), "telecom") {
                match p_patient_role__telecom(arena, tag) {
                    Ok(t) => {
                        let ghost tv = t@;
                        let ghost old_teles = telecontacts.deep_view();
                        let mut telecontacts = telecontacts;
                        telecontacts.push(t);
                        proof {
                            assert(telecontacts.deep_view() =~= old_teles.push(tv));
                        }
                        p_patient_role(
                            arena,
                            events,
                            i + 1,
                            seen_id,
                            id_root,
                            id_extension,
                            telecontacts,
                            seen_patient,
                            gender,
                        )
                    },
                    Err(e) => Err(e),
                }
            } else {
                p_patient_role(
                    arena,
                    events,
                    i + 1,
                    seen_id,
                    id_root,
                    id_extension,
                    telecontacts,
                    seen_patient,
                    gender,
                )
            }
        },
        XmlEvent::Text | XmlEvent::CData | XmlEvent::Comment | XmlEvent::PI => p_patient_role(
            arena,
            events,
            i + 1,
            seen_id,
            id_root,
            id_extension,
            telecontacts,
            seen_patient,
            gender,
        ),
        XmlEvent::Decl | XmlEvent::DocType => Err(CcdaParseError::StructuralViolation),
    }
}

/// What the `recordTarget` element yields, scanning its children from `i`:
/// exactly one `patientRole` patient. A second `patientRole`, or none by the
/// close tag, is a structural violation; other child elements are skipped
/// or, when self-closing, ignored.
pub open spec fn spec_record_target(evs: Seq<XmlEvent>, i: int, found: Option<PatientV>) -> Result<
    (PatientV, int),
    CcdaParseError,
>
    decreases evs.len() - i,
    via spec_record_target_dec
{
    if i < 0 || i >= evs.len() {
        Err(CcdaParseError::SyntaxError)
    } else {
        match evs[i] {
            XmlEvent::Close(_) => match found {
                Some(p) => Ok((p, i + 1)),
                None => Err(CcdaParseError::StructuralViolation),
            },
            XmlEvent::Eof => Err(CcdaParseError::SyntaxError),
            XmlEvent::Open(tag) => if tag.name@ == "patientRole"@ {
                if found is Some {
                    Err(CcdaParseError::StructuralViolation)
                } else {
                    match spec_patient_role(evs, i + 1, false, None, None, Seq::empty(), false,
                        None) {
                        Ok(v) => spec_record_target(evs, v.1, Some(v.0)),
                        Err(e) => Err(e),
                    }
                }
            } else {
                match spec_skip(evs, i + 1, 1, tag.name@) {
                    Ok(j) => spec_record_target(evs, j, found),
                    Err(e) => Err(e),
                }
            },
            XmlEvent::SelfClose(tag) => if tag.name@ == "patientRole"@ {
                // an empty patientRole necessarily lacks its required id
                Err(CcdaParseError::StructuralViolation)
            } else {
                spec_record_target(evs, i + 1, found)
            },
            XmlEvent::Text | XmlEvent::CData | XmlEvent::Comment | XmlEvent::PI
                => spec_record_target(evs, i + 1, found),
            XmlEvent::Decl | XmlEvent::DocType => Err(CcdaParseError::StructuralViolation),
        }
    }
}

#[via_fn]
proof fn spec_record_target_dec(evs: Seq<XmlEvent>, i: int, found: Option<PatientV>) {
    if 0 <= i < evs.len() {
        if let XmlEvent::Open(tag) = evs[i] {
            if tag.name@ == "patientRole"@ {
                lemma_patient_role_advances(evs, i + 1, false, None, None, Seq::empty(), false,
                    None);
            } else {
                lemma_skip_advances(evs, i + 1, 1, tag.name@);
            }
        }
    }
}

/// Scanning a `recordTarget` element always consumes at least one event and
/// never passes the end.
pub proof fn lemma_record_target_advances(evs: Seq<XmlEvent>, i: int, found: Option<PatientV>)
    ensures
        spec_record_target(evs, i, found) matches Ok(v) ==> i < v.1 <= evs.len(),
    decreases evs.len() - i,
{
    if 0 <= i < evs.len() {
        match evs[i] {
            XmlEvent::Open(tag) => if tag.name@ == "patientRole"@ {
                if found is None {
                    lemma_patient_role_advances(evs, i + 1, false, None, None, Seq::empty(),
                        false, None);
                    if let Ok(v) = spec_patient_role(evs, i + 1, false, None, None, Seq::empty(),
                        false, None) {
                        lemma_record_target_advances(evs, v.1, Some(v.0));
                    }
                }
            } else {
                lemma_skip_advances(evs, i + 1, 1, tag.name@);
                if let Ok(j) = spec_skip(evs, i + 1, 1, tag.name@) {
                    lemma_record_target_advances(evs, j, found);
                }
            },
            XmlEvent::SelfClose(tag) => if tag.name@ != "patientRole"@ {
                lemma_record_target_advances(evs, i + 1, found);
            },
            XmlEvent::Text | XmlEvent::CData | XmlEvent::Comment | XmlEvent::PI => {
                lemma_record_target_advances(evs, i + 1, found);
            },
            _ => {},
        }
    }
}

/// Consumes the children of one `recordTarget` element, whose open tag was
/// just consumed, and its close tag; yields its single patient.
fn p_record_target<'r>(
    arena: &'r bumpalo::Bump,
    events: &Vec<XmlEvent>,
    i: usize,
    found: Option<Patient<'r>>,
) -> (r: PResult<(Patient<'r>, usize)>)
    requires
        1 <= i <= events@.len(),
    ensures
        lift_patient_pos(r) == spec_record_target(events@, i as int, found.deep_view()),
    decreases events@.len() - i,
{
    let n = events.len();
    if i >= n {
        return Err(CcdaParseError::SyntaxError);
    }
    match &events[i] {
        XmlEvent::Close(_) => match found {
            Some(p) => Ok((p, i + 1)),
            None => Err(CcdaParseError::StructuralViolation),
        },
        XmlEvent::Eof => Err(CcdaParseError::SyntaxError),
        XmlEvent::Open(tag) => {
            if str_eq_str(tag.name.as_str(), "patientRole") {
                if found.is_some() {
                    return Err(CcdaParseError::StructuralViolation);
                }
                let no_teles: Vec<TeleContactPoint<'r>> = Vec::new();
                proof {
                    assert(no_teles.deep_view() =~= Seq::<TeleContactPointV>::empty());
                }
                match p_patient_role(arena, events, i + 1, false, None, None, no_teles, false,
                    None) {
                    Ok((p, j)) => {
                        proof {
                            lemma_patient_role_advances(events@, i as int + 1, false, None, None,
                                Seq::empty(), false, None);
                        }
                        p_record_target(arena, events, j, Some(p))
                    },
                    Err(e) => Err(e),
                }
            } else {
                match skip_rec(events, i + 1, 1, &tag.name) {
                    Ok(j) => {
                        proof {
                            lemma_skip_advances(events@, i as int + 1, 1, tag.name@);
                        }
                        p_record_target(arena, events, j, found)
                    },
                    Err(e) => Err(e),
                }
            }
        },
        XmlEvent::SelfClose(tag) => {
            if str_eq_str(tag.name.as_str(), "patientRole") {
                Err(CcdaParseError::StructuralViolation)
            } else {
                p_record_target(arena, events, i + 1, found)
            }
        },
        XmlEvent::Text | XmlEvent::CData | XmlEvent::Comment | XmlEvent::PI => p_record_target(
            arena,
            events,
            i + 1,
            found,
        ),
        XmlEvent::Decl | XmlEvent::DocType => Err(CcdaParseError::StructuralViolation),
    }
}

/// What the `ClinicalDocument` element yields, scanning its children from
/// `i` with the record targets already gathered: its record targets, in
/// document order. A `recordTarget` open tag may carry no attributes; zero
/// record targets by the close tag is a structural violation; other child
/// elements are skipped or, when self-closing, ignored.
pub open spec fn spec_clinical_document(
    evs: Seq<XmlEvent>,
    i: int,
    targets: Seq<PatientV>,
) -> Result<(Seq<PatientV>, int), CcdaParseError>
    decreases evs.len() - i,
    via spec_clinical_document_dec
{
    if i < 0 || i >= evs.len() {
        Err(CcdaParseError::SyntaxError)
    } else {
        match evs[i] {
            XmlEvent::Close(_) => if targets.len() == 0 {
                // the standard does not allow a document without targets
                Err(CcdaParseError::StructuralViolation)
            } else {
                Ok((targets, i + 1))
            },
            XmlEvent::Eof => Err(CcdaParseError::SyntaxError),
            XmlEvent::Open(tag) => if tag.name@ == "recordTarget"@ {
                if tag.attrs@.len() != 0 {
                    Err(CcdaParseError::StructuralViolation)
                } else {
                    match spec_record_target(evs, i + 1, None) {
                        Ok(v) => spec_clinical_document(evs, v.1, targets.push(v.0)),
                        Err(e) => Err(e),
                    }
                }
            } else {
                match spec_skip(evs, i + 1, 1, tag.name@) {
                    Ok(j) => spec_clinical_document(evs, j, targets),
                    Err(e) => Err(e),
                }
            },
            XmlEvent::SelfClose(tag) => if tag.name@ == "recordTarget"@ {
                // an empty recordTarget necessarily lacks its required patientRole
                Err(CcdaParseError::StructuralViolation)
            } else {
                spec_clinical_document(evs, i + 1, targets)
            },
            XmlEvent::Text | XmlEvent::CData | XmlEvent::Comment | XmlEvent::PI
                => spec_clinical_document(evs, i + 1, targets),
            XmlEvent::Decl | XmlEvent::DocType => Err(CcdaParseError::StructuralViolation),
        }
    }
}

#[via_fn]
proof fn spec_clinical_document_dec(evs: Seq<XmlEvent>, i: int, targets: Seq<PatientV>) {
    if 0 <= i < evs.len() {
        if let XmlEvent::Open(tag) = evs[i] {
            if tag.name@ == "recordTarget"@ {
                lemma_record_target_advances(evs, i + 1, None);
            } else {
                lemma_skip_advances(evs, i + 1, 1, tag.name@);
            }
        }
    }
}

/// Scanning a `ClinicalDocument` element always consumes at least one event
/// and never passes the end.
pub proof fn lemma_clinical_document_advances(evs: Seq<XmlEvent>, i: int, targets: Seq<PatientV>)
    ensures
        spec_clinical_document(evs, i, targets) matches Ok(v) ==> i < v.1 <= evs.len(),
    decreases evs.len() - i,
{
    if 0 <= i < evs.len() {
        match evs[i] {
            XmlEvent::Open(tag) => if tag.name@ == "recordTarget"@ {
                if tag.attrs@.len() == 0 {
                    lemma_record_target_advances(evs, i + 1, None);
                    if let Ok(v) = spec_record_target(evs, i + 1, None) {
                        lemma_clinical_document_advances(evs, v.1, targets.push(v.0));
                    }
                }
            } else {
                lemma_skip_advances(evs, i + 1, 1, tag.name@);
                if let Ok(j) = spec_skip(evs, i + 1, 1, tag.name@) {
                    lemma_clinical_document_advances(evs, j, targets);
                }
            },
            XmlEvent::SelfClose(tag) => if tag.name@ != "recordTarget"@ {
                lemma_clinical_document_advances(evs, i + 1, targets);
            },
            XmlEvent::Text | XmlEvent::CData | XmlEvent::Comment | XmlEvent::PI => {
                lemma_clinical_document_advances(evs, i + 1, targets);
            },
            _ => {},
        }
    }
}

/// A document never parses to zero record targets: whatever was gathered so
/// far, a successful `ClinicalDocument` scan yields at least one, and at
/// least as many as were already gathered.
pub proof fn lemma_clinical_document_nonempty(evs: Seq<XmlEvent>, i: int, targets: Seq<PatientV>)
    ensures
        spec_clinical_document(evs, i, targets) matches Ok(v) ==> v.0.len() >= 1 && v.0.len()
            >= targets.len(),
    decreases evs.len() - i,
{
    if 0 <= i < evs.len() {
        match evs[i] {
            XmlEvent::Open(tag) => if tag.name@ == "recordTarget"@ {
                if tag.attrs@.len() == 0 {
                    lemma_record_target_advances(evs, i + 1, None);
                    if let Ok(v) = spec_record_target(evs, i + 1, None) {
                        lemma_clinical_document_nonempty(evs, v.1, targets.push(v.0));
                    }
                }
            } else {
                lemma_skip_advances(evs, i + 1, 1, tag.name@);
                if let Ok(j) = spec_skip(evs, i + 1, 1, tag.name@) {
                    lemma_clinical_document_nonempty(evs, j, targets);
                }
            },
            XmlEvent::SelfClose(tag) => if tag.name@ != "recordTarget"@ {
                lemma_clinical_document_nonempty(evs, i + 1, targets);
            },
            XmlEvent::Text | XmlEvent::CData | XmlEvent::Comment | XmlEvent::PI => {
                lemma_clinical_document_nonempty(evs, i + 1, targets);
            },
            _ => {},
        }
    }
}

/// Lifts an executable `ClinicalDocument` scan result to its model.
pub open spec fn lift_targets_pos<'r>(r: PResult<(Vec<Patient<'r>>, usize)>) -> Result<
    (Seq<PatientV>, int),
    CcdaParseError,
> {
    match r {
        Ok(v) => Ok((v.0.deep_view(), v.1 as int)),
        Err(e) => Err(e),
    }
}

/// Consumes the children of one `ClinicalDocument` element, whose open tag
/// was just consumed, and its close tag; yields the record targets.
fn p_clinical_document<'r>(
    arena: &'r bumpalo::Bump,
    events: &Vec<XmlEvent>,
    i: usize,
    targets: Vec<Patient<'r>>,
) -> (r: PResult<(Vec<Patient<'r>>, usize)>)
    requires
        1 <= i <= events@.len(),
    ensures
        lift_targets_pos(r) == spec_clinical_document(events@, i as int, targets.deep_view()),
    decreases events@.len() - i,
{
    let n = events.len();
    if i >= n {
        return Err(CcdaParseError::SyntaxError);
    }
    match &events[i] {
        XmlEvent::Close(_) => {
            if targets.len() == 0 {
                Err(CcdaParseError::StructuralViolation)
            } else {
                Ok((targets, i + 1))
            }
        },
        XmlEvent::Eof => Err(CcdaParseError::SyntaxError),
        XmlEvent::Open(tag) => {
            if str_eq_str(tag.name.as_str(), "recordTarget") {
                if tag.attrs.len() != 0 {
                    return Err(CcdaParseError::StructuralViolation);
                }
                match p_record_target(arena, events, i + 1, None) {
                    Ok((p, j)) => {
                        let ghost pv = p@;
                        let ghost old_targets = targets.deep_view();
                        let mut targets = targets;
                        targets.push(p);
                        proof {
                            assert(targets.deep_view() =~= old_targets.push(pv));
                            lemma_record_target_advances(events@, i as int + 1, None);
                        }
                        p_clinical_document(arena, events, j, targets)
                    },
                    Err(e) => Err(e),
                }
            } else {
                match skip_rec(events, i + 1, 1, &tag.name) {
                    Ok(j) => {
                        proof {
                            lemma_skip_advances(events@, i as int + 1, 1, tag.name@);
                        }
                        p_clinical_document(arena, events, j, targets)
                    },
                    Err(e) => Err(e),
                }
            }
        },
        XmlEvent::SelfClose(tag) => {
            if str_eq_str(tag.name.as_str(), "recordTarget") {
                Err(CcdaParseError::StructuralViolation)
            } else {
                p_clinical_document(arena, events, i + 1, targets)
            }
        },
        XmlEvent::Text | XmlEvent::CData | XmlEvent::Comment | XmlEvent::PI => p_clinical_document(
            arena,
            events,
            i + 1,
            targets,
        ),
        XmlEvent::Decl | XmlEvent::DocType => Err(CcdaParseError::StructuralViolation),
    }
}

/// What the whole event stream yields, scanning top-level events from `i`.
/// Declarations, text, comments and processing instructions are legal and
/// carry nothing; the one element open tag must be `ClinicalDocument`, and
/// a second one is as fatal as none at all. The scan stops at end of input
/// or at a stray close tag.
pub open spec fn spec_top_level(
    evs: Seq<XmlEvent>,
    i: int,
    doc: Option<ClinicalDocumentV>,
) -> Result<ClinicalDocumentV, CcdaParseError>
    decreases evs.len() - i,
    via spec_top_level_dec
{
    if i < 0 || i >= evs.len() {
        Err(CcdaParseError::SyntaxError)
    } else {
        match evs[i] {
            XmlEvent::Eof | XmlEvent::Close(_) => match doc {
                Some(d) => Ok(d),
                None => Err(CcdaParseError::StructuralViolation),
            },
            XmlEvent::Open(tag) => if tag.name@ == "ClinicalDocument"@ {
                if doc is Some {
                    Err(CcdaParseError::StructuralViolation)
                } else {
                    match spec_clinical_document(evs, i + 1, Seq::empty()) {
                        Ok(v) => spec_top_level(
                            evs,
                            v.1,
                            Some(ClinicalDocumentV { record_targets: v.0 }),
                        ),
                        Err(e) => Err(e),
                    }
                }
            } else {
                Err(CcdaParseError::StructuralViolation)
            },
            XmlEvent::SelfClose(_) => Err(CcdaParseError::StructuralViolation),
            XmlEvent::Text | XmlEvent::Comment | XmlEvent::Decl | XmlEvent::PI => spec_top_level(
                evs,
                i + 1,
                doc,
            ),
            XmlEvent::CData | XmlEvent::DocType => Err(CcdaParseError::StructuralViolation),
        }
    }
}

#[via_fn]
proof fn spec_top_level_dec(evs: Seq<XmlEvent>, i: int, doc: Option<ClinicalDocumentV>) {
    if 0 <= i < evs.len() {
        if let XmlEvent::Open(tag) = evs[i] {
            if tag.name@ == "ClinicalDocument"@ {
                lemma_clinical_document_advances(evs, i + 1, Seq::empty());
            }
        }
    }
}

/// What parsing a whole event stream yields: the single `ClinicalDocument`.
pub open spec fn spec_parse(evs: Seq<XmlEvent>) -> Result<ClinicalDocumentV, CcdaParseError> {
    spec_top_level(evs, 0, None)
}

/// A successful top-level scan never yields a document with zero record
/// targets, provided the document carried in, if any, has at least one.
pub proof fn lemma_top_level_nonempty(evs: Seq<XmlEvent>, i: int, doc: Option<ClinicalDocumentV>)
    requires
        doc matches Some(d) ==> d.record_targets.len() >= 1,
    ensures
        spec_top_level(evs, i, doc) matches Ok(out) ==> out.record_targets.len() >= 1,
    decreases evs.len() - i,
{
    if 0 <= i < evs.len() {
        match evs[i] {
            XmlEvent::Open(tag) => if tag.name@ == "ClinicalDocument"@ {
                if doc is None {
                    lemma_clinical_document_nonempty(evs, i + 1, Seq::empty());
                    lemma_clinical_document_advances(evs, i + 1, Seq::empty());
                    if let Ok(v) = spec_clinical_document(evs, i + 1, Seq::empty()) {
                        lemma_top_level_nonempty(
                            evs,
                            v.1,
                            Some(ClinicalDocumentV { record_targets: v.0 }),
                        );
                    }
                }
            },
            XmlEvent::Text | XmlEvent::Comment | XmlEvent::Decl | XmlEvent::PI => {
                lemma_top_level_nonempty(evs, i + 1, doc);
            },
            _ => {},
        }
    }
}

/// Lifts an executable top-level result to its model.
pub open spec fn lift_doc<'r>(r: PResult<ClinicalDocument<'r>>) -> Result<
    ClinicalDocumentV,
    CcdaParseError,
> {
    match r {
        Ok(d) => Ok(d@),
        Err(e) => Err(e),
    }
}

/// Drives the grammar over the top-level events, starting from `i`.
fn p_top_level<'r>(
    arena: &'r bumpalo::Bump,
    events: &Vec<XmlEvent>,
    i: usize,
    doc: Option<ClinicalDocument<'r>>,
) -> (r: PResult<ClinicalDocument<'r>>)
    requires
        i <= events@.len(),
    ensures
        lift_doc(r) == spec_top_level(events@, i as int, doc.deep_view()),
    decreases events@.len() - i,
{
    let n = events.len();
    if i >= n {
        return Err(CcdaParseError::SyntaxError);
    }
    match &events[i] {
        XmlEvent::Eof | XmlEvent::Close(_) => match doc {
            Some(d) => Ok(d),
            None => Err(CcdaParseError::StructuralViolation),
        },
        XmlEvent::Open(tag) => {
            if str_eq_str(tag.name.as_str(), "ClinicalDocument") {
                if doc.is_some() {
                    return Err(CcdaParseError::StructuralViolation);
                }
                let no_targets: Vec<Patient<'r>> = Vec::new();
                proof {
                    assert(no_targets.deep_view() =~= Seq::<PatientV>::empty());
                }
                match p_clinical_document(arena, events, i + 1, no_targets) {
                    Ok((targets, j)) => {
                        proof {
                            lemma_clinical_document_advances(events@, i as int + 1, Seq::empty());
                        }
                        p_top_level(arena, events, j, Some(ClinicalDocument { record_targets: targets }))
                    },
                    Err(e) => Err(e),
                }
            } else {
                Err(CcdaParseError::StructuralViolation)
            }
        },
        XmlEvent::SelfClose(_) => Err(CcdaParseError::StructuralViolation),
        XmlEvent::Text | XmlEvent::Comment | XmlEvent::Decl | XmlEvent::PI => p_top_level(
            arena,
            events,
            i + 1,
            doc,
        ),
        XmlEvent::CData | XmlEvent::DocType => Err(CcdaParseError::StructuralViolation),
    }
}

/// Lifts an executable parse result to its model.
pub open spec fn lift_top<'r>(r: PResult<CcdaTopLevel<'r>>) -> Result<
    ClinicalDocumentV,
    CcdaParseError,
> {
    match r {
        Ok(t) => Ok(t.doc@),
        Err(e) => Err(e),
    }
}

/// Parses a stream of XML events into a clinical document backed by the
/// given arena: exactly what `spec_parse` says of the stream; on success
/// the document has at least one record target and is paired with the very
/// arena passed in.
pub fn parse_events<'r>(events: &Vec<XmlEvent>, arena: &'r bumpalo::Bump) -> (r: PResult<
    CcdaTopLevel<'r>,
>)
    ensures
        lift_top(r) == spec_parse(events@),
        r matches Ok(t) ==> t.doc@.record_targets.len() >= 1,
        r matches Ok(t) ==> t.data == arena,
{
    proof {
        lemma_top_level_nonempty(events@, 0, None);
    }
    match p_top_level(arena, events, 0, None) {
        Ok(doc) => Ok(CcdaTopLevel { doc, data: arena }),
        Err(e) => Err(e),
    }
}

/// Parses one complete C-CDA source text into a clinical document bundled
/// with the arena that owns its strings: exactly what `spec_parse` says of
/// the tokenized source — `events_of`, the one event stream quick_xml reads
/// out of this text — with tokenizer failures surfacing as syntax errors.
/// On success the document holds at least one record target and is paired
/// with the very arena passed in; on failure no partial document is
/// exposed.
pub fn parse<'r>(src: &str, arena: &'r bumpalo::Bump) -> (r: PResult<CcdaTopLevel<'r>>)
    ensures
        lift_top(r) == match events_of(src@) {
            Ok(evs) => spec_parse(evs),
            Err(_) => Err(CcdaParseError::SyntaxError),
        },
        r matches Ok(t) ==> t.doc@.record_targets.len() >= 1,
        r matches Ok(t) ==> t.data == arena,
{
    match tokenize(src) {
        Err(_) => Err(CcdaParseError::SyntaxError),
        Ok(events) => parse_events(&events, arena),
    }
}

} // verus!
