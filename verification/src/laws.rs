//! Document-level laws of the C-CDA grammar, proved against the grammar's
//! spec functions. Each law quantifies over all inputs of its shape; the
//! concrete scenarios live in the test suite.

use vstd::prelude::*;

use crate::ccda::AdministrativeGender;
use crate::ccda::CcdaParseError;
use crate::ccda::ClinicalDocumentV;
use crate::ccda::PatientV;
use crate::ccda::TeleContactPointV;
use crate::ccda::lemma_skip_advances;
use crate::ccda::spec_skip;
use crate::ccda::spec_clinical_document;
use crate::ccda::spec_id_attrs;
use crate::ccda::spec_parse;
use crate::ccda::spec_patient_role;
use crate::ccda::spec_record_target;
use crate::ccda::spec_role_patient;
use crate::ccda::spec_telecom_attrs;
use crate::ccda::spec_top_level;
use crate::ccda::telecom_payload_of;
use crate::xml::XmlEvent;
use crate::xml::XmlTag;

verus! {

// ---------------------------------------------------------------------------
// Ignorable regions: stretches of events that a scan passes over without
// changing what it has gathered. They let the laws below quantify over
// documents with arbitrary unrecognized content — text-like events,
// ignored self-closing elements, and whole skipped subtrees, nested to any
// depth — wherever the grammar tolerates it.
// ---------------------------------------------------------------------------

/// Events of `[k, m)` that the top-level scan passes over: declarations,
/// text, comments and processing instructions.
pub open spec fn ignorable_at_top_level(evs: Seq<XmlEvent>, k: int, m: int) -> bool
    decreases m - k,
{
    if k >= m {
        k == m
    } else {
        match evs[k] {
            XmlEvent::Text | XmlEvent::Comment | XmlEvent::Decl | XmlEvent::PI
                => ignorable_at_top_level(evs, k + 1, m),
            _ => false,
        }
    }
}

/// Children of `[k, m)` that a `ClinicalDocument` scan passes over without
/// recording a target: text-like events, self-closing elements other than
/// `recordTarget`, and whole skipped subtrees of other elements.
pub open spec fn ignorable_in_clinical_document(evs: Seq<XmlEvent>, k: int, m: int) -> bool
    decreases m - k,
    via ignorable_in_clinical_document_dec
{
    if k >= m {
        k == m
    } else {
        match evs[k] {
            XmlEvent::Text | XmlEvent::CData | XmlEvent::Comment | XmlEvent::PI
                => ignorable_in_clinical_document(evs, k + 1, m),
            XmlEvent::SelfClose(tag) => tag.name@ != "recordTarget"@
                && ignorable_in_clinical_document(evs, k + 1, m),
            XmlEvent::Open(tag) => tag.name@ != "recordTarget"@ && match spec_skip(
                evs,
                k + 1,
                1,
                tag.name@,
            ) {
                Ok(j) => j <= m && ignorable_in_clinical_document(evs, j, m),
                Err(_) => false,
            },
            _ => false,
        }
    }
}

#[via_fn]
proof fn ignorable_in_clinical_document_dec(evs: Seq<XmlEvent>, k: int, m: int) {
    if k < m {
        if let XmlEvent::Open(tag) = evs[k] {
            lemma_skip_advances(evs, k + 1, 1, tag.name@);
        }
    }
}

/// Children of `[k, m)` that a `recordTarget` scan passes over without
/// finding a patient: text-like events, self-closing elements other than
/// `patientRole`, and whole skipped subtrees of other elements.
pub open spec fn ignorable_in_record_target(evs: Seq<XmlEvent>, k: int, m: int) -> bool
    decreases m - k,
    via ignorable_in_record_target_dec
{
    if k >= m {
        k == m
    } else {
        match evs[k] {
            XmlEvent::Text | XmlEvent::CData | XmlEvent::Comment | XmlEvent::PI
                => ignorable_in_record_target(evs, k + 1, m),
            XmlEvent::SelfClose(tag) => tag.name@ != "patientRole"@
                && ignorable_in_record_target(evs, k + 1, m),
            XmlEvent::Open(tag) => tag.name@ != "patientRole"@ && match spec_skip(
                evs,
                k + 1,
                1,
                tag.name@,
            ) {
                Ok(j) => j <= m && ignorable_in_record_target(evs, j, m),
                Err(_) => false,
            },
            _ => false,
        }
    }
}

#[via_fn]
proof fn ignorable_in_record_target_dec(evs: Seq<XmlEvent>, k: int, m: int) {
    if k < m {
        if let XmlEvent::Open(tag) = evs[k] {
            lemma_skip_advances(evs, k + 1, 1, tag.name@);
        }
    }
}

/// Children of `[k, m)` that a `patientRole` scan passes over without
/// touching the patient being assembled: text-like events, self-closing
/// elements other than `id` and `telecom`, and whole skipped subtrees of
/// elements other than `patient`.
pub open spec fn ignorable_in_patient_role(evs: Seq<XmlEvent>, k: int, m: int) -> bool
    decreases m - k,
    via ignorable_in_patient_role_dec
{
    if k >= m {
        k == m
    } else {
        match evs[k] {
            XmlEvent::Text | XmlEvent::CData | XmlEvent::Comment | XmlEvent::PI
                => ignorable_in_patient_role(evs, k + 1, m),
            XmlEvent::SelfClose(tag) => tag.name@ != "id"@ && tag.name@ != "telecom"@
                && ignorable_in_patient_role(evs, k + 1, m),
            XmlEvent::Open(tag) => tag.name@ != "patient"@ && match spec_skip(
                evs,
                k + 1,
                1,
                tag.name@,
            ) {
                Ok(j) => j <= m && ignorable_in_patient_role(evs, j, m),
                Err(_) => false,
            },
            _ => false,
        }
    }
}

#[via_fn]
proof fn ignorable_in_patient_role_dec(evs: Seq<XmlEvent>, k: int, m: int) {
    if k < m {
        if let XmlEvent::Open(tag) = evs[k] {
            lemma_skip_advances(evs, k + 1, 1, tag.name@);
        }
    }
}

/// The top-level scan is unchanged by an ignorable region: scanning from
/// its start equals scanning from its end.
pub proof fn lemma_top_level_ignores(
    evs: Seq<XmlEvent>,
    k: int,
    m: int,
    doc: Option<ClinicalDocumentV>,
)
    requires
        0 <= k,
        m <= evs.len(),
        ignorable_at_top_level(evs, k, m),
    ensures
        spec_top_level(evs, k, doc) == spec_top_level(evs, m, doc),
    decreases m - k,
{
    if k < m {
        lemma_top_level_ignores(evs, k + 1, m, doc);
    }
}

/// A `ClinicalDocument` scan is unchanged by an ignorable region.
pub proof fn lemma_clinical_document_ignores(
    evs: Seq<XmlEvent>,
    k: int,
    m: int,
    targets: Seq<PatientV>,
)
    requires
        0 <= k,
        m <= evs.len(),
        ignorable_in_clinical_document(evs, k, m),
    ensures
        spec_clinical_document(evs, k, targets) == spec_clinical_document(evs, m, targets),
    decreases m - k,
{
    if k < m {
        match evs[k] {
            XmlEvent::Open(tag) => {
                lemma_skip_advances(evs, k + 1, 1, tag.name@);
                if let Ok(j) = spec_skip(evs, k + 1, 1, tag.name@) {
                    lemma_clinical_document_ignores(evs, j, m, targets);
                }
            },
            _ => {
                lemma_clinical_document_ignores(evs, k + 1, m, targets);
            },
        }
    }
}

/// A `recordTarget` scan is unchanged by an ignorable region.
pub proof fn lemma_record_target_ignores(
    evs: Seq<XmlEvent>,
    k: int,
    m: int,
    found: Option<PatientV>,
)
    requires
        0 <= k,
        m <= evs.len(),
        ignorable_in_record_target(evs, k, m),
    ensures
        spec_record_target(evs, k, found) == spec_record_target(evs, m, found),
    decreases m - k,
{
    if k < m {
        match evs[k] {
            XmlEvent::Open(tag) => {
                lemma_skip_advances(evs, k + 1, 1, tag.name@);
                if let Ok(j) = spec_skip(evs, k + 1, 1, tag.name@) {
                    lemma_record_target_ignores(evs, j, m, found);
                }
            },
            _ => {
                lemma_record_target_ignores(evs, k + 1, m, found);
            },
        }
    }
}

/// A `patientRole` scan is unchanged by an ignorable region.
pub proof fn lemma_patient_role_ignores(
    evs: Seq<XmlEvent>,
    k: int,
    m: int,
    seen_id: bool,
    id_root: Option<Seq<char>>,
    id_extension: Option<Seq<char>>,
    telecontacts: Seq<TeleContactPointV>,
    seen_patient: bool,
    gender: Option<AdministrativeGender>,
)
    requires
        0 <= k,
        m <= evs.len(),
        ignorable_in_patient_role(evs, k, m),
    ensures
        spec_patient_role(evs, k, seen_id, id_root, id_extension, telecontacts, seen_patient,
            gender) == spec_patient_role(evs, m, seen_id, id_root, id_extension, telecontacts,
            seen_patient, gender),
    decreases m - k,
{
    if k < m {
        match evs[k] {
            XmlEvent::Open(tag) => {
                lemma_skip_advances(evs, k + 1, 1, tag.name@);
                if let Ok(j) = spec_skip(evs, k + 1, 1, tag.name@) {
                    lemma_patient_role_ignores(evs, j, m, seen_id, id_root, id_extension,
                        telecontacts, seen_patient, gender);
                }
            },
            _ => {
                lemma_patient_role_ignores(evs, k + 1, m, seen_id, id_root, id_extension,
                    telecontacts, seen_patient, gender);
            },
        }
    }
}

/// For every pair of identifier strings `r` and `e`: a document whose
/// single `ClinicalDocument` holds exactly one `recordTarget`, whose
/// single `patientRole` holds exactly one `id root=r extension=e`, parses
/// successfully to exactly one patient with `id_root == Some(r)`,
/// `id_extension == Some(e)` and all other fields empty — with arbitrary
/// ignorable content around every one of those elements (text-like events,
/// ignored self-closing elements, and skipped subtrees of any depth and
/// name), and whatever the close tags are named, since only skipping
/// inspects them. The element positions are `a` (`ClinicalDocument`), `b`
/// (`recordTarget`), `c` (`patientRole`), `d` (`id`); `f`, `g` and `h` are
/// their close tags and `t` ends the document.
pub proof fn lemma_single_record_target_id(
    evs: Seq<XmlEvent>,
    cd: XmlTag,
    rt: XmlTag,
    pr: XmlTag,
    id: XmlTag,
    r: Seq<char>,
    e: Seq<char>,
    a: int,
    b: int,
    c: int,
    d: int,
    f: int,
    g: int,
    h: int,
    t: int,
)
    requires
        t < evs.len(),
        ignorable_at_top_level(evs, 0, a),
        evs[a] == XmlEvent::Open(cd),
        cd.name@ == "ClinicalDocument"@,
        ignorable_in_clinical_document(evs, a + 1, b),
        evs[b] == XmlEvent::Open(rt),
        rt.name@ == "recordTarget"@,
        rt.attrs@.len() == 0,
        ignorable_in_record_target(evs, b + 1, c),
        evs[c] == XmlEvent::Open(pr),
        pr.name@ == "patientRole"@,
        ignorable_in_patient_role(evs, c + 1, d),
        evs[d] == XmlEvent::SelfClose(id),
        id.name@ == "id"@,
        id.attrs@.len() == 2,
        id.attrs@[0].key@ == "root"@,
        id.attrs@[0].value@ == r,
        id.attrs@[1].key@ == "extension"@,
        id.attrs@[1].value@ == e,
        ignorable_in_patient_role(evs, d + 1, f),
        evs[f] is Close,
        ignorable_in_record_target(evs, f + 1, g),
        evs[g] is Close,
        ignorable_in_clinical_document(evs, g + 1, h),
        evs[h] is Close,
        ignorable_at_top_level(evs, h + 1, t),
        evs[t] is Eof || evs[t] is Close,
    ensures
        spec_parse(evs) == Ok::<ClinicalDocumentV, CcdaParseError>(
            ClinicalDocumentV {
                record_targets: seq![
                    spec_role_patient(Some(r), Some(e), Seq::empty(), None),
                ],
            },
        ),
{
    reveal_strlit("root");
    reveal_strlit("extension");
    assert("extension"@.len() != "root"@.len());
    assert("extension"@ != "root"@);
    let ghost id_ok: Result<(Option<Seq<char>>, Option<Seq<char>>), CcdaParseError> = Ok(
        (Some(r), Some(e)),
    );
    assert(spec_id_attrs(id.attrs@, 2, Some(r), Some(e)) == id_ok);
    assert(spec_id_attrs(id.attrs@, 1, Some(r), None) == id_ok);
    assert(spec_id_attrs(id.attrs@, 0, None, None) == id_ok);
    let ghost p = spec_role_patient(Some(r), Some(e), Seq::empty(), None);
    let ghost p_ok: Result<(PatientV, int), CcdaParseError> = Ok((p, f + 1));
    lemma_patient_role_ignores(evs, d + 1, f, true, Some(r), Some(e), Seq::empty(), false, None);
    assert(spec_patient_role(evs, f, true, Some(r), Some(e), Seq::empty(), false, None) == p_ok);
    assert(spec_patient_role(evs, d, false, None, None, Seq::empty(), false, None) == p_ok);
    lemma_patient_role_ignores(evs, c + 1, d, false, None, None, Seq::empty(), false, None);
    assert(spec_patient_role(evs, c + 1, false, None, None, Seq::empty(), false, None) == p_ok);
    let ghost rt_ok: Result<(PatientV, int), CcdaParseError> = Ok((p, g + 1));
    lemma_record_target_ignores(evs, f + 1, g, Some(p));
    assert(spec_record_target(evs, g, Some(p)) == rt_ok);
    assert(spec_record_target(evs, c, None) == rt_ok);
    lemma_record_target_ignores(evs, b + 1, c, None);
    assert(spec_record_target(evs, b + 1, None) == rt_ok);
    let ghost targets = seq![p];
    assert(Seq::<PatientV>::empty().push(p) =~= targets);
    let ghost cd_ok: Result<(Seq<PatientV>, int), CcdaParseError> = Ok((targets, h + 1));
    lemma_clinical_document_ignores(evs, g + 1, h, targets);
    assert(spec_clinical_document(evs, h, targets) == cd_ok);
    assert(spec_clinical_document(evs, b, Seq::empty()) == cd_ok);
    lemma_clinical_document_ignores(evs, a + 1, b, Seq::empty());
    assert(spec_clinical_document(evs, a + 1, Seq::empty()) == cd_ok);
    let ghost doc = ClinicalDocumentV { record_targets: targets };
    let ghost top_ok: Result<ClinicalDocumentV, CcdaParseError> = Ok(doc);
    lemma_top_level_ignores(evs, h + 1, t, Some(doc));
    assert(spec_top_level(evs, t, Some(doc)) == top_ok);
    assert(spec_top_level(evs, a, None) == top_ok);
    lemma_top_level_ignores(evs, 0, a, None);
}

/// A `ClinicalDocument` holding zero `recordTarget` elements fails with a
/// structural violation — whatever else it holds: any mix of text-like
/// events, ignored self-closing elements, and skipped subtrees, nested
/// arbitrarily deep.
pub proof fn lemma_zero_record_targets(evs: Seq<XmlEvent>, cd: XmlTag, m: int)
    requires
        evs.len() >= 2,
        evs[0] == XmlEvent::Open(cd),
        cd.name@ == "ClinicalDocument"@,
        1 <= m < evs.len(),
        ignorable_in_clinical_document(evs, 1, m),
        evs[m] is Close,
    ensures
        spec_parse(evs) == Err::<ClinicalDocumentV, CcdaParseError>(
            CcdaParseError::StructuralViolation,
        ),
{
    lemma_clinical_document_ignores(evs, 1, m, Seq::empty());
}

/// A `patientRole` holding two `id` elements fails with a structural
/// violation, triggered on the second `id` — whatever attributes the second
/// one carries and whatever follows it.
pub proof fn lemma_duplicate_patient_id(
    evs: Seq<XmlEvent>,
    cd: XmlTag,
    rt: XmlTag,
    pr: XmlTag,
    id1: XmlTag,
    id2: XmlTag,
    r: Seq<char>,
    e: Seq<char>,
)
    requires
        evs.len() >= 5,
        evs[0] == XmlEvent::Open(cd),
        cd.name@ == "ClinicalDocument"@,
        evs[1] == XmlEvent::Open(rt),
        rt.name@ == "recordTarget"@,
        rt.attrs@.len() == 0,
        evs[2] == XmlEvent::Open(pr),
        pr.name@ == "patientRole"@,
        evs[3] == XmlEvent::SelfClose(id1),
        id1.name@ == "id"@,
        id1.attrs@.len() == 2,
        id1.attrs@[0].key@ == "root"@,
        id1.attrs@[0].value@ == r,
        id1.attrs@[1].key@ == "extension"@,
        id1.attrs@[1].value@ == e,
        evs[4] == XmlEvent::SelfClose(id2),
        id2.name@ == "id"@,
    ensures
        spec_parse(evs) == Err::<ClinicalDocumentV, CcdaParseError>(
            CcdaParseError::StructuralViolation,
        ),
{
    reveal_strlit("root");
    reveal_strlit("extension");
    assert("extension"@.len() != "root"@.len());
    assert("extension"@ != "root"@);
    let ghost id_ok: Result<(Option<Seq<char>>, Option<Seq<char>>), CcdaParseError> = Ok(
        (Some(r), Some(e)),
    );
    assert(spec_id_attrs(id1.attrs@, 2, Some(r), Some(e)) == id_ok);
    assert(spec_id_attrs(id1.attrs@, 1, Some(r), None) == id_ok);
    assert(spec_id_attrs(id1.attrs@, 0, None, None) == id_ok);
    let ghost violation = CcdaParseError::StructuralViolation;
    assert(spec_patient_role(evs, 4, true, Some(r), Some(e), Seq::empty(), false, None)
        == Err::<(PatientV, int), CcdaParseError>(violation));
    assert(spec_patient_role(evs, 3, false, None, None, Seq::empty(), false, None) == Err::<
        (PatientV, int),
        CcdaParseError,
    >(violation));
    assert(spec_record_target(evs, 2, None) == Err::<(PatientV, int), CcdaParseError>(violation));
    assert(spec_clinical_document(evs, 1, Seq::empty()) == Err::<
        (Seq<PatientV>, int),
        CcdaParseError,
    >(violation));
    assert(spec_top_level(evs, 0, None) == Err::<ClinicalDocumentV, CcdaParseError>(violation));
}

/// Every `id_root` or `id_extension` an `id` element yields comes verbatim
/// from a `root` or `extension` attribute of that element: the value is
/// equal, character for character, to the originating attribute value.
pub proof fn lemma_id_values_verbatim(
    attrs: Seq<crate::xml::XmlAttr>,
    i: int,
    root: Option<Seq<char>>,
    ext: Option<Seq<char>>,
)
    ensures
        spec_id_attrs(attrs, i, root, ext) matches Ok(v) ==> {
            &&& (v.0 matches Some(s) ==> root == Some(s) || exists|k: int|
                i <= k < attrs.len() && (#[trigger] attrs[k].key@) == "root"@ && attrs[k].value@
                    == s)
            &&& (v.1 matches Some(s) ==> ext == Some(s) || exists|k: int|
                i <= k < attrs.len() && (#[trigger] attrs[k].key@) == "extension"@
                    && attrs[k].value@ == s)
        },
    decreases attrs.len() - i,
{
    if 0 <= i < attrs.len() {
        if attrs[i].key@ == "root"@ {
            if root is None {
                lemma_id_values_verbatim(attrs, i + 1, Some(attrs[i].value@), ext);
            }
        } else if attrs[i].key@ == "extension"@ {
            if ext is None {
                lemma_id_values_verbatim(attrs, i + 1, root, Some(attrs[i].value@));
            }
        }
    }
}

/// Every telecom contact value a `telecom` element yields is the payload of
/// that element's `value` attribute: equal, character for character, to
/// what follows the first `:` of the originating attribute value.
pub proof fn lemma_telecom_value_verbatim(
    attrs: Seq<crate::xml::XmlAttr>,
    i: int,
    use_pt: Option<crate::ccda::ContactPointUse>,
    system: Option<crate::ccda::TelecomSystem>,
    value: Option<Seq<char>>,
)
    ensures
        spec_telecom_attrs(attrs, i, use_pt, system, value) matches Ok(t) ==> (value == Some(
            t.value,
        ) || exists|k: int|
            i <= k < attrs.len() && (#[trigger] attrs[k].key@) == "value"@ && t.value
                == telecom_payload_of(attrs[k].value@)),
    decreases attrs.len() - i,
{
    if 0 <= i < attrs.len() {
        if attrs[i].key@ == "use"@ {
            if use_pt is None {
                if let Some(u) = crate::ccda::decode_telecom_use(attrs[i].value@) {
                    lemma_telecom_value_verbatim(attrs, i + 1, Some(u), system, value);
                }
            }
        } else if attrs[i].key@ == "value"@ {
            if value is None && system is None {
                if let Some(sys) = crate::ccda::decode_telecom_scheme(
                    crate::ccda::telecom_scheme_of(attrs[i].value@),
                ) {
                    lemma_telecom_value_verbatim(
                        attrs,
                        i + 1,
                        use_pt,
                        Some(sys),
                        Some(telecom_payload_of(attrs[i].value@)),
                    );
                }
            }
        }
    }
}

/// Whatever the document was, a successful parse always carries at least
/// one record target: zero `recordTarget` elements can never parse to `Ok`.
pub proof fn lemma_parse_ok_nonempty(evs: Seq<XmlEvent>)
    ensures
        spec_parse(evs) matches Ok(doc) ==> doc.record_targets.len() >= 1,
{
    crate::ccda::lemma_top_level_nonempty(evs, 0, None);
}

} // verus!
