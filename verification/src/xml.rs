//! Plain XML pull events, and the tokenizer boundary that produces them.
//!
//! The C-CDA grammar in `ccda` is verified over a stream of these events.
//! The stream itself comes from quick_xml through a small trusted boundary:
//! each event is converted, as it is read, into an owned value holding only
//! plain strings, so that everything downstream can be reasoned about.

use quick_xml::events::Event;
use vstd::prelude::*;

verus! {

/// One attribute of an element tag: its local-name key and its raw value.
#[derive(Debug, Clone, PartialEq, Eq)]
pub struct XmlAttr {
    pub key: String,
    pub value: String,
}

/// An element tag: its local name plus its attributes in source order.
#[derive(Debug, Clone, PartialEq, Eq)]
pub struct XmlTag {
    pub name: String,
    pub attrs: Vec<XmlAttr>,
}

/// A low-level XML event. Names are local names (namespace prefixes are
/// dropped). Textual payloads of text-like events are not kept: the modeled
/// grammar never reads them.
#[derive(Debug, Clone, PartialEq, Eq)]
pub enum XmlEvent {
    /// `<tag ...>`
    Open(XmlTag),
    /// `</tag>`
    Close(String),
    /// `<tag ... />`
    SelfClose(XmlTag),
    /// Character data between tags, including general entity references.
    Text,
    /// `<![CDATA[...]]>`
    CData,
    /// `<!-- ... -->`
    Comment,
    /// `<?xml ...?>`
    Decl,
    /// `<?...?>`
    PI,
    /// `<!DOCTYPE ...>`
    DocType,
    /// End of input.
    Eof,
}

/// The source is not well-formed XML: the tokenizer could not produce an event.
#[derive(Debug, Clone, PartialEq, Eq)]
pub struct XmlError {}

#[verifier::external_type_specification]
#[verifier::external_body]
pub struct ExBytesStart<'a>(quick_xml::events::BytesStart<'a>);

#[verifier::external_type_specification]
#[verifier::external_body]
pub struct ExEvent<'a>(quick_xml::events::Event<'a>);

/// Relies on quick_xml's BytesStart::local_name and BytesStart::attributes:
/// the local tag name, and the attributes with their raw values in source
/// order; Err where the attribute list is malformed or a key is repeated.
#[verifier::external_body]
fn tag_of(t: &quick_xml::events::BytesStart) -> (r: Result<XmlTag, XmlError>) {
    let mut attrs: Vec<XmlAttr> = Vec::new();
    for a in t.attributes() {
        match a {
            Err(_) => {
                return Err(XmlError {});
            },
            Ok(a) => attrs.push(XmlAttr {
                key: a.key.local_name().into_inner().to_string(),
                value: a.value.into_owned(),
            }),
        }
    }
    Ok(XmlTag { name: t.local_name().into_inner().to_string(), attrs })
}

/// Relies on quick_xml's Event: converts one event into its plain form,
/// keeping the local name and attributes of tags and the kind of everything
/// else; a general reference is character data.
#[verifier::external_body]
fn convert_event(ev: quick_xml::events::Event) -> (r: Result<XmlEvent, XmlError>) {
    match ev {
        Event::Start(t) => Ok(XmlEvent::Open(tag_of(&t)?)),
        Event::Empty(t) => Ok(XmlEvent::SelfClose(tag_of(&t)?)),
        Event::End(t) => Ok(XmlEvent::Close(t.local_name().into_inner().to_string())),
        Event::Text(_) => Ok(XmlEvent::Text),
        Event::GeneralRef(_) => Ok(XmlEvent::Text),
        Event::CData(_) => Ok(XmlEvent::CData),
        Event::Comment(_) => Ok(XmlEvent::Comment),
        Event::Decl(_) => Ok(XmlEvent::Decl),
        Event::PI(_) => Ok(XmlEvent::PI),
        Event::DocType(_) => Ok(XmlEvent::DocType),
        Event::Eof => Ok(XmlEvent::Eof),
    }
}

/// The events of one source text, exactly as quick_xml tokenizes it and
/// `convert_event` renders it. quick_xml reads the text deterministically —
/// no chance, time or environment — so this is a function of the source
/// alone; it is known only through what `tokenize` states of it.
pub uninterp spec fn events_of(src: Seq<char>) -> Result<Seq<XmlEvent>, XmlError>;

/// Lifts a tokenizer result to its model.
pub open spec fn lift_events(r: Result<Vec<XmlEvent>, XmlError>) -> Result<
    Seq<XmlEvent>,
    XmlError,
> {
    match r {
        Ok(evs) => Ok(evs@),
        Err(e) => Err(e),
    }
}

/// Relies on quick_xml's Reader::from_str and Reader::read_event: drives the
/// reader over the whole source, one plain event per quick_xml event, up to
/// and including the `Eof` that quick_xml returns at end of input — so on
/// success the vector ends with `Eof` and holds `Eof` nowhere else — and
/// Err where the XML is not well formed (quick_xml also checks that every
/// end tag matches its start tag). The stream is `events_of` the source.
#[verifier::external_body]
fn read_events(src: &str) -> (r: Result<Vec<XmlEvent>, XmlError>)
    ensures
        lift_events(r) == events_of(src@),
        r matches Ok(evs) ==> {
            &&& evs@.len() >= 1
            &&& evs@.last() is Eof
            &&& forall|k: int| 0 <= k < evs@.len() - 1 ==> !(#[trigger] evs@[k] is Eof)
        },
{
    let mut reader = quick_xml::reader::Reader::from_str(src);
    let mut out: Vec<XmlEvent> = Vec::new();
    loop {
        match reader.read_event() {
            Err(_) => return Err(XmlError {}),
            Ok(Event::Eof) => {
                out.push(XmlEvent::Eof);
                return Ok(out);
            },
            Ok(ev) => out.push(convert_event(ev)?),
        }
    }
}

/// Reads the whole source into its vector of plain events: exactly
/// `events_of` the source text; on success the vector ends with `Eof` and
/// holds `Eof` nowhere else.
pub fn tokenize(src: &str) -> (r: Result<Vec<XmlEvent>, XmlError>)
    ensures
        lift_events(r) == events_of(src@),
        r matches Ok(evs) ==> {
            &&& evs@.len() >= 1
            &&& evs@.last() is Eof
            &&& forall|k: int| 0 <= k < evs@.len() - 1 ==> !(#[trigger] evs@[k] is Eof)
        },
{
    read_events(src)
}

} // verus!
