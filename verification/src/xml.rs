//! XML tokenization, delegated to `quick_xml`.
//!
//! The reader's events are turned into plain values (`XmlEvent`) as soon as
//! they are read; everything the library decides from them is verified code
//! over those values.
use vstd::prelude::*;
use quick_xml::events::{BytesStart, Event};
use quick_xml::Reader;

verus! {

broadcast use vstd::string::group_string_axioms;

#[verifier::external_type_specification]
#[verifier::external_body]
#[verifier::reject_recursive_types(R)]
pub struct ExReader<R>(Reader<R>);

#[verifier::external_type_specification]
#[verifier::external_body]
pub struct ExBytesStart<'a>(BytesStart<'a>);

/// One attribute of a tag: its qualified name and its raw (unescaped-as-read)
/// value, both read as UTF-8.
pub struct XmlAttr {
    pub key: String,
    pub value: String,
}

/// One event of the XML reader, as plain values.
pub enum XmlEvent {
    /// `<name attr="value">`.
    Start { name: String, attrs: Vec<XmlAttr> },
    /// `<name attr="value"/>`.
    Empty { name: String, attrs: Vec<XmlAttr> },
    /// `</name>`.
    End { name: String },
    /// Character data between tags, still escaped.
    Text { raw: String },
    /// End of the document.
    Eof,
    /// A reader error, with its message.
    Error { message: String },
    /// Any other event (comments, CDATA, declarations, processing instructions).
    Other,
}

pub struct XmlAttrV {
    pub key: Seq<char>,
    pub value: Seq<char>,
}

pub enum XmlEventV {
    Start { name: Seq<char>, attrs: Seq<XmlAttrV> },
    Empty { name: Seq<char>, attrs: Seq<XmlAttrV> },
    End { name: Seq<char> },
    Text { raw: Seq<char> },
    Eof,
    Error { message: Seq<char> },
    Other,
}

impl DeepView for XmlAttr {
    type V = XmlAttrV;

    open spec fn deep_view(&self) -> XmlAttrV {
        XmlAttrV { key: self.key@, value: self.value@ }
    }
}

impl DeepView for XmlEvent {
    type V = XmlEventV;

    open spec fn deep_view(&self) -> XmlEventV {
        match self {
            XmlEvent::Start { name, attrs } => XmlEventV::Start { name: name@, attrs: attrs.deep_view() },
            XmlEvent::Empty { name, attrs } => XmlEventV::Empty { name: name@, attrs: attrs.deep_view() },
            XmlEvent::End { name } => XmlEventV::End { name: name@ },
            XmlEvent::Text { raw } => XmlEventV::Text { raw: raw@ },
            XmlEvent::Eof => XmlEventV::Eof,
            XmlEvent::Error { message } => XmlEventV::Error { message: message@ },
            XmlEvent::Other => XmlEventV::Other,
        }
    }
}

/// A tag's qualified name, and each of its attributes as its qualified
/// name and raw value, `None` for one that fails to parse.
pub struct RawTag {
    pub name: String,
    pub attrs: Vec<Option<XmlAttr>>,
}

/// One event of the reader as it comes: a tag still as the reader's value,
/// the rest as plain values.
pub enum RawEvent<'a> {
    Start(BytesStart<'a>),
    Empty(BytesStart<'a>),
    End(String),
    Text(String),
    Eof,
    Error(String),
    Other,
}

/// The events `quick_xml`'s reader yields on `xml` with `trim_text(trim)`,
/// as plain values (names and raw values read as UTF-8, attributes that fail
/// to parse left out, an error as its message), up to and including the
/// first end-of-file or error event.
pub uninterp spec fn xml_tokens(xml: Seq<char>, trim: bool) -> Seq<XmlEventV>;

/// The events a reader has still to yield, as plain values, up to and
/// including the first end-of-file or error event.
pub uninterp spec fn reader_events(r: Reader<&[u8]>) -> Seq<XmlEventV>;

/// `quick_xml::Reader::from_str` with `trim_text(trim)` set on its
/// configuration: a reader that will yield the events of `xml`.
#[verifier::external_body]
fn xml_reader<'a>(xml: &'a str, trim: bool) -> (r: Reader<&'a [u8]>)
    ensures
        reader_events(r) == xml_tokens(xml@, trim),
{
    let mut reader = Reader::from_str(xml);
    reader.config_mut().trim_text(trim);
    reader
}

/// A tag's qualified name and the attributes of it that parse, as plain
/// values.
pub uninterp spec fn tag_view(e: BytesStart) -> (Seq<char>, Seq<XmlAttrV>);

/// The plain value of an event as it comes.
pub open spec fn raw_view(e: RawEvent) -> XmlEventV {
    match e {
        RawEvent::Start(t) => XmlEventV::Start { name: tag_view(t).0, attrs: tag_view(t).1 },
        RawEvent::Empty(t) => XmlEventV::Empty { name: tag_view(t).0, attrs: tag_view(t).1 },
        RawEvent::End(name) => XmlEventV::End { name: name@ },
        RawEvent::Text(raw) => XmlEventV::Text { raw: raw@ },
        RawEvent::Eof => XmlEventV::Eof,
        RawEvent::Error(message) => XmlEventV::Error { message: message@ },
        RawEvent::Other => XmlEventV::Other,
    }
}

/// `quick_xml::Reader::read_event`, the event converted to plain values
/// but for a tag (an end tag's name with `BytesEnd::name`, text as its raw
/// bytes, an error as its `Display` text; names and text read as UTF-8).
/// The reader's events end with an end-of-file or error event; the event
/// read is the first of them, and the reader moves past it.
#[verifier::external_body]
fn next_event<'a>(reader: &mut Reader<&'a [u8]>) -> (ev: RawEvent<'a>)
    ensures
        well_ended(reader_events(*old(reader))),
        raw_view(ev) == reader_events(*old(reader))[0],
        !is_terminal(raw_view(ev)) ==> reader_events(*final(reader)) == reader_events(*old(reader)).drop_first(),
{
    let s = |b: &[u8]| String::from_utf8_lossy(b).into_owned();
    match reader.read_event() {
        Ok(Event::Start(e)) => RawEvent::Start(e),
        Ok(Event::Empty(e)) => RawEvent::Empty(e),
        Ok(Event::End(e)) => RawEvent::End(s(e.name().0)),
        Ok(Event::Text(e)) => RawEvent::Text(s(&e)),
        Ok(Event::Eof) => RawEvent::Eof,
        Ok(_) => RawEvent::Other,
        Err(e) => RawEvent::Error(e.to_string()),
    }
}

/// `BytesStart::name` and `BytesStart::attributes`: a tag's qualified name
/// and its attributes (names and raw values read as UTF-8), each `None`
/// where it fails to parse.
#[verifier::external_body]
fn tag_parts(e: &BytesStart) -> (t: RawTag)
    ensures
        t.name@ == tag_view(*e).0,
        parsed(t.attrs@) == tag_view(*e).1,
{
    let s = |b: &[u8]| String::from_utf8_lossy(b).into_owned();
    RawTag {
        name: s(e.name().0),
        attrs: e.attributes().map(|a| a.ok().map(|a| XmlAttr { key: s(a.key.0), value: s(&a.value) })).collect(),
    }
}

/// The attributes that parsed, in order.
pub open spec fn parsed(attrs: Seq<Option<XmlAttr>>) -> Seq<XmlAttrV>
    decreases attrs.len(),
{
    if attrs.len() == 0 {
        Seq::empty()
    } else {
        let rest = parsed(attrs.drop_last());
        match attrs.last() {
            Some(a) => rest.push(a.deep_view()),
            None => rest,
        }
    }
}

/// The attributes that parsed, in order.
pub fn parsed_attrs(attrs: &Vec<Option<XmlAttr>>) -> (r: Vec<XmlAttr>)
    ensures
        r.deep_view() == parsed(attrs@),
{
    let mut out: Vec<XmlAttr> = Vec::new();
    let mut i: usize = 0;
    while i < attrs.len()
        invariant
            i <= attrs.len(),
            out.deep_view() == parsed(attrs@.take(i as int)),
        decreases attrs.len() - i,
    {
        assert(attrs@.take(i as int + 1).drop_last() =~= attrs@.take(i as int));
        match &attrs[i] {
            Some(x) => {
                let ghost before = out;
                let y = XmlAttr { key: x.key.clone(), value: x.value.clone() };
                out.push(y);
                proof { crate::model::lemma_push_deep_view(before, out, y); }
            },
            None => {},
        }
        i += 1;
    }
    assert(attrs@.take(i as int) =~= attrs@);
    out
}

/// One event of the reader, as plain values: the first of the events the
/// reader has still to yield; the reader moves past it.
fn read_xml_event(reader: &mut Reader<&[u8]>) -> (ev: XmlEvent)
    ensures
        well_ended(reader_events(*old(reader))),
        ev.deep_view() == reader_events(*old(reader))[0],
        !is_terminal(ev.deep_view()) ==> reader_events(*final(reader)) == reader_events(*old(reader)).drop_first(),
{
    match next_event(reader) {
        RawEvent::Start(e) => {
            let t = tag_parts(&e);
            XmlEvent::Start { attrs: parsed_attrs(&t.attrs), name: t.name }
        },
        RawEvent::Empty(e) => {
            let t = tag_parts(&e);
            XmlEvent::Empty { attrs: parsed_attrs(&t.attrs), name: t.name }
        },
        RawEvent::End(name) => XmlEvent::End { name },
        RawEvent::Text(raw) => XmlEvent::Text { raw },
        RawEvent::Eof => XmlEvent::Eof,
        RawEvent::Error(message) => XmlEvent::Error { message },
        RawEvent::Other => XmlEvent::Other,
    }
}

/// What `quick_xml::escape::unescape` returns: the text with its character
/// and entity references replaced, or `None` when a reference is malformed.
pub uninterp spec fn xml_unescaped(raw: Seq<char>) -> Option<Seq<char>>;

/// `quick_xml::escape::unescape`.
#[verifier::external_body]
pub(crate) fn unescape_text(raw: &str) -> (r: Option<String>)
    ensures
        crate::model::opt_view(r) == xml_unescaped(raw@),
{
    quick_xml::escape::unescape(raw).ok().map(|c| c.into_owned())
}

pub open spec fn is_terminal(e: XmlEventV) -> bool {
    e is Eof || e is Error
}

/// An event sequence as the reader gives it: it ends with its first
/// end-of-file or error event.
pub open spec fn well_ended(evs: Seq<XmlEventV>) -> bool {
    &&& evs.len() > 0
    &&& is_terminal(evs.last())
    &&& forall|i: int| 0 <= i < evs.len() - 1 ==> !is_terminal(#[trigger] evs[i])
}

/// The events of `xml` as `quick_xml` reads them, up to and including the
/// first end-of-file or error event.
pub fn xml_events(xml: &str, trim: bool) -> (evs: Vec<XmlEvent>)
    ensures
        evs.deep_view() == xml_tokens(xml@, trim),
        well_ended(evs.deep_view()),
{
    let mut reader = xml_reader(xml, trim);
    let mut evs: Vec<XmlEvent> = Vec::new();
    assert(evs.deep_view() + reader_events(reader) =~= xml_tokens(xml@, trim));
    loop
        invariant
            evs.deep_view() + reader_events(reader) == xml_tokens(xml@, trim),
            forall|i: int| 0 <= i < evs.len() ==> !is_terminal(#[trigger] evs.deep_view()[i]),
        decreases reader_events(reader).len(),
    {
        let ghost pending = reader_events(reader);
        let ev = read_xml_event(&mut reader);
        let terminal = matches!(ev, XmlEvent::Eof) || matches!(ev, XmlEvent::Error { .. });
        let ghost before = evs;
        evs.push(ev);
        proof { crate::model::lemma_push_deep_view(before, evs, ev); }
        if terminal {
            proof {
                assert(pending.len() == 1) by {
                    if pending.len() > 1 {
                        assert(!is_terminal(pending[0]));
                    }
                }
                assert(evs.deep_view() =~= before.deep_view() + pending);
            }
            return evs;
        }
        proof {
            assert(pending.len() > 1);
            assert(evs.deep_view() + reader_events(reader) =~= before.deep_view() + pending);
        }
    }
}

} // verus!
