//! The XML events a WRM header is read from, as the library sees them.

use vstd::prelude::*;
use quick_xml::events::Event;
use quick_xml::Reader;
use crate::playready::wrm::EventView;

verus! {

#[verifier::external_type_specification]
#[verifier::external_body]
pub struct ExXmlEvent<'a>(Event<'a>);

/// One XML event, reduced to what the WRM header reader looks at.
#[derive(Debug, Clone)]
pub enum XmlEvent {
    /// A start tag, with its name and its attributes as written.
    Start { name: String, attributes: Vec<(String, String)> },
    /// An end tag.
    End { name: String },
    /// Character data, line endings normalised.
    Text { content: String },
    /// A CDATA section's content.
    CData { content: String },
    /// An entity or character reference such as `&amp;`, by its name.
    Reference { name: String },
    /// The end of the document.
    Eof,
    /// Anything else: empty elements, comments, declarations, processing instructions.
    Other,
}

/// The events that quick_xml reads from `xml`, with text trimming on, up to and including
/// the end of the document; `None` where it refuses the text. A function of the text
/// alone: the reader over a text is deterministic.
pub uninterp spec fn spec_xml_events(xml: Seq<char>) -> Option<Seq<Event<'static>>>;

/// Every event of `xml`, by `quick_xml::Reader::from_str` with `trim_text` on and
/// `read_event` called until it gives `Event::Eof` (kept as the last event), each made
/// owned; an error ends the reading. It claims that the result is the named event sequence
/// of the text. A slice reader consumes input with every event and gives `Eof` at the end,
/// so the reading ends.
#[verifier::external_body]
pub(crate) fn xml_events(xml: &str) -> (r: Result<Vec<Event<'static>>, quick_xml::Error>)
    ensures
        match r {
            Ok(v) => spec_xml_events(xml@) == Some(v@),
            Err(_) => spec_xml_events(xml@) is None,
        },
{
    let mut reader = Reader::from_str(xml);
    reader.config_mut().trim_text(true);
    let mut events = Vec::new();
    loop {
        match reader.read_event() {
            Ok(Event::Eof) => { events.push(Event::Eof); return Ok(events); }
            Ok(event) => events.push(event.into_owned()),
            Err(e) => return Err(e),
        }
    }
}

/// The kinds of XML event the WRM header reader tells apart.
#[derive(Debug, Clone, Copy, PartialEq, Eq, Structural)]
pub enum EventKind {
    Start,
    End,
    Text,
    CData,
    Reference,
    Eof,
    Other,
}

/// Which kind of event an event of `quick_xml` is: a function of the event alone.
pub uninterp spec fn spec_event_kind(event: Event<'static>) -> EventKind;

/// Which kind of event `quick_xml` read, by matching on its variant. It claims only that
/// the kind is the event's own.
#[verifier::external_body]
pub(crate) fn event_kind(event: &Event<'static>) -> (r: EventKind)
    ensures
        r == spec_event_kind(*event),
{
    match event {
        Event::Start(_) => EventKind::Start,
        Event::End(_) => EventKind::End,
        Event::Text(_) => EventKind::Text,
        Event::CData(_) => EventKind::CData,
        Event::GeneralRef(_) => EventKind::Reference,
        Event::Eof => EventKind::Eof,
        _ => EventKind::Other,
    }
}

/// The tag name that `event_name` gives for an event: a function of the event alone.
pub uninterp spec fn spec_event_name(event: Event<'static>) -> Seq<char>;

/// The tag name of a start or end tag, by `BytesStart::name` or `BytesEnd::name`; empty
/// for other events. It claims only that the name is a function of the event.
#[verifier::external_body]
pub(crate) fn event_name(event: &Event<'static>) -> (r: String)
    ensures
        r@ == spec_event_name(*event),
{
    match event {
        Event::Start(b) => b.name().as_ref().to_string(),
        Event::End(b) => b.name().as_ref().to_string(),
        _ => String::new(),
    }
}

/// The attributes that `event_attributes` gives for an event: a function of the event alone.
pub uninterp spec fn spec_event_attributes(event: Event<'static>) -> Seq<(Seq<char>, Seq<char>)>;

/// The attribute pairs of a list of strings.
pub open spec fn spec_attribute_texts(v: Seq<(String, String)>) -> Seq<(Seq<char>, Seq<char>)> {
    v.map_values(|p: (String, String)| (p.0@, p.1@))
}

/// The attributes of a start tag as written, by `BytesStart::attributes`, less those
/// quick_xml cannot read; empty for other events. It claims only that they are a function
/// of the event.
#[verifier::external_body]
pub(crate) fn event_attributes(event: &Event<'static>) -> (r: Vec<(String, String)>)
    ensures
        spec_attribute_texts(r@) == spec_event_attributes(*event),
{
    match event {
        Event::Start(b) => b.attributes().flatten().map(|a| (a.key.as_ref().to_string(), a.value.into_owned())).collect(),
        _ => Vec::new(),
    }
}

/// The text that `event_text` gives for an event: a function of the event alone.
pub uninterp spec fn spec_event_text(event: Event<'static>) -> Seq<char>;

/// The text of a text event (by `BytesText::xml_content` for XML 1.0), of a CDATA
/// section, or the name of a reference; empty for other events. It claims only that the
/// text is a function of the event.
#[verifier::external_body]
pub(crate) fn event_text(event: &Event<'static>) -> (r: String)
    ensures
        r@ == spec_event_text(*event),
{
    match event {
        Event::Text(t) => t.xml_content(quick_xml::XmlVersion::Implicit1_0).into_owned(),
        Event::CData(c) => c.clone().into_inner().into_owned(),
        Event::GeneralRef(r) => r.clone().into_inner().into_owned(),
        _ => String::new(),
    }
}

/// The `XmlEvent` that an event of `quick_xml` reduces to: its kind, with the name,
/// attributes or text that the kind carries.
pub open spec fn spec_is_xml_event_of(r: XmlEvent, event: Event<'static>) -> bool {
    match spec_event_kind(event) {
        EventKind::Start => r matches XmlEvent::Start { name, attributes }
            && name@ == spec_event_name(event)
            && spec_attribute_texts(attributes@) == spec_event_attributes(event),
        EventKind::End => r matches XmlEvent::End { name } && name@ == spec_event_name(event),
        EventKind::Text => r matches XmlEvent::Text { content } && content@ == spec_event_text(event),
        EventKind::CData => r matches XmlEvent::CData { content } && content@ == spec_event_text(event),
        EventKind::Reference => r matches XmlEvent::Reference { name } && name@ == spec_event_text(event),
        EventKind::Eof => r is Eof,
        EventKind::Other => r is Other,
    }
}

/// An event of quick_xml as plain values, by the named kind, name, attributes and text.
pub open spec fn spec_event_view_of(event: Event<'static>) -> EventView {
    match spec_event_kind(event) {
        EventKind::Start => EventView::Start(spec_event_name(event), spec_event_attributes(event)),
        EventKind::End => EventView::End(spec_event_name(event)),
        EventKind::Text => EventView::Text(spec_event_text(event)),
        EventKind::CData => EventView::CData(spec_event_text(event)),
        EventKind::Reference => EventView::Reference(spec_event_text(event)),
        EventKind::Eof => EventView::Eof,
        EventKind::Other => EventView::Other,
    }
}

/// What an event holds, as an `XmlEvent`.
pub(crate) fn to_xml_event(event: &Event<'static>) -> (r: XmlEvent)
    ensures
        spec_is_xml_event_of(r, *event),
        crate::playready::wrm::spec_event_view(r) == spec_event_view_of(*event),
{
    match event_kind(event) {
        EventKind::Start => XmlEvent::Start { name: event_name(event), attributes: event_attributes(event) },
        EventKind::End => XmlEvent::End { name: event_name(event) },
        EventKind::Text => XmlEvent::Text { content: event_text(event) },
        EventKind::CData => XmlEvent::CData { content: event_text(event) },
        EventKind::Reference => XmlEvent::Reference { name: event_text(event) },
        EventKind::Eof => XmlEvent::Eof,
        EventKind::Other => XmlEvent::Other,
    }
}

/// The XML text that `quick_xml::Writer::write_event` writes for an event, or `None`
/// where writing fails: a function of the event alone.
pub uninterp spec fn spec_event_xml(event: Event<'static>) -> Option<Seq<u8>>;

/// Appends the XML text of an event to `out`, by `quick_xml::Writer::write_event`. It
/// claims that what is appended is the named text of the event, and that the call fails
/// exactly where that text is `None`.
#[verifier::external_body]
pub(crate) fn write_event(out: &mut Vec<u8>, event: &Event<'static>) -> (r: Result<(), ()>)
    ensures
        match r {
            Ok(()) => spec_event_xml(*event) matches Some(x) && final(out)@ == old(out)@ + x,
            Err(()) => spec_event_xml(*event) is None,
        },
{
    let mut writer = quick_xml::Writer::new(&mut *out);
    match writer.write_event(event.clone()) {
        Ok(()) => Ok(()),
        Err(_) => Err(()),
    }
}

} // verus!
