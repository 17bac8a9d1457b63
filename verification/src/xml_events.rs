//! The XML event stream behind profile parsing.  The reader itself comes
//! from the quick-xml crate and is trusted only for the shape of each
//! event; everything built from the events is verified.

use vstd::prelude::*;
use quick_xml::events::Event;
use crate::text::str_eq;

verus! {

#[verifier::external_type_specification]
#[verifier::external_body]
#[verifier::reject_recursive_types(R)]
pub struct ExXmlReader<R>(quick_xml::Reader<R>);

/// One XML event in owned, typed form: an opening (or self-closing) tag
/// with its attributes as key/value pairs, a closing tag, the end of the
/// document, a malformed-input error, or anything else.
pub enum XmlEvent {
    Open { name: String, attrs: Vec<(String, String)> },
    Close { name: String },
    EndOfDocument,
    Malformed { message: String },
    Other,
}

/// Relies on `quick_xml::Reader::from_str`: an XML reader over the text.
#[verifier::external_body]
pub fn xml_reader_from(s: &str) -> quick_xml::Reader<&[u8]> {
    quick_xml::Reader::from_str(s)
}

/// Relies on `quick_xml::Reader::read_event`: the next event of the
/// document.  Start and self-closing tags both surface as `Open`, carrying
/// the tag name and the attribute pairs; nothing is assumed about which
/// events come or in what order.
#[verifier::external_body]
pub fn next_xml_event(r: &mut quick_xml::Reader<&[u8]>) -> XmlEvent {
    match r.read_event() {
        Ok(Event::Start(e)) | Ok(Event::Empty(e)) => XmlEvent::Open {
            name: e.name().as_ref().to_string(),
            attrs: e.attributes().flatten().map(
                |a| (a.key.as_ref().to_string(), a.value.into_owned()),
            ).collect(),
        },
        Ok(Event::End(e)) => XmlEvent::Close { name: e.name().as_ref().to_string() },
        Ok(Event::Eof) => XmlEvent::EndOfDocument,
        Ok(_) => XmlEvent::Other,
        Err(e) => XmlEvent::Malformed { message: format!("{}", e) },
    }
}

/// The value of the first attribute named `name`, if any.
pub open spec fn spec_attr_value(attrs: Seq<(String, String)>, name: Seq<char>) -> Option<
    Seq<char>,
>
    decreases attrs.len(),
{
    if attrs.len() == 0 {
        None
    } else if attrs[0].0@ == name {
        Some(attrs[0].1@)
    } else {
        spec_attr_value(attrs.drop_first(), name)
    }
}

/// Finds an attribute by name; the first occurrence wins.
pub fn attr_value(attrs: &Vec<(String, String)>, name: &str) -> (r: Option<String>)
    ensures
        match r {
            Some(v) => spec_attr_value(attrs@, name@) == Some(v@),
            None => spec_attr_value(attrs@, name@) is None,
        },
{
    let n = attrs.len();
    let mut i: usize = 0;
    proof {
        assert(attrs@.skip(0) =~= attrs@);
    }
    while i < n
        invariant
            n == attrs@.len(),
            i <= n,
            spec_attr_value(attrs@, name@) == spec_attr_value(attrs@.skip(i as int), name@),
        decreases n - i,
    {
        proof {
            assert(attrs@.skip(i as int)[0] == attrs@[i as int]);
            assert(attrs@.skip(i as int).drop_first() =~= attrs@.skip(i as int + 1));
        }
        if str_eq(attrs[i].0.as_str(), name) {
            return Some(attrs[i].1.clone());
        }
        i = i + 1;
    }
    None
}

} // verus!

verus! {

/// Whether an event ends a document read: the end marker or a
/// malformed-input error.
pub open spec fn spec_terminal_event(e: XmlEvent) -> bool {
    e is EndOfDocument || e is Malformed
}

/// Reads the whole event stream of a document: every event the reader
/// yields, in order, ending with the first terminal event (the end marker
/// or an error).  The reader yields at most one event per input byte plus
/// the end marker, so when the bound is ever reached the stream is closed
/// with a synthetic error event instead.
pub fn read_xml_events(xml: &str) -> (r: Vec<XmlEvent>)
    ensures
        r@.len() >= 1,
        spec_terminal_event(r@.last()),
        forall|i: int| 0 <= i < r@.len() - 1 ==> !spec_terminal_event(#[trigger] r@[i]),
{
    let mut reader = xml_reader_from(xml);
    let mut events: Vec<XmlEvent> = Vec::new();
    let mut fuel = xml.unicode_len();
    loop
        invariant
            forall|i: int| 0 <= i < events@.len() ==> !spec_terminal_event(#[trigger] events@[i]),
        decreases fuel,
    {
        let ev = next_xml_event(&mut reader);
        match ev {
            XmlEvent::EndOfDocument => {
                events.push(XmlEvent::EndOfDocument);
                return events;
            },
            XmlEvent::Malformed { message } => {
                events.push(XmlEvent::Malformed { message });
                return events;
            },
            other => {
                events.push(other);
            },
        }
        if fuel == 0 {
            events.push(
                XmlEvent::Malformed { message: String::from_str("unterminated document") },
            );
            return events;
        }
        fuel = fuel - 1;
    }
}

} // verus!
