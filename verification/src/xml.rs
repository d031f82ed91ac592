//! The events of an XML document, as `quick_xml` reads them.

use quick_xml::events::Event;
use quick_xml::reader::Reader;
use std::borrow::Cow;
use vstd::prelude::*;

verus! {

/// `quick_xml::reader::Reader`, of which nothing is seen but through the
/// functions below.
#[verifier::external_type_specification]
#[verifier::external_body]
#[verifier::reject_recursive_types(R)]
pub struct ExReader<R>(Reader<R>);

/// `quick_xml::Error`, of which nothing is seen.
#[verifier::external_type_specification]
#[verifier::external_body]
pub struct ExXmlError(quick_xml::Error);

/// What a reader delivers in one step.
pub ghost enum Signal {
    /// A start tag, by its name as it stands in the document.
    Start(Seq<u8>),
    /// An end tag, by its name as it stands in the document.
    End(Seq<u8>),
    /// Character data between tags, decoded and unescaped; `None` where it
    /// can be neither.
    Text(Option<Seq<char>>),
    /// Anything else that is well formed: an empty element, a comment, a
    /// declaration and the like.
    Other,
    /// The end of the document.
    Eof,
    /// Malformed markup, with the byte position at which the reader stands
    /// after it gave up.
    Malformed(usize),
}

impl Signal {
    /// Whether the reader delivers nothing of the document after `self`.
    pub open spec fn is_last(self) -> bool {
        self is Eof || self is Malformed
    }
}

/// One well-formed event of an XML document.
#[derive(Clone, Debug, PartialEq, Eq)]
pub enum XmlEvent {
    /// A start tag, by its name as it stands in the document.
    Start(Vec<u8>),
    /// An end tag, by its name as it stands in the document.
    End(Vec<u8>),
    /// Character data between tags, decoded and unescaped; `None` where it
    /// can be neither.
    Text(Option<String>),
    /// The end of the document.
    Eof,
    /// Anything else.
    Other,
}

impl View for XmlEvent {
    type V = Signal;

    open spec fn view(&self) -> Signal {
        match self {
            XmlEvent::Start(name) => Signal::Start(name@),
            XmlEvent::End(name) => Signal::End(name@),
            XmlEvent::Text(Some(text)) => Signal::Text(Some(text@)),
            XmlEvent::Text(None) => Signal::Text(None),
            XmlEvent::Eof => Signal::Eof,
            XmlEvent::Other => Signal::Other,
        }
    }
}

/// What a reader that starts at the first byte of `input` delivers, step
/// by step, up to and with the end of the document or the first failure.
pub uninterp spec fn document_signals(input: Seq<u8>) -> Seq<Signal>;

/// What `reader` has yet to deliver, up to and with the end of the document
/// or the first failure.
pub uninterp spec fn pending_signals(reader: Reader<&[u8]>) -> Seq<Signal>;

/// The byte position at which `reader` stands.
pub uninterp spec fn reader_offset(reader: Reader<&[u8]>) -> usize;

/// `Reader::from_reader` on a byte slice: a reader that stands at the first
/// byte of `input`.
#[verifier::external_body]
pub(crate) fn open_reader<'a>(input: &'a [u8]) -> (reader: Reader<&'a [u8]>)
    ensures
        pending_signals(reader) == document_signals(input@),
{
    Reader::from_reader(input)
}

/// `Reader::read_event` on a byte slice, with the tag names taken by
/// `BytesStart::name` and `BytesEnd::name` and the text by
/// `BytesText::unescape`. The reader always has something to deliver, and
/// this is the first of it. But for the end of the document and a failure,
/// the reader then stands behind what it delivered. On a failure the
/// position that belongs to it is the one at which the reader is left.
#[verifier::external_body]
pub(crate) fn next_event(reader: &mut Reader<&[u8]>) -> (r: Result<XmlEvent, quick_xml::Error>)
    ensures
        pending_signals(*old(reader)).len() > 0,
        match r {
            Ok(event) => event@ == pending_signals(*old(reader))[0],
            Err(_) => pending_signals(*old(reader))[0] == Signal::Malformed(
                reader_offset(*final(reader)),
            ),
        },
        !pending_signals(*old(reader))[0].is_last() ==> pending_signals(*final(reader))
            == pending_signals(*old(reader)).drop_first(),
{
    match reader.read_event() {
        Ok(Event::Start(e)) => Ok(XmlEvent::Start(e.name().as_ref().to_vec())),
        Ok(Event::End(e)) => Ok(XmlEvent::End(e.name().as_ref().to_vec())),
        Ok(Event::Text(e)) => Ok(XmlEvent::Text(e.unescape().ok().map(Cow::into_owned))),
        Ok(Event::Eof) => Ok(XmlEvent::Eof),
        Ok(_) => Ok(XmlEvent::Other),
        Err(e) => Err(e),
    }
}

/// `Reader::buffer_position`: the byte position at which `reader` stands.
#[verifier::external_body]
pub(crate) fn reader_position(reader: &Reader<&[u8]>) -> (offset: usize)
    ensures
        offset == reader_offset(*reader),
{
    reader.buffer_position()
}

} // verus!
