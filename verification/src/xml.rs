//! The events of an XML document, as `quick_xml` reads them.
//!
//! A document is read through an [`XmlStream`], which counts the events it
//! has handed out. What the reader yields as its `i`-th event over a given
//! document is named by [`xml_event_at`]: the library states what it does
//! with each event over that name.

use vstd::prelude::*;

use crate::normalize::opt_view;
use quick_xml::events::Event::{Decl, End, Eof, Start, Text};

verus! {

/// One event of the XML stream, as far as the metadata needs it.
#[derive(Debug)]
pub enum XmlEvent {
    /// The `<?xml ...?>` declaration, with the name of the declared encoding.
    Decl { encoding: Option<String> },
    /// An opening tag, with the element's name.
    Start { name: String },
    /// A closing tag.
    End,
    /// Decoded character data (trimmed by the reader).
    Text { text: String },
    /// The end of the input.
    Eof,
    /// Anything else (empty elements, comments, CDATA, ...).
    Other,
}

/// An event of the XML stream, as plain values.
pub enum XmlEventModel {
    Decl(Option<Seq<char>>),
    Start(Seq<char>),
    End,
    Text(Seq<char>),
    Eof,
    Other,
}

impl View for XmlEvent {
    type V = XmlEventModel;

    open spec fn view(&self) -> XmlEventModel {
        match self {
            XmlEvent::Decl { encoding } => XmlEventModel::Decl(opt_view(*encoding)),
            XmlEvent::Start { name } => XmlEventModel::Start(name@),
            XmlEvent::End => XmlEventModel::End,
            XmlEvent::Text { text } => XmlEventModel::Text(text@),
            XmlEvent::Eof => XmlEventModel::Eof,
            XmlEvent::Other => XmlEventModel::Other,
        }
    }
}

/// Errors that the XML reader reports, with their messages.
#[derive(Debug)]
pub enum XmlFailure {
    /// Malformed XML.
    Syntax(String),
    /// Character data that cannot be decoded in the document's encoding.
    Decode(String),
}

/// An error of the XML reader, as plain values.
pub enum XmlFailureModel {
    Syntax(Seq<char>),
    Decode(Seq<char>),
}

impl View for XmlFailure {
    type V = XmlFailureModel;

    open spec fn view(&self) -> XmlFailureModel {
        match self {
            XmlFailure::Syntax(m) => XmlFailureModel::Syntax(m@),
            XmlFailure::Decode(m) => XmlFailureModel::Decode(m@),
        }
    }
}

/// The plain values of a read's result.
pub open spec fn event_result_view(r: Result<XmlEvent, XmlFailure>) -> Result<XmlEventModel, XmlFailureModel> {
    match r {
        Ok(e) => Ok(e@),
        Err(f) => Err(f@),
    }
}

/// What the `index`-th call (counting from 0) of `Reader::read_event` yields
/// over the bytes `doc`, with a reader that trims character data and reports
/// empty elements as such: the event converted as [`XmlStream::next_event`]
/// converts it, or the reader's error.
pub uninterp spec fn xml_event_at(doc: Seq<u8>, index: nat) -> Result<XmlEventModel, XmlFailureModel>;

/// The XML reader of `quick_xml`.
#[verifier::external_type_specification]
#[verifier::external_body]
#[verifier::reject_recursive_types(R)]
pub struct ExXmlReader<R>(quick_xml::Reader<R>);

/// Creates a `quick_xml::Reader` over `content` that trims character data
/// and reports empty elements as such (not as a start and an end).
#[verifier::external_body]
fn xml_reader<'a>(content: &'a [u8]) -> quick_xml::Reader<&'a [u8]> {
    let mut reader = quick_xml::Reader::from_reader(content);
    reader.config_mut().trim_text(true);
    reader.config_mut().expand_empty_elements = false;
    reader
}

/// A reader over one document that counts the events it has handed out.
pub(crate) struct XmlStream<'a> {
    reader: quick_xml::Reader<&'a [u8]>,
    doc: Ghost<Seq<u8>>,
    index: Ghost<nat>,
}

impl<'a> XmlStream<'a> {
    /// The bytes of the document.
    pub(crate) closed spec fn doc(&self) -> Seq<u8> {
        self.doc@
    }

    /// How many events have been read.
    pub(crate) closed spec fn index(&self) -> nat {
        self.index@
    }

    /// A stream at the start of `content`.
    pub(crate) fn new(content: &'a [u8]) -> (r: XmlStream<'a>)
        ensures
            r.doc() == content@,
            r.index() == 0,
    {
        XmlStream { reader: xml_reader(content), doc: Ghost(content@), index: Ghost(0) }
    }

    /// Calls `Reader::read_event` and converts what it yields: the encoding
    /// of a declaration is named by `encoding_rs`, an element name is taken
    /// from its bytes, character data is decoded with `BytesText::decode`,
    /// and the reader's error is kept as its message. The contract claims
    /// that the result is what the reader yields as its next event over the
    /// document, which is a function of the bytes and of how many events
    /// came before; the stream's count of events, which exists only for the
    /// proofs, goes up by one.
    #[verifier::external_body]
    pub(crate) fn next_event(&mut self) -> (r: Result<XmlEvent, XmlFailure>)
        ensures
            final(self).doc() == old(self).doc(),
            final(self).index() == old(self).index() + 1,
            event_result_view(r) == xml_event_at(old(self).doc(), old(self).index()),
    {
        match self.reader.read_event() {
            Ok(Decl(e)) => Ok(XmlEvent::Decl { encoding: e.encoder().map(|c| c.name().to_string()) }),
            Ok(Start(e)) => Ok(XmlEvent::Start { name: String::from_utf8_lossy(e.name().0).into_owned() }),
            Ok(End(_)) => Ok(XmlEvent::End),
            Ok(Text(e)) => match e.decode() {
                Ok(t) => Ok(XmlEvent::Text { text: t.into_owned() }),
                Err(x) => Err(XmlFailure::Decode(x.to_string())),
            },
            Ok(Eof) => Ok(XmlEvent::Eof),
            Ok(_) => Ok(XmlEvent::Other),
            Err(x) => Err(XmlFailure::Syntax(x.to_string())),
        }
    }
}

} // verus!
