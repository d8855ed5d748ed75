//! The `xml` crate's event writer, as far as this crate uses it: over a
//! byte vector, and given start tags, character data and end tags.
//!
//! A [`Writer`] holds one such writer and keeps it to itself, so that it is
//! made and written to only here. Known of it are the layout that it was
//! made with, the events that it has been given, and how many elements it
//! has open. The bytes that it writes are known only by name, as
//! [`text_of`]: they depend on nothing but the layout and the events.

use vstd::prelude::*;
use xml::writer::EmitterConfig;
use xml::writer::EventWriter;
use xml::writer::XmlEvent;

verus! {

/// `xml::writer::EventWriter`, carried as it is: nothing is
/// known here of what it holds.
#[verifier::external_type_specification]
#[verifier::external_body]
#[verifier::reject_recursive_types(W)]
pub struct ExEventWriter<W>(EventWriter<W>);

/// `xml::writer::Error`, carried as it is: nothing is
/// known here of what it holds.
#[verifier::external_type_specification]
#[verifier::external_body]
pub struct ExEmitterError(xml::writer::Error);

/// An event writer over a byte vector.
pub struct Writer {
    inner: EventWriter<Vec<u8>>,
}

/// One step of a document, as the writer is given it.
pub ghost enum Event {
    /// A start tag with its name and its attributes, each a name and a value.
    Open(Seq<char>, Seq<(Seq<char>, Seq<char>)>),
    /// Character data.
    Text(Seq<char>),
    /// The end tag of the innermost open element.
    Close,
}

/// The layout that a writer is made with.
pub ghost struct Layout {
    pub line_separator: Seq<char>,
    pub indent_string: Seq<char>,
    pub perform_indent: bool,
    pub perform_escaping: bool,
    pub write_document_declaration: bool,
    pub normalize_empty_elements: bool,
    pub cdata_to_characters: bool,
}

/// The layout that `w` was made with.
pub uninterp spec fn layout_of(w: Writer) -> Layout;

/// The events that `w` has been given since it was made, first to last.
pub uninterp spec fn given(w: Writer) -> Seq<Event>;

/// The number of elements that `w` has open.
pub uninterp spec fn open_depth(w: Writer) -> nat;

/// The bytes that a writer made with `layout` over an empty byte vector has
/// written once it has been given `events`.
pub uninterp spec fn text_of(layout: Layout, events: Seq<Event>) -> Seq<u8>;

/// `EmitterConfig::new` with its builder methods, and
/// `EventWriter::new_with_config` over an empty byte vector. The writer has
/// the seven settings and the defaults elsewhere, so it keeps the names of
/// its open elements; it has been given nothing, and has no element open:
/// the emitter starts with an empty stack of element names.
#[verifier::external_body]
pub(crate) fn new_writer(
    line_separator: &str,
    indent_string: &str,
    perform_indent: bool,
    perform_escaping: bool,
    write_document_declaration: bool,
    normalize_empty_elements: bool,
    cdata_to_characters: bool,
) -> (w: Writer)
    ensures
        layout_of(w) == (Layout {
            line_separator: line_separator@,
            indent_string: indent_string@,
            perform_indent,
            perform_escaping,
            write_document_declaration,
            normalize_empty_elements,
            cdata_to_characters,
        }),
        given(w) == Seq::<Event>::empty(),
        open_depth(w) == 0,
{
    let mut config = EmitterConfig::new()
        .line_separator(line_separator.to_string())
        .indent_string(indent_string.to_string())
        .perform_indent(perform_indent)
        .write_document_declaration(write_document_declaration)
        .normalize_empty_elements(normalize_empty_elements)
        .cdata_to_characters(cdata_to_characters);
    config.perform_escaping = perform_escaping;
    Writer { inner: EventWriter::new_with_config(Vec::new(), config) }
}

/// `EventWriter::write` with a start element built by
/// `XmlEvent::start_element` and `StartElementBuilder::attr`. Writing to a
/// byte vector cannot fail, and the emitter refuses no start tag, so the
/// call succeeds; it pushes the name on the emitter's stack of open
/// elements.
#[verifier::external_body]
pub(crate) fn write_open(
    w: &mut Writer,
    name: &str,
    attributes: &Vec<(String, String)>,
) -> (r: Result<(), xml::writer::Error>)
    ensures
        r is Ok,
        layout_of(*final(w)) == layout_of(*old(w)),
        given(*final(w)) == given(*old(w)).push(Event::Open(name@, attributes.deep_view())),
        open_depth(*final(w)) == open_depth(*old(w)) + 1,
{
    let mut start = XmlEvent::start_element(name);
    for pair in attributes {
        start = start.attr(pair.0.as_str(), pair.1.as_str());
    }
    w.inner.write(start)
}

/// `EventWriter::write` with `XmlEvent::Characters`. Writing to a byte
/// vector cannot fail, and the emitter refuses no character data, so the
/// call succeeds; the stack of open elements stays as it is.
#[verifier::external_body]
pub(crate) fn write_text(w: &mut Writer, text: &str) -> (r: Result<(), xml::writer::Error>)
    ensures
        r is Ok,
        layout_of(*final(w)) == layout_of(*old(w)),
        given(*final(w)) == given(*old(w)).push(Event::Text(text@)),
        open_depth(*final(w)) == open_depth(*old(w)),
{
    w.inner.write(XmlEvent::Characters(text))
}

/// `EventWriter::write` with `XmlEvent::end_element`. An emitter that
/// keeps the names of its open elements fails only where none is open,
/// which `requires` leaves out; it pops the innermost name off its stack.
#[verifier::external_body]
pub(crate) fn write_close(w: &mut Writer) -> (r: Result<(), xml::writer::Error>)
    requires
        open_depth(*old(w)) > 0,
    ensures
        r is Ok,
        layout_of(*final(w)) == layout_of(*old(w)),
        given(*final(w)) == given(*old(w)).push(Event::Close),
        open_depth(*final(w)) == open_depth(*old(w)) - 1,
{
    w.inner.write(XmlEvent::end_element())
}

/// `EventWriter::into_inner`: the byte vector that the writer wrote to.
/// What it holds depends on nothing but the writer's settings and the
/// events that it was given.
#[verifier::external_body]
pub(crate) fn into_bytes(w: Writer) -> (r: Vec<u8>)
    ensures
        r@ == text_of(layout_of(w), given(w)),
{
    w.inner.into_inner()
}

} // verus!
