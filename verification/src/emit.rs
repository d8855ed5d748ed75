//! Writing an element tree as XML text.
//!
//! This module decides which events the writer is given, and in which
//! order: for each element its start tag, its content, its end tag, with
//! character data and attribute values escaped. The text itself is laid out
//! by the writer.

use vstd::prelude::*;
use vstd::string::StringSliceAdditionalSpecFns;
use crate::document::nodes_of;
use crate::document::Body;
use crate::document::Content;
use crate::document::Element;
use crate::document::Node;
use crate::escape::escape_text;
use crate::escape::escaped;
use crate::escape::is_escaped_text;
use crate::escape::lemma_escaped_is_escaped_text;
use crate::writer::given;
use crate::writer::into_bytes;
use crate::writer::layout_of;
use crate::writer::new_writer;
use crate::writer::open_depth;
use crate::writer::text_of;
use crate::writer::write_close;
use crate::writer::write_open;
use crate::writer::write_text;
use crate::writer::Event;
use crate::writer::Layout;
use crate::writer::Writer;

verus! {

/// The attributes as a start tag holds them: each value escaped.
pub open spec fn escaped_attributes(attributes: Seq<(Seq<char>, Seq<char>)>) -> Seq<(Seq<char>, Seq<char>)> {
    attributes.map_values(|a: (Seq<char>, Seq<char>)| (a.0, escaped(a.1)))
}

/// The events of one element: its start tag, its content, its end tag.
/// Attribute values and character data are escaped.
pub open spec fn node_events(n: Node) -> Seq<Event>
    decreases n,
{
    seq![Event::Open(n.name, escaped_attributes(n.attributes))] + match n.body {
        Body::Empty => Seq::empty(),
        Body::Text(t) => seq![Event::Text(escaped(t))],
        Body::Children(cs) => nodes_events(cs),
    } + seq![Event::Close]
}

/// The events of a run of sibling elements, in order.
pub open spec fn nodes_events(ns: Seq<Node>) -> Seq<Event>
    decreases ns,
{
    if ns.len() == 0 {
        Seq::empty()
    } else {
        nodes_events(ns.drop_last()) + node_events(ns.last())
    }
}

/// The two lines that every document starts with: the XML declaration and
/// the document type of a property list.
pub const PROLOGUE: &'static str =
    "<?xml version=\"1.0\" encoding=\"UTF-8\"?>\n<!DOCTYPE plist PUBLIC \"-//Apple//DTD PLIST 1.0//EN\" \"http://www.apple.com/DTDs/PropertyList-1.0.dtd\">\n";

/// The bytes of a document: the prologue, then what a writer with the
/// layout of a property list makes of the events of `root`.
pub open spec fn rendering(root: Node) -> Seq<u8> {
    PROLOGUE.spec_bytes() + text_of(plist_layout(), node_events(root))
}

/// The layout of a property list: one element per line, a tab per level.
pub open spec fn plist_layout() -> Layout {
    Layout {
        line_separator: "\n"@,
        indent_string: "\t"@,
        perform_indent: true,
        perform_escaping: false,
        write_document_declaration: false,
        normalize_empty_elements: true,
        cdata_to_characters: true,
    }
}

/// By how much an event changes the number of open elements.
pub open spec fn step(e: Event) -> int {
    match e {
        Event::Open(_, _) => 1,
        Event::Text(_) => 0,
        Event::Close => -1,
    }
}

/// The number of elements that are open after `events`.
pub open spec fn depth_after(events: Seq<Event>) -> int
    decreases events.len(),
{
    if events.len() == 0 {
        0
    } else {
        depth_after(events.drop_last()) + step(events.last())
    }
}

/// Whether every end tag of `events` closes an element that a start tag
/// before it opened, and none stays open.
pub open spec fn well_nested(events: Seq<Event>) -> bool {
    &&& depth_after(events) == 0
    &&& forall|k: int| 0 <= k <= events.len() ==> depth_after(#[trigger] events.take(k)) >= 0
}

/// Whether `events` is one element: well nested, with the element open
/// from the first event to the last.
pub open spec fn one_element(events: Seq<Event>) -> bool {
    &&& events.len() >= 2
    &&& events[0] is Open
    &&& events.last() is Close
    &&& depth_after(events) == 0
    &&& forall|k: int| 0 < k < events.len() ==> depth_after(#[trigger] events.take(k)) > 0
}

proof fn lemma_depth_after_one(e: Event)
    ensures
        depth_after(seq![e]) == step(e),
{
    assert(depth_after(seq![e].drop_last()) == 0);
}

proof fn lemma_depth_after_concat(a: Seq<Event>, b: Seq<Event>)
    ensures
        depth_after(a + b) == depth_after(a) + depth_after(b),
    decreases b.len(),
{
    if b.len() > 0 {
        lemma_depth_after_concat(a, b.drop_last());
        assert((a + b).drop_last() =~= a + b.drop_last());
    }
}

proof fn lemma_well_nested_concat(a: Seq<Event>, b: Seq<Event>)
    requires
        well_nested(a),
        well_nested(b),
    ensures
        well_nested(a + b),
{
    lemma_depth_after_concat(a, b);
    assert forall|k: int| 0 <= k <= (a + b).len() implies depth_after(#[trigger] (a + b).take(k)) >= 0 by {
        if k <= a.len() {
            assert((a + b).take(k) =~= a.take(k));
        } else {
            assert((a + b).take(k) =~= a + b.take(k - a.len()));
            lemma_depth_after_concat(a, b.take(k - a.len()));
        }
    }
}

proof fn lemma_tags_around(open: Event, inner: Seq<Event>)
    requires
        open is Open,
        well_nested(inner),
    ensures
        one_element(seq![open] + inner + seq![Event::Close]),
{
    let head = seq![open];
    let tail = seq![Event::Close];
    let all = head + inner + tail;
    lemma_depth_after_one(open);
    lemma_depth_after_one(Event::Close);
    lemma_depth_after_concat(head, inner);
    lemma_depth_after_concat(head + inner, tail);
    assert forall|k: int| 0 < k < all.len() implies depth_after(#[trigger] all.take(k)) > 0 by {
        assert(all.take(k) =~= head + inner.take(k - 1));
        lemma_depth_after_concat(head, inner.take(k - 1));
    }
}

/// The events of an element are one element: its tags match, and so do
/// those of everything inside it.
pub proof fn lemma_node_events_one_element(n: Node)
    ensures
        one_element(node_events(n)),
    decreases n, 1int,
{
    let inner = match n.body {
        Body::Empty => Seq::empty(),
        Body::Text(t) => seq![Event::Text(escaped(t))],
        Body::Children(cs) => nodes_events(cs),
    };
    match n.body {
        Body::Empty => {},
        Body::Text(t) => {
            lemma_depth_after_one(Event::Text(escaped(t)));
            assert forall|k: int| 0 <= k <= inner.len() implies depth_after(#[trigger] inner.take(k)) >= 0 by {
                if k > 0 {
                    assert(inner.take(k) =~= inner);
                }
            }
        },
        Body::Children(cs) => {
            lemma_nodes_events_well_nested(cs);
        },
    }
    lemma_tags_around(Event::Open(n.name, escaped_attributes(n.attributes)), inner);
}

/// The events of a run of elements are well nested.
pub proof fn lemma_nodes_events_well_nested(ns: Seq<Node>)
    ensures
        well_nested(nodes_events(ns)),
    decreases ns, 0int,
{
    if ns.len() > 0 {
        lemma_nodes_events_well_nested(ns.drop_last());
        lemma_node_events_one_element(ns.last());
        lemma_one_element_is_well_nested(node_events(ns.last()));
        lemma_well_nested_concat(nodes_events(ns.drop_last()), node_events(ns.last()));
    }
}

/// One element is well nested.
pub proof fn lemma_one_element_is_well_nested(events: Seq<Event>)
    requires
        one_element(events),
    ensures
        well_nested(events),
{
    assert forall|k: int| 0 <= k <= events.len() implies depth_after(#[trigger] events.take(k)) >= 0 by {
        if k == events.len() {
            assert(events.take(k) =~= events);
        }
    }
}

/// Whether the character data of `e` and each of its attribute values is
/// escaped text.
pub open spec fn event_is_escaped(e: Event) -> bool {
    match e {
        Event::Open(_, attributes) => forall|j: int|
            0 <= j < attributes.len() ==> is_escaped_text(#[trigger] attributes[j].1),
        Event::Text(t) => is_escaped_text(t),
        Event::Close => true,
    }
}

/// Whether all character data and all attribute values of `events` are
/// escaped text.
pub open spec fn text_is_escaped(events: Seq<Event>) -> bool {
    forall|i: int| 0 <= i < events.len() ==> event_is_escaped(#[trigger] events[i])
}

/// Neither the character data of an element nor its attribute values can
/// be read as markup, and the same holds of everything inside it.
pub proof fn lemma_node_text_is_escaped(n: Node)
    ensures
        text_is_escaped(node_events(n)),
    decreases n, 1int,
{
    assert forall|j: int| 0 <= j < n.attributes.len() implies is_escaped_text(
        #[trigger] escaped_attributes(n.attributes)[j].1,
    ) by {
        lemma_escaped_is_escaped_text(n.attributes[j].1);
    }
    match n.body {
        Body::Empty => {},
        Body::Text(t) => {
            lemma_escaped_is_escaped_text(t);
        },
        Body::Children(cs) => {
            lemma_nodes_text_is_escaped(cs);
        },
    }
}

/// No text of a run of elements can be read as markup.
pub proof fn lemma_nodes_text_is_escaped(ns: Seq<Node>)
    ensures
        text_is_escaped(nodes_events(ns)),
    decreases ns, 0int,
{
    if ns.len() > 0 {
        lemma_nodes_text_is_escaped(ns.drop_last());
        lemma_node_text_is_escaped(ns.last());
    }
}

/// A document starts with the prologue, whatever its root element is.
pub proof fn lemma_rendering_begins_with_prologue(root: Node)
    ensures
        rendering(root).len() >= PROLOGUE.spec_bytes().len(),
        rendering(root).take(PROLOGUE.spec_bytes().len() as int) == PROLOGUE.spec_bytes(),
{
}

/// Takes the result of a write that cannot have failed.
fn succeeded(r: Result<(), xml::writer::Error>)
    requires
        r is Ok,
{
    match r {
        Ok(_) => {},
        Err(_) => vstd::pervasive::unreached(),
    }
}

/// A writer with the layout of a property list and nothing written.
pub fn plist_writer() -> (w: Writer)
    ensures
        layout_of(w) == plist_layout(),
        given(w) == Seq::<Event>::empty(),
        open_depth(w) == 0,
{
    new_writer("\n", "\t", true, false, false, true, true)
}

/// The bytes that `w` has written.
pub fn finish(w: Writer) -> (out: Vec<u8>)
    ensures
        out@ == text_of(layout_of(w), given(w)),
{
    into_bytes(w)
}

/// Writes `text` as character data, escaped.
pub fn write_chars(w: &mut Writer, text: &str)
    ensures
        layout_of(*final(w)) == layout_of(*old(w)),
        given(*final(w)) == given(*old(w)).push(Event::Text(escaped(text@))),
        open_depth(*final(w)) == open_depth(*old(w)),
{
    let safe = escape_text(text);
    succeeded(write_text(w, safe.as_str()));
}

/// The attributes with each value escaped.
fn escape_attributes(attributes: &Vec<(String, String)>) -> (safe: Vec<(String, String)>)
    ensures
        safe.deep_view() == escaped_attributes(attributes.deep_view()),
{
    let ghost all = attributes.deep_view();
    let mut safe: Vec<(String, String)> = Vec::new();
    let mut i: usize = 0;
    while i < attributes.len()
        invariant
            i <= attributes.len(),
            all == attributes.deep_view(),
            safe.deep_view() == escaped_attributes(all.take(i as int)),
        decreases attributes.len() - i,
    {
        let ghost before = safe.deep_view();
        let pair = (attributes[i].0.clone(), escape_text(attributes[i].1.as_str()));
        safe.push(pair);
        assert(safe.deep_view() =~= before.push((all[i as int].0, escaped(all[i as int].1))));
        i += 1;
    }
    safe
}

/// Writes `element`: its start tag first, then its content, its end tag
/// last.
pub fn write_element(w: &mut Writer, element: &Element)
    ensures
        layout_of(*final(w)) == layout_of(*old(w)),
        given(*final(w)) == given(*old(w)) + node_events(element@),
        open_depth(*final(w)) == open_depth(*old(w)),
    decreases element,
{
    let attributes = escape_attributes(&element.attributes);
    succeeded(write_open(w, element.name.as_str(), &attributes));
    let ghost opened = *w;
    match &element.content {
        Content::Empty => {},
        Content::Text(t) => {
            write_chars(w, t.as_str());
        },
        Content::Children(children) => {
            let mut i: usize = 0;
            while i < children.len()
                invariant
                    i <= children.len(),
                    element.content == Content::Children(*children),
                    layout_of(*w) == layout_of(opened),
                    given(*w) == given(opened) + nodes_events(nodes_of(children@.take(i as int))),
                    open_depth(*w) == open_depth(opened),
                decreases children.len() - i,
            {
                proof {
                    vstd::std_specs::vec::axiom_vec_index_decreases(*children, i as int);
                    assert(decreases_to!(element.content => element.content->Children_0));
                }
                let ghost done = nodes_of(children@.take(i as int));
                write_element(w, &children[i]);
                proof {
                    let next = children@.take(i as int + 1);
                    assert(next.drop_last() =~= children@.take(i as int));
                    assert(nodes_of(next).drop_last() =~= done);
                }
                i += 1;
            }
            assert(children@.take(i as int) =~= children@);
        },
    }
    succeeded(write_close(w));
}

/// Writes the document with the root element `root`: the prologue, then
/// the element tree, one element per line.
pub fn render(root: &Element) -> (out: Vec<u8>)
    ensures
        out@ == rendering(root@),
{
    let mut w = plist_writer();
    write_element(&mut w, root);
    let body = finish(w);
    let mut out: Vec<u8> = Vec::new();
    out.extend_from_slice(PROLOGUE.as_bytes());
    out.extend_from_slice(body.as_slice());
    out
}

} // verus!
