//! The element tree of a service definition.
//!
//! A definition is a `plist` element around one `dict`. The `dict` holds
//! pairs of a `key` element and a value element, always in the same order:
//! the label, the program arguments if there are any, the environment
//! variables if there are any, then the two flags that were asked for.

use vstd::prelude::*;

verus! {

/// An element: a name, attributes in order, and content.
#[derive(Debug, PartialEq, Eq)]
pub struct Element {
    pub name: String,
    pub attributes: Vec<(String, String)>,
    pub content: Content,
}

/// What an element holds between its tags.
#[derive(Debug, PartialEq, Eq)]
pub enum Content {
    /// Nothing at all.
    Empty,
    /// Character data, not yet escaped.
    Text(String),
    /// Elements, in order.
    Children(Vec<Element>),
}

/// The mathematical value of an [`Element`].
pub ghost struct Node {
    pub name: Seq<char>,
    pub attributes: Seq<(Seq<char>, Seq<char>)>,
    pub body: Body,
}

/// The mathematical value of a [`Content`].
pub ghost enum Body {
    Empty,
    Text(Seq<char>),
    Children(Seq<Node>),
}

/// The value of one element.
pub open spec fn node_of(e: Element) -> Node
    decreases e,
{
    Node {
        name: e.name@,
        attributes: e.attributes.deep_view(),
        body: match e.content {
            Content::Empty => Body::Empty,
            Content::Text(t) => Body::Text(t@),
            Content::Children(cs) => Body::Children(nodes_of(cs@)),
        },
    }
}

/// The values of a run of elements, in order.
pub open spec fn nodes_of(es: Seq<Element>) -> Seq<Node>
    decreases es,
{
    if es.len() == 0 {
        Seq::empty()
    } else {
        nodes_of(es.drop_last()).push(node_of(es.last()))
    }
}

impl View for Element {
    type V = Node;

    open spec fn view(&self) -> Node {
        node_of(*self)
    }
}

/// An element without attributes that holds `text`.
pub open spec fn text_node(name: Seq<char>, text: Seq<char>) -> Node {
    Node { name, attributes: Seq::empty(), body: Body::Text(text) }
}

/// An element without attributes that holds nothing.
pub open spec fn empty_node(name: Seq<char>) -> Node {
    Node { name, attributes: Seq::empty(), body: Body::Empty }
}

/// An element that holds `children`.
pub open spec fn parent_node(
    name: Seq<char>,
    attributes: Seq<(Seq<char>, Seq<char>)>,
    children: Seq<Node>,
) -> Node {
    Node { name, attributes, body: Body::Children(children) }
}

/// A `key` element.
pub open spec fn key_node(text: Seq<char>) -> Node {
    text_node("key"@, text)
}

/// A `string` element.
pub open spec fn string_node(text: Seq<char>) -> Node {
    text_node("string"@, text)
}

/// One `string` element for each word, in order.
pub open spec fn string_nodes(words: Seq<Seq<char>>) -> Seq<Node>
    decreases words.len(),
{
    if words.len() == 0 {
        Seq::empty()
    } else {
        string_nodes(words.drop_last()).push(string_node(words.last()))
    }
}

/// For each variable, in order, a `key` element with its name and a
/// `string` element with its value.
pub open spec fn variable_nodes(env_vars: Seq<(Seq<char>, Seq<char>)>) -> Seq<Node>
    decreases env_vars.len(),
{
    if env_vars.len() == 0 {
        Seq::empty()
    } else {
        variable_nodes(env_vars.drop_last()).push(key_node(env_vars.last().0)).push(
            string_node(env_vars.last().1),
        )
    }
}

/// The pair for the program arguments: none where there is no word.
pub open spec fn argument_entries(words: Seq<Seq<char>>) -> Seq<Node> {
    if words.len() > 0 {
        seq![key_node("ProgramArguments"@), parent_node("array"@, Seq::empty(), string_nodes(words))]
    } else {
        Seq::empty()
    }
}

/// The pair for the environment variables: none where there is no variable.
pub open spec fn environment_entries(env_vars: Seq<(Seq<char>, Seq<char>)>) -> Seq<Node> {
    if env_vars.len() > 0 {
        seq![key_node("EnvironmentVariables"@), parent_node("dict"@, Seq::empty(), variable_nodes(env_vars))]
    } else {
        Seq::empty()
    }
}

/// The pair for a flag: a `key` element with its name and a `true` element
/// where it is set, nothing where it is not.
pub open spec fn flag_entries(name: Seq<char>, set: bool) -> Seq<Node> {
    if set {
        seq![key_node(name), empty_node("true"@)]
    } else {
        Seq::empty()
    }
}

/// The children of the `dict` element, in their fixed order.
pub open spec fn definition_entries(
    label: Seq<char>,
    words: Seq<Seq<char>>,
    env_vars: Seq<(Seq<char>, Seq<char>)>,
    run_at_load: bool,
    keepalive: bool,
) -> Seq<Node> {
    seq![key_node("Label"@), string_node(label)] + argument_entries(words) + environment_entries(env_vars)
        + flag_entries("RunAtLoad"@, run_at_load) + flag_entries("KeepAlive"@, keepalive)
}

/// The whole document of a service definition.
pub open spec fn definition(
    label: Seq<char>,
    words: Seq<Seq<char>>,
    env_vars: Seq<(Seq<char>, Seq<char>)>,
    run_at_load: bool,
    keepalive: bool,
) -> Node {
    parent_node(
        "plist"@,
        seq![("version"@, "1.0"@)],
        seq![
            parent_node(
                "dict"@,
                Seq::empty(),
                definition_entries(label, words, env_vars, run_at_load, keepalive),
            ),
        ],
    )
}

/// Appends `e` to `children`.
fn push_child(children: &mut Vec<Element>, e: Element)
    ensures
        final(children)@ == old(children)@.push(e),
        nodes_of(final(children)@) == nodes_of(old(children)@).push(e@),
{
    children.push(e);
    assert(children@.drop_last() =~= old(children)@);
}

/// An empty list of attributes.
fn no_attributes() -> (attributes: Vec<(String, String)>)
    ensures
        attributes.deep_view() == Seq::<(Seq<char>, Seq<char>)>::empty(),
{
    Vec::new()
}

/// An element named `name`, without attributes, that holds `text`.
pub fn text_element(name: &str, text: &str) -> (e: Element)
    ensures
        e@ == text_node(name@, text@),
{
    Element { name: name.to_string(), attributes: no_attributes(), content: Content::Text(text.to_string()) }
}

/// An element named `name`, without attributes, that holds nothing.
pub fn empty_element(name: &str) -> (e: Element)
    ensures
        e@ == empty_node(name@),
{
    Element { name: name.to_string(), attributes: no_attributes(), content: Content::Empty }
}

/// An element named `name` that holds `children`.
pub fn parent_element(name: &str, attributes: Vec<(String, String)>, children: Vec<Element>) -> (e: Element)
    ensures
        e@ == parent_node(name@, attributes.deep_view(), nodes_of(children@)),
{
    Element { name: name.to_string(), attributes, content: Content::Children(children) }
}

/// One `string` element for each word.
fn string_elements(words: &Vec<String>) -> (children: Vec<Element>)
    ensures
        nodes_of(children@) == string_nodes(words.deep_view()),
{
    let ghost all = words.deep_view();
    let mut children: Vec<Element> = Vec::new();
    let mut i: usize = 0;
    while i < words.len()
        invariant
            i <= words.len(),
            all == words.deep_view(),
            nodes_of(children@) == string_nodes(all.take(i as int)),
        decreases words.len() - i,
    {
        push_child(&mut children, text_element("string", words[i].as_str()));
        assert(all.take(i as int + 1).drop_last() =~= all.take(i as int));
        i += 1;
    }
    assert(all.take(i as int) =~= all);
    children
}

/// A `key` and a `string` element for each variable.
fn variable_elements(env_vars: &Vec<(String, String)>) -> (children: Vec<Element>)
    ensures
        nodes_of(children@) == variable_nodes(env_vars.deep_view()),
{
    let ghost all = env_vars.deep_view();
    let mut children: Vec<Element> = Vec::new();
    let mut i: usize = 0;
    while i < env_vars.len()
        invariant
            i <= env_vars.len(),
            all == env_vars.deep_view(),
            nodes_of(children@) == variable_nodes(all.take(i as int)),
        decreases env_vars.len() - i,
    {
        push_child(&mut children, text_element("key", env_vars[i].0.as_str()));
        push_child(&mut children, text_element("string", env_vars[i].1.as_str()));
        assert(all.take(i as int + 1).drop_last() =~= all.take(i as int));
        i += 1;
    }
    assert(all.take(i as int) =~= all);
    children
}

/// Appends the pair of a flag that is set.
fn push_flag(entries: &mut Vec<Element>, name: &str, set: bool)
    ensures
        nodes_of(final(entries)@) == nodes_of(old(entries)@) + flag_entries(name@, set),
{
    if set {
        push_child(entries, text_element("key", name));
        push_child(entries, empty_element("true"));
    }
}

/// Builds the document of a service definition: the label, the words of
/// the command, its environment variables, and the two flags.
pub fn build_document(
    label: &str,
    words: &Vec<String>,
    env_vars: &Vec<(String, String)>,
    run_at_load: bool,
    keepalive: bool,
) -> (doc: Element)
    ensures
        doc@ == definition(label@, words.deep_view(), env_vars.deep_view(), run_at_load, keepalive),
{
    let ghost w = words.deep_view();
    let ghost v = env_vars.deep_view();
    let mut entries: Vec<Element> = Vec::new();
    push_child(&mut entries, text_element("key", "Label"));
    push_child(&mut entries, text_element("string", label));
    assert(nodes_of(entries@) =~= seq![key_node("Label"@), string_node(label@)]);
    let ghost head = nodes_of(entries@);
    if words.len() > 0 {
        push_child(&mut entries, text_element("key", "ProgramArguments"));
        push_child(&mut entries, parent_element("array", no_attributes(), string_elements(words)));
    }
    if env_vars.len() > 0 {
        push_child(&mut entries, text_element("key", "EnvironmentVariables"));
        push_child(&mut entries, parent_element("dict", no_attributes(), variable_elements(env_vars)));
    }
    assert(nodes_of(entries@) =~= head + argument_entries(w) + environment_entries(v));
    push_flag(&mut entries, "RunAtLoad", run_at_load);
    push_flag(&mut entries, "KeepAlive", keepalive);
    let dict = parent_element("dict", no_attributes(), entries);
    let mut top: Vec<Element> = Vec::new();
    push_child(&mut top, dict);
    let mut version: Vec<(String, String)> = no_attributes();
    version.push(("version".to_string(), "1.0".to_string()));
    assert(version.deep_view() =~= seq![("version"@, "1.0"@)]);
    parent_element("plist", version, top)
}

} // verus!
