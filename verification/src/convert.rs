//! From a label and a command line to the bytes of a service definition.
//!
//! Where the command line holds several simple commands, their words go
//! into one list of program arguments and their assignments into one set of
//! environment variables, each in source order: a definition has one slot
//! for either.

use vstd::prelude::*;
use vstd::string::StringSliceAdditionalSpecFns;
use crate::document::build_document;
use crate::document::definition;
use crate::document::definition_entries;
use crate::document::flag_entries;
use crate::document::key_node;
use crate::document::string_node;
use crate::emit::lemma_node_events_one_element;
use crate::emit::lemma_node_text_is_escaped;
use crate::emit::lemma_rendering_begins_with_prologue;
use crate::emit::node_events;
use crate::emit::one_element;
use crate::emit::PROLOGUE;
use crate::emit::render;
use crate::emit::rendering;
use crate::emit::text_is_escaped;
use crate::shell::all_or_first;
use crate::shell::Descriptor;
use crate::shell::DescriptorView;
use crate::shell::extract_terms;
use crate::shell::ExtractError;
use crate::shell::extraction;
use crate::shell::is_literal_command;
use crate::shell::lemma_all_or_first;
use crate::shell::lemma_described_terms;
use crate::shell::term_descriptor;
use crate::shell::views;
use crate::syntax::parsed_terms;
use crate::syntax::TermSyntax;

verus! {

/// The words of all descriptors, in order.
pub open spec fn all_words(ds: Seq<DescriptorView>) -> Seq<Seq<char>>
    decreases ds.len(),
{
    if ds.len() == 0 {
        Seq::empty()
    } else {
        all_words(ds.drop_last()) + ds.last().words
    }
}

/// The variables of all descriptors, in order.
pub open spec fn all_variables(ds: Seq<DescriptorView>) -> Seq<(Seq<char>, Seq<char>)>
    decreases ds.len(),
{
    if ds.len() == 0 {
        Seq::empty()
    } else {
        all_variables(ds.drop_last()) + ds.last().env_vars
    }
}

/// The bytes of the definition of a service that runs the commands `ds`.
pub open spec fn definition_bytes(
    label: Seq<char>,
    ds: Seq<DescriptorView>,
    run_at_load: bool,
    keepalive: bool,
) -> Seq<u8> {
    rendering(definition(label, all_words(ds), all_variables(ds), run_at_load, keepalive))
}

/// What a label, a command line and the two flags are converted to: the
/// bytes of a definition where the command line is accepted, else the
/// error.
pub open spec fn conversion(
    label: Seq<char>,
    cmd: Seq<char>,
    run_at_load: bool,
    keepalive: bool,
) -> Result<Seq<u8>, ExtractError> {
    match extraction(parsed_terms(cmd)) {
        Ok(ds) => Ok(definition_bytes(label, ds, run_at_load, keepalive)),
        Err(e) => Err(e),
    }
}

/// Whether `r` is what `expected` says, a success taken by its value.
pub open spec fn converted(
    r: Result<Vec<u8>, ExtractError>,
    expected: Result<Seq<u8>, ExtractError>,
) -> bool {
    match r {
        Ok(bytes) => expected == Ok::<Seq<u8>, ExtractError>(bytes@),
        Err(e) => expected == Err::<Seq<u8>, ExtractError>(e),
    }
}

/// Every definition starts with the prologue.
pub proof fn lemma_definition_begins_with_prologue(
    label: Seq<char>,
    ds: Seq<DescriptorView>,
    run_at_load: bool,
    keepalive: bool,
)
    ensures
        definition_bytes(label, ds, run_at_load, keepalive).len() >= PROLOGUE.spec_bytes().len(),
        definition_bytes(label, ds, run_at_load, keepalive).take(PROLOGUE.spec_bytes().len() as int)
            == PROLOGUE.spec_bytes(),
{
    lemma_rendering_begins_with_prologue(
        definition(label, all_words(ds), all_variables(ds), run_at_load, keepalive),
    );
}

/// The events of every definition are those of one element, with every
/// end tag matching a start tag, and no text in them can be read as markup.
pub proof fn lemma_definition_is_well_formed(
    label: Seq<char>,
    ds: Seq<DescriptorView>,
    run_at_load: bool,
    keepalive: bool,
)
    ensures
        one_element(node_events(definition(label, all_words(ds), all_variables(ds), run_at_load, keepalive))),
        text_is_escaped(
            node_events(definition(label, all_words(ds), all_variables(ds), run_at_load, keepalive)),
        ),
{
    let root = definition(label, all_words(ds), all_variables(ds), run_at_load, keepalive);
    lemma_node_events_one_element(root);
    lemma_node_text_is_escaped(root);
}

/// The label comes first, whatever follows it.
pub proof fn lemma_label_comes_first(
    label: Seq<char>,
    words: Seq<Seq<char>>,
    env_vars: Seq<(Seq<char>, Seq<char>)>,
    run_at_load: bool,
    keepalive: bool,
)
    ensures
        definition_entries(label, words, env_vars, run_at_load, keepalive).len() >= 2,
        definition_entries(label, words, env_vars, run_at_load, keepalive)[0] == key_node("Label"@),
        definition_entries(label, words, env_vars, run_at_load, keepalive)[1] == string_node(label),
{
}

/// The pairs of the two flags come after everything else, `RunAtLoad`
/// before `KeepAlive`.
pub proof fn lemma_flags_come_last(
    label: Seq<char>,
    words: Seq<Seq<char>>,
    env_vars: Seq<(Seq<char>, Seq<char>)>,
    run_at_load: bool,
    keepalive: bool,
)
    ensures
        definition_entries(label, words, env_vars, run_at_load, keepalive) == definition_entries(
            label,
            words,
            env_vars,
            false,
            false,
        ) + flag_entries("RunAtLoad"@, run_at_load) + flag_entries("KeepAlive"@, keepalive),
{
    assert(definition_entries(label, words, env_vars, run_at_load, keepalive) =~= definition_entries(
        label,
        words,
        env_vars,
        false,
        false,
    ) + flag_entries("RunAtLoad"@, run_at_load) + flag_entries("KeepAlive"@, keepalive));
}

/// A command line is converted exactly where each of its terms is a simple
/// command of literals. Where one is not, be it a pipeline or a command
/// with a word that is expanded, there is no document.
pub proof fn lemma_converted_where_all_terms_are_literal(
    label: Seq<char>,
    cmd: Seq<char>,
    run_at_load: bool,
    keepalive: bool,
)
    ensures
        conversion(label, cmd, run_at_load, keepalive) is Ok <==> forall|i: int|
            0 <= i < parsed_terms(cmd).len() ==> is_literal_command(#[trigger] parsed_terms(cmd)[i]),
{
    let terms = parsed_terms(cmd);
    let results = terms.map_values(|t: Option<TermSyntax>| term_descriptor(t));
    lemma_all_or_first(results);
    assert forall|i: int| 0 <= i < terms.len() implies (#[trigger] results[i] is Ok <==> is_literal_command(
        terms[i],
    )) by {
        lemma_described_terms(terms[i]);
    }
    if all_or_first(results) is Ok {
        assert forall|i: int| 0 <= i < terms.len() implies is_literal_command(#[trigger] terms[i]) by {
            assert(results[i] is Ok);
        }
    }
}

/// Two conversions of the same arguments end alike: in the same bytes, or
/// in the same error.
pub proof fn lemma_conversion_is_repeatable(
    label: Seq<char>,
    cmd: Seq<char>,
    run_at_load: bool,
    keepalive: bool,
    first: Result<Vec<u8>, ExtractError>,
    second: Result<Vec<u8>, ExtractError>,
)
    requires
        converted(first, conversion(label, cmd, run_at_load, keepalive)),
        converted(second, conversion(label, cmd, run_at_load, keepalive)),
    ensures
        match first {
            Ok(bytes) => second is Ok && second->Ok_0@ == bytes@,
            Err(e) => second == Err::<Vec<u8>, ExtractError>(e),
        },
{
}

/// The words and the variables of all descriptors, in order.
pub fn merge(descriptors: &Vec<Descriptor>) -> (r: (Vec<String>, Vec<(String, String)>))
    ensures
        r.0.deep_view() == all_words(views(descriptors@)),
        r.1.deep_view() == all_variables(views(descriptors@)),
{
    let ghost ds = views(descriptors@);
    let mut words: Vec<String> = Vec::new();
    let mut env_vars: Vec<(String, String)> = Vec::new();
    let mut i: usize = 0;
    while i < descriptors.len()
        invariant
            i <= descriptors.len(),
            ds == views(descriptors@),
            words.deep_view() == all_words(ds.take(i as int)),
            env_vars.deep_view() == all_variables(ds.take(i as int)),
        decreases descriptors.len() - i,
    {
        let d = &descriptors[i];
        let ghost words_before = words.deep_view();
        let ghost vars_before = env_vars.deep_view();
        assert(ds.take(i as int + 1).drop_last() =~= ds.take(i as int));
        let mut j: usize = 0;
        while j < d.words.len()
            invariant
                j <= d.words.len(),
                words.deep_view() == words_before + d@.words.take(j as int),
            decreases d.words.len() - j,
        {
            let ghost before = words.deep_view();
            let word = d.words[j].clone();
            words.push(word);
            assert(words.deep_view() =~= before.push(d@.words[j as int]));
            j += 1;
        }
        let mut k: usize = 0;
        while k < d.env_vars.len()
            invariant
                k <= d.env_vars.len(),
                env_vars.deep_view() == vars_before + d@.env_vars.take(k as int),
            decreases d.env_vars.len() - k,
        {
            let ghost before = env_vars.deep_view();
            let pair = (d.env_vars[k].0.clone(), d.env_vars[k].1.clone());
            env_vars.push(pair);
            assert(env_vars.deep_view() =~= before.push(d@.env_vars[k as int]));
            k += 1;
        }
        i += 1;
    }
    assert(ds.take(i as int) =~= ds);
    (words, env_vars)
}

/// The definition of a service with the given label that runs the given
/// commands: the bytes of its document.
pub fn service_definition(
    label: &str,
    descriptors: &Vec<Descriptor>,
    run_at_load: bool,
    keepalive: bool,
) -> (out: Vec<u8>)
    ensures
        out@ == definition_bytes(label@, views(descriptors@), run_at_load, keepalive),
{
    let (words, env_vars) = merge(descriptors);
    let doc = build_document(label, &words, &env_vars, run_at_load, keepalive);
    render(&doc)
}

/// Converts a label and a command line to the definition of a service.
/// Where the command line is refused, there is no document, only the
/// error.
pub fn convert(
    label: &str,
    cmd: &str,
    run_at_load: bool,
    keepalive: bool,
) -> (r: Result<Vec<u8>, ExtractError>)
    ensures
        converted(r, conversion(label@, cmd@, run_at_load, keepalive)),
{
    match extract_terms(cmd) {
        Ok(descriptors) => Ok(service_definition(label, &descriptors, run_at_load, keepalive)),
        Err(e) => Err(e),
    }
}

} // verus!
