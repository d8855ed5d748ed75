//! Reading a command line as a sequence of simple commands.
//!
//! Of what the parser finds only a narrow part is accepted here: each
//! top-level term has to be one simple command, and each of its words and
//! each value that it assigns has to be one literal. Anything else is an
//! error that says what was found and where.

use vstd::prelude::*;
use crate::syntax::argument_shape;
use crate::syntax::argument_syntax;
use crate::syntax::arguments_syntax;
use crate::syntax::assignment_shape;
use crate::syntax::assignment_syntax;
use crate::syntax::assignments_syntax;
use crate::syntax::parse_terms;
use crate::syntax::parsed_terms;
use crate::syntax::term_shape;
use crate::syntax::terms_syntax;
use crate::syntax::word_shape;
use crate::syntax::word_syntax;
use crate::syntax::yielded_syntax;
use crate::syntax::Argument;
use crate::syntax::ArgumentShape;
use crate::syntax::ArgumentSyntax;
use crate::syntax::Assignment;
use crate::syntax::AssignmentShape;
use crate::syntax::AssignmentSyntax;
use crate::syntax::ParsedWord;
use crate::syntax::Term;
use crate::syntax::TermShape;
use crate::syntax::TermSyntax;
use crate::syntax::WordShape;
use crate::syntax::WordSyntax;

verus! {

/// What is found where a literal simple command was expected.
#[derive(Debug, Clone, Copy, PartialEq, Eq, Structural)]
pub enum Construct {
    /// Text that is not shell grammar.
    Syntax,
    Job,
    Pipeline,
    Compound,
    FunctionDef,
    /// A simple command followed by `&&` or `||`.
    CommandList,
    Redirect,
    /// An assignment with nothing behind the `=`.
    EmptyAssignment,
    Escaped,
    Parameter,
    Substitution,
    Star,
    Question,
    SquareOpen,
    SquareClose,
    Tilde,
    Colon,
    DoubleQuoted,
    SingleQuoted,
    Concat,
}

/// Where in a term a construct was found.
#[derive(Debug, Clone, Copy, PartialEq, Eq, Structural)]
pub enum Place {
    /// The term as a whole.
    Term,
    /// The item with this index among those from the command name on.
    Argument(usize),
    /// The item with this index among those before the command name.
    Assignment(usize),
}

/// Why a command line was refused: the first construct outside the
/// accepted part of the grammar, the index of its term and its place there.
#[derive(Debug, Clone, Copy, PartialEq, Eq, Structural)]
pub struct ExtractError {
    pub term: usize,
    pub place: Place,
    pub construct: Construct,
}

/// A simple command: its words, the command name first, and the variables
/// that it assigns, each with its value, both in source order.
#[derive(Debug, PartialEq, Eq)]
pub struct Descriptor {
    pub words: Vec<String>,
    pub env_vars: Vec<(String, String)>,
}

/// The mathematical value of a [`Descriptor`].
pub ghost struct DescriptorView {
    pub words: Seq<Seq<char>>,
    pub env_vars: Seq<(Seq<char>, Seq<char>)>,
}

impl View for Descriptor {
    type V = DescriptorView;

    open spec fn view(&self) -> DescriptorView {
        DescriptorView { words: self.words.deep_view(), env_vars: self.env_vars.deep_view() }
    }
}

/// The values of a run of descriptors.
pub open spec fn views(ds: Seq<Descriptor>) -> Seq<DescriptorView> {
    ds.map_values(|d: Descriptor| d@)
}

/// The text of a word that is one literal, or what the word is instead.
pub open spec fn word_text(w: WordSyntax) -> Result<Seq<char>, Construct> {
    match w {
        WordSyntax::Literal(text) => Ok(text),
        WordSyntax::Escaped => Err(Construct::Escaped),
        WordSyntax::Parameter => Err(Construct::Parameter),
        WordSyntax::Substitution => Err(Construct::Substitution),
        WordSyntax::Star => Err(Construct::Star),
        WordSyntax::Question => Err(Construct::Question),
        WordSyntax::SquareOpen => Err(Construct::SquareOpen),
        WordSyntax::SquareClose => Err(Construct::SquareClose),
        WordSyntax::Tilde => Err(Construct::Tilde),
        WordSyntax::Colon => Err(Construct::Colon),
        WordSyntax::DoubleQuoted => Err(Construct::DoubleQuoted),
        WordSyntax::SingleQuoted => Err(Construct::SingleQuoted),
        WordSyntax::Concat => Err(Construct::Concat),
    }
}

/// The text of an item that is a literal word.
pub open spec fn argument_text(a: ArgumentSyntax) -> Result<Seq<char>, Construct> {
    match a {
        ArgumentSyntax::Word(w) => word_text(w),
        ArgumentSyntax::Redirect => Err(Construct::Redirect),
    }
}

/// The name and the value of an item that assigns a literal.
pub open spec fn assignment_pair(a: AssignmentSyntax) -> Result<(Seq<char>, Seq<char>), Construct> {
    match a {
        AssignmentSyntax::Variable(name, Some(w)) => match word_text(w) {
            Ok(text) => Ok((name, text)),
            Err(c) => Err(c),
        },
        AssignmentSyntax::Variable(_, None) => Err(Construct::EmptyAssignment),
        AssignmentSyntax::Redirect => Err(Construct::Redirect),
    }
}

/// The values of `results` in order where each is a success, else the
/// index of the first failure and its error.
pub open spec fn all_or_first<T, E>(results: Seq<Result<T, E>>) -> Result<Seq<T>, (int, E)>
    decreases results.len(),
{
    if results.len() == 0 {
        Ok(Seq::empty())
    } else {
        match all_or_first(results.drop_last()) {
            Err(e) => Err(e),
            Ok(values) => match results.last() {
                Ok(v) => Ok(values.push(v)),
                Err(e) => Err((results.len() - 1, e)),
            },
        }
    }
}

/// The texts of `items` in order, or the index of the first that is no
/// literal word and what it is.
pub open spec fn argument_texts(items: Seq<ArgumentSyntax>) -> Result<Seq<Seq<char>>, (int, Construct)> {
    all_or_first(items.map_values(|a: ArgumentSyntax| argument_text(a)))
}

/// The variables of `items` in order, or the index of the first that
/// assigns no literal and what it is.
pub open spec fn assignment_pairs(items: Seq<AssignmentSyntax>) -> Result<
    Seq<(Seq<char>, Seq<char>)>,
    (int, Construct),
> {
    all_or_first(items.map_values(|a: AssignmentSyntax| assignment_pair(a)))
}

/// The descriptor of one term, or the first thing in it that is not
/// accepted: the term itself, then its words in order, then its
/// assignments in order.
pub open spec fn term_descriptor(t: Option<TermSyntax>) -> Result<DescriptorView, (Place, Construct)> {
    match t {
        None => Err((Place::Term, Construct::Syntax)),
        Some(term) => match term {
            TermSyntax::Job => Err((Place::Term, Construct::Job)),
            TermSyntax::Pipeline => Err((Place::Term, Construct::Pipeline)),
            TermSyntax::Compound => Err((Place::Term, Construct::Compound)),
            TermSyntax::FunctionDef => Err((Place::Term, Construct::FunctionDef)),
            TermSyntax::Simple(assignments, arguments, rest) => if rest > 0 {
                Err((Place::Term, Construct::CommandList))
            } else {
                match argument_texts(arguments) {
                    Err((i, c)) => Err((Place::Argument(i as usize), c)),
                    Ok(words) => match assignment_pairs(assignments) {
                        Err((i, c)) => Err((Place::Assignment(i as usize), c)),
                        Ok(env_vars) => Ok(DescriptorView { words, env_vars }),
                    },
                }
            },
        },
    }
}

/// The descriptors of `terms` in order, or the first error.
pub open spec fn extraction(terms: Seq<Option<TermSyntax>>) -> Result<Seq<DescriptorView>, ExtractError> {
    match all_or_first(terms.map_values(|t: Option<TermSyntax>| term_descriptor(t))) {
        Ok(ds) => Ok(ds),
        Err((i, (place, construct))) => Err(ExtractError { term: i as usize, place, construct }),
    }
}

/// Whether `r` is what `expected` says, a success taken by its value.
pub open spec fn extracted(
    r: Result<Vec<Descriptor>, ExtractError>,
    expected: Result<Seq<DescriptorView>, ExtractError>,
) -> bool {
    match r {
        Ok(ds) => expected == Ok::<Seq<DescriptorView>, ExtractError>(views(ds@)),
        Err(e) => expected == Err::<Seq<DescriptorView>, ExtractError>(e),
    }
}

/// The text of `w` where it is one literal.
fn literal_word(w: &ParsedWord) -> (r: Result<String, Construct>)
    ensures
        match r {
            Ok(text) => word_text(word_syntax(*w)) == Ok::<Seq<char>, Construct>(text@),
            Err(c) => word_text(word_syntax(*w)) == Err::<Seq<char>, Construct>(c),
        },
{
    match word_shape(w) {
        WordShape::Literal(text) => Ok(text),
        WordShape::Escaped => Err(Construct::Escaped),
        WordShape::Parameter => Err(Construct::Parameter),
        WordShape::Substitution => Err(Construct::Substitution),
        WordShape::Star => Err(Construct::Star),
        WordShape::Question => Err(Construct::Question),
        WordShape::SquareOpen => Err(Construct::SquareOpen),
        WordShape::SquareClose => Err(Construct::SquareClose),
        WordShape::Tilde => Err(Construct::Tilde),
        WordShape::Colon => Err(Construct::Colon),
        WordShape::DoubleQuoted => Err(Construct::DoubleQuoted),
        WordShape::SingleQuoted => Err(Construct::SingleQuoted),
        WordShape::Concat => Err(Construct::Concat),
    }
}

/// A failure among the first `k` results is the failure of them all.
proof fn lemma_first_failure_stays<T, E>(results: Seq<Result<T, E>>, k: int)
    requires
        0 <= k <= results.len(),
        all_or_first(results.take(k)) is Err,
    ensures
        all_or_first(results) == all_or_first(results.take(k)),
    decreases results.len() - k,
{
    if k < results.len() {
        assert(results.take(k + 1).drop_last() =~= results.take(k));
        lemma_first_failure_stays(results, k + 1);
    } else {
        assert(results.take(k) =~= results);
    }
}

/// One more result after `k` successes: a success joins them, a failure is
/// the first.
proof fn lemma_one_more<T, E>(results: Seq<Result<T, E>>, k: int)
    requires
        0 <= k < results.len(),
        all_or_first(results.take(k)) is Ok,
    ensures
        all_or_first(results.take(k + 1)) == match results[k] {
            Ok(v) => Ok::<Seq<T>, (int, E)>(all_or_first(results.take(k))->Ok_0.push(v)),
            Err(e) => Err::<Seq<T>, (int, E)>((k, e)),
        },
        results[k] is Err ==> all_or_first(results) == Err::<Seq<T>, (int, E)>((k, results[k]->Err_0)),
{
    assert(results.take(k + 1).drop_last() =~= results.take(k));
    if results[k] is Err {
        lemma_first_failure_stays(results, k + 1);
    }
}

/// Success means that every result is a success, and the values are
/// theirs in order. Failure names the first result that is one.
pub proof fn lemma_all_or_first<T, E>(results: Seq<Result<T, E>>)
    ensures
        match all_or_first(results) {
            Ok(values) => {
                &&& values.len() == results.len()
                &&& forall|i: int| 0 <= i < results.len() ==> results[i] == Ok::<T, E>(values[i])
            },
            Err((k, e)) => {
                &&& 0 <= k < results.len()
                &&& results[k] == Err::<T, E>(e)
                &&& forall|i: int| 0 <= i < k ==> results[i] is Ok
            },
        },
    decreases results.len(),
{
    if results.len() > 0 {
        let front = results.drop_last();
        lemma_all_or_first(front);
        match all_or_first(front) {
            Err((k, e)) => {
                assert forall|i: int| 0 <= i < k implies results[i] is Ok by {
                    assert(front[i] == results[i]);
                }
            },
            Ok(values) => match results.last() {
                Ok(v) => {
                    assert forall|i: int| 0 <= i < results.len() implies results[i] == Ok::<T, E>(
                        values.push(v)[i],
                    ) by {
                        if i < front.len() {
                            assert(front[i] == results[i]);
                        }
                    }
                },
                Err(e) => {
                    assert forall|i: int| 0 <= i < results.len() - 1 implies results[i] is Ok by {
                        assert(front[i] == results[i]);
                    }
                },
            },
        }
    }
}

/// Whether `a` is a word that is one literal.
pub open spec fn is_literal_word(a: ArgumentSyntax) -> bool {
    a matches ArgumentSyntax::Word(WordSyntax::Literal(_))
}

/// Whether `a` assigns one literal to a variable.
pub open spec fn is_literal_assignment(a: AssignmentSyntax) -> bool {
    a matches AssignmentSyntax::Variable(_, Some(WordSyntax::Literal(_)))
}

/// Whether `t` is a simple command, with nothing joined to it, whose words
/// and assigned values are literals.
pub open spec fn is_literal_command(t: Option<TermSyntax>) -> bool {
    match t {
        Some(TermSyntax::Simple(assignments, arguments, rest)) => {
            &&& rest == 0
            &&& forall|i: int| 0 <= i < arguments.len() ==> is_literal_word(#[trigger] arguments[i])
            &&& forall|i: int| 0 <= i < assignments.len() ==> is_literal_assignment(#[trigger] assignments[i])
        },
        _ => false,
    }
}

/// A term has a descriptor exactly where it is a simple command of
/// literals.
pub proof fn lemma_described_terms(t: Option<TermSyntax>)
    ensures
        term_descriptor(t) is Ok <==> is_literal_command(t),
{
    match t {
        Some(TermSyntax::Simple(assignments, arguments, rest)) => {
            let texts = arguments.map_values(|a: ArgumentSyntax| argument_text(a));
            let pairs = assignments.map_values(|a: AssignmentSyntax| assignment_pair(a));
            lemma_all_or_first(texts);
            lemma_all_or_first(pairs);
            if rest == 0 {
                if term_descriptor(t) is Ok {
                    assert forall|i: int| 0 <= i < arguments.len() implies is_literal_word(
                        #[trigger] arguments[i],
                    ) by {
                        assert(texts[i] is Ok);
                    }
                    assert forall|i: int| 0 <= i < assignments.len() implies is_literal_assignment(
                        #[trigger] assignments[i],
                    ) by {
                        assert(pairs[i] is Ok);
                    }
                }
            }
        },
        _ => {},
    }
}

/// The descriptor of a term holds the texts of its words and the names and
/// values of its assignments, one for one and in source order.
pub proof fn lemma_descriptor_keeps_source_order(t: Option<TermSyntax>)
    requires
        term_descriptor(t) is Ok,
    ensures
        t matches Some(TermSyntax::Simple(assignments, arguments, _)) && ({
            let d = term_descriptor(t)->Ok_0;
            &&& d.words.len() == arguments.len()
            &&& forall|i: int|
                0 <= i < arguments.len() ==> #[trigger] arguments[i] == ArgumentSyntax::Word(
                    WordSyntax::Literal(d.words[i]),
                )
            &&& d.env_vars.len() == assignments.len()
            &&& forall|i: int|
                0 <= i < assignments.len() ==> #[trigger] assignments[i] == AssignmentSyntax::Variable(
                    d.env_vars[i].0,
                    Some(WordSyntax::Literal(d.env_vars[i].1)),
                )
        }),
{
    match t {
        Some(TermSyntax::Simple(assignments, arguments, rest)) => {
            let texts = arguments.map_values(|a: ArgumentSyntax| argument_text(a));
            let pairs = assignments.map_values(|a: AssignmentSyntax| assignment_pair(a));
            lemma_all_or_first(texts);
            lemma_all_or_first(pairs);
            let d = term_descriptor(t)->Ok_0;
            assert forall|i: int| 0 <= i < arguments.len() implies #[trigger] arguments[i]
                == ArgumentSyntax::Word(WordSyntax::Literal(d.words[i])) by {
                assert(texts[i] == Ok::<Seq<char>, Construct>(d.words[i]));
            }
            assert forall|i: int| 0 <= i < assignments.len() implies #[trigger] assignments[i]
                == AssignmentSyntax::Variable(d.env_vars[i].0, Some(WordSyntax::Literal(d.env_vars[i].1))) by {
                assert(pairs[i] == Ok::<(Seq<char>, Seq<char>), Construct>(d.env_vars[i]));
            }
        },
        _ => {},
    }
}

/// A command line is accepted exactly where each of its terms is, and the
/// error is that of the first term that is not. The terms are as many as a
/// vector can hold.
pub proof fn lemma_extraction(terms: Seq<Option<TermSyntax>>)
    requires
        terms.len() <= usize::MAX,
    ensures
        match extraction(terms) {
            Ok(ds) => {
                &&& ds.len() == terms.len()
                &&& forall|i: int|
                    0 <= i < terms.len() ==> term_descriptor(terms[i]) == Ok::<
                        DescriptorView,
                        (Place, Construct),
                    >(ds[i])
            },
            Err(e) => {
                &&& 0 <= e.term < terms.len()
                &&& term_descriptor(terms[e.term as int]) == Err::<DescriptorView, (Place, Construct)>(
                    (e.place, e.construct),
                )
                &&& forall|i: int| 0 <= i < e.term ==> term_descriptor(terms[i]) is Ok
            },
        },
{
    let results = terms.map_values(|t: Option<TermSyntax>| term_descriptor(t));
    lemma_all_or_first(results);
    match all_or_first(results) {
        Ok(ds) => {
            assert forall|i: int| 0 <= i < terms.len() implies term_descriptor(terms[i]) == Ok::<
                DescriptorView,
                (Place, Construct),
            >(ds[i]) by {
                assert(results[i] == term_descriptor(terms[i]));
            }
        },
        Err((k, e)) => {
            assert forall|i: int| 0 <= i < k implies term_descriptor(terms[i]) is Ok by {
                assert(results[i] == term_descriptor(terms[i]));
            }
        },
    }
}

/// The text of `a` where it is a literal word.
fn literal_argument(a: &Argument) -> (r: Result<String, Construct>)
    ensures
        match r {
            Ok(text) => argument_text(argument_syntax(*a)) == Ok::<Seq<char>, Construct>(text@),
            Err(c) => argument_text(argument_syntax(*a)) == Err::<Seq<char>, Construct>(c),
        },
{
    match argument_shape(a) {
        ArgumentShape::Word(w) => literal_word(&w),
        ArgumentShape::Redirect => Err(Construct::Redirect),
    }
}

/// The name and the value of `a` where it assigns a literal.
fn literal_assignment(a: &Assignment) -> (r: Result<(String, String), Construct>)
    ensures
        match r {
            Ok(pair) => assignment_pair(assignment_syntax(*a)) == Ok::<(Seq<char>, Seq<char>), Construct>(
                (pair.0@, pair.1@),
            ),
            Err(c) => assignment_pair(assignment_syntax(*a)) == Err::<(Seq<char>, Seq<char>), Construct>(c),
        },
{
    match assignment_shape(a) {
        AssignmentShape::Variable(name, Some(w)) => match literal_word(&w) {
            Ok(text) => Ok((name, text)),
            Err(c) => Err(c),
        },
        AssignmentShape::Variable(_, None) => Err(Construct::EmptyAssignment),
        AssignmentShape::Redirect => Err(Construct::Redirect),
    }
}

/// The texts of `items` where each is a literal word.
fn literal_words(items: &Vec<Argument>) -> (r: Result<Vec<String>, (usize, Construct)>)
    ensures
        match r {
            Ok(words) => argument_texts(arguments_syntax(items@)) == Ok::<Seq<Seq<char>>, (int, Construct)>(
                words.deep_view(),
            ),
            Err((i, c)) => argument_texts(arguments_syntax(items@)) == Err::<Seq<Seq<char>>, (int, Construct)>(
                (i as int, c),
            ),
        },
{
    let ghost results = arguments_syntax(items@).map_values(|a: ArgumentSyntax| argument_text(a));
    let mut words: Vec<String> = Vec::new();
    let mut i: usize = 0;
    assert(words.deep_view() =~= Seq::empty());
    while i < items.len()
        invariant
            i <= items.len(),
            results == arguments_syntax(items@).map_values(|a: ArgumentSyntax| argument_text(a)),
            all_or_first(results.take(i as int)) == Ok::<Seq<Seq<char>>, (int, Construct)>(words.deep_view()),
        decreases items.len() - i,
    {
        let ghost before = words.deep_view();
        proof {
            lemma_one_more(results, i as int);
        }
        match literal_argument(&items[i]) {
            Ok(text) => {
                words.push(text);
                assert(words.deep_view() =~= before.push(text@));
            },
            Err(c) => {
                return Err((i, c));
            },
        }
        i += 1;
    }
    assert(results.take(i as int) =~= results);
    Ok(words)
}

/// The variables of `items` where each assigns a literal.
fn literal_variables(items: &Vec<Assignment>) -> (r: Result<Vec<(String, String)>, (usize, Construct)>)
    ensures
        match r {
            Ok(pairs) => assignment_pairs(assignments_syntax(items@)) == Ok::<
                Seq<(Seq<char>, Seq<char>)>,
                (int, Construct),
            >(pairs.deep_view()),
            Err((i, c)) => assignment_pairs(assignments_syntax(items@)) == Err::<
                Seq<(Seq<char>, Seq<char>)>,
                (int, Construct),
            >((i as int, c)),
        },
{
    let ghost results = assignments_syntax(items@).map_values(|a: AssignmentSyntax| assignment_pair(a));
    let mut pairs: Vec<(String, String)> = Vec::new();
    let mut i: usize = 0;
    assert(pairs.deep_view() =~= Seq::empty());
    while i < items.len()
        invariant
            i <= items.len(),
            results == assignments_syntax(items@).map_values(|a: AssignmentSyntax| assignment_pair(a)),
            all_or_first(results.take(i as int)) == Ok::<Seq<(Seq<char>, Seq<char>)>, (int, Construct)>(
                pairs.deep_view(),
            ),
        decreases items.len() - i,
    {
        let ghost before = pairs.deep_view();
        proof {
            lemma_one_more(results, i as int);
        }
        match literal_assignment(&items[i]) {
            Ok(pair) => {
                let ghost added = (pair.0@, pair.1@);
                pairs.push(pair);
                assert(pairs.deep_view() =~= before.push(added));
            },
            Err(c) => {
                return Err((i, c));
            },
        }
        i += 1;
    }
    assert(results.take(i as int) =~= results);
    Ok(pairs)
}

/// The descriptor of one term.
pub fn describe_term(t: &Option<Term>) -> (r: Result<Descriptor, (Place, Construct)>)
    ensures
        match r {
            Ok(d) => term_descriptor(yielded_syntax(*t)) == Ok::<DescriptorView, (Place, Construct)>(d@),
            Err(e) => term_descriptor(yielded_syntax(*t)) == Err::<DescriptorView, (Place, Construct)>(e),
        },
{
    match t {
        None => Err((Place::Term, Construct::Syntax)),
        Some(term) => match term_shape(term) {
            TermShape::Job => Err((Place::Term, Construct::Job)),
            TermShape::Pipeline => Err((Place::Term, Construct::Pipeline)),
            TermShape::Compound => Err((Place::Term, Construct::Compound)),
            TermShape::FunctionDef => Err((Place::Term, Construct::FunctionDef)),
            TermShape::Simple(assignments, arguments, rest) => {
                if rest > 0 {
                    return Err((Place::Term, Construct::CommandList));
                }
                match literal_words(&arguments) {
                    Err((i, c)) => Err((Place::Argument(i), c)),
                    Ok(words) => match literal_variables(&assignments) {
                        Err((i, c)) => Err((Place::Assignment(i), c)),
                        Ok(env_vars) => Ok(Descriptor { words, env_vars }),
                    },
                }
            },
        },
    }
}

/// The descriptors of the terms that a parser yielded: one for each term,
/// in order, where every term is a simple command of literals; else the
/// first error.
pub fn extract_from(terms: &Vec<Option<Term>>) -> (r: Result<Vec<Descriptor>, ExtractError>)
    ensures
        extracted(r, extraction(terms_syntax(terms@))),
{
    let ghost results = terms_syntax(terms@).map_values(|t: Option<TermSyntax>| term_descriptor(t));
    let mut descriptors: Vec<Descriptor> = Vec::new();
    let mut i: usize = 0;
    assert(views(descriptors@) =~= Seq::empty());
    while i < terms.len()
        invariant
            i <= terms.len(),
            results == terms_syntax(terms@).map_values(|t: Option<TermSyntax>| term_descriptor(t)),
            all_or_first(results.take(i as int)) == Ok::<Seq<DescriptorView>, (int, (Place, Construct))>(
                views(descriptors@),
            ),
        decreases terms.len() - i,
    {
        let ghost before = views(descriptors@);
        proof {
            lemma_one_more(results, i as int);
        }
        match describe_term(&terms[i]) {
            Ok(d) => {
                let ghost added = d@;
                descriptors.push(d);
                assert(views(descriptors@) =~= before.push(added));
            },
            Err((place, construct)) => {
                return Err(ExtractError { term: i, place, construct });
            },
        }
        i += 1;
    }
    assert(results.take(i as int) =~= results);
    Ok(descriptors)
}

/// Reads `cmd` as a sequence of simple commands: one descriptor for each
/// top-level term, in source order, where the text is shell grammar and
/// every term is one simple command whose words and assigned values are
/// literals; else the first error.
pub fn extract_terms(cmd: &str) -> (r: Result<Vec<Descriptor>, ExtractError>)
    ensures
        extracted(r, extraction(parsed_terms(cmd@))),
{
    let terms = parse_terms(cmd);
    extract_from(&terms)
}

} // verus!
