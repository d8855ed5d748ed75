//! The syntax tree of a command line, as the `conch_parser` crate builds it.
//!
//! The parser's own types are carried as they are. What a value of one of
//! them is becomes known step by step, each step telling the variants of
//! one of the parser's types apart; what is found is described by plain
//! values, the `..Syntax` types.

use vstd::prelude::*;
use conch_parser::ast::Command;
use conch_parser::ast::ComplexWord;
use conch_parser::ast::ListableCommand;
use conch_parser::ast::PipeableCommand;
use conch_parser::ast::Redirect;
use conch_parser::ast::RedirectOrCmdWord;
use conch_parser::ast::RedirectOrEnvVar;
use conch_parser::ast::SimpleWord;
use conch_parser::ast::TopLevelCommand;
use conch_parser::ast::TopLevelWord;
use conch_parser::ast::Word;
use conch_parser::lexer::Lexer;
use conch_parser::parse::DefaultParser;

verus! {

/// `conch_parser::ast::TopLevelCommand`, carried as it is: nothing is
/// known here of what it holds.
#[verifier::external_type_specification]
#[verifier::external_body]
#[verifier::reject_recursive_types(T)]
pub struct ExTopLevelCommand<T>(TopLevelCommand<T>);

/// `conch_parser::ast::TopLevelWord`, carried as it is: nothing is
/// known here of what it holds.
#[verifier::external_type_specification]
#[verifier::external_body]
#[verifier::reject_recursive_types(T)]
pub struct ExTopLevelWord<T>(TopLevelWord<T>);

/// `conch_parser::ast::Redirect`, carried as it is: nothing is
/// known here of what it holds.
#[verifier::external_type_specification]
#[verifier::external_body]
#[verifier::reject_recursive_types(W)]
pub struct ExRedirect<W>(Redirect<W>);

/// `conch_parser::ast::RedirectOrCmdWord`, carried as it is: nothing is
/// known here of what it holds.
#[verifier::external_type_specification]
#[verifier::external_body]
#[verifier::reject_recursive_types(R)]
#[verifier::reject_recursive_types(W)]
pub struct ExRedirectOrCmdWord<R, W>(RedirectOrCmdWord<R, W>);

/// `conch_parser::ast::RedirectOrEnvVar`, carried as it is: nothing is
/// known here of what it holds.
#[verifier::external_type_specification]
#[verifier::external_body]
#[verifier::reject_recursive_types(R)]
#[verifier::reject_recursive_types(V)]
#[verifier::reject_recursive_types(W)]
pub struct ExRedirectOrEnvVar<R, V, W>(RedirectOrEnvVar<R, V, W>);

/// One parsed top-level term.
pub type Term = TopLevelCommand<String>;

/// One parsed word.
pub type ParsedWord = TopLevelWord<String>;

/// One item after the command name was met: a word or a redirect.
pub type Argument = RedirectOrCmdWord<Redirect<TopLevelWord<String>>, TopLevelWord<String>>;

/// One item before the command name: an assignment or a redirect.
pub type Assignment = RedirectOrEnvVar<Redirect<TopLevelWord<String>>, String, TopLevelWord<String>>;

/// What a top-level term is.
pub enum TermShape {
    /// A simple command: what stands before its name, its name and what
    /// follows, and the number of `&&` and `||` parts after it.
    Simple(Vec<Assignment>, Vec<Argument>, usize),
    /// Commands joined by `|`, or a command negated by `!`.
    Pipeline,
    /// A group, a subshell, a loop, a conditional or a case.
    Compound,
    /// A function definition.
    FunctionDef,
    /// A command list sent to the background by `&`.
    Job,
}

/// What an item after the command name is.
pub enum ArgumentShape {
    Word(ParsedWord),
    Redirect,
}

/// What an item before the command name is.
pub enum AssignmentShape {
    /// A variable and, unless nothing follows the `=`, its value.
    Variable(String, Option<ParsedWord>),
    Redirect,
}

/// What a word is.
pub enum WordShape {
    /// Plain text.
    Literal(String),
    /// A character behind a backslash.
    Escaped,
    /// A parameter such as `$HOME`.
    Parameter,
    /// A command, arithmetic or parameter substitution.
    Substitution,
    Star,
    Question,
    SquareOpen,
    SquareClose,
    Tilde,
    Colon,
    /// Text between double quotes.
    DoubleQuoted,
    /// Text between single quotes.
    SingleQuoted,
    /// Several of the above in a row.
    Concat,
}

/// The mathematical value of a word: what it is, and its text where it is
/// a literal.
pub ghost enum WordSyntax {
    Literal(Seq<char>),
    Escaped,
    Parameter,
    Substitution,
    Star,
    Question,
    SquareOpen,
    SquareClose,
    Tilde,
    Colon,
    DoubleQuoted,
    SingleQuoted,
    Concat,
}

/// The mathematical value of an item after the command name.
pub ghost enum ArgumentSyntax {
    Word(WordSyntax),
    Redirect,
}

/// The mathematical value of an item before the command name.
pub ghost enum AssignmentSyntax {
    Variable(Seq<char>, Option<WordSyntax>),
    Redirect,
}

/// The mathematical value of a top-level term.
pub ghost enum TermSyntax {
    Simple(Seq<AssignmentSyntax>, Seq<ArgumentSyntax>, nat),
    Pipeline,
    Compound,
    FunctionDef,
    Job,
}

impl View for WordShape {
    type V = WordSyntax;

    open spec fn view(&self) -> WordSyntax {
        match *self {
            WordShape::Literal(text) => WordSyntax::Literal(text@),
            WordShape::Escaped => WordSyntax::Escaped,
            WordShape::Parameter => WordSyntax::Parameter,
            WordShape::Substitution => WordSyntax::Substitution,
            WordShape::Star => WordSyntax::Star,
            WordShape::Question => WordSyntax::Question,
            WordShape::SquareOpen => WordSyntax::SquareOpen,
            WordShape::SquareClose => WordSyntax::SquareClose,
            WordShape::Tilde => WordSyntax::Tilde,
            WordShape::Colon => WordSyntax::Colon,
            WordShape::DoubleQuoted => WordSyntax::DoubleQuoted,
            WordShape::SingleQuoted => WordSyntax::SingleQuoted,
            WordShape::Concat => WordSyntax::Concat,
        }
    }
}

impl View for ArgumentShape {
    type V = ArgumentSyntax;

    open spec fn view(&self) -> ArgumentSyntax {
        match *self {
            ArgumentShape::Word(w) => ArgumentSyntax::Word(word_syntax(w)),
            ArgumentShape::Redirect => ArgumentSyntax::Redirect,
        }
    }
}

impl View for AssignmentShape {
    type V = AssignmentSyntax;

    open spec fn view(&self) -> AssignmentSyntax {
        match *self {
            AssignmentShape::Variable(name, Some(w)) => AssignmentSyntax::Variable(
                name@,
                Some(word_syntax(w)),
            ),
            AssignmentShape::Variable(name, None) => AssignmentSyntax::Variable(name@, None),
            AssignmentShape::Redirect => AssignmentSyntax::Redirect,
        }
    }
}

impl View for TermShape {
    type V = TermSyntax;

    open spec fn view(&self) -> TermSyntax {
        match *self {
            TermShape::Simple(assignments, arguments, rest) => TermSyntax::Simple(
                assignments_syntax(assignments@),
                arguments_syntax(arguments@),
                rest as nat,
            ),
            TermShape::Pipeline => TermSyntax::Pipeline,
            TermShape::Compound => TermSyntax::Compound,
            TermShape::FunctionDef => TermSyntax::FunctionDef,
            TermShape::Job => TermSyntax::Job,
        }
    }
}

/// The values of a run of items after the command name.
pub open spec fn arguments_syntax(items: Seq<Argument>) -> Seq<ArgumentSyntax> {
    items.map_values(|a: Argument| argument_syntax(a))
}

/// The values of a run of items before the command name.
pub open spec fn assignments_syntax(items: Seq<Assignment>) -> Seq<AssignmentSyntax> {
    items.map_values(|a: Assignment| assignment_syntax(a))
}

/// The value of what a parser yielded for one term.
pub open spec fn yielded_syntax(t: Option<Term>) -> Option<TermSyntax> {
    match t {
        Some(term) => Some(term_syntax(term)),
        None => None,
    }
}

/// The values of what a parser yielded, term by term.
pub open spec fn terms_syntax(terms: Seq<Option<Term>>) -> Seq<Option<TermSyntax>> {
    terms.map_values(|t: Option<Term>| yielded_syntax(t))
}

/// What `conch_parser`'s default parser yields for the text `cmd`, term by
/// term: the value of each parsed term, `None` where it reports an error.
pub uninterp spec fn parsed_terms(cmd: Seq<char>) -> Seq<Option<TermSyntax>>;

/// The value of the term `t`.
pub uninterp spec fn term_syntax(t: Term) -> TermSyntax;

/// The value of the item `a`.
pub uninterp spec fn argument_syntax(a: Argument) -> ArgumentSyntax;

/// The value of the item `a`.
pub uninterp spec fn assignment_syntax(a: Assignment) -> AssignmentSyntax;

/// The value of the word `w`.
pub uninterp spec fn word_syntax(w: ParsedWord) -> WordSyntax;

/// `Lexer::new`, `Parser::new` and the parser's iterator, run to its end.
/// The iterator yields the terms of the text in order and stops after the
/// first error, so the result is finite; each error becomes `None`.
#[verifier::external_body]
pub(crate) fn parse_terms(cmd: &str) -> (terms: Vec<Option<Term>>)
    ensures
        terms_syntax(terms@) == parsed_terms(cmd@),
{
    DefaultParser::new(Lexer::new(cmd.chars())).into_iter().map(Result::ok).collect()
}

/// Tells the variants of `Command`, `ListableCommand` and `PipeableCommand`
/// apart. Of a simple command it hands out copies of the two lists and the
/// length of the list of `&&` and `||` parts.
#[verifier::external_body]
pub(crate) fn term_shape(t: &Term) -> (shape: TermShape)
    ensures
        shape@ == term_syntax(*t),
{
    match &t.0 {
        Command::Job(_) => TermShape::Job,
        Command::List(list) => match &list.first {
            ListableCommand::Pipe(..) => TermShape::Pipeline,
            ListableCommand::Single(PipeableCommand::Compound(_)) => TermShape::Compound,
            ListableCommand::Single(PipeableCommand::FunctionDef(..)) => TermShape::FunctionDef,
            ListableCommand::Single(PipeableCommand::Simple(s)) => TermShape::Simple(
                s.redirects_or_env_vars.clone(), s.redirects_or_cmd_words.clone(), list.rest.len()),
        },
    }
}

/// Tells the variants of `RedirectOrCmdWord` apart and hands out a copy of
/// the word.
#[verifier::external_body]
pub(crate) fn argument_shape(a: &Argument) -> (shape: ArgumentShape)
    ensures
        shape@ == argument_syntax(*a),
{
    match a {
        RedirectOrCmdWord::CmdWord(w) => ArgumentShape::Word(w.clone()),
        RedirectOrCmdWord::Redirect(_) => ArgumentShape::Redirect,
    }
}

/// Tells the variants of `RedirectOrEnvVar` apart and hands out copies of
/// the variable's name and value.
#[verifier::external_body]
pub(crate) fn assignment_shape(a: &Assignment) -> (shape: AssignmentShape)
    ensures
        shape@ == assignment_syntax(*a),
{
    match a {
        RedirectOrEnvVar::EnvVar(name, value) => AssignmentShape::Variable(name.clone(), value.clone()),
        RedirectOrEnvVar::Redirect(_) => AssignmentShape::Redirect,
    }
}

/// Tells the variants of `ComplexWord`, `Word` and `SimpleWord` apart and
/// hands out a copy of a literal's text.
#[verifier::external_body]
pub(crate) fn word_shape(w: &ParsedWord) -> (shape: WordShape)
    ensures
        shape@ == word_syntax(*w),
{
    match &w.0 {
        ComplexWord::Concat(_) => WordShape::Concat,
        ComplexWord::Single(Word::DoubleQuoted(_)) => WordShape::DoubleQuoted,
        ComplexWord::Single(Word::SingleQuoted(_)) => WordShape::SingleQuoted,
        ComplexWord::Single(Word::Simple(s)) => match s {
            SimpleWord::Literal(text) => WordShape::Literal(text.clone()),
            SimpleWord::Escaped(_) => WordShape::Escaped,
            SimpleWord::Param(_) => WordShape::Parameter,
            SimpleWord::Subst(_) => WordShape::Substitution,
            SimpleWord::Star => WordShape::Star, SimpleWord::Question => WordShape::Question,
            SimpleWord::SquareOpen => WordShape::SquareOpen, SimpleWord::SquareClose => WordShape::SquareClose,
            SimpleWord::Tilde => WordShape::Tilde, SimpleWord::Colon => WordShape::Colon,
        },
    }
}

} // verus!
