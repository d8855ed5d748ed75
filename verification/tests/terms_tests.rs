use c2l::shell::describe_term;
use c2l::shell::extract_from;
use c2l::syntax::Argument;
use c2l::syntax::Assignment;
use c2l::shell::Construct;
use c2l::shell::Descriptor;
use c2l::shell::ExtractError;
use c2l::syntax::ParsedWord;
use c2l::shell::Place;
use c2l::syntax::Term;
use conch_parser::ast::AndOr;
use conch_parser::ast::AndOrList;
use conch_parser::ast::Command;
use conch_parser::ast::ComplexWord;
use conch_parser::ast::DefaultPipeableCommand;
use conch_parser::ast::ListableCommand;
use conch_parser::ast::Parameter;
use conch_parser::ast::PipeableCommand;
use conch_parser::ast::Redirect;
use conch_parser::ast::RedirectOrCmdWord;
use conch_parser::ast::RedirectOrEnvVar;
use conch_parser::ast::SimpleCommand;
use conch_parser::ast::SimpleWord;
use conch_parser::ast::TopLevelCommand;
use conch_parser::ast::TopLevelWord;
use conch_parser::ast::Word;

fn literal(text: &str) -> ParsedWord {
    TopLevelWord(ComplexWord::Single(Word::Simple(SimpleWord::Literal(text.to_string()))))
}

fn parameter(name: &str) -> ParsedWord {
    TopLevelWord(ComplexWord::Single(Word::Simple(SimpleWord::Param(Parameter::Var(name.to_string())))))
}

fn word(w: ParsedWord) -> Argument {
    RedirectOrCmdWord::CmdWord(w)
}

fn variable(name: &str, value: Option<ParsedWord>) -> Assignment {
    RedirectOrEnvVar::EnvVar(name.to_string(), value)
}

fn simple(assignments: Vec<Assignment>, words: Vec<Argument>) -> DefaultPipeableCommand {
    PipeableCommand::Simple(Box::new(SimpleCommand {
        redirects_or_env_vars: assignments,
        redirects_or_cmd_words: words,
    }))
}

fn alone(command: DefaultPipeableCommand) -> Term {
    TopLevelCommand(Command::List(AndOrList { first: ListableCommand::Single(command), rest: vec![] }))
}

fn echo() -> DefaultPipeableCommand {
    simple(vec![], vec![word(literal("echo"))])
}

fn at(place: Place, construct: Construct) -> Result<Descriptor, (Place, Construct)> {
    Err((place, construct))
}

#[test]
fn a_simple_command_of_literals_is_described() {
    let term = alone(simple(
        vec![variable("A", Some(literal("1"))), variable("B", Some(literal("")))],
        vec![word(literal("/bin/echo")), word(literal("a b"))],
    ));
    assert_eq!(
        describe_term(&Some(term)),
        Ok(Descriptor {
            words: vec!["/bin/echo".to_string(), "a b".to_string()],
            env_vars: vec![("A".to_string(), "1".to_string()), ("B".to_string(), "".to_string())],
        })
    );
}

#[test]
fn a_command_of_nothing_is_described_as_empty() {
    assert_eq!(describe_term(&Some(alone(simple(vec![], vec![])))), Ok(Descriptor { words: vec![], env_vars: vec![] }));
}

#[test]
fn a_missing_term_is_a_syntax_error() {
    assert_eq!(describe_term(&None), at(Place::Term, Construct::Syntax));
}

#[test]
fn a_continued_command_is_a_command_list() {
    let and = TopLevelCommand(Command::List(AndOrList {
        first: ListableCommand::Single(echo()),
        rest: vec![AndOr::And(ListableCommand::Single(echo()))],
    }));
    assert_eq!(describe_term(&Some(and)), at(Place::Term, Construct::CommandList));
    let or = TopLevelCommand(Command::List(AndOrList {
        first: ListableCommand::Single(echo()),
        rest: vec![AndOr::Or(ListableCommand::Single(echo())), AndOr::And(ListableCommand::Single(echo()))],
    }));
    assert_eq!(describe_term(&Some(or)), at(Place::Term, Construct::CommandList));
}

#[test]
fn a_job_and_a_pipe_are_no_simple_commands() {
    let job = TopLevelCommand(Command::Job(AndOrList { first: ListableCommand::Single(echo()), rest: vec![] }));
    assert_eq!(describe_term(&Some(job)), at(Place::Term, Construct::Job));
    let pipe =
        TopLevelCommand(Command::List(AndOrList { first: ListableCommand::Pipe(false, vec![echo(), echo()]), rest: vec![] }));
    assert_eq!(describe_term(&Some(pipe)), at(Place::Term, Construct::Pipeline));
    let negated = TopLevelCommand(Command::List(AndOrList { first: ListableCommand::Pipe(true, vec![echo()]), rest: vec![] }));
    assert_eq!(describe_term(&Some(negated)), at(Place::Term, Construct::Pipeline));
}

#[test]
fn the_kind_of_a_term_is_looked_at_before_its_words() {
    let bad = simple(vec![], vec![word(parameter("X"))]);
    let pipe = TopLevelCommand(Command::List(AndOrList { first: ListableCommand::Pipe(false, vec![bad.clone()]), rest: vec![] }));
    assert_eq!(describe_term(&Some(pipe)), at(Place::Term, Construct::Pipeline));
    let list = TopLevelCommand(Command::List(AndOrList {
        first: ListableCommand::Single(bad),
        rest: vec![AndOr::And(ListableCommand::Single(echo()))],
    }));
    assert_eq!(describe_term(&Some(list)), at(Place::Term, Construct::CommandList));
}

#[test]
fn each_kind_of_word_is_told_apart() {
    let cases: Vec<(ParsedWord, Construct)> = vec![
        (TopLevelWord(ComplexWord::Concat(vec![])), Construct::Concat),
        (TopLevelWord(ComplexWord::Single(Word::DoubleQuoted(vec![]))), Construct::DoubleQuoted),
        (TopLevelWord(ComplexWord::Single(Word::SingleQuoted("x".to_string()))), Construct::SingleQuoted),
        (TopLevelWord(ComplexWord::Single(Word::Simple(SimpleWord::Escaped("n".to_string())))), Construct::Escaped),
        (parameter("HOME"), Construct::Parameter),
        (TopLevelWord(ComplexWord::Single(Word::Simple(SimpleWord::Star))), Construct::Star),
        (TopLevelWord(ComplexWord::Single(Word::Simple(SimpleWord::Question))), Construct::Question),
        (TopLevelWord(ComplexWord::Single(Word::Simple(SimpleWord::SquareOpen))), Construct::SquareOpen),
        (TopLevelWord(ComplexWord::Single(Word::Simple(SimpleWord::SquareClose))), Construct::SquareClose),
        (TopLevelWord(ComplexWord::Single(Word::Simple(SimpleWord::Tilde))), Construct::Tilde),
        (TopLevelWord(ComplexWord::Single(Word::Simple(SimpleWord::Colon))), Construct::Colon),
    ];
    for (w, construct) in cases {
        let as_word = alone(simple(vec![], vec![word(literal("echo")), word(w.clone())]));
        assert_eq!(describe_term(&Some(as_word)), at(Place::Argument(1), construct));
        let as_value = alone(simple(vec![variable("A", Some(literal("1"))), variable("B", Some(w))], vec![]));
        assert_eq!(describe_term(&Some(as_value)), at(Place::Assignment(1), construct));
    }
}

#[test]
fn redirects_and_empty_assignments_are_told_apart() {
    let to_file = Redirect::Write(None, literal("out"));
    let after = alone(simple(vec![], vec![word(literal("echo")), RedirectOrCmdWord::Redirect(to_file.clone())]));
    assert_eq!(describe_term(&Some(after)), at(Place::Argument(1), Construct::Redirect));
    let before = alone(simple(vec![RedirectOrEnvVar::Redirect(to_file)], vec![word(literal("echo"))]));
    assert_eq!(describe_term(&Some(before)), at(Place::Assignment(0), Construct::Redirect));
    let empty = alone(simple(vec![variable("A", None)], vec![word(literal("echo"))]));
    assert_eq!(describe_term(&Some(empty)), at(Place::Assignment(0), Construct::EmptyAssignment));
}

#[test]
fn terms_are_described_in_order() {
    let first = alone(simple(vec![], vec![word(literal("a"))]));
    let second = alone(simple(vec![variable("K", Some(literal("v")))], vec![]));
    assert_eq!(
        extract_from(&vec![Some(first), Some(second)]),
        Ok(vec![
            Descriptor { words: vec!["a".to_string()], env_vars: vec![] },
            Descriptor { words: vec![], env_vars: vec![("K".to_string(), "v".to_string())] },
        ])
    );
    assert_eq!(extract_from(&vec![]), Ok(vec![]));
}

#[test]
fn the_first_refused_term_is_the_error() {
    let good = alone(echo());
    let bad = alone(simple(vec![], vec![word(literal("echo")), word(literal("x")), word(parameter("X"))]));
    assert_eq!(
        extract_from(&vec![Some(good.clone()), Some(bad.clone()), None]),
        Err(ExtractError { term: 1, place: Place::Argument(2), construct: Construct::Parameter })
    );
    assert_eq!(
        extract_from(&vec![Some(good.clone()), Some(good), None, Some(bad)]),
        Err(ExtractError { term: 2, place: Place::Term, construct: Construct::Syntax })
    );
}
