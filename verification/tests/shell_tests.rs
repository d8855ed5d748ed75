use c2l::shell::extract_terms;
use c2l::shell::Construct;
use c2l::shell::Descriptor;
use c2l::shell::ExtractError;
use c2l::shell::Place;

fn words(ws: &[&str]) -> Vec<String> {
    ws.iter().map(|w| w.to_string()).collect()
}

fn pairs(ps: &[(&str, &str)]) -> Vec<(String, String)> {
    ps.iter().map(|p| (p.0.to_string(), p.1.to_string())).collect()
}

fn refused(cmd: &str) -> ExtractError {
    match extract_terms(cmd) {
        Ok(ds) => panic!("{:?} was accepted as {:?}", cmd, ds),
        Err(e) => e,
    }
}

fn at_term(term: usize, construct: Construct) -> ExtractError {
    ExtractError { term, place: Place::Term, construct }
}

fn at_argument(index: usize, construct: Construct) -> ExtractError {
    ExtractError { term: 0, place: Place::Argument(index), construct }
}

fn at_assignment(index: usize, construct: Construct) -> ExtractError {
    ExtractError { term: 0, place: Place::Assignment(index), construct }
}

#[test]
fn simple_command_gives_its_words() {
    assert_eq!(
        extract_terms("/bin/echo hello"),
        Ok(vec![Descriptor { words: words(&["/bin/echo", "hello"]), env_vars: vec![] }])
    );
}

#[test]
fn assignments_come_with_their_values() {
    assert_eq!(
        extract_terms("A=1 B=2 cmd x y"),
        Ok(vec![Descriptor { words: words(&["cmd", "x", "y"]), env_vars: pairs(&[("A", "1"), ("B", "2")]) }])
    );
}

#[test]
fn one_descriptor_for_each_term() {
    assert_eq!(
        extract_terms("cmd; FOO=1 other arg"),
        Ok(vec![
            Descriptor { words: words(&["cmd"]), env_vars: vec![] },
            Descriptor { words: words(&["other", "arg"]), env_vars: pairs(&[("FOO", "1")]) },
        ])
    );
    assert_eq!(
        extract_terms("a\nb"),
        Ok(vec![
            Descriptor { words: words(&["a"]), env_vars: vec![] },
            Descriptor { words: words(&["b"]), env_vars: vec![] },
        ])
    );
}

#[test]
fn nothing_to_run_gives_no_descriptor() {
    assert_eq!(extract_terms(""), Ok(vec![]));
    assert_eq!(extract_terms("  \t "), Ok(vec![]));
    assert_eq!(extract_terms("# only"), Ok(vec![]));
}

#[test]
fn literal_words_keep_their_text() {
    assert_eq!(
        extract_terms("echo --flag=value a=b {a,b} -n"),
        Ok(vec![Descriptor { words: words(&["echo", "--flag=value", "a=b", "{a,b}", "-n"]), env_vars: vec![] }])
    );
    assert_eq!(
        extract_terms("echo \u{e9}t\u{e9}"),
        Ok(vec![Descriptor { words: words(&["echo", "\u{e9}t\u{e9}"]), env_vars: vec![] }])
    );
}

#[test]
fn text_that_is_no_shell_grammar_is_a_syntax_error() {
    assert_eq!(refused("if"), at_term(0, Construct::Syntax));
    assert_eq!(refused(";"), at_term(0, Construct::Syntax));
    assert_eq!(refused("echo 'unterminated"), at_term(0, Construct::Syntax));
    assert_eq!(refused("echo hi; ("), at_term(1, Construct::Syntax));
}

#[test]
fn terms_that_are_no_simple_command_are_refused() {
    assert_eq!(refused("a | b"), at_term(0, Construct::Pipeline));
    assert_eq!(refused("! a"), at_term(0, Construct::Pipeline));
    assert_eq!(refused("a &"), at_term(0, Construct::Job));
    assert_eq!(refused("a && b"), at_term(0, Construct::CommandList));
    assert_eq!(refused("a || b"), at_term(0, Construct::CommandList));
    assert_eq!(refused("{ a; }"), at_term(0, Construct::Compound));
    assert_eq!(refused("(a)"), at_term(0, Construct::Compound));
    assert_eq!(refused("while true; do a; done"), at_term(0, Construct::Compound));
    assert_eq!(refused("f() { a; }"), at_term(0, Construct::FunctionDef));
    assert_eq!(refused("ok; a | b"), at_term(1, Construct::Pipeline));
}

#[test]
fn redirects_are_refused() {
    assert_eq!(refused("echo >out"), at_argument(1, Construct::Redirect));
    assert_eq!(refused("echo <in"), at_argument(1, Construct::Redirect));
    assert_eq!(refused("echo 1>2"), at_argument(1, Construct::Redirect));
    assert_eq!(refused(">out echo"), at_assignment(0, Construct::Redirect));
    assert_eq!(refused("x=1 >f"), at_assignment(1, Construct::Redirect));
}

#[test]
fn words_that_are_no_literal_are_refused() {
    assert_eq!(refused("echo $HOME"), at_argument(1, Construct::Parameter));
    assert_eq!(refused("echo ${X}"), at_argument(1, Construct::Parameter));
    assert_eq!(refused("echo $(ls)"), at_argument(1, Construct::Substitution));
    assert_eq!(refused("echo `ls`"), at_argument(1, Construct::Substitution));
    assert_eq!(refused("echo $((1+2))"), at_argument(1, Construct::Substitution));
    assert_eq!(refused("echo \"quoted $var\""), at_argument(1, Construct::DoubleQuoted));
    assert_eq!(refused("echo 'x'"), at_argument(1, Construct::SingleQuoted));
    assert_eq!(refused("echo \\n"), at_argument(1, Construct::Escaped));
    assert_eq!(refused("echo *"), at_argument(1, Construct::Star));
    assert_eq!(refused("echo ?"), at_argument(1, Construct::Question));
    assert_eq!(refused("echo ["), at_argument(1, Construct::SquareOpen));
    assert_eq!(refused("echo ]"), at_argument(1, Construct::SquareClose));
    assert_eq!(refused("echo ~"), at_argument(1, Construct::Tilde));
    assert_eq!(refused("echo :"), at_argument(1, Construct::Colon));
    assert_eq!(refused("echo a:b"), at_argument(1, Construct::Concat));
    assert_eq!(refused("echo a*b"), at_argument(1, Construct::Concat));
    assert_eq!(refused("$X"), at_argument(0, Construct::Parameter));
}

#[test]
fn values_that_are_no_literal_are_refused() {
    assert_eq!(refused("FOO= echo"), at_assignment(0, Construct::EmptyAssignment));
    assert_eq!(refused("FOO=$X cmd"), at_assignment(0, Construct::Parameter));
    assert_eq!(refused("FOO=\"a b\" cmd"), at_assignment(0, Construct::DoubleQuoted));
    assert_eq!(refused("A=1 B='x' cmd"), at_assignment(1, Construct::SingleQuoted));
}

#[test]
fn the_first_bad_word_is_reported() {
    assert_eq!(refused("echo ok $A $(b)"), at_argument(2, Construct::Parameter));
    assert_eq!(refused("echo ok >f $A"), at_argument(2, Construct::Redirect));
}

#[test]
fn words_are_looked_at_before_assignments() {
    assert_eq!(refused("A=$X echo $Y"), at_argument(1, Construct::Parameter));
}
