use msh::error::ShellError;
use msh::expand::clean_capture;
use msh::structures::{Command, Connector, Executable, List, Pipe, PipeLine, Shell, Str};

fn env() -> Vec<(String, String)> {
    vec![("HOME".to_string(), "/home/u".to_string()), ("X".to_string(), "1".to_string())]
}

fn echo_list(word: &str) -> List {
    let cmd = Command {
        exe: Executable::File {
            command_name: Str::Raw("builtin-echo".to_string()),
            arguments: vec![Str::Raw(word.to_string())],
        },
        redirect_in: None,
        redirect_out: None,
        redirect_err: None,
    };
    List(vec![Connector::ListTerm(PipeLine(vec![Pipe::PipeLineTerm(cmd)]))], None)
}

#[test]
fn raw_is_identity() {
    let s = Str::Raw("abc".to_string());
    assert_eq!(s.extract(&env(), &vec![]).ok().unwrap(), "abc");
}

#[test]
fn variable_reads_environment() {
    let s = Str::Variable("HOME".to_string());
    assert_eq!(s.extract(&env(), &vec![]).ok().unwrap(), "/home/u");
}

#[test]
fn undefined_variable_fails() {
    let s = Str::Variable("NOPE".to_string());
    match s.extract(&env(), &vec![]) {
        Err(ShellError::UndefinedVariable(n)) => assert_eq!(n, "NOPE"),
        other => panic!("unexpected {:?}", other),
    }
}

#[test]
fn quoted_concatenates_in_order() {
    let s = Str::Quoted(vec![
        Str::Raw("x=".to_string()),
        Str::Variable("X".to_string()),
        Str::SubShellResult(echo_list("a")),
        Str::Raw("-".to_string()),
        Str::SubShellResult(echo_list("b")),
    ]);
    assert_eq!(s.substitutions().len(), 2);
    let caps = vec!["first".to_string(), "second".to_string()];
    assert_eq!(s.extract(&env(), &caps).ok().unwrap(), "x=1first-second");
}

#[test]
fn missing_capture_fails() {
    let s = Str::SubShellResult(echo_list("a"));
    assert!(matches!(s.extract(&env(), &vec![]), Err(ShellError::MissingCapture)));
}

#[test]
fn capture_is_stripped_of_padding_and_white_space() {
    assert_eq!(clean_capture("literal\n\0\0\0"), "literal");
    assert_eq!(clean_capture("  two words \n"), "two words");
    assert_eq!(clean_capture("\0\0"), "");
    assert_eq!(clean_capture(""), "");
    assert_eq!(clean_capture("in\0side"), "in\0side");
}

#[test]
fn substitution_into_variable() {
    // var result = $(builtin-echo literal)
    let s = Str::SubShellResult(echo_list("literal"));
    let captured = vec![clean_capture("literal\n\0\0")];
    let value = s.extract(&env(), &captured).ok().unwrap();
    let mut sh = Shell::new();
    let argv = vec!["result".to_string(), "=".to_string(), value];
    assert_eq!(sh.var(&argv), 0);
    assert_eq!(sh.variable("result"), Some("literal".to_string()));
}
