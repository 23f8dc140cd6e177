use msh::render::gen_indent;
use msh::structures::{
    Command, Connector, Executable, List, Pipe, PipeLine, RedirectIn, RedirectOut, Str,
};

fn ls() -> Command {
    Command {
        exe: Executable::File {
            command_name: Str::Raw("ls".to_string()),
            arguments: vec![Str::Raw("-l".to_string()), Str::Variable("D".to_string())],
        },
        redirect_in: None,
        redirect_out: None,
        redirect_err: None,
    }
}

const LS_EXE: &str = "File { name: Raw(\"ls\"), argument: [Raw(\"-l\"), Variable(\"D\")] }";

#[test]
fn indent_is_spaces() {
    assert_eq!(gen_indent(0), "");
    assert_eq!(gen_indent(3), "   ");
}

#[test]
fn executable_print() {
    assert_eq!(ls().exe.print(2), format!("  {}", LS_EXE));
    let e = Executable::File { command_name: Str::Raw("x".to_string()), arguments: vec![] };
    assert_eq!(e.print(0), "File { name: Raw(\"x\"), argument: [] }");
}

#[test]
fn command_print() {
    let expected = format!(
        "Command {{\n  exe:\n    {}\n  redirect_in: None\n  redirect_out: None\n}}",
        LS_EXE
    );
    assert_eq!(ls().print(0), expected);
}

#[test]
fn command_print_with_redirects() {
    let mut c = ls();
    c.redirect_in = Some(RedirectIn::Normal(Str::Raw("in".to_string())));
    c.redirect_out = Some(RedirectOut::Append(Str::Quoted(vec![
        Str::Raw("a".to_string()),
        Str::Raw("b".to_string()),
    ])));
    let expected = format!(
        "Command {{\n  exe:\n    {}\n  redirect_in: Some(Normal(Raw(\"in\")))\n  redirect_out: Some(Append(Quoted([Raw(\"a\"), Raw(\"b\")])))\n}}",
        LS_EXE
    );
    assert_eq!(c.print(0), expected);
}

#[test]
fn pipe_print() {
    let inner = ls().print(2);
    assert_eq!(Pipe::PipeLineTerm(ls()).print(0), format!("PipeLineTerm(\n{},\n)", inner));
    assert_eq!(Pipe::Stdout(ls()).print(0), format!("Stdout(\n{},\n)", inner));
    assert_eq!(Pipe::Both(ls()).print(0), format!("Both(\n{},\n)", inner));
}

#[test]
fn pipeline_print() {
    let p = PipeLine(vec![Pipe::Stdout(ls()), Pipe::PipeLineTerm(ls())]);
    let expected = format!(
        "PipeLine[\n{},\n{},\n\n]",
        Pipe::Stdout(ls()).print(2),
        Pipe::PipeLineTerm(ls()).print(2)
    );
    assert_eq!(p.print(0), expected);
    assert_eq!(PipeLine(vec![]).print(1), " PipeLine[\n\n ]");
}

#[test]
fn connector_print() {
    let p = || PipeLine(vec![Pipe::PipeLineTerm(ls())]);
    let inner = p().print(4);
    assert_eq!(Connector::And(p()).print(2), format!("  And(\n{},\n  )", inner));
    assert_eq!(Connector::Or(p()).print(2), format!("  Or(\n{},\n  )", inner));
    assert_eq!(Connector::Continue(p()).print(2), format!("  Continue(\n{},\n  )", inner));
    assert_eq!(Connector::ListTerm(p()).print(2), format!("  ListTerm(\n{},\n  )", inner));
}

#[test]
fn list_print() {
    let l = List(vec![Connector::ListTerm(PipeLine(vec![]))], None);
    assert_eq!(l.print(0), "List[\n  ListTerm(\n    PipeLine[\n\n    ],\n  ),\n\n]");
}

#[test]
fn subshell_print() {
    let e = Executable::SubShell(List(vec![], None));
    assert_eq!(e.print(0), "SubShell(\n  List[\n\n  ]\n)");
    let s = Str::SubShellResult(List(vec![], None));
    assert_eq!(s.text(), "SubShellResult(\nList[\n\n])");
}

#[test]
fn text_escapes_like_debug() {
    let raw = "a\"b\\c\nd\te\rf\0g".to_string();
    assert_eq!(Str::Raw(raw.clone()).text(), format!("Raw({:?})", raw));
    assert_eq!(Str::Variable("X".to_string()).text(), "Variable(\"X\")");
    let h = RedirectIn::Heredoc("E\"OF".to_string());
    let mut c = ls();
    c.redirect_in = Some(h);
    assert!(c.print(0).contains("redirect_in: Some(Heredoc(\"E\\\"OF\"))"));
}
