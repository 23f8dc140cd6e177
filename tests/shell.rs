use msh::redirect::{effective_fd, open_failure, OpenFailure, OpenFlags, OpenMode, CREATE_PERMISSIONS};
use msh::shell::{assignment, cd_target};
use msh::error::ShellError;
use msh::structures::{BuiltinKind, CommandType, RedirectIn, RedirectOut, Shell, Str};

fn args(v: &[&str]) -> Vec<String> {
    v.iter().map(|s| s.to_string()).collect()
}

#[test]
fn new_shell_registers_builtins() {
    let sh = Shell::new();
    for k in [
        BuiltinKind::Echo,
        BuiltinKind::Type,
        BuiltinKind::Cd,
        BuiltinKind::Alias,
        BuiltinKind::Unalias,
        BuiltinKind::Exit,
        BuiltinKind::Export,
        BuiltinKind::Var,
        BuiltinKind::Unset,
        BuiltinKind::ReloadPath,
    ] {
        assert!(matches!(sh.lookup(k.name()), Some(CommandType::Builtin(b)) if b == k));
    }
    assert!(sh.lookup("ls").is_none());
    assert_eq!(sh.variable("x"), None);
}

#[test]
fn child_shell_is_an_independent_copy() {
    let mut parent = Shell::new();
    parent.var(&args(&["a", "=", "1"]));
    let mut child = Shell::fromParent(&parent);
    assert_eq!(child.variable("a"), Some("1".to_string()));
    child.var(&args(&["a", "=", "2"]));
    assert_eq!(parent.variable("a"), Some("1".to_string()));
    assert_eq!(child.variable("a"), Some("2".to_string()));
}

#[test]
fn alias_needs_assignment_form() {
    let mut sh = Shell::new();
    assert_eq!(sh.alias(&args(&["ll", "ls -l"])), 1);
    assert_eq!(sh.alias(&args(&["ll", ":", "ls -l"])), 1);
    assert!(sh.lookup("ll").is_none());
    assert!(assignment(&args(&["a", "=", "b"])).is_some());
    assert!(assignment(&args(&["a", "=", "b", "c"])).is_none());
}

#[test]
fn unalias_statuses() {
    let mut sh = Shell::new();
    sh.alias(&args(&["ll", "=", "ls -l"]));
    assert_eq!(sh.unalias(&args(&[])), 1);
    assert_eq!(sh.unalias(&args(&["ll"])), 0);
    assert!(sh.lookup("ll").is_none());
    assert_eq!(sh.unalias(&args(&["ll"])), 2);
}

#[test]
fn unset_removes_variable() {
    let mut sh = Shell::new();
    sh.var(&args(&["v", "=", "x"]));
    assert_eq!(sh.unset(&args(&["v", "w"])), 1);
    assert_eq!(sh.unset(&args(&["v"])), 0);
    assert_eq!(sh.variable("v"), None);
}

#[test]
fn type_descriptions() {
    let mut sh = Shell::new();
    sh.set_command("ls", CommandType::External("/bin/ls".to_string()));
    sh.alias(&args(&["ll", "=", "ls -l"]));
    assert_eq!(sh.describe("cd"), "`cd` is a builtin function.");
    assert_eq!(sh.describe("ls"), "/bin/ls");
    assert_eq!(sh.describe("ll"), "`ll` is an alias of `ls -l`");
    assert_eq!(sh.describe("zz"), "`zz` not found.");
}

#[test]
fn reload_path_later_directory_wins_and_builtins_stay() {
    let mut sh = Shell::new();
    sh.alias(&args(&["ll", "=", "ls -l"]));
    sh.var(&args(&["keep", "=", "yes"]));
    let found = vec![
        ("ls".to_string(), "/usr/bin/ls".to_string()),
        ("cat".to_string(), "/usr/bin/cat".to_string()),
        ("ls".to_string(), "/bin/ls".to_string()),
        ("cd".to_string(), "/usr/bin/cd".to_string()),
    ];
    sh.reload_path(&found);
    assert!(matches!(sh.lookup("ls"), Some(CommandType::External(p)) if p == "/bin/ls"));
    assert!(matches!(sh.lookup("cat"), Some(CommandType::External(p)) if p == "/usr/bin/cat"));
    assert!(matches!(sh.lookup("cd"), Some(CommandType::Builtin(BuiltinKind::Cd))));
    assert!(sh.lookup("ll").is_none());
    assert_eq!(sh.variable("keep"), Some("yes".to_string()));
}

#[test]
fn cd_target_choices() {
    let home = Some("/home/u".to_string());
    let old = Some("/tmp".to_string());
    assert_eq!(cd_target(&args(&[]), home.clone(), old.clone()), Some("/home/u".to_string()));
    assert_eq!(cd_target(&args(&[]), None, old.clone()), None);
    assert_eq!(cd_target(&args(&["-"]), home.clone(), old.clone()), Some("/tmp".to_string()));
    assert_eq!(cd_target(&args(&["-"]), home.clone(), None), Some("-".to_string()));
    assert_eq!(cd_target(&args(&["/etc"]), home.clone(), old.clone()), Some("/etc".to_string()));
    assert_eq!(cd_target(&args(&["a", "b"]), home, old), None);
}

#[test]
fn redirect_modes() {
    let s = || Str::Raw("out.txt".to_string());
    assert_eq!(RedirectOut::Normal(s()).mode(), OpenMode::CreateExclusive);
    assert_eq!(RedirectOut::Overwrite(s()).mode(), OpenMode::CreateTruncate);
    assert_eq!(RedirectOut::Append(s()).mode(), OpenMode::CreateAppend);
    assert!(matches!(RedirectOut::Append(s()).target(), Str::Raw(t) if t == "out.txt"));
    assert!(RedirectIn::Normal(s()).target().is_ok());
    assert!(matches!(RedirectIn::Heredoc("EOF".to_string()).target(), Err(ShellError::Unsupported(_))));
    assert_eq!(CREATE_PERMISSIONS, 0o644);
}

#[test]
fn exclusive_create_on_existing_file_is_already_exists() {
    match open_failure("f".to_string(), OpenMode::CreateExclusive, OpenFailure::Exists, "File exists".to_string()) {
        ShellError::AlreadyExists(p) => assert_eq!(p, "f"),
        other => panic!("unexpected {:?}", other),
    }
    match open_failure("f".to_string(), OpenMode::CreateTruncate, OpenFailure::Other, "denied".to_string()) {
        ShellError::Io(m) => assert_eq!(m, "denied"),
        other => panic!("unexpected {:?}", other),
    }
}

#[test]
fn redirect_overrides_supplied_descriptor() {
    assert_eq!(effective_fd(0, Some(7)), 7);
    assert_eq!(effective_fd(0, None), 0);
}

#[test]
fn missing_input_file_is_not_found() {
    match open_failure("in.txt".to_string(), OpenMode::Read, OpenFailure::Missing, "No such file".to_string()) {
        ShellError::NotFound(p) => assert_eq!(p, "in.txt"),
        other => panic!("unexpected {:?}", other),
    }
    match open_failure("out".to_string(), OpenMode::CreateAppend, OpenFailure::Missing, "No such directory".to_string()) {
        ShellError::Io(m) => assert_eq!(m, "No such directory"),
        other => panic!("unexpected {:?}", other),
    }
    match open_failure("in.txt".to_string(), OpenMode::Read, OpenFailure::Exists, "odd".to_string()) {
        ShellError::Io(m) => assert_eq!(m, "odd"),
        other => panic!("unexpected {:?}", other),
    }
}

#[test]
fn open_flags_of_each_mode() {
    let f = |w, c, x, t, a| OpenFlags { write: w, create: c, exclusive: x, truncate: t, append: a };
    assert_eq!(OpenMode::Read.flags(), f(false, false, false, false, false));
    assert_eq!(OpenMode::CreateExclusive.flags(), f(true, true, true, false, false));
    assert_eq!(OpenMode::CreateTruncate.flags(), f(true, true, false, true, false));
    assert_eq!(OpenMode::CreateAppend.flags(), f(true, true, false, false, true));
}
