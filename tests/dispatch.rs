use msh::dispatch::{split_words, Target};
use msh::error::ShellError;
use msh::structures::{BuiltinKind, CommandType, Shell};

fn shell_with_ls() -> Shell {
    let mut sh = Shell::new();
    sh.set_command("ls", CommandType::External("/bin/ls".to_string()));
    sh
}

#[test]
fn alias_expands_once_with_leading_words() {
    let mut sh = shell_with_ls();
    let argv = vec!["ll".to_string(), "=".to_string(), "ls -l".to_string()];
    assert_eq!(sh.alias(&argv), 0);
    let res = sh.resolve("ll").ok().unwrap();
    match &res.target {
        Target::External(p) => assert_eq!(p, "/bin/ls"),
        other => panic!("unexpected target {:?}", other),
    }
    assert!(!res.must_exist);
    let args = res.arguments(vec!["extra".to_string()]);
    assert_eq!(args, vec!["-l".to_string(), "extra".to_string()]);
}

#[test]
fn alias_to_alias_is_not_found() {
    let mut sh = shell_with_ls();
    sh.set_command("ll", CommandType::Alias("ls -l".to_string()));
    sh.set_command("lll", CommandType::Alias("ll -a".to_string()));
    match sh.resolve("lll") {
        Err(ShellError::CommandNotFound(n)) => assert_eq!(n, "lll"),
        other => panic!("unexpected {:?}", other),
    }
}

#[test]
fn empty_alias_is_not_found() {
    let mut sh = Shell::new();
    sh.set_command("nothing", CommandType::Alias("   ".to_string()));
    assert!(matches!(sh.resolve("nothing"), Err(ShellError::CommandNotFound(_))));
}

#[test]
fn builtin_resolves_in_process() {
    let sh = Shell::new();
    let res = sh.resolve("builtin-echo").ok().unwrap();
    assert!(matches!(res.target, Target::Builtin(BuiltinKind::Echo)));
    assert!(res.leading.is_empty());
}

#[test]
fn unknown_name_is_taken_as_path() {
    let sh = Shell::new();
    let res = sh.resolve("./script").ok().unwrap();
    match &res.target {
        Target::External(p) => assert_eq!(p, "./script"),
        other => panic!("unexpected target {:?}", other),
    }
    assert!(res.must_exist);
    match res.confirm(false) {
        Err(ShellError::CommandNotFound(n)) => assert_eq!(n, "./script"),
        other => panic!("unexpected {:?}", other),
    }
    let again = sh.resolve("./script").ok().unwrap();
    let ok = again.confirm(true).ok().unwrap();
    assert!(!ok.must_exist);
}

#[test]
fn alias_to_missing_command_must_exist() {
    let mut sh = Shell::new();
    sh.set_command("g", CommandType::Alias("gitx status".to_string()));
    let res = sh.resolve("g").ok().unwrap();
    assert!(res.must_exist);
    assert_eq!(res.leading, vec!["status".to_string()]);
    assert!(matches!(res.confirm(false), Err(ShellError::CommandNotFound(_))));
}

#[test]
fn words_split_on_any_white_space() {
    assert_eq!(split_words("  ls\t-l \n-a  "), vec!["ls", "-l", "-a"]);
    assert!(split_words("").is_empty());
    assert!(split_words(" \t ").is_empty());
    assert_eq!(split_words("one"), vec!["one"]);
    assert_eq!(split_words("a\u{3000}b"), vec!["a", "b"]);
}
