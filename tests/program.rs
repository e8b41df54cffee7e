use rsh::builtin::{is_dots, Builtin};
use rsh::command::Command;
use rsh::env::{is_exe, join, split_search_path, Env};
use rsh::program::{representable_args, Program};
use rsh::text::{contains_nul, split_ascii_words, str_equal};
use rsh::unlikely;

fn strings(v: &[&str]) -> Vec<String> {
    v.iter().map(|s| s.to_string()).collect()
}

fn env_with(path: &str) -> Env {
    Env::from_parts("/home/u".to_string(), "u".to_string(), "box".to_string(), path)
}

#[test]
fn nul_argument_is_dropped() {
    let args = strings(&["a", "b\0c", "d"]);
    assert_eq!(representable_args(&args), strings(&["a", "d"]));
}

#[test]
fn argv_starts_with_program_and_drops_nul() {
    let env = env_with("/usr/bin");
    let modes = vec![Some(0o755)];
    let p = Program::from_as_str("echo", strings(&["x", "\0", "y"]), &env, &modes).unwrap();
    assert_eq!(p.argv(), strings(&["/usr/bin/echo", "x", "y"]));
    assert_eq!(p.nth_arg(1).map(|s| s.as_str()), Some("\0"));
    assert_eq!(p.nth_arg(3), None);
}

#[test]
fn program_without_args() {
    let env = env_with("/bin:/usr/bin");
    let modes = vec![None, Some(0o700)];
    let p = Program::from_as_str("ls", Vec::new(), &env, &modes).unwrap();
    assert_eq!(p.program, "/usr/bin/ls");
    assert!(p.args.is_none());
    assert_eq!(p.argv(), strings(&["/usr/bin/ls"]));
    assert_eq!(p.nth_arg(0), None);
}

#[test]
fn program_not_found() {
    let env = env_with("/bin:/usr/bin");
    let modes = vec![None, Some(0o644)];
    let e = Program::from_as_str("nope", Vec::new(), &env, &modes).unwrap_err();
    assert_eq!(e, "nope is not found");
}

#[test]
fn tokenize_line() {
    let (p, a) = Program::from_str_as_str("ls -la  /tmp\n");
    assert_eq!(p, "ls");
    assert_eq!(a, strings(&["-la", "/tmp"]));
}

#[test]
fn tokenize_program_alone() {
    assert_eq!(Program::from_str_as_str("pwd\n"), ("pwd".to_string(), Vec::new()));
    assert_eq!(Program::from_str_as_str("pwd"), ("pwd".to_string(), Vec::new()));
    assert_eq!(Program::from_str_as_str(""), (String::new(), Vec::new()));
}

#[test]
fn tokenize_leading_space() {
    assert_eq!(Program::from_str_as_str("  ls x"), (String::new(), strings(&["ls", "x"])));
}

#[test]
fn split_words() {
    assert_eq!(split_ascii_words(" a\tb\n\nc "), strings(&["a", "b", "c"]));
    assert!(split_ascii_words("   ").is_empty());
}

#[test]
fn nul_and_equality() {
    assert!(contains_nul("a\0"));
    assert!(!contains_nul("abc"));
    assert!(str_equal("cd", "cd"));
    assert!(!str_equal("cd", "c"));
}

#[test]
fn join_paths() {
    assert_eq!(join("/usr/bin", "ls"), "/usr/bin/ls");
    assert_eq!(join("/usr/bin/", "ls"), "/usr/bin/ls");
    assert_eq!(join("", "ls"), "ls");
    assert_eq!(join("/bin", "/opt/x"), "/opt/x");
}

#[test]
fn split_path_var() {
    assert_eq!(split_search_path("/usr/bin:/bin"), strings(&["/usr/bin", "/bin"]));
    assert_eq!(split_search_path("a::b"), strings(&["a", "", "b"]));
    assert_eq!(split_search_path(""), strings(&[""]));
}

#[test]
fn executable_modes() {
    assert!(is_exe(0o100));
    assert!(is_exe(0o001));
    assert!(!is_exe(0o644));
}

#[test]
fn find_first_executable() {
    let env = env_with("/a:/b:/c");
    assert_eq!(env.candidate_paths("x"), strings(&["/a/x", "/b/x", "/c/x"]));
    let modes = vec![None, Some(0o644), Some(0o755)];
    assert_eq!(env.find_executable("x", &modes), Some("/c/x".to_string()));
    let none = vec![None, None, Some(0o600)];
    assert_eq!(env.find_executable("x", &none), None);
}

#[test]
fn prompt() {
    let env = env_with("/bin");
    assert_eq!(env.ps1(), "u@box /home/u");
    assert_eq!(env.pretty_cwd(), "~");
}

#[test]
fn builtins() {
    assert!(matches!(
        Builtin::try_from_program("cd", &strings(&["/tmp"])),
        Ok(Builtin::Cd(d)) if d == "/tmp"
    ));
    assert!(matches!(Builtin::try_from_program("cd", &Vec::new()), Ok(Builtin::Cd(d)) if d.is_empty()));
    assert!(matches!(Builtin::try_from_program("exit", &Vec::new()), Ok(Builtin::Exit)));
    assert!(Builtin::try_from_program("ls", &Vec::new()).is_err());
}

#[test]
fn dots() {
    assert!(is_dots("."));
    assert!(is_dots(".."));
    assert!(is_dots("../x"));
    assert!(!is_dots(".x"));
    assert!(!is_dots("x"));
    assert!(!is_dots(""));
}

#[test]
fn child_environment() {
    assert_eq!(Command::child_env(), strings(&["PATH=/usr/bin:/bin"]));
}

#[test]
fn unlikely_passes_through() {
    assert!(unlikely(true));
    assert!(!unlikely(false));
}
