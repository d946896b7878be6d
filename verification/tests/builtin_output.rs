use pipeshell::builtins::cd_error_line;
use pipeshell::builtins::echo_line;
use pipeshell::builtins::expand_tilde;
use pipeshell::builtins::not_found_line;
use pipeshell::builtins::plan_stage;
use pipeshell::builtins::pwd_line;
use pipeshell::builtins::type_line;
use pipeshell::builtins::Builtin;
use pipeshell::builtins::StagePlan;
use pipeshell::complete::completions;
use pipeshell::exec_index::file_stem;
use pipeshell::exec_index::ExeIndex;
use pipeshell::history::format_usize;
use pipeshell::history::history_output;
use pipeshell::history::parse_usize;
use pipeshell::exec_index::mode_is_executable;

fn strings(v: &[&str]) -> Vec<String> {
    v.iter().map(|s| s.to_string()).collect()
}

#[test]
fn echo_hello_world() {
    assert_eq!(echo_line(&strings(&["echo", "hello", "world"])), "hello world\n");
}

#[test]
fn echo_without_arguments() {
    assert_eq!(echo_line(&strings(&["echo"])), "\n");
}

#[test]
fn pwd_appends_newline() {
    assert_eq!(pwd_line("/some/dir"), "/some/dir\n");
}

#[test]
fn type_reports_builtin() {
    let index = ExeIndex::new(Vec::new());
    assert_eq!(type_line("echo", &index), "echo is a shell builtin\n");
    assert_eq!(type_line("exit", &index), "exit is a shell builtin\n");
    assert_eq!(type_line("history", &index), "history is a shell builtin\n");
    assert_eq!(type_line("cd", &index), "cd is a shell builtin\n");
}

#[test]
fn type_reports_missing_name() {
    let index = ExeIndex::new(Vec::new());
    assert_eq!(type_line("nosuch", &index), "nosuch: not found\n");
}

#[test]
fn type_reports_executable_path() {
    let index = ExeIndex::new(strings(&["/bin/tool.sh", "/usr/bin/ls", "/opt/ls"]));
    assert_eq!(type_line("ls", &index), "ls is /usr/bin/ls\n");
    assert_eq!(type_line("tool", &index), "tool is /bin/tool.sh\n");
}

#[test]
fn unknown_command_message() {
    assert_eq!(not_found_line("nosuch"), "nosuch: command not found\n");
}

#[test]
fn cd_error_message() {
    assert_eq!(
        cd_error_line("/nonexistent"),
        "cd: /nonexistent: No such file or directory\n"
    );
}

#[test]
fn tilde_expansion() {
    assert_eq!(expand_tilde("~/work", "/home/u"), "/home/u/work");
    assert_eq!(expand_tilde("~", "/home/u"), "/home/u");
    assert_eq!(expand_tilde("/abs/path", "/home/u"), "/abs/path");
    assert_eq!(expand_tilde("a~b~", "X"), "aXbX");
}

#[test]
fn builtin_lookup() {
    assert!(matches!(Builtin::from_str("echo"), Some(Builtin::Echo)));
    assert!(matches!(Builtin::from_str("pwd"), Some(Builtin::Pwd)));
    assert!(matches!(Builtin::from_str("cd"), Some(Builtin::Cd)));
    assert!(matches!(Builtin::from_str("type"), Some(Builtin::Type)));
    assert!(matches!(Builtin::from_str("exit"), Some(Builtin::Exit)));
    assert!(matches!(Builtin::from_str("history"), Some(Builtin::History)));
    assert!(Builtin::from_str("ls").is_none());
    assert!(Builtin::from_str("").is_none());
}

#[test]
fn builtin_names_listed() {
    assert_eq!(Builtin::names(), vec!["echo", "pwd", "cd", "type", "exit", "history"]);
}

#[test]
fn stage_plans() {
    let index = ExeIndex::new(strings(&["/bin/cat"]));
    assert_eq!(plan_stage(&strings(&["echo", "x"]), &index), StagePlan::Builtin(Builtin::Echo));
    assert_eq!(plan_stage(&strings(&["cat"]), &index), StagePlan::External);
    assert_eq!(plan_stage(&strings(&["nosuch"]), &index), StagePlan::NotFound);
    assert_eq!(plan_stage(&Vec::new(), &index), StagePlan::NotFound);
}

#[test]
fn lookup_takes_first_match() {
    let index = ExeIndex::new(strings(&["/a/x", "/b/x"]));
    assert_eq!(index.lookup("x"), Some("/a/x".to_string()));
    assert_eq!(index.lookup("y"), None);
}

#[test]
fn file_stems() {
    assert_eq!(file_stem("/usr/bin/ls"), "ls");
    assert_eq!(file_stem("/a/b.tar.gz"), "b.tar");
    assert_eq!(file_stem("tool.sh"), "tool");
    assert_eq!(file_stem("/x/.hidden"), ".hidden");
    assert_eq!(file_stem("/x/.hidden.txt"), ".hidden");
    assert_eq!(file_stem("name."), "name");
}

#[test]
fn execute_permission_bits() {
    assert!(mode_is_executable(0o755));
    assert!(mode_is_executable(0o100));
    assert!(mode_is_executable(0o010));
    assert!(mode_is_executable(0o001));
    assert!(!mode_is_executable(0o644));
    assert!(!mode_is_executable(0o000));
}

#[test]
fn completion_candidates() {
    let cmds = strings(&["cat", "cd", "echo", "exit"]);
    assert_eq!(completions(&cmds, "c"), vec!["cat", "cd"]);
    assert_eq!(completions(&cmds, "e"), vec!["echo", "exit"]);
    assert_eq!(completions(&cmds, "echo"), vec!["echo"]);
    assert_eq!(completions(&cmds, "z"), Vec::<String>::new());
    assert_eq!(completions(&cmds, ""), cmds);
}

#[test]
fn history_lists_all_entries() {
    let h = strings(&["echo a", "pwd"]);
    assert_eq!(history_output(&h, None), vec!["    1  echo a", "    2  pwd"]);
}

#[test]
fn history_lists_last_n() {
    let h = strings(&["one", "two", "three"]);
    assert_eq!(history_output(&h, Some(2)), vec!["    2  two", "    3  three"]);
    assert_eq!(history_output(&h, Some(0)), Vec::<String>::new());
    assert_eq!(
        history_output(&h, Some(99)),
        vec!["    1  one", "    2  two", "    3  three"]
    );
}

#[test]
fn decimal_formatting() {
    assert_eq!(format_usize(0), "0");
    assert_eq!(format_usize(7), "7");
    assert_eq!(format_usize(12345), "12345");
    assert_eq!(format_usize(1000), "1000");
}

#[test]
fn decimal_parsing() {
    assert_eq!(parse_usize("42"), Some(42));
    assert_eq!(parse_usize("0"), Some(0));
    assert_eq!(parse_usize("007"), Some(7));
    assert_eq!(parse_usize(""), None);
    assert_eq!(parse_usize("4a"), None);
    assert_eq!(parse_usize("-1"), None);
    assert_eq!(parse_usize("99999999999999999999999"), None);
}
