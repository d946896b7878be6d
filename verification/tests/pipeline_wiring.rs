use pipeshell::pipeline::build_pipeline;
use pipeshell::pipeline::split_on_pipes;
use pipeshell::pipeline::trim;
use pipeshell::pipeline::StdinSource;
use pipeshell::pipeline::StdoutSink;
use pipeshell::pipeline::StderrSink;
use pipeshell::redirect::parse_stage;
use pipeshell::redirect::Redirect;

#[test]
fn redirect_extraction() {
    let stage = parse_stage("echo hi > out");
    assert_eq!(stage.argv, vec!["echo", "hi"]);
    assert_eq!(stage.out, Some(Redirect { target: "out".to_string(), append: false }));
    assert_eq!(stage.err, None);
}

#[test]
fn truncate_then_append() {
    let first = parse_stage("echo first > out.txt");
    assert_eq!(first.argv, vec!["echo", "first"]);
    assert_eq!(first.out, Some(Redirect { target: "out.txt".to_string(), append: false }));

    let second = parse_stage("echo second >> out.txt");
    assert_eq!(second.argv, vec!["echo", "second"]);
    assert_eq!(second.out, Some(Redirect { target: "out.txt".to_string(), append: true }));
}

#[test]
fn explicit_stdout_operators() {
    assert_eq!(
        parse_stage("a 1> x").out,
        Some(Redirect { target: "x".to_string(), append: false })
    );
    assert_eq!(
        parse_stage("a 1>> x").out,
        Some(Redirect { target: "x".to_string(), append: true })
    );
}

#[test]
fn stderr_redirect() {
    let stage = parse_stage("cmd arg 2> err.log");
    assert_eq!(stage.argv, vec!["cmd", "arg"]);
    assert_eq!(stage.out, None);
    assert_eq!(stage.err, Some(Redirect { target: "err.log".to_string(), append: false }));

    let stage = parse_stage("cmd 2>> err.log");
    assert_eq!(stage.err, Some(Redirect { target: "err.log".to_string(), append: true }));
}

#[test]
fn last_redirect_wins() {
    let stage = parse_stage("echo a > x > y");
    assert_eq!(stage.argv, vec!["echo", "a"]);
    assert_eq!(stage.out, Some(Redirect { target: "y".to_string(), append: false }));
}

#[test]
fn everything_after_first_operator_removed() {
    let stage = parse_stage("echo a > x b c");
    assert_eq!(stage.argv, vec!["echo", "a"]);
    assert_eq!(stage.out, Some(Redirect { target: "x".to_string(), append: false }));
}

#[test]
fn operator_without_filename_is_plain_argument() {
    let stage = parse_stage("echo >");
    assert_eq!(stage.argv, vec!["echo", ">"]);
    assert_eq!(stage.out, None);
}

#[test]
fn two_stage_pipeline() {
    let cmds = build_pipeline("echo a | cat");
    assert_eq!(cmds.len(), 2);
    assert_eq!(cmds[0].argv, vec!["echo", "a"]);
    assert_eq!(cmds[1].argv, vec!["cat"]);
    assert_eq!(cmds[0].stdin_source, StdinSource::Inherit);
    assert_eq!(cmds[0].stdout_sink, StdoutSink::Pipe(0));
    assert_eq!(cmds[1].stdin_source, StdinSource::Pipe(0));
    assert_eq!(cmds[1].stdout_sink, StdoutSink::Inherit);
}

#[test]
fn three_stage_pipeline_endpoints() {
    let cmds = build_pipeline("echo x | tr a b | wc -c");
    assert_eq!(cmds.len(), 3);
    // two pipes, each endpoint bound to exactly one stage
    for k in 0..2 {
        let writers: Vec<usize> = (0..3)
            .filter(|&i| cmds[i].stdout_sink == StdoutSink::Pipe(k))
            .collect();
        let readers: Vec<usize> = (0..3)
            .filter(|&i| cmds[i].stdin_source == StdinSource::Pipe(k))
            .collect();
        assert_eq!(writers, vec![k]);
        assert_eq!(readers, vec![k + 1]);
    }
    assert_eq!(cmds[0].stdin_source, StdinSource::Inherit);
    assert_eq!(cmds[2].stdout_sink, StdoutSink::Inherit);
}

#[test]
fn single_stage_uses_no_pipes() {
    let cmds = build_pipeline("echo hi");
    assert_eq!(cmds.len(), 1);
    assert_eq!(cmds[0].stdin_source, StdinSource::Inherit);
    assert_eq!(cmds[0].stdout_sink, StdoutSink::Inherit);
    assert_eq!(cmds[0].stderr_sink, StderrSink::Inherit);
}

#[test]
fn pipe_split_is_not_quote_aware() {
    let cmds = build_pipeline("echo 'a|b'");
    assert_eq!(cmds.len(), 2);
}

#[test]
fn mid_stage_stdout_goes_to_pipe() {
    let cmds = build_pipeline("echo a > x | cat");
    assert_eq!(cmds[0].stdout_sink, StdoutSink::Pipe(0));
}

#[test]
fn final_stage_redirect_overrides_terminal() {
    let cmds = build_pipeline("echo a | tee > out");
    assert_eq!(
        cmds[1].stdout_sink,
        StdoutSink::File(Redirect { target: "out".to_string(), append: false })
    );
}

#[test]
fn stderr_redirect_on_any_stage() {
    let cmds = build_pipeline("cmd 2> err | cat");
    assert_eq!(
        cmds[0].stderr_sink,
        StderrSink::File(Redirect { target: "err".to_string(), append: false })
    );
    assert_eq!(cmds[1].stderr_sink, StderrSink::Inherit);
}

#[test]
fn segments_are_trimmed() {
    let cmds = build_pipeline("  echo a  |   cat  ");
    assert_eq!(cmds[0].argv, vec!["echo", "a"]);
    assert_eq!(cmds[1].argv, vec!["cat"]);
}

#[test]
fn empty_stage_has_empty_argv() {
    let cmds = build_pipeline("|");
    assert_eq!(cmds.len(), 2);
    assert!(cmds[0].argv.is_empty());
    assert!(cmds[1].argv.is_empty());
}

#[test]
fn split_counts_segments() {
    assert_eq!(split_on_pipes("a|b|c"), vec!["a", "b", "c"]);
    assert_eq!(split_on_pipes("abc"), vec!["abc"]);
    assert_eq!(split_on_pipes(""), vec![""]);
    assert_eq!(split_on_pipes("a||b"), vec!["a", "", "b"]);
}

#[test]
fn trim_removes_surrounding_whitespace() {
    assert_eq!(trim("  x  "), "x");
    assert_eq!(trim("\t a b \t"), "a b");
    assert_eq!(trim(""), "");
    assert_eq!(trim("   "), "");
    assert_eq!(trim("x"), "x");
}
