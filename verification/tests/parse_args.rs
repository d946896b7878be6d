use pipeshell::redirect::parse_stage;
use pipeshell::tokenize::tokenize;

#[test]
fn test_parse_args() {
    let in1 = "cat \"/tmp/pig/f\\n53\" \"/tmp/pig/f\\99\" \"/tmp/pig/f'\\'38\"";
    let out1 = parse_stage(in1).argv;
    assert_eq!(out1, vec!["cat", "/tmp/pig/f\\n53", "/tmp/pig/f\\99", "/tmp/pig/f'\\'38"]);

    let in2 = "cat \"/tmp/fox/f\\n51\" \"/tmp/fox/f\\22\" \"/tmp/fox/f'\\'90\"";
    let out2 = parse_stage(in2).argv;
    assert_eq!(out2, vec!["cat", "/tmp/fox/f\\n51", "/tmp/fox/f\\22", "/tmp/fox/f'\\'90"]);

    let in3 = "echo 'hello\\\"worldtest\\\"example'";
    let out3 = parse_stage(in3).argv;
    assert_eq!(out3, vec!["echo", "hello\\\"worldtest\\\"example"]);

    let in4 = "echo \"A \\\\ escapes itself\"";
    let out4 = parse_stage(in4).argv;
    assert_eq!(out4, vec!["echo", "A \\ escapes itself"]);
}

#[test]
fn single_quotes_verbatim() {
    assert_eq!(tokenize("echo 'a\\\\b'"), vec!["echo", "a\\\\b"]);
    assert_eq!(tokenize("echo 'a\\b'"), vec!["echo", "a\\b"]);
}

#[test]
fn double_quote_backslash_escapes_itself() {
    assert_eq!(tokenize("echo \"A \\\\ escapes itself\""), vec!["echo", "A \\ escapes itself"]);
}

#[test]
fn double_quote_backslash_before_plain_char_kept() {
    assert_eq!(tokenize("cat \"/tmp/pig/f\\n53\""), vec!["cat", "/tmp/pig/f\\n53"]);
}

#[test]
fn double_quote_backslash_before_special() {
    assert_eq!(tokenize("echo \"\\$x \\`y\\` \\\"z\\\"\""), vec!["echo", "$x `y` \"z\""]);
}

#[test]
fn unquoted_backslash_escapes_space() {
    assert_eq!(tokenize("echo a\\ b"), vec!["echo", "a b"]);
}

#[test]
fn no_empty_tokens() {
    assert_eq!(tokenize("   a   b  "), vec!["a", "b"]);
    assert_eq!(tokenize(""), Vec::<String>::new());
    assert_eq!(tokenize("    "), Vec::<String>::new());
    assert_eq!(tokenize("echo '' x"), vec!["echo", "x"]);
}

#[test]
fn retokenize_joined_tokens() {
    let tokens = tokenize("echo   hello    world");
    let joined = tokens.join(" ");
    assert_eq!(tokenize(&joined), tokens);
}

#[test]
fn unterminated_quote_lenient() {
    assert_eq!(tokenize("echo 'abc"), vec!["echo", "abc"]);
    assert_eq!(tokenize("echo \"abc"), vec!["echo", "abc"]);
}

#[test]
fn trailing_backslash_dropped() {
    assert_eq!(tokenize("echo a\\"), vec!["echo", "a"]);
}

#[test]
fn newline_ignored() {
    assert_eq!(tokenize("ab\ncd"), vec!["abcd"]);
}

#[test]
fn quotes_join_words_into_one_token() {
    assert_eq!(tokenize("echo \"a b\"'c d'"), vec!["echo", "a bc d"]);
}
