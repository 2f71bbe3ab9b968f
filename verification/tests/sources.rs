use stig::sources::{lines, listing_arguments, source_listing, SCRIPT, SHELL, SHELL_FLAG};

#[test]
fn listing_command_is_the_shell_with_the_script_and_the_path() {
    assert_eq!(SHELL, "bash");
    assert_eq!(SHELL_FLAG, "-c");
    assert_eq!(
        SCRIPT,
        "cd -- \"$1\" && find . -type f ! -path './src/lib/*' ! -path './src-tauri/target/*' ! -path './node_modules/*'"
    );
    let args = listing_arguments("/home/me/project");
    assert_eq!(args, vec!["-c", SCRIPT, "bash", "/home/me/project"]);
}

#[test]
fn listing_command_keeps_the_path_out_of_the_script() {
    let hostile = "/tmp/my proj; touch /tmp/pwned";
    let args = listing_arguments(hostile);
    assert_eq!(args.len(), 4);
    assert_eq!(args[0], "-c");
    assert_eq!(args[1], SCRIPT);
    assert_eq!(args[2], "bash");
    assert_eq!(args[3], hostile);
    assert!(!args[1].contains("touch"));
    assert!(!args[1].contains("my proj"));
}

#[test]
fn listing_script_is_the_same_for_every_path() {
    let paths = ["", "-n", "$(reboot)", "`id`", "a\"b", "a'b", "a\nb", "é&|<>*?", "\\"];
    for path in paths.iter() {
        let args = listing_arguments(path);
        assert_eq!(args, vec!["-c", SCRIPT, "bash", path]);
    }
}

#[test]
fn lines_splits_at_line_feeds() {
    assert_eq!(lines("./a.rs\n./b/c.rs\n"), vec!["./a.rs", "./b/c.rs"]);
    assert_eq!(lines("one\ntwo"), vec!["one", "two"]);
    assert!(lines("").is_empty());
    assert_eq!(lines("\n"), vec![""]);
    assert_eq!(lines("\n\n"), vec!["", ""]);
    assert_eq!(lines("a\r\nb\r\n"), vec!["a", "b"]);
    assert_eq!(lines("a\r"), vec!["a\r"]);
    assert_eq!(lines("a\r\r\nb"), vec!["a\r", "b"]);
    assert_eq!(lines("\r\n"), vec![""]);
}

#[test]
fn lines_agrees_with_the_standard_lines() {
    let texts = [
        "",
        "a",
        "a\n",
        "a\nb",
        "a\n\nb\n",
        "\n",
        "\r",
        "\r\n",
        "a\rb\n",
        "a\r\n\r\nb\r",
        "é\n日本\r\n~",
        "\n\r\n\n",
    ];
    for text in texts.iter() {
        let expected: Vec<String> = text.lines().map(|l| l.to_string()).collect();
        assert_eq!(lines(text), expected);
    }
}

#[test]
fn source_listing_gives_the_paths_on_success() {
    let r = source_listing(true, b"./src/main.rs\n./README.md\n", b"warning");
    assert_eq!(r, Ok(vec!["./src/main.rs".to_string(), "./README.md".to_string()]));
}

#[test]
fn source_listing_gives_standard_error_on_failure() {
    let r = source_listing(false, b"./partial\n", b"bash: line 1: cd: nowhere: No such file\n");
    assert_eq!(r, Err("bash: line 1: cd: nowhere: No such file\n".to_string()));
}

#[test]
fn source_listing_replaces_what_is_not_utf8() {
    let r = source_listing(true, b"./a\xff.rs\n", b"");
    assert_eq!(r, Ok(vec!["./a\u{FFFD}.rs".to_string()]));
    let e = source_listing(false, b"", b"bad \xc3\x28");
    assert_eq!(e, Err("bad \u{FFFD}(".to_string()));
}
