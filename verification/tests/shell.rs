use minishell::builtins::BuiltinTable;
use minishell::dispatch::{cd_target, not_found_line, Action, Shell};
use minishell::resolver::{path_join, resolve_command, split_search_path};
use minishell::strutil::{parse_i32, trim_blanks};
use minishell::tokenizer::process_input;

fn strings(words: &[&str]) -> Vec<String> {
    words.iter().map(|w| w.to_string()).collect()
}

#[test]
fn tokenize_collapses_whitespace() {
    assert_eq!(
        process_input("echo hello   world"),
        strings(&["echo", "hello", "world"])
    );
}

#[test]
fn tokenize_single_quotes_are_literal() {
    assert_eq!(process_input("echo 'a b' c"), strings(&["echo", "a b", "c"]));
}

#[test]
fn tokenize_double_quotes_escape_selectively() {
    assert_eq!(
        process_input("echo \"a \\\"b\\\" c\""),
        strings(&["echo", "a \"b\" c"])
    );
}

#[test]
fn tokenize_backslash_escapes_space() {
    assert_eq!(process_input("echo a\\ b"), strings(&["echo", "a b"]));
}

#[test]
fn tokenize_backslash_in_double_quotes_is_literal_before_other_chars() {
    assert_eq!(process_input("echo \"a\\nb\""), strings(&["echo", "a\\nb"]));
    assert_eq!(process_input("echo \"a\\\\b\""), strings(&["echo", "a\\b"]));
}

#[test]
fn tokenize_trailing_backslash_is_literal() {
    assert_eq!(process_input("echo a\\"), strings(&["echo", "a\\"]));
}

#[test]
fn tokenize_unclosed_quote_is_implicitly_closed() {
    assert_eq!(process_input("echo 'abc"), strings(&["echo", "abc"]));
    assert_eq!(process_input("echo \"abc"), strings(&["echo", "abc"]));
}

#[test]
fn tokenize_adjacent_quoted_pieces_form_one_token() {
    assert_eq!(process_input("a'b'c"), strings(&["abc"]));
    assert_eq!(process_input("a\"b\"c"), strings(&["abc"]));
}

#[test]
fn tokenize_empty_and_blank_inputs_yield_no_tokens() {
    assert_eq!(process_input(""), strings(&[]));
    assert_eq!(process_input("   \t  "), strings(&[]));
    assert_eq!(process_input("''"), strings(&[]));
}

#[test]
fn echo_joins_arguments_with_single_spaces() {
    let shell = Shell::new("/start".to_string());
    match shell.plan("echo hello   world") {
        Action::Report(line) => assert_eq!(line, "hello world"),
        _ => panic!("echo must report a line"),
    }
}

#[test]
fn echo_without_arguments_prints_an_empty_line() {
    let shell = Shell::new("/start".to_string());
    match shell.plan("echo") {
        Action::Report(line) => assert_eq!(line, ""),
        _ => panic!("echo must report a line"),
    }
}

#[test]
fn empty_input_reports_command_not_found() {
    let shell = Shell::new("/start".to_string());
    match shell.plan("   ") {
        Action::Report(line) => assert_eq!(line, ": command not found"),
        _ => panic!("empty input must report a line"),
    }
}

#[test]
fn unknown_command_is_dispatched_to_external_resolution() {
    let shell = Shell::new("/start".to_string());
    match shell.plan("frobnicate --now") {
        Action::RunExternal(name, args) => {
            assert_eq!(name, "frobnicate");
            assert_eq!(args, strings(&["--now"]));
        }
        _ => panic!("unknown head must resolve externally"),
    }
}

#[test]
fn exit_zero_terminates_with_status_zero() {
    let shell = Shell::new("/start".to_string());
    match shell.plan("exit 0") {
        Action::Terminate(code) => assert_eq!(code, 0),
        _ => panic!("exit 0 must terminate"),
    }
}

#[test]
fn exit_without_argument_terminates_with_status_zero() {
    let shell = Shell::new("/start".to_string());
    match shell.plan("exit") {
        Action::Terminate(code) => assert_eq!(code, 0),
        _ => panic!("exit must terminate"),
    }
}

#[test]
fn exit_with_non_numeric_argument_reports_and_does_not_terminate() {
    let shell = Shell::new("/start".to_string());
    match shell.plan("exit abc") {
        Action::Diag(msg) => assert_eq!(msg, "exit: abc: numeric argument required"),
        Action::Terminate(_) => panic!("exit abc must not terminate"),
        _ => panic!("exit abc must report an argument error"),
    }
}

#[test]
fn exit_with_negative_status_terminates_with_it() {
    let shell = Shell::new("/start".to_string());
    match shell.plan("exit -5") {
        Action::Terminate(code) => assert_eq!(code, -5),
        _ => panic!("exit -5 must terminate"),
    }
}

#[test]
fn exit_with_out_of_range_status_reports_an_error() {
    let shell = Shell::new("/start".to_string());
    match shell.plan("exit 2147483648") {
        Action::Diag(msg) => assert_eq!(msg, "exit: 2147483648: numeric argument required"),
        _ => panic!("an out-of-range status is an argument error"),
    }
    match shell.plan("exit -2147483648") {
        Action::Terminate(code) => assert_eq!(code, i32::MIN),
        _ => panic!("the smallest i32 is a valid status"),
    }
}

#[test]
fn exit_with_too_many_arguments_reports_an_error() {
    let shell = Shell::new("/start".to_string());
    match shell.plan("exit 1 2") {
        Action::Diag(msg) => assert_eq!(msg, "exit: too many arguments"),
        _ => panic!("exit with two arguments is an argument error"),
    }
}

#[test]
fn type_reports_builtins_and_not_found() {
    let shell = Shell::new("/start".to_string());
    assert_eq!(shell.type_line("echo", &None), "echo is a shell builtin");
    assert_eq!(
        shell.type_line("some_unlikely_name_123", &None),
        "some_unlikely_name_123: not found"
    );
}

#[test]
fn type_reports_a_resolved_path() {
    let shell = Shell::new("/start".to_string());
    assert_eq!(
        shell.type_line("foo", &Some("/usr/bin/foo".to_string())),
        "foo is /usr/bin/foo"
    );
    // the builtin table wins over any resolution answer
    assert_eq!(
        shell.type_line("pwd", &Some("/usr/bin/pwd".to_string())),
        "pwd is a shell builtin"
    );
}

#[test]
fn type_dispatch_hands_out_the_names() {
    let shell = Shell::new("/start".to_string());
    match shell.plan("type echo frobnicate") {
        Action::DescribeNames(names) => assert_eq!(names, strings(&["echo", "frobnicate"])),
        _ => panic!("type must describe its arguments"),
    }
}

#[test]
fn builtin_table_holds_exactly_the_builtins() {
    let table = BuiltinTable::new();
    for name in ["exit", "echo", "type", "pwd", "cd"] {
        assert!(table.contains_name(name));
        assert_eq!(
            table.lookup(name).map(|d| d.as_str().to_string()),
            Some(format!("{} is a shell builtin", name))
        );
    }
    assert!(!table.contains_name("ls"));
    assert!(table.lookup("exit2").is_none());
    assert!(table.lookup("Echo").is_none());
}

#[test]
fn cd_with_missing_target_leaves_directory_unchanged() {
    let mut shell = Shell::new("/start".to_string());
    let err = shell.apply_cd("/definitely/missing/path", &None);
    assert_eq!(
        err,
        Some("cd: /definitely/missing/path: No such file or directory".to_string())
    );
    assert_eq!(shell.pwd_line(), "/start");
}

#[test]
fn cd_with_canonical_target_moves_there() {
    let mut shell = Shell::new("/start".to_string());
    let err = shell.apply_cd("tmp", &Some("/tmp".to_string()));
    assert!(err.is_none());
    assert_eq!(shell.pwd_line(), "/tmp");
}

#[test]
fn cd_without_argument_reports_an_error() {
    let shell = Shell::new("/start".to_string());
    match shell.plan("cd") {
        Action::Diag(msg) => assert_eq!(msg, "cd: missing argument"),
        _ => panic!("cd without an argument is an argument error"),
    }
}

#[test]
fn cd_dispatch_hands_out_the_target() {
    let shell = Shell::new("/start".to_string());
    match shell.plan("cd ../x") {
        Action::ChangeDir(arg) => assert_eq!(arg, "../x"),
        _ => panic!("cd must ask for a change of directory"),
    }
}

#[test]
fn cd_target_expands_tilde_and_joins_relative_paths() {
    let home = Some("/home/u".to_string());
    assert_eq!(cd_target("~", &home, "/w"), "/home/u");
    assert_eq!(cd_target("~/x/y", &home, "/w"), "/home/u/x/y");
    assert_eq!(cd_target("~", &None, "/w"), "/");
    assert_eq!(cd_target("/abs/path", &home, "/w"), "/abs/path");
    assert_eq!(cd_target("rel/path", &home, "/w"), "/w/rel/path");
    assert_eq!(cd_target("rel", &home, "/w/"), "/w/rel");
}

#[test]
fn pwd_reports_the_working_directory() {
    let shell = Shell::new("/somewhere".to_string());
    match shell.plan("pwd") {
        Action::Report(line) => assert_eq!(line, "/somewhere"),
        _ => panic!("pwd must report a line"),
    }
}

#[test]
fn pwd_twice_without_cd_gives_identical_output() {
    let shell = Shell::new("/somewhere".to_string());
    let first = match shell.plan("pwd") {
        Action::Report(line) => line,
        _ => panic!("pwd must report a line"),
    };
    let second = match shell.plan("pwd") {
        Action::Report(line) => line,
        _ => panic!("pwd must report a line"),
    };
    assert_eq!(first, second);
}

#[test]
fn search_path_splits_in_declared_order() {
    assert_eq!(split_search_path(""), strings(&[]));
    assert_eq!(split_search_path("/a:/b"), strings(&["/a", "/b"]));
    assert_eq!(split_search_path("/a::/b:"), strings(&["/a", "", "/b", ""]));
}

#[test]
fn path_join_inserts_exactly_one_slash() {
    assert_eq!(path_join("/usr/bin", "foo"), "/usr/bin/foo");
    assert_eq!(path_join("/usr/bin/", "foo"), "/usr/bin/foo");
    assert_eq!(path_join("", "foo"), "foo");
}

#[test]
fn resolution_selects_the_earlier_directory() {
    let dirs = strings(&["/first", "/second"]);
    let both = vec![true, true];
    assert_eq!(
        resolve_command("foo", &dirs, &both),
        Some("/first/foo".to_string())
    );
    let only_second = vec![false, true];
    assert_eq!(
        resolve_command("foo", &dirs, &only_second),
        Some("/second/foo".to_string())
    );
    let neither = vec![false, false];
    assert_eq!(resolve_command("foo", &dirs, &neither), None);
}

#[test]
fn failed_resolution_reports_command_not_found() {
    assert_eq!(not_found_line("frobnicate"), "frobnicate: command not found");
}

#[test]
fn trim_removes_leading_and_trailing_blanks_only() {
    assert_eq!(trim_blanks("  a b \t"), "a b");
    assert_eq!(trim_blanks(""), "");
    assert_eq!(trim_blanks(" \n "), "");
    assert_eq!(trim_blanks("x"), "x");
}

#[test]
fn parse_i32_accepts_exactly_decimal_i32_literals() {
    assert_eq!(parse_i32("0"), Some(0));
    assert_eq!(parse_i32("42"), Some(42));
    assert_eq!(parse_i32("-42"), Some(-42));
    assert_eq!(parse_i32("2147483647"), Some(i32::MAX));
    assert_eq!(parse_i32("-2147483648"), Some(i32::MIN));
    assert_eq!(parse_i32("2147483648"), None);
    assert_eq!(parse_i32("-2147483649"), None);
    assert_eq!(parse_i32("99999999999999999999"), None);
    assert_eq!(parse_i32(""), None);
    assert_eq!(parse_i32("-"), None);
    assert_eq!(parse_i32("1a"), None);
    assert_eq!(parse_i32("+1"), None);
    assert_eq!(parse_i32(" 1"), None);
}
