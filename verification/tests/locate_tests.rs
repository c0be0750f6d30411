use futils::locate::{find_matches, matches_search, parse_args, LocateCommand, LocateMode,
    LocateOptions};

fn args_of(v: &[&str]) -> Vec<String> {
    v.iter().map(|s| s.to_string()).collect()
}

#[test]
fn locate_empty_arguments_are_a_usage_error() {
    assert!(matches!(parse_args(&args_of(&["locate"])), LocateCommand::UsageError));
}

#[test]
fn limit_with_too_many_arguments_is_a_usage_error() {
    let r = parse_args(&args_of(&["locate", "/l", "3", "a", "b"]));
    assert!(matches!(r, LocateCommand::UsageError));
    let r = parse_args(&args_of(&["locate", "--limit", "3", "a", "b"]));
    assert!(matches!(r, LocateCommand::UsageError));
}

#[test]
fn locate_help_flag_is_recognized() {
    assert!(matches!(parse_args(&args_of(&["locate", "/h"])), LocateCommand::Help));
    assert!(matches!(parse_args(&args_of(&["locate", "--help", "x"])), LocateCommand::Help));
}

#[test]
fn basename_flag_sets_the_mode() {
    match parse_args(&args_of(&["locate", "/b", "term"])) {
        LocateCommand::Run(o) => {
            assert!(matches!(o.mode, LocateMode::BaseName));
            assert!(!o.count_only);
            assert_eq!(o.limit, u32::MAX);
        },
        _ => panic!("expected a run"),
    }
}

#[test]
fn case_sensitive_flag_sets_the_mode() {
    match parse_args(&args_of(&["locate", "--case-sensitive", "term"])) {
        LocateCommand::Run(o) => assert!(matches!(o.mode, LocateMode::CaseSensitive)),
        _ => panic!("expected a run"),
    }
}

#[test]
fn count_flag_sets_count_only() {
    match parse_args(&args_of(&["locate", "/c", "term"])) {
        LocateCommand::Run(o) => {
            assert!(o.count_only);
            assert!(matches!(o.mode, LocateMode::Plain));
        },
        _ => panic!("expected a run"),
    }
}

#[test]
fn limit_flag_takes_a_number() {
    match parse_args(&args_of(&["locate", "/l", "25", "term"])) {
        LocateCommand::Run(o) => assert_eq!(o.limit, 25),
        _ => panic!("expected a run"),
    }
}

#[test]
fn bad_or_missing_limit_is_an_error() {
    assert!(matches!(parse_args(&args_of(&["locate", "/l", "x", "t"])), LocateCommand::LimitError));
    assert!(matches!(parse_args(&args_of(&["locate", "/l"])), LocateCommand::LimitError));
}

#[test]
fn regex_flag_compiles_the_pattern() {
    match parse_args(&args_of(&["locate", "/r", "h.llo", "term"])) {
        LocateCommand::Run(o) => assert!(matches!(o.mode, LocateMode::Pattern(_))),
        _ => panic!("expected a run"),
    }
}

#[test]
fn bad_or_missing_regex_is_an_error() {
    assert!(matches!(parse_args(&args_of(&["locate", "/r", "(", "t"])), LocateCommand::RegexError));
    assert!(matches!(parse_args(&args_of(&["locate", "--regex"])), LocateCommand::RegexError));
}

#[test]
fn unrecognized_first_argument_falls_through() {
    match parse_args(&args_of(&["locate", "term"])) {
        LocateCommand::Run(o) => {
            assert!(matches!(o.mode, LocateMode::Plain));
            assert!(!o.count_only);
        },
        _ => panic!("expected a run"),
    }
}

#[test]
fn plain_mode_matches_case_insensitively() {
    let o = LocateOptions::new();
    assert!(matches_search("./Dir/HELLO.txt", "hello", &o));
    assert!(matches_search("./dir/hello.txt", "HELLO", &o));
    assert!(matches_search("./DIR/file.txt", "dir", &o));
    assert!(!matches_search("./dir/skip.txt", "hello", &o));
}

#[test]
fn basename_mode_ignores_directories() {
    let mut o = LocateOptions::new();
    o.mode = LocateMode::BaseName;
    assert!(matches_search("./hello/SKIP.txt", "skip", &o));
    assert!(!matches_search("./hello/skip.txt", "hello", &o));
}

#[test]
fn case_sensitive_mode_matches_verbatim() {
    let mut o = LocateOptions::new();
    o.mode = LocateMode::CaseSensitive;
    assert!(matches_search("./dir/Hello.txt", "Hello", &o));
    assert!(!matches_search("./dir/Hello.txt", "hello", &o));
}

#[test]
fn regex_mode_matches_the_lowercased_path() {
    let o = match parse_args(&args_of(&["locate", "/r", "h.llo", "t"])) {
        LocateCommand::Run(o) => o,
        _ => panic!("expected a run"),
    };
    assert!(matches_search("./dir/HELLO.txt", "t", &o));
    assert!(matches_search("./dir/hallo.txt", "t", &o));
    assert!(!matches_search("./dir/world.txt", "t", &o));
}

#[test]
fn report_counts_all_matches_and_highlights_lines() {
    let paths = args_of(&["./a/hello.txt", "./b/skip.txt", "./c/hello2.txt"]);
    let o = LocateOptions::new();
    let rep = find_matches(&paths, "hello", &o);
    assert_eq!(rep.count, 2);
    assert_eq!(rep.lines.len(), 2);
    assert_eq!(rep.lines[0], "./a/\x1b[32mhello\x1b[0m.txt");
    assert_eq!(rep.lines[1], "./c/\x1b[32mhello\x1b[0m2.txt");
}

#[test]
fn count_only_prints_no_paths() {
    let paths = args_of(&["./a/hello.txt", "./b/skip.txt"]);
    let mut o = LocateOptions::new();
    o.count_only = true;
    let rep = find_matches(&paths, "hello", &o);
    assert_eq!(rep.count, 1);
    assert!(rep.lines.is_empty());
}

#[test]
fn limit_clips_lines_but_not_the_count() {
    let paths = args_of(&["./a/x.txt", "./b/x.txt", "./c/x.txt"]);
    let mut o = LocateOptions::new();
    o.limit = 1;
    let rep = find_matches(&paths, "x", &o);
    assert_eq!(rep.count, 3);
    assert_eq!(rep.lines.len(), 1);
}

#[test]
fn without_a_limit_every_match_is_printed() {
    let paths = args_of(&["./a/one.log", "./b/two.log", "./c/three.md"]);
    let o = LocateOptions::new();
    let rep = find_matches(&paths, "log", &o);
    assert_eq!(rep.count, rep.lines.len());
    assert_eq!(rep.count, 2);
}
