use futils::touch::{after_create, after_make_dirs, parse_args, plan_target, select_targets,
    FollowUp, FsOutcome, TimestampChoice, TouchAction, TouchCommand, TouchOptions};

fn args_of(v: &[&str]) -> Vec<String> {
    v.iter().map(|s| s.to_string()).collect()
}

#[test]
fn touch_empty_arguments_are_a_usage_error() {
    assert!(matches!(parse_args(&args_of(&["touch"])), TouchCommand::UsageError));
}

#[test]
fn touch_help_flag_is_recognized() {
    assert!(matches!(parse_args(&args_of(&["touch", "/h"])), TouchCommand::Help));
    assert!(matches!(parse_args(&args_of(&["touch", "--help", "f"])), TouchCommand::Help));
}

#[test]
fn each_flag_sets_its_option() {
    match parse_args(&args_of(&["touch", "/c", "f"])) {
        TouchCommand::Run(o) => {
            assert!(o.no_create && !o.directory && !o.access_time_only && !o.modification_time_only)
        },
        _ => panic!("expected a run"),
    }
    match parse_args(&args_of(&["touch", "--directory", "f"])) {
        TouchCommand::Run(o) => assert!(o.directory && !o.no_create),
        _ => panic!("expected a run"),
    }
    match parse_args(&args_of(&["touch", "/a", "f"])) {
        TouchCommand::Run(o) => assert!(o.access_time_only && !o.modification_time_only),
        _ => panic!("expected a run"),
    }
    match parse_args(&args_of(&["touch", "--modification-time", "f"])) {
        TouchCommand::Run(o) => assert!(o.modification_time_only && !o.access_time_only),
        _ => panic!("expected a run"),
    }
}

#[test]
fn unrecognized_first_argument_sets_nothing() {
    match parse_args(&args_of(&["touch", "file.txt"])) {
        TouchCommand::Run(o) => {
            assert!(
                !o.no_create && !o.directory && !o.access_time_only && !o.modification_time_only
            )
        },
        _ => panic!("expected a run"),
    }
}

#[test]
fn targets_skip_flags_and_program_names() {
    let args = args_of(&["/usr/bin/touch", "/d", "a/b/c", "touch", "touch.exe", "--help", "x"]);
    let t = select_targets(&args, "touch", "touch.exe");
    assert_eq!(t, args_of(&["a/b/c", "x"]));
}

#[test]
fn no_create_skips_a_missing_target() {
    let mut o = TouchOptions::new();
    o.no_create = true;
    assert!(matches!(plan_target(&o, false), TouchAction::Skip));
    assert!(matches!(plan_target(&o, true), TouchAction::CreateFile(TimestampChoice::Both)));
}

#[test]
fn directory_mode_makes_directories_even_when_nothing_exists() {
    let mut o = TouchOptions::new();
    o.directory = true;
    assert!(matches!(plan_target(&o, false), TouchAction::MakeDirectories));
    assert!(matches!(plan_target(&o, true), TouchAction::MakeDirectories));
}

#[test]
fn nested_directory_scenario_plans_a_directory_creation() {
    let args = args_of(&["touch", "/d", "a/b/c"]);
    let o = match parse_args(&args) {
        TouchCommand::Run(o) => o,
        _ => panic!("expected a run"),
    };
    let targets = select_targets(&args, "touch", "touch.exe");
    assert_eq!(targets, args_of(&["a/b/c"]));
    assert!(matches!(plan_target(&o, false), TouchAction::MakeDirectories));
}

#[test]
fn default_mode_creates_the_file_and_updates_both_times() {
    let o = TouchOptions::new();
    assert!(matches!(plan_target(&o, false), TouchAction::CreateFile(TimestampChoice::Both)));
    match after_create(TimestampChoice::Both, FsOutcome::Created) {
        FollowUp::Done => {},
        _ => panic!("a fresh file needs no timestamp write"),
    }
    match after_create(TimestampChoice::Both, FsOutcome::AlreadyExists) {
        FollowUp::SetTimes(TimestampChoice::Both) => {},
        _ => panic!("an existing file gets both timestamps updated"),
    }
}

#[test]
fn timestamp_flags_pick_the_timestamp() {
    let mut o = TouchOptions::new();
    o.access_time_only = true;
    assert!(matches!(plan_target(&o, true), TouchAction::CreateFile(TimestampChoice::AccessOnly)));
    let mut o = TouchOptions::new();
    o.modification_time_only = true;
    assert!(matches!(
        after_create(TimestampChoice::ModificationOnly, FsOutcome::AlreadyExists),
        FollowUp::SetTimes(TimestampChoice::ModificationOnly)
    ));
    assert!(matches!(
        plan_target(&o, false),
        TouchAction::CreateFile(TimestampChoice::ModificationOnly)
    ));
}

#[test]
fn creation_failures_are_fatal() {
    assert!(matches!(
        after_create(TimestampChoice::Both, FsOutcome::PermissionDenied),
        FollowUp::FailPermission
    ));
    assert!(matches!(
        after_create(TimestampChoice::Both, FsOutcome::OtherFailure),
        FollowUp::FailOther
    ));
    assert!(matches!(after_make_dirs(FsOutcome::Created), FollowUp::Done));
    assert!(matches!(after_make_dirs(FsOutcome::PermissionDenied), FollowUp::FailPermission));
    assert!(matches!(after_make_dirs(FsOutcome::AlreadyExists), FollowUp::FailOther));
    assert!(matches!(after_make_dirs(FsOutcome::OtherFailure), FollowUp::FailOther));
}
