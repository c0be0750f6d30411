//! The touch tool's core: option parsing, target selection, and the
//! single-shot decision for each target.
//!
//! The caller tests existence, creates files or directories, and writes
//! timestamps; every decision about what to do next is verified.

use vstd::prelude::*;

use crate::text::str_eq;

verus! {

pub struct TouchOptions {
    /// Never create a missing target.
    pub no_create: bool,
    /// Create directories instead of files.
    pub directory: bool,
    /// Update only the access time of an existing target.
    pub access_time_only: bool,
    /// Update only the modification time of an existing target.
    pub modification_time_only: bool,
}

impl TouchOptions {
    pub fn new() -> (r: TouchOptions)
        ensures
            !r.no_create,
            !r.directory,
            !r.access_time_only,
            !r.modification_time_only,
    {
        TouchOptions {
            no_create: false,
            directory: false,
            access_time_only: false,
            modification_time_only: false,
        }
    }
}

/// The outcome of scanning the argument vector.
pub enum TouchCommand {
    /// No arguments at all.
    UsageError,
    /// The help flag was given.
    Help,
    /// Process the targets with these options.
    Run(TouchOptions),
}

/// What inspecting `args[1]` alone decides: only the first flag token is
/// recognized, and an unrecognized one leaves every option off.
pub open spec fn touch_options_of(a: Seq<Seq<char>>) -> TouchCommand {
    if a.len() == 1 {
        TouchCommand::UsageError
    } else if a[1] == "/h"@ || a[1] == "--help"@ {
        TouchCommand::Help
    } else {
        TouchCommand::Run(
            TouchOptions {
                no_create: a[1] == "/c"@ || a[1] == "--no-create"@,
                directory: a[1] == "/d"@ || a[1] == "--directory"@,
                access_time_only: a[1] == "/a"@ || a[1] == "--access-time"@,
                modification_time_only: a[1] == "/m"@ || a[1] == "--modification-time"@,
            },
        )
    }
}

/// Inspects `args[1]` for the single flag the tool recognizes.
pub fn parse_args(args: &Vec<String>) -> (r: TouchCommand)
    requires
        args@.len() >= 1,
    ensures
        r == touch_options_of(args.deep_view()),
{
    if args.len() == 1 {
        return TouchCommand::UsageError;
    }
    let arg = args[1].as_str();
    proof {
        assert(args.deep_view()[1] == arg@);
    }
    if str_eq(arg, "/h") || str_eq(arg, "--help") {
        return TouchCommand::Help;
    }
    TouchCommand::Run(
        TouchOptions {
            no_create: str_eq(arg, "/c") || str_eq(arg, "--no-create"),
            directory: str_eq(arg, "/d") || str_eq(arg, "--directory"),
            access_time_only: str_eq(arg, "/a") || str_eq(arg, "--access-time"),
            modification_time_only: str_eq(arg, "/m") || str_eq(arg, "--modification-time"),
        },
    )
}

/// Whether an argument is one of the recognized flag spellings, which the
/// target loop skips.
pub open spec fn is_touch_flag(s: Seq<char>) -> bool {
    ||| s == "/h"@
    ||| s == "--help"@
    ||| s == "/c"@
    ||| s == "--no-create"@
    ||| s == "/d"@
    ||| s == "--directory"@
    ||| s == "/a"@
    ||| s == "--access-time"@
    ||| s == "/m"@
    ||| s == "--modification-time"@
}

/// The arguments after the program path that name targets: everything that
/// is not a recognized flag and not the program's own name.
pub open spec fn targets_of(a: Seq<Seq<char>>, stem: Seq<char>, exe: Seq<char>) -> Seq<Seq<char>>
    decreases a.len(),
{
    if a.len() <= 1 {
        Seq::empty()
    } else {
        let rest = targets_of(a.drop_last(), stem, exe);
        let last = a.last();
        if last == stem || last == exe || is_touch_flag(last) {
            rest
        } else {
            rest.push(last)
        }
    }
}

/// Whether an argument is one of the recognized flag spellings.
fn is_flag_arg(s: &str) -> (r: bool)
    ensures
        r == is_touch_flag(s@),
{
    ||| str_eq(s, "/h")
    ||| str_eq(s, "--help")
    ||| str_eq(s, "/c")
    ||| str_eq(s, "--no-create")
    ||| str_eq(s, "/d")
    ||| str_eq(s, "--directory")
    ||| str_eq(s, "/a")
    ||| str_eq(s, "--access-time")
    ||| str_eq(s, "/m")
    ||| str_eq(s, "--modification-time")
}

/// Selects the target names among the arguments, in order, skipping the
/// program's stem and file name and every recognized flag.
pub fn select_targets(args: &Vec<String>, stem: &str, exe: &str) -> (t: Vec<String>)
    requires
        args@.len() >= 1,
    ensures
        t.deep_view() == targets_of(args.deep_view(), stem@, exe@),
{
    let ghost a = args.deep_view();
    let mut t: Vec<String> = Vec::new();
    proof {
        assert(t.deep_view() =~= targets_of(a.take(1), stem@, exe@));
    }
    let mut i: usize = 1;
    while i < args.len()
        invariant
            1 <= i <= a.len(),
            a == args.deep_view(),
            a.len() == args@.len(),
            t.deep_view() == targets_of(a.take(i as int), stem@, exe@),
        decreases args@.len() - i,
    {
        let ghost prev = a.take(i as int);
        let ghost cur = a.take(i as int + 1);
        proof {
            assert(cur.drop_last() =~= prev);
            assert(cur.last() == a[i as int]);
        }
        let arg = args[i].as_str();
        proof {
            assert(a[i as int] == arg@);
        }
        if !(str_eq(arg, stem) || str_eq(arg, exe) || is_flag_arg(arg)) {
            t.push(args[i].clone());
        }
        proof {
            assert(t.deep_view() =~= targets_of(cur, stem@, exe@));
        }
        i = i + 1;
    }
    proof {
        assert(a.take(a.len() as int) =~= a);
    }
    t
}

/// Which timestamps an update touches.
pub enum TimestampChoice {
    Both,
    AccessOnly,
    ModificationOnly,
}

/// What to do with one target.
pub enum TouchAction {
    /// The target is missing and may not be created: do nothing.
    Skip,
    /// Create the target directory and all its missing ancestors.
    MakeDirectories,
    /// Try to create the target file exclusively; on an existing file,
    /// update these timestamps instead.
    CreateFile(TimestampChoice),
}

/// The single-shot decision for one target: skipping wins, then directory
/// mode, then file creation with the selected timestamp update.
pub open spec fn planned_action(o: TouchOptions, exists: bool) -> TouchAction {
    if o.no_create && !exists {
        TouchAction::Skip
    } else if o.directory {
        TouchAction::MakeDirectories
    } else if o.access_time_only {
        TouchAction::CreateFile(TimestampChoice::AccessOnly)
    } else if o.modification_time_only {
        TouchAction::CreateFile(TimestampChoice::ModificationOnly)
    } else {
        TouchAction::CreateFile(TimestampChoice::Both)
    }
}

/// Decides what to do with one target, given whether it exists now.
pub fn plan_target(options: &TouchOptions, exists: bool) -> (a: TouchAction)
    ensures
        a == planned_action(*options, exists),
{
    if options.no_create && !exists {
        TouchAction::Skip
    } else if options.directory {
        TouchAction::MakeDirectories
    } else if options.access_time_only {
        TouchAction::CreateFile(TimestampChoice::AccessOnly)
    } else if options.modification_time_only {
        TouchAction::CreateFile(TimestampChoice::ModificationOnly)
    } else {
        TouchAction::CreateFile(TimestampChoice::Both)
    }
}

/// How an attempted filesystem operation on one target ended.
pub enum FsOutcome {
    /// The target was created.
    Created,
    /// A file already sits at the target path.
    AlreadyExists,
    /// The operation was not permitted.
    PermissionDenied,
    /// Any other failure.
    OtherFailure,
}

/// What to do after an attempted operation.
pub enum FollowUp {
    /// The target is done; move to the next one.
    Done,
    /// Write the current time into these timestamps of the existing file.
    SetTimes(TimestampChoice),
    /// Report the permission failure and stop the whole run.
    FailPermission,
    /// Report the unexpected failure and stop the whole run.
    FailOther,
}

/// The step after exclusive file creation: an existing file gets its
/// timestamps updated, and any failure but existence is fatal.
pub open spec fn create_follow_up(choice: TimestampChoice, outcome: FsOutcome) -> FollowUp {
    match outcome {
        FsOutcome::Created => FollowUp::Done,
        FsOutcome::AlreadyExists => FollowUp::SetTimes(choice),
        FsOutcome::PermissionDenied => FollowUp::FailPermission,
        FsOutcome::OtherFailure => FollowUp::FailOther,
    }
}

/// Decides what follows an exclusive file creation attempt.
pub fn after_create(choice: TimestampChoice, outcome: FsOutcome) -> (f: FollowUp)
    ensures
        f == create_follow_up(choice, outcome),
{
    match outcome {
        FsOutcome::Created => FollowUp::Done,
        FsOutcome::AlreadyExists => FollowUp::SetTimes(choice),
        FsOutcome::PermissionDenied => FollowUp::FailPermission,
        FsOutcome::OtherFailure => FollowUp::FailOther,
    }
}

/// The step after directory creation: every failure is fatal, and a file
/// already sitting at the path is a failure too.
pub open spec fn make_dirs_follow_up(outcome: FsOutcome) -> FollowUp {
    match outcome {
        FsOutcome::Created => FollowUp::Done,
        FsOutcome::AlreadyExists => FollowUp::FailOther,
        FsOutcome::PermissionDenied => FollowUp::FailPermission,
        FsOutcome::OtherFailure => FollowUp::FailOther,
    }
}

/// Decides what follows a directory creation attempt.
pub fn after_make_dirs(outcome: FsOutcome) -> (f: FollowUp)
    ensures
        f == make_dirs_follow_up(outcome),
{
    match outcome {
        FsOutcome::Created => FollowUp::Done,
        FsOutcome::AlreadyExists => FollowUp::FailOther,
        FsOutcome::PermissionDenied => FollowUp::FailPermission,
        FsOutcome::OtherFailure => FollowUp::FailOther,
    }
}

} // verus!
