//! The locate tool's core: option parsing, the per-file match predicate, and
//! the report of matching paths with highlighting, limiting and counting.
//!
//! The caller walks the filesystem and hands every regular file's displayed
//! path to [`find_matches`]; everything from there on is verified.

use vstd::prelude::*;

use crate::text::{
    basename, basename_of, contains_seq, digits_val, is_u32_numeral, lower_of, parse_u32, replaced,
    str_contains, str_eq, str_replace, strip_plus, to_lower,
};

verus! {

/// Declares `regex::Regex` as an opaque outside type; the two names below
/// say everything the contracts assume of a value of it.
#[verifier::external_type_specification]
#[verifier::external_body]
pub struct ExRegex(regex::Regex);

/// Whether `regex::Regex::new` accepts `pat`; compilation of a pattern
/// succeeds or fails on the pattern alone.
pub uninterp spec fn regex_ok(pat: Seq<char>) -> bool;

/// The pattern a compiled regex was built from, as `regex::Regex::as_str`
/// returns it.
pub uninterp spec fn regex_pattern(re: regex::Regex) -> Seq<char>;

/// Whether the regex compiled from `pat` matches anywhere in `hay`; a
/// function of the pattern and the haystack alone.
pub uninterp spec fn regex_accepts(pat: Seq<char>, hay: Seq<char>) -> bool;

/// Relies on `regex::Regex::new`: returns a compiled regex exactly when the
/// pattern is valid, and the regex keeps that pattern.
#[verifier::external_body]
fn compile_pattern(pat: &str) -> (r: Option<regex::Regex>)
    ensures
        r is Some <==> regex_ok(pat@),
        r matches Some(re) ==> regex_pattern(re) == pat@,
{
    regex::Regex::new(pat).ok()
}

/// Relies on `regex::Regex::is_match`: true exactly when the regex matches
/// somewhere in `hay`, a function of its pattern and `hay` alone.
#[verifier::external_body]
fn pattern_matches(re: &regex::Regex, hay: &str) -> (r: bool)
    ensures
        r == regex_accepts(regex_pattern(*re), hay@),
{
    re.is_match(hay)
}

/// The matching mode, exactly one active per run.
pub enum LocateMode {
    /// Lowercased full path contains the lowercased search term.
    Plain,
    /// Lowercased basename contains the lowercased search term.
    BaseName,
    /// Full path contains the search term verbatim.
    CaseSensitive,
    /// Lowercased full path matches the compiled pattern.
    Pattern(regex::Regex),
}

pub struct LocateOptions {
    pub mode: LocateMode,
    pub count_only: bool,
    /// Cap on the number of printed paths; `u32::MAX` means unbounded.
    pub limit: u32,
}

impl LocateOptions {
    pub fn new() -> (r: LocateOptions)
        ensures
            r.mode is Plain,
            !r.count_only,
            r.limit == u32::MAX,
    {
        LocateOptions { mode: LocateMode::Plain, count_only: false, limit: u32::MAX }
    }
}

/// Whether a file at `path` is reported for `term` under `mode`.
pub open spec fn mode_matches(mode: LocateMode, path: Seq<char>, term: Seq<char>) -> bool {
    match mode {
        LocateMode::Plain => contains_seq(lower_of(path), lower_of(term)),
        LocateMode::BaseName => contains_seq(lower_of(basename_of(path)), lower_of(term)),
        LocateMode::CaseSensitive => contains_seq(path, term),
        LocateMode::Pattern(re) => regex_accepts(regex_pattern(re), lower_of(path)),
    }
}

/// The match predicate of a single file path.
pub fn matches_search(path: &str, term: &str, options: &LocateOptions) -> (r: bool)
    ensures
        r == mode_matches(options.mode, path@, term@),
{
    match &options.mode {
        LocateMode::Plain => {
            let lp = to_lower(path);
            let lt = to_lower(term);
            str_contains(lp.as_str(), lt.as_str())
        },
        LocateMode::BaseName => {
            let base = basename(path);
            let lb = to_lower(base);
            let lt = to_lower(term);
            str_contains(lb.as_str(), lt.as_str())
        },
        LocateMode::CaseSensitive => str_contains(path, term),
        LocateMode::Pattern(re) => {
            let lp = to_lower(path);
            pattern_matches(re, lp.as_str())
        },
    }
}

/// The outcome of scanning the argument vector.
pub enum LocateCommand {
    /// No arguments, or a limit flag with too many arguments.
    UsageError,
    /// The help flag was given.
    Help,
    /// The limit flag's value is missing or not a number.
    LimitError,
    /// The regex flag's pattern is missing or does not compile.
    RegexError,
    /// Run the search with these options.
    Run(LocateOptions),
}

/// Whether `args[1]` is the given flag in its short or long form.
pub open spec fn flag_is(a: Seq<Seq<char>>, short: Seq<char>, long: Seq<char>) -> bool {
    a.len() > 1 && (a[1] == short || a[1] == long)
}

/// The inputs on which the locate tool reports its usage line and stops.
pub open spec fn locate_usage_error(a: Seq<Seq<char>>) -> bool {
    a.len() == 1 || (flag_is(a, "/l"@, "--limit"@) && a.len() > 4)
}

/// How a returned options record relates to the argument vector.
pub open spec fn locate_options_match(a: Seq<Seq<char>>, o: LocateOptions) -> bool {
    &&& (o.mode is BaseName <==> flag_is(a, "/b"@, "--basename"@))
    &&& (o.mode is CaseSensitive <==> flag_is(a, "/s"@, "--case-sensitive"@))
    &&& (o.mode is Pattern <==> flag_is(a, "/r"@, "--regex"@))
    &&& (o.count_only <==> flag_is(a, "/c"@, "--count"@))
    &&& (o.mode matches LocateMode::Pattern(re) ==> regex_pattern(re) == a[2])
    &&& o.limit == if flag_is(a, "/l"@, "--limit"@) {
        digits_val(strip_plus(a[2])) as u32
    } else {
        u32::MAX
    }
}

/// Scans the argument vector: only `args[1]` is ever inspected for a flag,
/// and a flag that takes a value reads `args[2]`.
pub fn parse_args(args: &Vec<String>) -> (r: LocateCommand)
    requires
        args@.len() >= 1,
    ensures
        ({
            let a = args.deep_view();
            &&& (r is UsageError <==> locate_usage_error(a))
            &&& (r is Help <==> !locate_usage_error(a) && flag_is(a, "/h"@, "--help"@))
            &&& (r is LimitError <==> !locate_usage_error(a) && flag_is(a, "/l"@, "--limit"@)
                && (a.len() < 3 || !is_u32_numeral(a[2])))
            &&& (r is RegexError <==> !locate_usage_error(a) && flag_is(a, "/r"@, "--regex"@) && (
            a.len() < 3 || !regex_ok(a[2])))
            &&& (r matches LocateCommand::Run(o) ==> locate_options_match(a, o))
        }),
{
    proof {
        reveal_strlit("/h");
        reveal_strlit("--help");
        reveal_strlit("/b");
        reveal_strlit("--basename");
        reveal_strlit("/s");
        reveal_strlit("--case-sensitive");
        reveal_strlit("/c");
        reveal_strlit("--count");
        reveal_strlit("/l");
        reveal_strlit("--limit");
        reveal_strlit("/r");
        reveal_strlit("--regex");
        assert("/h"@.len() == 2 && "/h"@[1] == 'h');
        assert("/b"@.len() == 2 && "/b"@[1] == 'b');
        assert("/s"@.len() == 2 && "/s"@[1] == 's');
        assert("/c"@.len() == 2 && "/c"@[1] == 'c');
        assert("/l"@.len() == 2 && "/l"@[1] == 'l');
        assert("/r"@.len() == 2 && "/r"@[1] == 'r');
        assert("--help"@.len() == 6);
        assert("--basename"@.len() == 10);
        assert("--case-sensitive"@.len() == 16);
        assert("--count"@.len() == 7 && "--count"@[2] == 'c');
        assert("--limit"@.len() == 7 && "--limit"@[2] == 'l');
        assert("--regex"@.len() == 7 && "--regex"@[2] == 'r');
    }
    if args.len() == 1 {
        return LocateCommand::UsageError;
    }
    let arg = args[1].as_str();
    proof {
        assert(args.deep_view()[1] == arg@);
    }
    if (str_eq(arg, "/l") || str_eq(arg, "--limit")) && args.len() > 4 {
        return LocateCommand::UsageError;
    }
    if str_eq(arg, "/h") || str_eq(arg, "--help") {
        return LocateCommand::Help;
    }
    let mut options = LocateOptions::new();
    if str_eq(arg, "/b") || str_eq(arg, "--basename") {
        options.mode = LocateMode::BaseName;
    } else if str_eq(arg, "/s") || str_eq(arg, "--case-sensitive") {
        options.mode = LocateMode::CaseSensitive;
    } else if str_eq(arg, "/c") || str_eq(arg, "--count") {
        options.count_only = true;
    } else if str_eq(arg, "/l") || str_eq(arg, "--limit") {
        if args.len() < 3 {
            return LocateCommand::LimitError;
        }
        match parse_u32(args[2].as_str()) {
            Some(v) => {
                options.limit = v;
            },
            None => {
                return LocateCommand::LimitError;
            },
        }
    } else if str_eq(arg, "/r") || str_eq(arg, "--regex") {
        if args.len() < 3 {
            return LocateCommand::RegexError;
        }
        match compile_pattern(args[2].as_str()) {
            Some(re) => {
                options.mode = LocateMode::Pattern(re);
            },
            None => {
                return LocateCommand::RegexError;
            },
        }
    }
    LocateCommand::Run(options)
}

/// The paths among `paths` that match, in traversal order.
pub open spec fn matching_paths(paths: Seq<Seq<char>>, term: Seq<char>, mode: LocateMode) -> Seq<
    Seq<char>,
>
    decreases paths.len(),
{
    if paths.len() == 0 {
        Seq::empty()
    } else {
        let rest = matching_paths(paths.drop_last(), term, mode);
        if mode_matches(mode, paths.last(), term) {
            rest.push(paths.last())
        } else {
            rest
        }
    }
}

/// A path is among the matches exactly when it is one of the walked paths
/// and the mode's predicate holds of it; in particular, default-mode search
/// reports every file whose lowercased path contains the lowercased term.
pub proof fn lemma_matching_paths_complete(
    paths: Seq<Seq<char>>,
    term: Seq<char>,
    mode: LocateMode,
    p: Seq<char>,
)
    ensures
        matching_paths(paths, term, mode).contains(p) <==> (paths.contains(p) && mode_matches(
            mode,
            p,
            term,
        )),
    decreases paths.len(),
{
    if paths.len() == 0 {
    } else {
        let t = paths.drop_last();
        let rest = matching_paths(t, term, mode);
        let m = matching_paths(paths, term, mode);
        lemma_matching_paths_complete(t, term, mode, p);
        if m.contains(p) {
            if mode_matches(mode, paths.last(), term) && p == paths.last() {
                assert(paths[paths.len() - 1] == p);
            } else {
                let i = choose|i: int| 0 <= i < m.len() && m[i] == p;
                assert(rest.contains(p)) by {
                    if mode_matches(mode, paths.last(), term) {
                        assert(m == rest.push(paths.last()));
                        assert(i < rest.len() || p == paths.last());
                    }
                    if i < rest.len() {
                        assert(rest[i] == p);
                    }
                }
                let j = choose|j: int| 0 <= j < t.len() && t[j] == p;
                assert(paths[j] == p);
            }
        }
        if paths.contains(p) && mode_matches(mode, p, term) {
            let i = choose|i: int| 0 <= i < paths.len() && paths[i] == p;
            if i == paths.len() - 1 {
                assert(m == rest.push(p));
                assert(m[rest.len() as int] == p);
            } else {
                assert(t[i] == p);
                assert(rest.contains(p));
                let j = choose|j: int| 0 <= j < rest.len() && rest[j] == p;
                assert(m[j] == p);
            }
        }
    }
}

/// A search term contained case-insensitively in some walked file's path is
/// always reported by a default-mode search: that path is among the matches
/// the report lists and counts.
pub proof fn lemma_plain_search_reports(paths: Seq<Seq<char>>, term: Seq<char>, i: int)
    requires
        0 <= i < paths.len(),
        contains_seq(lower_of(paths[i]), lower_of(term)),
    ensures
        matching_paths(paths, term, LocateMode::Plain).contains(paths[i]),
        matching_paths(paths, term, LocateMode::Plain).len() > 0,
{
    lemma_matching_paths_complete(paths, term, LocateMode::Plain, paths[i]);
}

/// What a search run reports: the highlighted lines to print, and the total
/// number of matches.
pub struct LocateReport {
    pub lines: Vec<String>,
    pub count: usize,
}

/// The search term wrapped in the green terminal color.
pub open spec fn green_of(term: Seq<char>) -> Seq<char> {
    "\x1b[32m"@ + term + "\x1b[0m"@
}

/// Filters the walked file paths by the match predicate, then lists up to
/// `limit` matches with each occurrence of the term highlighted, and counts
/// every match whether listed or not.
pub fn find_matches(paths: &Vec<String>, term: &str, options: &LocateOptions) -> (rep: LocateReport)
    ensures
        ({
            let m = matching_paths(paths.deep_view(), term@, options.mode);
            let cap = if options.limit as int <= m.len() {
                options.limit as int
            } else {
                m.len() as int
            };
            &&& rep.count == m.len()
            &&& options.count_only ==> rep.lines@.len() == 0
            &&& !options.count_only ==> rep.lines.deep_view() == m.take(cap).map_values(
                |p: Seq<char>| replaced(p, term@, green_of(term@)),
            )
            &&& (!options.count_only && options.limit == u32::MAX && m.len() <= u32::MAX)
                ==> rep.lines@.len() == rep.count
        }),
{
    let ghost all = paths.deep_view();
    let mut matched: Vec<String> = Vec::new();
    let mut i: usize = 0;
    while i < paths.len()
        invariant
            0 <= i <= paths@.len(),
            all == paths.deep_view(),
            matched.deep_view() == matching_paths(all.take(i as int), term@, options.mode),
        decreases paths@.len() - i,
    {
        let ghost prev = all.take(i as int);
        let ghost cur = all.take(i as int + 1);
        proof {
            assert(cur.drop_last() =~= prev);
            assert(cur.last() == paths@[i as int]@);
        }
        if matches_search(paths[i].as_str(), term, options) {
            matched.push(paths[i].clone());
            proof {
                assert(matched.deep_view() =~= matching_paths(cur, term@, options.mode));
            }
        } else {
            proof {
                assert(matched.deep_view() =~= matching_paths(cur, term@, options.mode));
            }
        }
        i = i + 1;
    }
    proof {
        assert(all.take(paths@.len() as int) =~= all);
    }
    let ghost m = matching_paths(all, term@, options.mode);
    let count = matched.len();
    let mut lines: Vec<String> = Vec::new();
    if !options.count_only {
        let mut wrap = String::from_str("\x1b[32m");
        wrap.append(term);
        wrap.append("\x1b[0m");
        let cap: usize = if (options.limit as usize) < matched.len() {
            options.limit as usize
        } else {
            matched.len()
        };
        let ghost target = m.take(cap as int).map_values(
            |p: Seq<char>| replaced(p, term@, green_of(term@)),
        );
        let mut j: usize = 0;
        while j < cap
            invariant
                0 <= j <= cap,
                cap <= matched@.len(),
                matched.deep_view() == m,
                wrap@ == green_of(term@),
                target == m.take(cap as int).map_values(
                    |p: Seq<char>| replaced(p, term@, green_of(term@)),
                ),
                target.len() == cap,
                lines@.len() == j,
                lines.deep_view() == target.take(j as int),
            decreases cap - j,
        {
            let h = str_replace(matched[j].as_str(), term, wrap.as_str());
            lines.push(h);
            proof {
                let f = |p: Seq<char>| replaced(p, term@, green_of(term@));
                assert(m.take(cap as int)[j as int] == m[j as int]);
                assert(target[j as int] == f(m[j as int]));
                assert(h@ == f(m[j as int]));
                assert(lines@.len() == j + 1);
                assert(lines.deep_view().len() == j + 1);
                assert(forall|k: int|
                    0 <= k < j ==> lines.deep_view()[k] == target.take(j as int)[k]);
                assert(lines.deep_view()[j as int] == h@);
                assert(lines.deep_view() =~= target.take(j as int + 1));
            }
            j = j + 1;
        }
        proof {
            assert(target.take(cap as int) =~= target);
        }
    }
    LocateReport { lines, count }
}

} // verus!
