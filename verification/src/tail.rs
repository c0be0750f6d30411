//! The tail tool's core: human-readable byte-size parsing, option parsing,
//! the per-file argument scan, and tail-by-lines / tail-by-bytes selection.
//!
//! The caller opens and reads each named file and prints what these
//! functions select; every decision about what to select is verified.

use vstd::prelude::*;

use crate::text::{digits_val, is_digit, is_u32_numeral, lemma_digits_val_prefix, parse_u32,
    str_eq, strip_plus, dashes};

verus! {

/// The number of leading decimal digits of `s`.
pub open spec fn digit_prefix_len(s: Seq<char>) -> nat
    decreases s.len(),
{
    if s.len() == 0 {
        0
    } else if !is_digit(s[0]) {
        0
    } else {
        1 + digit_prefix_len(s.subrange(1, s.len() as int))
    }
}

/// The digit prefix ends exactly at the first non-digit.
proof fn lemma_digit_prefix_exact(s: Seq<char>, i: int)
    requires
        0 <= i <= s.len(),
        forall|j: int| 0 <= j < i ==> is_digit(s[j]),
        i == s.len() || !is_digit(s[i]),
    ensures
        digit_prefix_len(s) == i,
    decreases s.len(),
{
    if i == 0 {
    } else {
        let t = s.subrange(1, s.len() as int);
        assert(forall|j: int| 0 <= j < i - 1 ==> is_digit(t[j]));
        lemma_digit_prefix_exact(t, i - 1);
    }
}

/// Every character of the digit prefix is a digit, and the prefix fits.
proof fn lemma_digit_prefix_digits(s: Seq<char>)
    ensures
        digit_prefix_len(s) <= s.len(),
        forall|j: int| 0 <= j < digit_prefix_len(s) ==> is_digit(s[j]),
    decreases s.len(),
{
    if s.len() == 0 || !is_digit(s[0]) {
    } else {
        let t = s.subrange(1, s.len() as int);
        lemma_digit_prefix_digits(t);
        assert(forall|j: int| 1 <= j < digit_prefix_len(s) ==> is_digit(t[j - 1]) && s[j] == t[j
            - 1]);
    }
}

/// The length of the leading run of decimal digits.
fn digit_prefix(s: &str) -> (k: usize)
    ensures
        k == digit_prefix_len(s@),
        k <= s@.len(),
{
    let n = s.unicode_len();
    let mut k: usize = 0;
    while k < n
        invariant
            0 <= k <= n,
            n == s@.len(),
            forall|j: int| 0 <= j < k ==> is_digit(s@[j]),
        decreases n - k,
    {
        let c = s.get_char(k);
        if !('0' <= c && c <= '9') {
            proof {
                lemma_digit_prefix_exact(s@, k as int);
            }
            return k;
        }
        k = k + 1;
    }
    proof {
        lemma_digit_prefix_exact(s@, k as int);
    }
    k
}

/// The factor a size unit stands for: none, or `k`, `m`, `g` in either case.
pub open spec fn unit_multiplier(u: Seq<char>) -> Option<int> {
    if u.len() == 0 {
        Some(1int)
    } else if u.len() == 1 && (u[0] == 'k' || u[0] == 'K') {
        Some(1024int)
    } else if u.len() == 1 && (u[0] == 'm' || u[0] == 'M') {
        Some(1024int * 1024)
    } else if u.len() == 1 && (u[0] == 'g' || u[0] == 'G') {
        Some(1024int * 1024 * 1024)
    } else {
        None
    }
}

/// The number of bytes a size token denotes: its digit prefix scaled by its
/// unit suffix, if the token is well formed and the result fits in a `u64`.
pub open spec fn size_of(s: Seq<char>) -> Option<int> {
    let k = digit_prefix_len(s) as int;
    let digs = s.take(k);
    let unit = s.skip(k);
    if k == 0 {
        None
    } else if digits_val(digs) > u64::MAX {
        None
    } else {
        match unit_multiplier(unit) {
            Some(m) => if digits_val(digs) * m > u64::MAX {
                None
            } else {
                Some(digits_val(digs) * m)
            },
            None => None,
        }
    }
}

/// Parses a size token `<digits><optional unit>` with unit `k`, `m` or `g`
/// (case-insensitive) scaling by 1024, 1024² or 1024³; fails on an empty
/// digit prefix, an unknown unit, or a value that does not fit in a `u64`.
pub fn parse_size(s: &str) -> (r: Option<u64>)
    ensures
        r is Some <==> size_of(s@) is Some,
        r matches Some(v) ==> Some(v as int) == size_of(s@),
{
    let n = s.unicode_len();
    let k = digit_prefix(s);
    proof {
        lemma_digit_prefix_digits(s@);
    }
    if k == 0 {
        return None;
    }
    let ghost digs = s@.take(k as int);
    let mut val: u64 = 0;
    let mut i: usize = 0;
    while i < k
        invariant
            0 <= i <= k <= n,
            n == s@.len(),
            k == digit_prefix_len(s@),
            digs == s@.take(k as int),
            forall|j: int| 0 <= j < k ==> is_digit(s@[j]),
            val == digits_val(s@.take(i as int)),
        decreases k - i,
    {
        let c = s.get_char(i);
        let dv: u64 = (c as u64) - ('0' as u64);
        let wide: u128 = (val as u128) * 10 + (dv as u128);
        let ghost pre = s@.take(i as int);
        let ghost cur = s@.take(i as int + 1);
        proof {
            assert(cur.drop_last() =~= pre);
            assert(cur.last() == s@[i as int]);
            assert(digits_val(cur) == wide);
        }
        if wide > u64::MAX as u128 {
            proof {
                lemma_digits_val_prefix(digs, i as int + 1);
                assert(digs.subrange(0, i as int + 1) =~= cur);
            }
            return None;
        }
        val = wide as u64;
        i = i + 1;
    }
    proof {
        assert(s@.take(k as int) == digs);
    }
    let ghost unit = s@.skip(k as int);
    if k == n {
        proof {
            assert(unit.len() == 0);
        }
        return Some(val);
    }
    if k + 1 == n {
        let u = s.get_char(k);
        proof {
            assert(unit =~= seq![s@[k as int]]);
        }
        if u == 'k' || u == 'K' {
            if val > u64::MAX / 1024 {
                return None;
            }
            return Some(val * 1024);
        }
        if u == 'm' || u == 'M' {
            if val > u64::MAX / 1048576 {
                return None;
            }
            return Some(val * 1048576);
        }
        if u == 'g' || u == 'G' {
            if val > u64::MAX / 1073741824 {
                return None;
            }
            return Some(val * 1073741824);
        }
        return None;
    }
    proof {
        assert(unit.len() >= 2);
    }
    None
}

/// The running options of the argument scan.
pub struct TailOptions {
    pub num_lines: u32,
    /// When set, byte mode overrides line mode entirely.
    pub num_bytes: Option<u64>,
}

impl TailOptions {
    pub fn new() -> (r: TailOptions)
        ensures
            r.num_lines == 10,
            r.num_bytes is None,
    {
        TailOptions { num_lines: 10, num_bytes: None }
    }
}

/// The outcome of inspecting the first flag token.
pub enum TailCommand {
    /// No arguments at all.
    UsageError,
    /// The help flag was given.
    Help,
    /// The line-count flag's value is missing or not a number.
    LineCountError,
    /// The byte-count flag has no value.
    MissingSizeError,
    /// The byte-count flag's value is not a size token.
    SizeError,
    /// Scan the remaining arguments with these starting options.
    Run(TailOptions),
}

/// What inspecting `args[1]` alone decides, exactly as the scan of the
/// argument vector `a` runs: only the first flag token is recognized here.
pub open spec fn initial_options(a: Seq<Seq<char>>) -> TailCommand {
    if a.len() == 1 {
        TailCommand::UsageError
    } else if a[1] == "/h"@ || a[1] == "--help"@ {
        TailCommand::Help
    } else if a[1] == "/l"@ || a[1] == "--num-lines"@ {
        if a.len() > 2 && is_u32_numeral(a[2]) {
            TailCommand::Run(
                TailOptions {
                    num_lines: digits_val(strip_plus(a[2])) as u32,
                    num_bytes: None,
                },
            )
        } else {
            TailCommand::LineCountError
        }
    } else if a[1] == "/b"@ || a[1] == "--num-bytes"@ {
        if a.len() <= 2 {
            TailCommand::MissingSizeError
        } else {
            match size_of(a[2]) {
                Some(v) => TailCommand::Run(
                    TailOptions { num_lines: 10, num_bytes: Some(v as u64) },
                ),
                None => TailCommand::SizeError,
            }
        }
    } else {
        TailCommand::Run(TailOptions { num_lines: 10, num_bytes: None })
    }
}

/// Inspects `args[1]` for the single flag the tool recognizes up front.
pub fn parse_initial(args: &Vec<String>) -> (r: TailCommand)
    requires
        args@.len() >= 1,
    ensures
        r == initial_options(args.deep_view()),
{
    if args.len() == 1 {
        return TailCommand::UsageError;
    }
    let arg = args[1].as_str();
    proof {
        assert(args.deep_view()[1] == arg@);
    }
    if str_eq(arg, "/h") || str_eq(arg, "--help") {
        return TailCommand::Help;
    }
    if str_eq(arg, "/l") || str_eq(arg, "--num-lines") {
        if args.len() > 2 {
            proof {
                assert(args.deep_view()[2] == args@[2]@);
            }
            match parse_u32(args[2].as_str()) {
                Some(v) => {
                    return TailCommand::Run(TailOptions { num_lines: v, num_bytes: None });
                },
                None => {
                    return TailCommand::LineCountError;
                },
            }
        }
        return TailCommand::LineCountError;
    }
    if str_eq(arg, "/b") || str_eq(arg, "--num-bytes") {
        if args.len() <= 2 {
            return TailCommand::MissingSizeError;
        }
        proof {
            assert(args.deep_view()[2] == args@[2]@);
        }
        match parse_size(args[2].as_str()) {
            Some(v) => {
                return TailCommand::Run(TailOptions { num_lines: 10, num_bytes: Some(v) });
            },
            None => {
                return TailCommand::SizeError;
            },
        }
    }
    TailCommand::Run(TailOptions { num_lines: 10, num_bytes: None })
}

/// One file to show, with the options in force at its position.
pub struct TailJob {
    pub path: String,
    pub num_lines: u32,
    pub num_bytes: Option<u64>,
}

/// The mathematical image of a [`TailJob`].
pub ghost struct JobView {
    pub path: Seq<char>,
    pub num_lines: u32,
    pub num_bytes: Option<u64>,
}

impl View for TailJob {
    type V = JobView;

    open spec fn view(&self) -> JobView {
        JobView { path: self.path@, num_lines: self.num_lines, num_bytes: self.num_bytes }
    }
}

impl DeepView for TailJob {
    type V = JobView;

    open spec fn deep_view(&self) -> JobView {
        self@
    }
}

/// The mathematical outcome of the per-file argument scan.
pub ghost enum ScanOutcome {
    /// The files to show, each with its options.
    Jobs(Seq<JobView>),
    /// A flag-like argument nobody recognizes, at this index.
    UnknownArg(int),
    /// A flag at this index misses its value.
    MissingValue(int),
    /// The value at this index is not a line count.
    BadLineCount(int),
    /// The value at this index is not a size token.
    BadSize(int),
}

/// The scan of the argument vector from position `i` on, with the running
/// options `opts` and the files collected so far: flags re-apply to the files
/// listed after them, arguments equal to the program's name are skipped, and
/// every other argument names a file.
pub open spec fn scan_from(
    a: Seq<Seq<char>>,
    program: Seq<char>,
    i: int,
    opts: TailOptions,
    acc: Seq<JobView>,
) -> ScanOutcome
    decreases a.len() - i,
{
    if i < 0 || i >= a.len() {
        ScanOutcome::Jobs(acc)
    } else {
        let arg = a[i];
        if arg.len() > 0 && (arg[0] == '-' || arg[0] == '/') {
            if arg == "--num-lines"@ || arg == "/n"@ {
                if i + 1 >= a.len() {
                    ScanOutcome::MissingValue(i)
                } else if !is_u32_numeral(a[i + 1]) {
                    ScanOutcome::BadLineCount(i + 1)
                } else {
                    scan_from(
                        a,
                        program,
                        i + 2,
                        TailOptions {
                            num_lines: digits_val(strip_plus(a[i + 1])) as u32,
                            num_bytes: opts.num_bytes,
                        },
                        acc,
                    )
                }
            } else if arg == "--num-bytes"@ || arg == "/b"@ {
                if i + 1 >= a.len() {
                    ScanOutcome::MissingValue(i)
                } else {
                    match size_of(a[i + 1]) {
                        Some(v) => scan_from(
                            a,
                            program,
                            i + 2,
                            TailOptions { num_lines: opts.num_lines, num_bytes: Some(v as u64) },
                            acc,
                        ),
                        None => ScanOutcome::BadSize(i + 1),
                    }
                }
            } else {
                ScanOutcome::UnknownArg(i)
            }
        } else if arg == program {
            scan_from(a, program, i + 1, opts, acc)
        } else {
            scan_from(
                a,
                program,
                i + 1,
                opts,
                acc.push(JobView { path: arg, num_lines: opts.num_lines, num_bytes: opts.num_bytes }),
            )
        }
    }
}

/// The result of the per-file argument scan.
pub enum TailScan {
    Jobs(Vec<TailJob>),
    UnknownArg(usize),
    MissingValue(usize),
    BadLineCount(usize),
    BadSize(usize),
}

/// The mathematical image of a scan result.
pub open spec fn scan_result_view(r: TailScan) -> ScanOutcome {
    match r {
        TailScan::Jobs(v) => ScanOutcome::Jobs(v.deep_view()),
        TailScan::UnknownArg(i) => ScanOutcome::UnknownArg(i as int),
        TailScan::MissingValue(i) => ScanOutcome::MissingValue(i as int),
        TailScan::BadLineCount(i) => ScanOutcome::BadLineCount(i as int),
        TailScan::BadSize(i) => ScanOutcome::BadSize(i as int),
    }
}

/// Scans every argument after the program path: a per-file flag updates the
/// running options for the files after it, and each file argument becomes a
/// job with the options in force there.
pub fn scan_args(args: &Vec<String>, program: &str, initial: TailOptions) -> (r: TailScan)
    requires
        args@.len() >= 1,
    ensures
        scan_result_view(r) == scan_from(args.deep_view(), program@, 1, initial, Seq::empty()),
{
    let ghost a = args.deep_view();
    let mut opts = initial;
    let mut jobs: Vec<TailJob> = Vec::new();
    proof {
        assert(jobs.deep_view() =~= Seq::<JobView>::empty());
    }
    let mut i: usize = 1;
    while i < args.len()
        invariant
            1 <= i,
            a == args.deep_view(),
            a.len() == args@.len(),
            scan_from(a, program@, 1, initial, Seq::empty()) == scan_from(
                a,
                program@,
                i as int,
                opts,
                jobs.deep_view(),
            ),
        decreases args@.len() - i,
    {
        let ghost i0 = i as int;
        let ghost opts0 = opts;
        let ghost jobs0 = jobs.deep_view();
        let arg = args[i].as_str();
        proof {
            assert(a[i0] == arg@);
        }
        let n = arg.unicode_len();
        if n > 0 && (arg.get_char(0) == '-' || arg.get_char(0) == '/') {
            if str_eq(arg, "--num-lines") || str_eq(arg, "/n") {
                if i + 1 >= args.len() {
                    return TailScan::MissingValue(i);
                }
                proof {
                    assert(a[i0 + 1] == args@[i0 + 1]@);
                }
                match parse_u32(args[i + 1].as_str()) {
                    Some(v) => {
                        opts.num_lines = v;
                        i = i + 2;
                    },
                    None => {
                        return TailScan::BadLineCount(i + 1);
                    },
                }
            } else if str_eq(arg, "--num-bytes") || str_eq(arg, "/b") {
                if i + 1 >= args.len() {
                    return TailScan::MissingValue(i);
                }
                proof {
                    assert(a[i0 + 1] == args@[i0 + 1]@);
                }
                match parse_size(args[i + 1].as_str()) {
                    Some(v) => {
                        opts.num_bytes = Some(v);
                        i = i + 2;
                    },
                    None => {
                        return TailScan::BadSize(i + 1);
                    },
                }
            } else {
                return TailScan::UnknownArg(i);
            }
        } else if str_eq(arg, program) {
            i = i + 1;
        } else {
            jobs.push(
                TailJob { path: args[i].clone(), num_lines: opts.num_lines, num_bytes: opts.num_bytes },
            );
            proof {
                assert(jobs.deep_view() =~= jobs0.push(
                    JobView { path: a[i0], num_lines: opts.num_lines, num_bytes: opts.num_bytes },
                ));
            }
            i = i + 1;
        }
        proof {
            assert(scan_from(a, program@, i0, opts0, jobs0) == scan_from(
                a,
                program@,
                i as int,
                opts,
                jobs.deep_view(),
            ));
        }
    }
    TailScan::Jobs(jobs)
}

/// The last `num_bytes` bytes of `content`, or all of it if it is shorter.
pub fn tail_bytes(content: &Vec<u8>, num_bytes: u64) -> (r: Vec<u8>)
    ensures
        r@ == content@.skip(
            if content@.len() > num_bytes {
                content@.len() - num_bytes
            } else {
                0
            },
        ),
        num_bytes >= content@.len() ==> r@ == content@,
{
    let len = content.len();
    let start: usize = if (len as u64) > num_bytes {
        len - (num_bytes as usize)
    } else {
        0
    };
    let mut r: Vec<u8> = Vec::new();
    let mut i: usize = start;
    while i < len
        invariant
            start <= i <= len,
            len == content@.len(),
            r@ == content@.subrange(start as int, i as int),
        decreases len - i,
    {
        r.push(content[i]);
        proof {
            assert(r@ =~= content@.subrange(start as int, i as int + 1));
        }
        i = i + 1;
    }
    proof {
        assert(content@.subrange(start as int, len as int) =~= content@.skip(start as int));
        if num_bytes >= content@.len() {
            assert(r@ =~= content@);
        }
    }
    r
}

/// The position of the first newline of `s`, or its length if it has none.
pub open spec fn first_nl(s: Seq<char>) -> int
    decreases s.len(),
{
    if s.len() == 0 {
        0
    } else if s[0] == '\n' {
        0
    } else {
        1 + first_nl(s.subrange(1, s.len() as int))
    }
}

/// The first newline is exactly at the first position holding one.
proof fn lemma_first_nl_exact(s: Seq<char>, i: int)
    requires
        0 <= i <= s.len(),
        forall|j: int| 0 <= j < i ==> s[j] != '\n',
        i == s.len() || s[i] == '\n',
    ensures
        first_nl(s) == i,
    decreases s.len(),
{
    if i == 0 {
    } else {
        let t = s.subrange(1, s.len() as int);
        assert(forall|j: int| 0 <= j < i - 1 ==> t[j] != '\n');
        lemma_first_nl_exact(t, i - 1);
    }
}

/// The position of the first newline, if `s` has one.
fn find_nl(s: &str) -> (r: Option<usize>)
    ensures
        r matches Some(i) ==> 0 <= i < s@.len() && s@[i as int] == '\n' && first_nl(s@) == i,
        r is None ==> first_nl(s@) == s@.len(),
{
    let n = s.unicode_len();
    let mut i: usize = 0;
    while i < n
        invariant
            0 <= i <= n,
            n == s@.len(),
            forall|j: int| 0 <= j < i ==> s@[j] != '\n',
        decreases n - i,
    {
        if s.get_char(i) == '\n' {
            proof {
                lemma_first_nl_exact(s@, i as int);
            }
            return Some(i);
        }
        i = i + 1;
    }
    proof {
        lemma_first_nl_exact(s@, i as int);
    }
    None
}

/// `s` split on newline characters: the split of `"a\nb\n"` is `a`, `b` and
/// an empty final piece, and a string without newlines is one piece, even
/// when empty.
pub open spec fn split_lines_spec(s: Seq<char>) -> Seq<Seq<char>>
    decreases s.len(),
{
    let i = first_nl(s);
    if 0 <= i < s.len() && s[i] == '\n' {
        seq![s.take(i)] + split_lines_spec(s.skip(i + 1))
    } else {
        seq![s]
    }
}

/// Splits `s` on newline characters, keeping every piece, including empty
/// ones and a final piece after a trailing newline.
pub fn split_lines(s: &str) -> (v: Vec<String>)
    ensures
        v.deep_view() == split_lines_spec(s@),
    decreases s@.len(),
{
    match find_nl(s) {
        None => {
            let mut v: Vec<String> = Vec::new();
            v.push(String::from_str(s));
            proof {
                assert(v.deep_view() =~= seq![s@]);
            }
            v
        },
        Some(i) => {
            let n = s.unicode_len();
            let head = s.substring_char(0, i);
            let rest = s.substring_char(i + 1, n);
            proof {
                assert(rest@ == s@.skip(i + 1));
                assert(head@ == s@.take(i as int));
            }
            let tail = split_lines(rest);
            let mut v: Vec<String> = Vec::new();
            v.push(String::from_str(head));
            proof {
                assert(v.deep_view() =~= seq![head@]);
            }
            let ghost target = seq![s@.take(i as int)] + split_lines_spec(s@.skip(i + 1));
            let mut j: usize = 0;
            while j < tail.len()
                invariant
                    0 <= j <= tail@.len(),
                    target == seq![head@] + tail.deep_view(),
                    v@.len() == j + 1,
                    v.deep_view() == target.take(j + 1),
                decreases tail@.len() - j,
            {
                let line = tail[j].clone();
                proof {
                    assert(line@ == tail.deep_view()[j as int]);
                    assert(target[j as int + 1] == tail.deep_view()[j as int]);
                }
                v.push(line);
                proof {
                    assert(v.deep_view() =~= target.take(j + 2));
                }
                j = j + 1;
            }
            proof {
                assert(target.take(target.len() as int) =~= target);
            }
            v
        },
    }
}

/// The last `num_lines` entries of `lines`, in their original order, or all
/// of them if there are fewer.
pub fn last_lines(lines: &Vec<String>, num_lines: u32) -> (r: Vec<String>)
    ensures
        r.deep_view() == lines.deep_view().skip(
            if lines@.len() > num_lines {
                lines@.len() - num_lines
            } else {
                0
            },
        ),
        num_lines >= lines@.len() ==> r.deep_view() == lines.deep_view(),
{
    let len = lines.len();
    let start: usize = if (len as u64) > (num_lines as u64) {
        len - (num_lines as usize)
    } else {
        0
    };
    let mut r: Vec<String> = Vec::new();
    let mut i: usize = start;
    while i < len
        invariant
            start <= i <= len,
            len == lines@.len(),
            r@.len() == i - start,
            r.deep_view() == lines.deep_view().subrange(start as int, i as int),
        decreases len - i,
    {
        let line = lines[i].clone();
        proof {
            assert(line@ == lines.deep_view()[i as int]);
        }
        r.push(line);
        proof {
            assert(r.deep_view() =~= lines.deep_view().subrange(start as int, i as int + 1));
        }
        i = i + 1;
    }
    proof {
        assert(lines.deep_view().subrange(start as int, len as int) =~= lines.deep_view().skip(
            start as int,
        ));
        if num_lines >= lines@.len() {
            assert(r.deep_view() =~= lines.deep_view());
        }
    }
    r
}

/// The per-file header line: the file name wrapped in the green terminal
/// color between arrows.
pub open spec fn header_of(path: Seq<char>) -> Seq<char> {
    "==> \x1b[32m"@ + path + "\x1b[0m <=="@
}

/// The header line for `path` and its separator rule of dashes, one dash per
/// character of the header.
pub fn file_header(path: &str) -> (r: (String, String))
    ensures
        r.0@ == header_of(path@),
        r.1@ == Seq::new(header_of(path@).len(), |i: int| '-'),
{
    let mut header = String::from_str("==> \x1b[32m");
    header.append(path);
    header.append("\x1b[0m <==");
    let n = header.as_str().unicode_len();
    let rule = dashes(n);
    (header, rule)
}

} // verus!
