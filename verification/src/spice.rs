//! Decisions around the ngspice subprocess: which binary to run, how many may
//! run at once, when a finished run failed, and what its log says.

use vstd::prelude::*;
use crate::numbers::{parse_unsigned, parse_unsigned_chars};
use crate::text::{
    chars_contain, chars_start_with, chars_to_string, contains_text, fold, fold_char, push_str,
    starts_with, str_chars, trim_bounds, trimmed,
};

verus! {

/// `std::io::Error`, carried by `SpiceError::IoError`.
#[verifier::external_type_specification]
#[verifier::external_body]
pub struct ExIoError(std::io::Error);

/// Why a simulation produced no result.
#[derive(Debug)]
pub enum SpiceError {
    /// ngspice did not finish within the given time.
    Timeout(std::time::Duration),
    /// ngspice failed; the text summarizes its log.
    SubprocessFailed(String),
    /// An output file could not be parsed.
    ParseError(String),
    /// Reading or writing a file, or starting ngspice, failed.
    IoError(std::io::Error),
}

impl From<std::io::Error> for SpiceError {
    fn from(err: std::io::Error) -> (e: SpiceError) {
        SpiceError::IoError(err)
    }
}

impl vstd::std_specs::convert::FromSpecImpl<std::io::Error> for SpiceError {
    open spec fn obeys_from_spec() -> bool {
        true
    }

    open spec fn from_spec(err: std::io::Error) -> SpiceError {
        SpiceError::IoError(err)
    }
}

/// The trimmed value of the first configured setting that is not blank,
/// else `fallback`.
pub open spec fn configured_command_spec(
    primary: Option<Seq<char>>,
    secondary: Option<Seq<char>>,
    fallback: Seq<char>,
) -> Seq<char> {
    if primary matches Some(p) && trimmed(p).len() > 0 {
        trimmed(primary->0)
    } else if secondary matches Some(q) && trimmed(q).len() > 0 {
        trimmed(secondary->0)
    } else {
        fallback
    }
}

/// Picks the command of an external tool: the trimmed `primary` setting if it
/// is given and not blank, else the trimmed `secondary` one under the same
/// condition, else `fallback`. (ngspice: `NGSPICE_PATH`, `IMBIK_NGSPICE`,
/// `ngspice`; uv: `UV_PATH`, `IMBIK_UV`, `uv`.)
pub fn configured_command(primary: Option<&str>, secondary: Option<&str>, fallback: &str) -> (r: String)
    ensures
        r@ == configured_command_spec(
            match primary {
                Some(p) => Some(p@),
                None => None,
            },
            match secondary {
                Some(q) => Some(q@),
                None => None,
            },
            fallback@,
        ),
{
    if let Some(p) = primary {
        let v = str_chars(p);
        let (a, b) = trim_bounds(&v);
        if a < b {
            return chars_to_string(&v, a, b);
        }
    }
    if let Some(q) = secondary {
        let v = str_chars(q);
        let (a, b) = trim_bounds(&v);
        if a < b {
            return chars_to_string(&v, a, b);
        }
    }
    let mut r = String::new();
    push_str(&mut r, fallback);
    assert(r@ =~= fallback@);
    r
}

/// How many ngspice processes may run at once: the configured number when it
/// reads as a decimal `usize`, else the machine's parallelism (4 when unknown)
/// capped at 8.
pub open spec fn process_limit_spec(configured: Option<Seq<char>>, available: Option<usize>) -> int {
    let fallback: int = match available {
        Some(n) => if n < 8 {
            n as int
        } else {
            8
        },
        None => 4,
    };
    match configured {
        Some(c) => match parse_unsigned(c, 10, usize::MAX as nat) {
            Ok(v) => v as int,
            Err(_) => fallback,
        },
        None => fallback,
    }
}

/// The limit on concurrent ngspice processes (see `process_limit_spec`).
pub fn spice_process_limit(configured: Option<&str>, available: Option<usize>) -> (n: usize)
    ensures
        n == process_limit_spec(
            match configured {
                Some(c) => Some(c@),
                None => None,
            },
            available,
        ),
{
    let fallback: usize = match available {
        Some(n) => if n < 8 {
            n
        } else {
            8
        },
        None => 4,
    };
    match configured {
        Some(c) => {
            let v = str_chars(c);
            assert(v@.skip(0) =~= v@);
            match parse_unsigned_chars(&v, 0, 10, usize::MAX as u64) {
                Ok(n) => n as usize,
                Err(_) => fallback,
            }
        },
        None => fallback,
    }
}

/// `s` with every character case-folded.
pub open spec fn folded(s: Seq<char>) -> Seq<char> {
    s.map_values(|c: char| fold_char(c))
}

/// The log phrases that mark a failed simulation, in lower case.
pub open spec fn failure_phrases() -> Seq<Seq<char>> {
    seq![
        "error:"@,
        "simulation interrupted"@,
        "singular matrix"@,
        "matrix is singular"@,
        "timestep too small"@,
        "iteration limit reached"@,
        "no convergence"@,
        "fatal error"@,
        "doanalyses:"@,
    ]
}

/// A run failed when ngspice exited unsuccessfully or its log contains one of
/// the failure phrases, regardless of case.
pub open spec fn run_failed(exit_success: bool, log: Seq<char>) -> bool {
    !exit_success || exists|i: int|
        0 <= i < failure_phrases().len() && contains_text(folded(log), #[trigger] failure_phrases()[i])
}

/// The case-folded characters of `s`.
fn folded_chars(s: &str) -> (v: Vec<char>)
    ensures
        v@ == folded(s@),
{
    let src = str_chars(s);
    let mut v: Vec<char> = Vec::new();
    let mut i: usize = 0;
    while i < src.len()
        invariant
            src@ == s@,
            0 <= i <= src.len(),
            v@ == folded(src@.take(i as int)),
        decreases src.len() - i,
    {
        v.push(fold(src[i]));
        i = i + 1;
        assert(v@ =~= folded(src@.take(i as int)));
    }
    assert(src@.take(src.len() as int) =~= src@);
    v
}

/// The failure phrase at position `i` of `failure_phrases`.
fn failure_phrase(i: usize) -> (p: &'static str)
    requires
        i < 9,
    ensures
        p@ == failure_phrases()[i as int],
{
    if i == 0 {
        "error:"
    } else if i == 1 {
        "simulation interrupted"
    } else if i == 2 {
        "singular matrix"
    } else if i == 3 {
        "matrix is singular"
    } else if i == 4 {
        "timestep too small"
    } else if i == 5 {
        "iteration limit reached"
    } else if i == 6 {
        "no convergence"
    } else if i == 7 {
        "fatal error"
    } else {
        "doanalyses:"
    }
}

/// Did the finished ngspice run fail? (`exit_success` tells whether the
/// process exited successfully.)
pub fn is_simulation_failed(exit_success: bool, log: &str) -> (r: bool)
    ensures
        r == run_failed(exit_success, log@),
{
    if !exit_success {
        return true;
    }
    let lower = folded_chars(log);
    let mut i: usize = 0;
    while i < 9
        invariant
            lower@ == folded(log@),
            0 <= i <= 9,
            forall|k: int| 0 <= k < i ==> !contains_text(lower@, #[trigger] failure_phrases()[k]),
        decreases 9 - i,
    {
        let pat = str_chars(failure_phrase(i));
        if chars_contain(&lower, &pat) {
            return true;
        }
        i = i + 1;
    }
    false
}

/// `l` without one trailing carriage return.
pub open spec fn strip_cr(l: Seq<char>) -> Seq<char> {
    if l.len() > 0 && l.last() == '\r' {
        l.drop_last()
    } else {
        l
    }
}

/// The lines of `s` after the partial line `cur`: lines end at `\n` (a `\r`
/// before it is dropped), and a last line without `\n` counts when not empty.
pub open spec fn lines_from(s: Seq<char>, cur: Seq<char>) -> Seq<Seq<char>>
    decreases s.len(),
{
    if s.len() == 0 {
        if cur.len() > 0 {
            seq![cur]
        } else {
            Seq::empty()
        }
    } else if s[0] == '\n' {
        seq![strip_cr(cur)] + lines_from(s.drop_first(), Seq::empty())
    } else {
        lines_from(s.drop_first(), cur.push(s[0]))
    }
}

/// The lines of `s`, as `str::lines` yields them.
pub open spec fn lines_of(s: Seq<char>) -> Seq<Seq<char>> {
    lines_from(s, Seq::empty())
}

/// The views of a vector of strings.
pub open spec fn string_views(v: Seq<String>) -> Seq<Seq<char>> {
    v.map_values(|l: String| l@)
}

proof fn lemma_lines_from_prefix(out: Seq<Seq<char>>, line: Seq<char>, rest: Seq<Seq<char>>)
    ensures
        out + (seq![line] + rest) == out.push(line) + rest,
{
    assert(out + (seq![line] + rest) =~= out.push(line) + rest);
}

/// Splits `v` into lines (see `lines_of`).
pub(crate) fn split_lines(v: &Vec<char>) -> (ls: Vec<String>)
    ensures
        string_views(ls@) == lines_of(v@),
{
    let mut ls: Vec<String> = Vec::new();
    let mut cur: Vec<char> = Vec::new();
    let mut i: usize = 0;
    assert(v@.skip(0) =~= v@);
    while i < v.len()
        invariant
            0 <= i <= v.len(),
            lines_of(v@) == string_views(ls@) + lines_from(v@.skip(i as int), cur@),
        decreases v.len() - i,
    {
        let ghost rest = v@.skip(i as int);
        assert(rest[0] == v@[i as int]);
        assert(rest.drop_first() =~= v@.skip(i + 1));
        let c = v[i];
        if c == '\n' {
            let end = if cur.len() > 0 && cur[cur.len() - 1] == '\r' {
                cur.len() - 1
            } else {
                cur.len()
            };
            let line = chars_to_string(&cur, 0, end);
            proof {
                assert(line@ =~= strip_cr(cur@));
                lemma_lines_from_prefix(string_views(ls@), line@, lines_from(v@.skip(i + 1), Seq::empty()));
            }
            let ghost before = ls@;
            ls.push(line);
            assert(string_views(ls@) =~= string_views(before).push(line@));
            cur = Vec::new();
            assert(cur@ =~= Seq::<char>::empty());
        } else {
            cur.push(c);
        }
        i = i + 1;
    }
    assert(v@.skip(i as int) =~= Seq::<char>::empty());
    if cur.len() > 0 {
        let line = chars_to_string(&cur, 0, cur.len());
        assert(line@ =~= cur@);
        let ghost before = ls@;
        ls.push(line);
        assert(string_views(ls@) =~= string_views(before) + seq![line@]);
    } else {
        assert(string_views(ls@) =~= string_views(ls@) + Seq::<Seq<char>>::empty());
    }
    ls
}

/// A trimmed log line that reports an error.
pub open spec fn is_error_line(t: Seq<char>) -> bool {
    ||| starts_with(t, "Error:"@)
    ||| contains_text(t, "Simulation interrupted"@)
    ||| contains_text(t, "singular matrix"@)
    ||| contains_text(t, "timestep too small"@)
    ||| contains_text(t, "no convergence"@)
}

/// The trimmed lines of `ls` that report errors, in order.
pub open spec fn error_lines(ls: Seq<Seq<char>>) -> Seq<Seq<char>>
    decreases ls.len(),
{
    if ls.len() == 0 {
        Seq::empty()
    } else if is_error_line(trimmed(ls.last())) {
        error_lines(ls.drop_last()).push(trimmed(ls.last()))
    } else {
        error_lines(ls.drop_last())
    }
}

/// The parts joined with `sep` between consecutive parts.
pub open spec fn join(parts: Seq<Seq<char>>, sep: Seq<char>) -> Seq<char>
    decreases parts.len(),
{
    if parts.len() == 0 {
        Seq::empty()
    } else if parts.len() == 1 {
        parts[0]
    } else {
        join(parts.drop_last(), sep) + sep + parts.last()
    }
}

/// The summary of an ngspice log: its error lines joined by `; `, or, when
/// it has none, its last five lines joined by newlines.
pub open spec fn error_summary(log: Seq<char>) -> Seq<char> {
    let ls = lines_of(log);
    let es = error_lines(ls);
    if es.len() == 0 {
        join(ls.skip(if ls.len() > 5 { ls.len() - 5 } else { 0 }), "\n"@)
    } else {
        join(es, "; "@)
    }
}

/// Does the trimmed line `t` report an error?
fn error_line(t: &Vec<char>) -> (r: bool)
    ensures
        r == is_error_line(t@),
{
    chars_start_with(t, "Error:") || chars_contain(t, &str_chars("Simulation interrupted"))
        || chars_contain(t, &str_chars("singular matrix")) || chars_contain(
        t,
        &str_chars("timestep too small"),
    ) || chars_contain(t, &str_chars("no convergence"))
}

/// `parts[from..]` joined with `sep`.
pub(crate) fn join_strings(parts: &Vec<String>, from: usize, sep: &str) -> (r: String)
    requires
        from <= parts.len(),
    ensures
        r@ == join(string_views(parts@).skip(from as int), sep@),
{
    let ghost views = string_views(parts@);
    let mut r = String::new();
    let mut k: usize = from;
    while k < parts.len()
        invariant
            views == string_views(parts@),
            from <= k <= parts.len(),
            r@ == join(views.subrange(from as int, k as int), sep@),
        decreases parts.len() - k,
    {
        if k > from {
            push_str(&mut r, sep);
        }
        push_str(&mut r, parts[k].as_str());
        proof {
            let sub = views.subrange(from as int, k + 1);
            assert(sub.drop_last() =~= views.subrange(from as int, k as int));
            assert(sub.last() == parts@[k as int]@);
            if k == from {
                assert(r@ =~= join(sub, sep@));
            } else {
                assert(r@ =~= join(sub, sep@));
            }
        }
        k = k + 1;
    }
    assert(views.subrange(from as int, parts.len() as int) =~= views.skip(from as int));
    r
}

/// Summarizes an ngspice log for an error message (see `error_summary`).
pub fn extract_error_summary(log: &str) -> (r: String)
    ensures
        r@ == error_summary(log@),
{
    let chars = str_chars(log);
    let ls = split_lines(&chars);
    let ghost lv = string_views(ls@);
    let mut errors: Vec<String> = Vec::new();
    let mut i: usize = 0;
    while i < ls.len()
        invariant
            lv == string_views(ls@),
            lv == lines_of(log@),
            0 <= i <= ls.len(),
            string_views(errors@) == error_lines(lv.take(i as int)),
        decreases ls.len() - i,
    {
        let line = str_chars(ls[i].as_str());
        let (a, b) = trim_bounds(&line);
        let t = chars_to_string(&line, a, b);
        let tv = str_chars(t.as_str());
        proof {
            assert(lv.take(i + 1).drop_last() =~= lv.take(i as int));
            assert(lv.take(i + 1).last() == ls@[i as int]@);
        }
        if error_line(&tv) {
            let ghost before = errors@;
            errors.push(t);
            assert(string_views(errors@) =~= string_views(before).push(t@));
        }
        i = i + 1;
    }
    assert(lv.take(ls.len() as int) =~= lv);
    if errors.len() == 0 {
        let from = if ls.len() > 5 {
            ls.len() - 5
        } else {
            0
        };
        join_strings(&ls, from, "\n")
    } else {
        assert(string_views(errors@).skip(0) =~= string_views(errors@));
        join_strings(&errors, 0, "; ")
    }
}

/// What a finished ngspice run yields: success, or a `SubprocessFailed` error
/// carrying the summary of the log.
pub fn finished_run_outcome(exit_success: bool, log: &str) -> (r: Result<(), SpiceError>)
    ensures
        r is Ok <==> !run_failed(exit_success, log@),
        r is Err ==> (r matches Err(SpiceError::SubprocessFailed(m)) && m@ == error_summary(log@)),
{
    if is_simulation_failed(exit_success, log) {
        Err(SpiceError::SubprocessFailed(extract_error_summary(log)))
    } else {
        Ok(())
    }
}

} // verus!
