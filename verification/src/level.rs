use vstd::prelude::*;

verus! {

/// Severity of a log line, inferred from its keyword content.
#[derive(Clone, Copy, Debug, PartialEq, Eq, Structural)]
pub enum LogLevel {
    INFO,
    ERROR,
    DEBUG,
    WARN,
    TRACE,
    OTHER,
}

/// The keyword given by the parallel upper-/lower-case character sequences
/// `up` and `lo` occurs at position `i` of `s`, each character matching in
/// either case.
pub open spec fn keyword_at(s: Seq<char>, i: int, up: Seq<char>, lo: Seq<char>) -> bool {
    &&& 0 <= i
    &&& i + up.len() <= s.len()
    &&& forall|j: int| 0 <= j < up.len() ==> s[i + j] == up[j] || s[i + j] == lo[j]
}

/// The line contains the keyword somewhere, ignoring ASCII case.
pub open spec fn contains_keyword(s: Seq<char>, up: Seq<char>, lo: Seq<char>) -> bool {
    exists|i: int| keyword_at(s, i, up, lo)
}

pub open spec fn kw_info() -> (Seq<char>, Seq<char>) {
    (seq!['I', 'N', 'F', 'O'], seq!['i', 'n', 'f', 'o'])
}

pub open spec fn kw_error() -> (Seq<char>, Seq<char>) {
    (seq!['E', 'R', 'R', 'O', 'R'], seq!['e', 'r', 'r', 'o', 'r'])
}

pub open spec fn kw_warn() -> (Seq<char>, Seq<char>) {
    (seq!['W', 'A', 'R', 'N'], seq!['w', 'a', 'r', 'n'])
}

pub open spec fn kw_trace() -> (Seq<char>, Seq<char>) {
    (seq!['T', 'R', 'A', 'C', 'E'], seq!['t', 'r', 'a', 'c', 'e'])
}

pub open spec fn kw_debug() -> (Seq<char>, Seq<char>) {
    (seq!['D', 'E', 'B', 'U', 'G'], seq!['d', 'e', 'b', 'u', 'g'])
}

pub open spec fn has_keyword(s: Seq<char>, kw: (Seq<char>, Seq<char>)) -> bool {
    contains_keyword(s, kw.0, kw.1)
}

/// The severity of a line: the first matching keyword in the fixed priority
/// order INFO > ERROR > WARN > TRACE > DEBUG wins; a line matching none is
/// OTHER.
pub open spec fn level_of(s: Seq<char>) -> LogLevel {
    if has_keyword(s, kw_info()) {
        LogLevel::INFO
    } else if has_keyword(s, kw_error()) {
        LogLevel::ERROR
    } else if has_keyword(s, kw_warn()) {
        LogLevel::WARN
    } else if has_keyword(s, kw_trace()) {
        LogLevel::TRACE
    } else if has_keyword(s, kw_debug()) {
        LogLevel::DEBUG
    } else {
        LogLevel::OTHER
    }
}

/// Builds the four-character keyword form used by the scanner below.
fn word4(a: char, b: char, c: char, d: char) -> (r: Vec<char>)
    ensures
        r@ =~= seq![a, b, c, d],
{
    let mut v: Vec<char> = Vec::new();
    v.push(a);
    v.push(b);
    v.push(c);
    v.push(d);
    v
}

/// Builds the five-character keyword form used by the scanner below.
fn word5(a: char, b: char, c: char, d: char, e: char) -> (r: Vec<char>)
    ensures
        r@ =~= seq![a, b, c, d, e],
{
    let mut v: Vec<char> = Vec::new();
    v.push(a);
    v.push(b);
    v.push(c);
    v.push(d);
    v.push(e);
    v
}

/// Case-insensitive substring scan for one keyword, given in parallel
/// upper- and lower-case character forms.
fn scan_for_keyword(line: &str, up: &Vec<char>, lo: &Vec<char>) -> (r: bool)
    requires
        up@.len() == lo@.len(),
        up@.len() >= 1,
    ensures
        r == contains_keyword(line@, up@, lo@),
{
    let n: usize = line.unicode_len();
    let k: usize = up.len();
    if k > n {
        assert(forall|ii: int| !keyword_at(line@, ii, up@, lo@));
        return false;
    }
    let mut i: usize = 0;
    while i <= n - k
        invariant
            k <= n,
            k >= 1,
            n == line@.len(),
            k == up@.len(),
            lo@.len() == k,
            i <= n - k + 1,
            forall|ii: int| 0 <= ii < i ==> !keyword_at(line@, ii, up@, lo@),
        decreases n - k + 1 - i,
    {
        let mut j: usize = 0;
        let mut ok: bool = true;
        while j < k
            invariant
                i + k <= n,
                n == line@.len(),
                k == up@.len(),
                lo@.len() == k,
                j <= k,
                ok ==> forall|jj: int| 0 <= jj < j ==> line@[i + jj] == up@[jj]
                    || line@[i + jj] == lo@[jj],
                !ok ==> !keyword_at(line@, i as int, up@, lo@),
            decreases k - j,
        {
            if ok {
                let c: char = line.get_char(i + j);
                if !(c == up[j] || c == lo[j]) {
                    ok = false;
                }
            }
            j += 1;
        }
        if ok {
            assert(keyword_at(line@, i as int, up@, lo@));
            return true;
        }
        i += 1;
    }
    assert(forall|ii: int| !keyword_at(line@, ii, up@, lo@));
    false
}

/// Infers the severity of one log line: the first keyword found in the
/// priority order INFO > ERROR > WARN > TRACE > DEBUG decides the level,
/// matching case-insensitively; a line containing none is OTHER.
pub fn return_log_level(line: &str) -> (r: LogLevel)
    ensures
        r == level_of(line@),
{
    let info_up: Vec<char> = word4('I', 'N', 'F', 'O');
    let info_lo: Vec<char> = word4('i', 'n', 'f', 'o');
    if scan_for_keyword(line, &info_up, &info_lo) {
        return LogLevel::INFO;
    }
    let error_up: Vec<char> = word5('E', 'R', 'R', 'O', 'R');
    let error_lo: Vec<char> = word5('e', 'r', 'r', 'o', 'r');
    if scan_for_keyword(line, &error_up, &error_lo) {
        return LogLevel::ERROR;
    }
    let warn_up: Vec<char> = word4('W', 'A', 'R', 'N');
    let warn_lo: Vec<char> = word4('w', 'a', 'r', 'n');
    if scan_for_keyword(line, &warn_up, &warn_lo) {
        return LogLevel::WARN;
    }
    let trace_up: Vec<char> = word5('T', 'R', 'A', 'C', 'E');
    let trace_lo: Vec<char> = word5('t', 'r', 'a', 'c', 'e');
    if scan_for_keyword(line, &trace_up, &trace_lo) {
        return LogLevel::TRACE;
    }
    let debug_up: Vec<char> = word5('D', 'E', 'B', 'U', 'G');
    let debug_lo: Vec<char> = word5('d', 'e', 'b', 'u', 'g');
    if scan_for_keyword(line, &debug_up, &debug_lo) {
        return LogLevel::DEBUG;
    }
    LogLevel::OTHER
}

/// Severity inference is deterministic: equal lines always get equal levels.
pub proof fn lemma_level_deterministic(a: Seq<char>, b: Seq<char>)
    requires
        a == b,
    ensures
        level_of(a) == level_of(b),
{
}

/// A line containing no recognized keyword is always classified OTHER.
pub proof fn lemma_no_keyword_is_other(s: Seq<char>)
    requires
        !has_keyword(s, kw_info()),
        !has_keyword(s, kw_error()),
        !has_keyword(s, kw_warn()),
        !has_keyword(s, kw_trace()),
        !has_keyword(s, kw_debug()),
    ensures
        level_of(s) == LogLevel::OTHER,
{
}

/// INFO outranks ERROR: a line containing both keywords is classified INFO.
pub proof fn lemma_info_outranks_error(s: Seq<char>)
    requires
        has_keyword(s, kw_info()),
        has_keyword(s, kw_error()),
    ensures
        level_of(s) == LogLevel::INFO,
{
}

} // verus!
