use vstd::prelude::*;

use crate::level::{level_of, return_log_level};
use crate::log_model::LogRequest;
use crate::time::now_rfc3339_millis;

verus! {

/// Index of the first newline at or after `i` in `s`, or the length of `s`
/// when none follows.
pub open spec fn newline_at(s: Seq<char>, i: int) -> int
    decreases s.len() - i,
{
    if i < 0 || i >= s.len() {
        s.len() as int
    } else if s[i] == '\n' {
        i
    } else {
        newline_at(s, i + 1)
    }
}

pub proof fn lemma_newline_at_props(s: Seq<char>, i: int)
    requires
        0 <= i <= s.len(),
    ensures
        i <= newline_at(s, i) <= s.len(),
        forall|k: int| i <= k < newline_at(s, i) ==> s[k] != '\n',
        newline_at(s, i) < s.len() ==> s[newline_at(s, i)] == '\n',
    decreases s.len() - i,
{
    if i < s.len() && s[i] != '\n' {
        lemma_newline_at_props(s, i + 1);
    }
}

pub proof fn lemma_newline_at_unique(s: Seq<char>, i: int, r: int)
    requires
        0 <= i <= r <= s.len(),
        forall|k: int| i <= k < r ==> s[k] != '\n',
        r < s.len() ==> s[r] == '\n',
    ensures
        newline_at(s, i) == r,
    decreases r - i,
{
    if i < r {
        lemma_newline_at_unique(s, i + 1, r);
    }
}

/// One split piece with a single trailing carriage return removed, so both
/// line endings read the same.
pub open spec fn strip_cr(l: Seq<char>) -> Seq<char> {
    if l.len() > 0 && l[l.len() - 1] == '\r' {
        l.drop_last()
    } else {
        l
    }
}

/// The lines of `s` that parsing keeps, in order: the content is split on
/// newlines, each piece loses one trailing carriage return, and empty
/// pieces are dropped.
pub open spec fn entry_lines(s: Seq<char>) -> Seq<Seq<char>>
    decreases s.len(),
    via entry_lines_decreases
{
    if s.len() == 0 {
        seq![]
    } else {
        let k = newline_at(s, 0);
        let line = strip_cr(s.subrange(0, k));
        let rest = if k == s.len() {
            Seq::<char>::empty()
        } else {
            s.subrange(k + 1, s.len() as int)
        };
        let tail = entry_lines(rest);
        if line.len() == 0 {
            tail
        } else {
            seq![line] + tail
        }
    }
}

#[via_fn]
proof fn entry_lines_decreases(s: Seq<char>) {
    if s.len() > 0 {
        lemma_newline_at_props(s, 0);
    }
}

/// An empty file parses to no entries, and parsing cannot fail.
pub proof fn lemma_parse_empty()
    ensures
        entry_lines(Seq::<char>::empty()) =~= Seq::<Seq<char>>::empty(),
{
}

/// The line contents of a run of entries, in order.
pub open spec fn lines_of(entries: Seq<LogRequest>) -> Seq<Seq<char>> {
    entries.map_values(|e: LogRequest| e.line_content@)
}

/// The shape every produced entry has, relative to its kept line.
pub open spec fn entry_matches(
    e: LogRequest,
    line: Seq<char>,
    service_id: Seq<char>,
    observed_at: Seq<char>,
) -> bool {
    &&& e.line_content@ == line
    &&& e.level == level_of(line)
    &&& e.my_service_id@ == service_id
    &&& e.created_at@ == observed_at
}

/// Finds the end of the line that starts at `pos`: the index of the next
/// newline, or the end of the content.
fn find_line_end(content: &str, pos: usize) -> (e: usize)
    requires
        pos <= content@.len(),
    ensures
        pos <= e <= content@.len(),
        forall|k: int| pos <= k < e ==> content@[k] != '\n',
        e < content@.len() ==> content@[e as int] == '\n',
{
    let n: usize = content.unicode_len();
    let mut e: usize = pos;
    while e < n
        invariant
            pos <= e <= n,
            n == content@.len(),
            forall|k: int| pos <= k < e ==> content@[k] != '\n',
        decreases n - e,
    {
        if content.get_char(e) == '\n' {
            return e;
        }
        e += 1;
    }
    e
}

/// Parses one file's whole content: splits on line boundaries, drops blank
/// lines, infers each kept line's severity, and stamps every entry with the
/// given service id and observation time.
pub fn parse_content(content: &str, service_id: &str, observed_at: &str) -> (r: Vec<LogRequest>)
    ensures
        r@.len() == entry_lines(content@).len(),
        forall|i: int|
            0 <= i < r@.len() ==> entry_matches(
                #[trigger] r@[i],
                entry_lines(content@)[i],
                service_id@,
                observed_at@,
            ),
{
    let ghost whole: Seq<char> = content@;
    let n: usize = content.unicode_len();
    let mut out: Vec<LogRequest> = Vec::new();
    let mut pos: usize = 0;
    proof {
        assert(whole.subrange(0, n as int) =~= whole);
        assert(lines_of(out@) + entry_lines(whole) =~= entry_lines(whole));
    }
    while pos < n
        invariant
            pos <= n,
            n == whole.len(),
            whole == content@,
            lines_of(out@) + entry_lines(whole.subrange(pos as int, n as int)) =~= entry_lines(
                whole,
            ),
            forall|i: int|
                0 <= i < out@.len() ==> entry_matches(
                    #[trigger] out@[i],
                    out@[i].line_content@,
                    service_id@,
                    observed_at@,
                ),
        decreases n - pos,
    {
        let e: usize = find_line_end(content, pos);
        let line_end: usize = if e > pos && content.get_char(e - 1) == '\r' {
            e - 1
        } else {
            e
        };
        let ghost sub = whole.subrange(pos as int, n as int);
        let ghost k = e - pos;
        let ghost piece = whole.subrange(pos as int, e as int);
        let ghost line_spec = strip_cr(piece);
        let ghost rest = if e == n {
            Seq::<char>::empty()
        } else {
            whole.subrange(e + 1, n as int)
        };
        proof {
            assert forall|j: int| 0 <= j < k implies sub[j] != '\n' by {
                assert(sub[j] == whole[pos + j]);
            }
            lemma_newline_at_unique(sub, 0, k);
            assert(sub.subrange(0, k) =~= piece);
            if e < n {
                assert(sub.subrange(k + 1, sub.len() as int) =~= rest);
            }
            assert(entry_lines(sub) =~= if line_spec.len() == 0 {
                entry_lines(rest)
            } else {
                seq![line_spec] + entry_lines(rest)
            });
            if line_end < e {
                assert(piece.len() > 0 && piece[piece.len() - 1] == '\r');
                assert(line_spec =~= whole.subrange(pos as int, line_end as int));
            } else {
                assert(line_spec =~= piece);
            }
        }
        let line: &str = content.substring_char(pos, line_end);
        if line_end > pos {
            let entry = LogRequest {
                level: return_log_level(line),
                my_service_id: service_id.to_owned(),
                line_content: line.to_owned(),
                created_at: observed_at.to_owned(),
            };
            let ghost out0 = out@;
            out.push(entry);
            proof {
                assert(lines_of(out@) =~= lines_of(out0).push(line_spec));
                assert(lines_of(out0).push(line_spec) + entry_lines(rest) =~= lines_of(out0) + (
                seq![line_spec] + entry_lines(rest)));
            }
        } else {
            proof {
                assert(line_spec.len() == 0);
            }
        }
        if e < n {
            pos = e + 1;
        } else {
            pos = n;
            proof {
                assert(whole.subrange(pos as int, n as int) =~= Seq::<char>::empty());
            }
        }
    }
    proof {
        assert(whole.subrange(n as int, n as int) =~= Seq::<char>::empty());
        assert(lines_of(out@) =~= entry_lines(whole));
        assert forall|i: int| 0 <= i < out@.len() implies entry_matches(
            out@[i],
            entry_lines(whole)[i],
            service_id@,
            observed_at@,
        ) by {
            assert(lines_of(out@)[i] == out@[i].line_content@);
        }
    }
    out
}

/// The carrier for one file's parsed entries on their way to the sink.
#[derive(Debug)]
pub struct ALogFile {
    pub application_name: String,
    pub logs_in_file: Vec<LogRequest>,
}

impl ALogFile {
    /// Reads one file's content into the carrier, replacing any previous
    /// entries: the content is parsed as `parse_content` does, and every
    /// entry is stamped with one wall-clock observation time.
    pub fn ingest_content(&mut self, service_id: &str, content: &str)
        ensures
            final (self).application_name@ == old(self).application_name@,
            final (self).logs_in_file@.len() == entry_lines(content@).len(),
            forall|i: int|
                0 <= i < final (self).logs_in_file@.len() ==> {
                    let e = #[trigger] final (self).logs_in_file@[i];
                    &&& e.line_content@ == entry_lines(content@)[i]
                    &&& e.level == level_of(entry_lines(content@)[i])
                    &&& e.my_service_id@ == service_id@
                    &&& e.created_at@.len() >= 24
                },
            forall|i: int, j: int|
                0 <= i < final (self).logs_in_file@.len() && 0 <= j < final (
                self).logs_in_file@.len() ==> final (self).logs_in_file@[i].created_at@ == final (
                self).logs_in_file@[j].created_at@,
    {
        let observed_at: String = now_rfc3339_millis();
        self.logs_in_file = parse_content(content, service_id, observed_at.as_str());
    }
}

} // verus!
