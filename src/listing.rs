//! Reading the process listing: one record per matching line, kept when
//! its executable path matches the query.
use vstd::prelude::*;

use crate::text::{
    before_first, before_first_exec, chars_of, contains, contains_exec, is_space, lower_of,
    lowercase, skip_spaces, skip_spaces_exec, slice_of, string_of, trim, trim_exec,
};

verus! {

/// One line of the listing: process id, processor share and command path,
/// each as it was written.
pub struct ProcessRecord {
    pub pid: String,
    pub cpu: String,
    pub path: String,
}

impl View for ProcessRecord {
    type V = (Seq<char>, Seq<char>, Seq<char>);

    open spec fn view(&self) -> Self::V {
        (self.pid@, self.cpu@, self.path@)
    }
}

pub open spec fn is_digit(c: char) -> bool {
    '0' <= c <= '9'
}

/// The decimal separators of the processor share.
pub open spec fn is_separator(c: char) -> bool {
    c == '.' || c == ','
}

/// The index of the first non-digit at or after `i`.
pub open spec fn digits_end(l: Seq<char>, i: int) -> int
    decreases l.len() - i,
{
    if 0 <= i < l.len() && is_digit(l[i]) {
        digits_end(l, i + 1)
    } else {
        i
    }
}

/// The line pattern read from index `s`: digits (the process id),
/// whitespace, digits, a separator and digits (the processor share),
/// whitespace, then the rest of the line.
pub open spec fn match_at(l: Seq<char>, s: int) -> Option<(Seq<char>, Seq<char>, Seq<char>)> {
    let a = digits_end(l, s);
    let b = skip_spaces(l, a);
    let c = digits_end(l, b);
    if s < a && a < b && b < c && c < l.len() && is_separator(l[c]) {
        let d = digits_end(l, c + 1);
        let e = skip_spaces(l, d);
        if c + 1 < d && d < e {
            Some((l.subrange(s, a), l.subrange(b, d), l.subrange(e, l.len() as int)))
        } else {
            None
        }
    } else {
        None
    }
}

/// The leftmost match of the line pattern at or after index `s`.
pub open spec fn scan_from(l: Seq<char>, s: int) -> Option<(Seq<char>, Seq<char>, Seq<char>)>
    decreases l.len() - s,
{
    if s < 0 || s >= l.len() {
        None
    } else if let Some(m) = match_at(l, s) {
        Some(m)
    } else {
        scan_from(l, s + 1)
    }
}

/// The record that a line yields: the leftmost match of the line pattern,
/// with the command path trimmed.
pub open spec fn record_of(l: Seq<char>) -> Option<(Seq<char>, Seq<char>, Seq<char>)> {
    match scan_from(l, 0) {
        Some((pid, cpu, rest)) => Some((pid, cpu, trim(rest))),
        None => None,
    }
}

/// The executable part of a command path: what comes before its first ` -`.
pub open spec fn first_segment(path: Seq<char>) -> Seq<char> {
    before_first(path, " -"@)
}

/// Whether a lowercase executable path is kept for a lowercase query: it
/// contains the query, not as a flag (`-query`), and is not this tool.
pub open spec fn accepts(segment: Seq<char>, query: Seq<char>) -> bool {
    &&& contains(segment, query)
    &&& !contains(segment, "-"@ + query)
    &&& !contains(segment, "kill_process"@)
}

/// Whether a command path is kept for a lowercase query.
pub open spec fn path_matches(path: Seq<char>, query: Seq<char>) -> bool {
    accepts(lower_of(first_segment(path)), query)
}

/// Splitting `s` on newlines: the lines completed so far and the one being read.
pub open spec fn line_state(s: Seq<char>) -> (Seq<Seq<char>>, Seq<char>)
    decreases s.len(),
{
    if s.len() == 0 {
        (Seq::empty(), Seq::empty())
    } else {
        let (done, cur) = line_state(s.drop_last());
        if s.last() == '\n' {
            (done.push(cur), Seq::empty())
        } else {
            (done, cur.push(s.last()))
        }
    }
}

/// The lines of `s`, split on `\n`.
pub open spec fn lines(s: Seq<char>) -> Seq<Seq<char>> {
    let (done, cur) = line_state(s);
    done.push(cur)
}

/// The records of `ls` that are kept for the lowercase query, in order.
pub open spec fn selected(ls: Seq<Seq<char>>, query: Seq<char>) -> Seq<
    (Seq<char>, Seq<char>, Seq<char>),
>
    decreases ls.len(),
{
    if ls.len() == 0 {
        Seq::empty()
    } else {
        let prev = selected(ls.drop_last(), query);
        match record_of(ls.last()) {
            Some(r) => if path_matches(r.2, query) {
                prev.push(r)
            } else {
                prev
            },
            None => prev,
        }
    }
}

pub open spec fn records_view(v: Seq<ProcessRecord>) -> Seq<(Seq<char>, Seq<char>, Seq<char>)> {
    v.map_values(|r: ProcessRecord| r@)
}

/// A line that matches the line pattern at no index yields no record.
pub proof fn lemma_unmatched_line_yields_nothing(l: Seq<char>)
    requires
        forall|s: int| 0 <= s < l.len() ==> #[trigger] match_at(l, s) is None,
    ensures
        record_of(l) is None,
{
    lemma_scan_from_none(l, 0);
}

proof fn lemma_scan_from_none(l: Seq<char>, s: int)
    requires
        0 <= s,
        forall|k: int| 0 <= k < l.len() ==> #[trigger] match_at(l, k) is None,
    ensures
        scan_from(l, s) is None,
    decreases l.len() - s,
{
    if s < l.len() {
        lemma_scan_from_none(l, s + 1);
    }
}

/// A command path whose executable part, lowercased, does not contain the
/// lowercase query is not kept; queries that lowercase alike keep alike.
pub proof fn lemma_query_required(path: Seq<char>, query: Seq<char>, other: Seq<char>)
    ensures
        !contains(lower_of(first_segment(path)), lower_of(query)) ==> !path_matches(
            path,
            lower_of(query),
        ),
        lower_of(query) == lower_of(other) ==> path_matches(path, lower_of(query))
            == path_matches(path, lower_of(other)),
{
}

/// A command path is not kept where its executable part, lowercased, holds
/// the query as a flag (`-query`) or names this tool, even where it also
/// holds the query itself.
pub proof fn lemma_flags_and_self_excluded(path: Seq<char>, query: Seq<char>)
    requires
        contains(lower_of(first_segment(path)), "-"@ + query) || contains(
            lower_of(first_segment(path)),
            "kill_process"@,
        ),
    ensures
        !path_matches(path, query),
{
}

/// Every record kept from a listing matches the query and came from one of
/// its lines, and there are no more records than lines.
pub proof fn lemma_selected_records_match(ls: Seq<Seq<char>>, query: Seq<char>)
    ensures
        forall|i: int|
            0 <= i < selected(ls, query).len() ==> path_matches(
                (#[trigger] selected(ls, query)[i]).2,
                query,
            ) && exists|j: int| 0 <= j < ls.len() && record_of(ls[j]) == Some(selected(ls, query)[i]),
        selected(ls, query).len() <= ls.len(),
    decreases ls.len(),
{
    if ls.len() > 0 {
        let init = ls.drop_last();
        lemma_selected_records_match(init, query);
        let prev = selected(init, query);
        assert forall|i: int| 0 <= i < selected(ls, query).len() implies path_matches(
            (#[trigger] selected(ls, query)[i]).2,
            query,
        ) && exists|j: int| 0 <= j < ls.len() && record_of(ls[j]) == Some(selected(ls, query)[i]) by {
            if i < prev.len() {
                assert(selected(ls, query)[i] == prev[i]);
                let j = choose|j: int| 0 <= j < init.len() && record_of(init[j]) == Some(prev[i]);
                assert(ls[j] == init[j]);
            } else {
                assert(record_of(ls[ls.len() - 1]) == Some(selected(ls, query)[i]));
            }
        }
    }
}

/// The index of the first non-digit at or after `i`.
fn digits_end_exec(l: &Vec<char>, i: usize) -> (r: usize)
    requires
        i <= l.len(),
    ensures
        r == digits_end(l@, i as int),
        i <= r <= l.len(),
{
    let mut k: usize = i;
    while k < l.len() && '0' <= l[k] && l[k] <= '9'
        invariant
            i <= k <= l.len(),
            digits_end(l@, i as int) == digits_end(l@, k as int),
        decreases l.len() - k,
    {
        k = k + 1;
    }
    k
}

/// The line pattern read from index `s`, as the boundaries of its parts.
fn match_at_exec(l: &Vec<char>, s: usize) -> (r: Option<(usize, usize, usize, usize, usize)>)
    requires
        s <= l.len(),
    ensures
        match r {
            Some((s0, a, b, d, e)) => s0 == s && s <= a <= b <= d <= e <= l.len() && match_at(
                l@,
                s as int,
            ) == Some(
                (
                    l@.subrange(s as int, a as int),
                    l@.subrange(b as int, d as int),
                    l@.subrange(e as int, l@.len() as int),
                ),
            ),
            None => match_at(l@, s as int) is None,
        },
{
    let a = digits_end_exec(l, s);
    if a == s {
        return None;
    }
    let b = skip_spaces_exec(l, a);
    if b == a {
        return None;
    }
    let c = digits_end_exec(l, b);
    if c == b || c >= l.len() || (l[c] != '.' && l[c] != ',') {
        return None;
    }
    let d = digits_end_exec(l, c + 1);
    if d == c + 1 {
        return None;
    }
    let e = skip_spaces_exec(l, d);
    if e == d {
        return None;
    }
    Some((s, a, b, d, e))
}

/// The record that a line yields, if it matches the line pattern.
fn parse_chars(l: &Vec<char>) -> (r: Option<ProcessRecord>)
    ensures
        match r {
            Some(rec) => record_of(l@) == Some(rec@),
            None => record_of(l@) is None,
        },
{
    let mut s: usize = 0;
    while s < l.len()
        invariant
            s <= l.len(),
            scan_from(l@, 0) == scan_from(l@, s as int),
        decreases l.len() - s,
    {
        if let Some((_, a, b, d, e)) = match_at_exec(l, s) {
            let pid = slice_of(l, s, a);
            let cpu = slice_of(l, b, d);
            let path = trim_exec(&slice_of(l, e, l.len()));
            return Some(
                ProcessRecord {
                    pid: string_of(&pid),
                    cpu: string_of(&cpu),
                    path: string_of(&path),
                },
            );
        }
        s = s + 1;
    }
    None
}

/// The record that one line of the listing yields: `None` where the line
/// does not match the line pattern anywhere.
pub fn parse_line(line: &str) -> (r: Option<ProcessRecord>)
    ensures
        match r {
            Some(rec) => record_of(line@) == Some(rec@),
            None => record_of(line@) is None,
        },
{
    parse_chars(&chars_of(line))
}

/// Whether a lowercase executable path is kept for a lowercase query.
pub fn accepts_segment(segment: &str, query: &str) -> (r: bool)
    ensures
        r == accepts(segment@, query@),
{
    let seg = chars_of(segment);
    let q = chars_of(query);
    let mut flag: Vec<char> = Vec::new();
    flag.push('-');
    let flag = crate::text::concat(&flag, &q);
    assert(flag@ =~= "-"@ + q@) by {
        reveal_strlit("-");
    }
    contains_exec(&seg, &q) && !contains_exec(&seg, &flag) && !contains_exec(
        &seg,
        &chars_of("kill_process"),
    )
}

/// Whether the command path `path` is kept for `query`, which is already
/// lowercase: its executable part, lowercased, is accepted.
pub fn matches_query(path: &str, query: &str) -> (r: bool)
    ensures
        r == path_matches(path@, query@),
{
    let segment = before_first_exec(&chars_of(path), &chars_of(" -"));
    let lowered = lowercase(string_of(&segment).as_str());
    accepts_segment(lowered.as_str(), query)
}

/// The records of the listing, in order, whose command paths match the
/// query, compared without regard to case.
pub fn collect_records(listing: &str, query: &str) -> (r: Vec<ProcessRecord>)
    ensures
        records_view(r@) == selected(lines(listing@), lower_of(query@)),
{
    let q = lowercase(query);
    let l = chars_of(listing);
    let mut out: Vec<ProcessRecord> = Vec::new();
    let mut cur: Vec<char> = Vec::new();
    let ghost mut done: Seq<Seq<char>> = Seq::empty();
    let mut i: usize = 0;
    while i < l.len()
        invariant
            i <= l.len(),
            l@ == listing@,
            q@ == lower_of(query@),
            line_state(l@.take(i as int)) == (done, cur@),
            records_view(out@) == selected(done, q@),
        decreases l.len() - i,
    {
        assert(l@.take(i + 1).drop_last() =~= l@.take(i as int));
        if l[i] == '\n' {
            take_line(&cur, q.as_str(), &mut out, Ghost(done));
            proof {
                done = done.push(cur@);
            }
            cur = Vec::new();
        } else {
            cur.push(l[i]);
        }
        i = i + 1;
    }
    assert(l@.take(l.len() as int) =~= l@);
    take_line(&cur, q.as_str(), &mut out, Ghost(done));
    out
}

/// Appends the record of `line` to `out` where it is kept for `query`.
fn take_line(
    line: &Vec<char>,
    query: &str,
    out: &mut Vec<ProcessRecord>,
    done: Ghost<Seq<Seq<char>>>,
)
    requires
        records_view(old(out)@) == selected(done@, query@),
    ensures
        records_view(final(out)@) == selected(done@.push(line@), query@),
{
    assert(done@.push(line@).drop_last() =~= done@);
    if let Some(rec) = parse_chars(line) {
        if matches_query(rec.path.as_str(), query) {
            let ghost before = records_view(out@);
            let ghost rv = rec@;
            out.push(rec);
            assert(records_view(out@) =~= before.push(rv));
        }
    }
}

} // verus!
