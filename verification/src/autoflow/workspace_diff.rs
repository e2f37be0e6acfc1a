//! What `git status --porcelain` and `git diff --numstat` say about a run's
//! workspace: which files changed and how, and how many lines came and went.

use vstd::prelude::*;
use vstd::string::*;
use crate::autoflow::outcome::{find_chars, first_occurrence};
use crate::autoflow::shape::{find_char, first_index_of, lemma_first_index_of_spec};
use crate::number::{parse_u64, spec_parse_u64};
use crate::text::{chars_of, find_from, occurs_at, slice_chars, str_eq, string_from_chars, trim_chars, trim_seq};

verus! {

/// One trailing `\r` removed, as `str::lines` does for a `\r\n` ending.
pub open spec fn strip_cr(line: Seq<char>) -> Seq<char> {
    if line.len() > 0 && line.last() == '\r' {
        line.drop_last()
    } else {
        line
    }
}

/// `str::lines`: the text split at `\n`, a `\r` before the `\n` dropped, and
/// no empty line after a final `\n`.
pub open spec fn text_lines(s: Seq<char>) -> Seq<Seq<char>>
    decreases s.len(),
{
    match first_index_of(s, '\n') {
        Some(i) => if 0 <= i < s.len() {
            seq![strip_cr(s.subrange(0, i))] + text_lines(s.subrange(i + 1, s.len() as int))
        } else {
            Seq::empty()
        },
        None => if s.len() == 0 {
            Seq::empty()
        } else {
            seq![s]
        },
    }
}

pub open spec fn line_views(v: Seq<Vec<char>>) -> Seq<Seq<char>> {
    v.map_values(|l: Vec<char>| l@)
}

/// The lines of `text`, as `str::lines` gives them.
pub fn split_lines(text: &str) -> (r: Vec<Vec<char>>)
    ensures
        line_views(r@) == text_lines(text@),
{
    let mut rest = chars_of(text);
    let mut out: Vec<Vec<char>> = Vec::new();
    loop
        invariant
            line_views(out@) + text_lines(rest@) == text_lines(text@),
        decreases rest@.len(),
    {
        let ghost before = rest@;
        proof {
            lemma_first_index_of_spec(rest@, '\n');
        }
        match find_char(rest.as_slice(), '\n') {
            Some(i) => {
                let mut line = slice_chars(rest.as_slice(), 0, i);
                if line.len() > 0 && line[line.len() - 1] == '\r' {
                    line.pop();
                }
                let ghost prev = out@;
                out.push(line);
                let n = rest.len();
                rest = slice_chars(rest.as_slice(), i + 1, n);
                proof {
                    assert(line_views(out@) =~= line_views(prev).push(strip_cr(before.subrange(0, i as int))));
                    assert(line_views(out@) + text_lines(rest@) =~= line_views(prev) + (seq![strip_cr(
                        before.subrange(0, i as int),
                    )] + text_lines(rest@)));
                }
            },
            None => {
                if rest.len() > 0 {
                    let ghost prev = out@;
                    out.push(rest);
                    proof {
                        assert(line_views(out@) =~= line_views(prev).push(before));
                        assert(line_views(out@) =~= line_views(prev) + text_lines(before));
                    }
                } else {
                    proof {
                        assert(line_views(out@) =~= line_views(out@) + text_lines(before));
                    }
                }
                return out;
            },
        }
    }
}

/// How many bytes `c` takes in UTF-8.
pub open spec fn utf8_width(c: char) -> int {
    if (c as u32) < 0x80 {
        1
    } else if (c as u32) < 0x800 {
        2
    } else if (c as u32) < 0x10000 {
        3
    } else {
        4
    }
}

fn char_width(c: char) -> (r: usize)
    ensures
        r == utf8_width(c),
{
    let u = c as u32;
    if u < 0x80 {
        1
    } else if u < 0x800 {
        2
    } else if u < 0x10000 {
        3
    } else {
        4
    }
}

/// The UTF-8 length of `s` in bytes.
pub open spec fn byte_len(s: Seq<char>) -> int
    decreases s.len(),
{
    if s.len() == 0 {
        0
    } else {
        utf8_width(s[0]) + byte_len(s.drop_first())
    }
}

/// The number of characters that take exactly `b` bytes at the front of `s`:
/// `None` where byte `b` falls inside a character or past the end.
pub open spec fn index_at_byte(s: Seq<char>, b: int) -> Option<int>
    decreases s.len(),
{
    if b == 0 {
        Some(0)
    } else if b < 0 || s.len() == 0 {
        None
    } else {
        match index_at_byte(s.drop_first(), b - utf8_width(s[0])) {
            Some(n) => Some(n + 1),
            None => None,
        }
    }
}

proof fn lemma_byte_len_nonneg(s: Seq<char>)
    ensures
        byte_len(s) >= s.len(),
    decreases s.len(),
{
    if s.len() > 0 {
        lemma_byte_len_nonneg(s.drop_first());
    }
}

proof fn lemma_index_at_byte_bound(s: Seq<char>, b: int)
    ensures
        index_at_byte(s, b) matches Some(n) ==> 0 <= n <= s.len(),
    decreases s.len(),
{
    if b != 0 && b >= 0 && s.len() > 0 {
        lemma_index_at_byte_bound(s.drop_first(), b - utf8_width(s[0]));
    }
}

/// Whether `s` takes at least `k` bytes (`k` at most 4).
fn bytes_at_least(s: &[char], k: usize) -> (r: bool)
    requires
        k <= 4,
    ensures
        r == (byte_len(s@) >= k),
{
    let mut acc: usize = 0;
    let mut i: usize = 0;
    proof {
        assert(s@.subrange(0, s@.len() as int) =~= s@);
    }
    while i < s.len() && acc < k
        invariant
            i <= s@.len(),
            acc <= 8,
            k <= 4,
            byte_len(s@) == acc + byte_len(s@.subrange(i as int, s@.len() as int)),
        decreases s@.len() - i,
    {
        proof {
            assert(s@.subrange(i as int, s@.len() as int).drop_first() =~= s@.subrange(i + 1, s@.len() as int));
        }
        acc = acc + char_width(s[i]);
        i = i + 1;
    }
    proof {
        lemma_byte_len_nonneg(s@.subrange(i as int, s@.len() as int));
        if i == s@.len() {
            assert(s@.subrange(i as int, s@.len() as int).len() == 0);
        }
    }
    acc >= k
}

/// Where byte `b` (at most 4) falls between characters of `s`, counted in
/// characters.
fn char_index_at_byte(s: &[char], b: usize) -> (r: Option<usize>)
    requires
        b <= 4,
    ensures
        match index_at_byte(s@, b as int) {
            Some(n) => r == Some(n as usize) && 0 <= n <= s@.len(),
            None => r is None,
        },
{
    let mut left: usize = b;
    let mut i: usize = 0;
    proof {
        assert(s@.subrange(0, s@.len() as int) =~= s@);
        lemma_index_at_byte_bound(s@, b as int);
    }
    while i < s.len() && left > 0
        invariant
            i <= s@.len(),
            left <= 4,
            index_at_byte(s@, b as int) == match index_at_byte(s@.subrange(i as int, s@.len() as int), left as int) {
                Some(n) => Some(n + i),
                None => None,
            },
        decreases s@.len() - i,
    {
        let w = char_width(s[i]);
        proof {
            assert(s@.subrange(i as int, s@.len() as int).drop_first() =~= s@.subrange(i + 1, s@.len() as int));
        }
        if w > left {
            proof {
                let rest = s@.subrange(i + 1, s@.len() as int);
                assert(index_at_byte(rest, left - w) is None) by {
                    reveal_with_fuel(index_at_byte, 1);
                }
            }
            return None;
        }
        left = left - w;
        i = i + 1;
    }
    if left == 0 {
        return Some(i);
    }
    proof {
        assert(s@.subrange(i as int, s@.len() as int).len() == 0);
    }
    None
}

/// The part of `s` after the last ` -> ` that a left-to-right split finds
/// (`s.split(" -> ").last()`).
pub open spec fn last_piece(s: Seq<char>, p: Seq<char>) -> Seq<char>
    decreases s.len(),
{
    match first_occurrence(s, p) {
        Some(i) => if 0 <= i && i + p.len() <= s.len() && p.len() > 0 {
            last_piece(s.subrange(i + p.len(), s.len() as int), p)
        } else {
            s
        },
        None => s,
    }
}

fn last_piece_of(s: &[char], p: &[char]) -> (r: Vec<char>)
    requires
        p@.len() > 0,
    ensures
        r@ == last_piece(s@, p@),
{
    let mut rest = slice_chars(s, 0, s.len());
    proof {
        assert(rest@ =~= s@);
    }
    loop
        invariant
            p@.len() > 0,
            last_piece(rest@, p@) == last_piece(s@, p@),
        decreases rest@.len(),
    {
        match find_chars(rest.as_slice(), p) {
            Some(i) => {
                let n = rest.len();
                rest = slice_chars(rest.as_slice(), i + p.len(), n);
            },
            None => {
                return rest;
            },
        }
    }
}

/// What a status tally holds, as plain values.
pub struct TallyV {
    pub changed: Seq<Seq<char>>,
    pub created: nat,
    pub modified: nat,
    pub deleted: nat,
    pub renamed: nat,
    pub top: Seq<Seq<char>>,
    pub untracked: Seq<Seq<char>>,
}

/// A porcelain line's two-byte status and its trimmed path text; `None` for
/// a line shorter than four bytes.
pub open spec fn status_fields(line: Seq<char>) -> Option<(Seq<char>, Seq<char>)> {
    if byte_len(line) < 4 {
        None
    } else {
        match (index_at_byte(line, 2), index_at_byte(line, 3)) {
            (Some(a), Some(b)) => Some((line.subrange(0, a), trim_seq(line.subrange(b, line.len() as int)))),
            _ => None,
        }
    }
}

/// The lines on which slicing a porcelain line by bytes does not panic:
/// bytes 2 and 3 of each line of four bytes or more begin characters.
pub open spec fn porcelain_ok(lines: Seq<Seq<char>>) -> bool {
    forall|k: int|
        0 <= k < lines.len() && byte_len(#[trigger] lines[k]) >= 4 ==> index_at_byte(lines[k], 2) is Some
            && index_at_byte(lines[k], 3) is Some
}

pub open spec fn char_or_space(s: Seq<char>, i: int) -> char {
    if 0 <= i < s.len() {
        s[i]
    } else {
        ' '
    }
}

/// One porcelain line read into the tally: the path after any ` -> `
/// (renames); a new path is remembered, and among the first four listed;
/// `??` counts as created and untracked, else `R`, `D`, `A` in either
/// column count as renamed, deleted, created, and anything else as modified.
pub open spec fn tally_step(t: TallyV, line: Seq<char>) -> TallyV {
    match status_fields(line) {
        None => t,
        Some((status, raw)) => {
            let name = trim_seq(last_piece(raw, " -> "@));
            if name.len() == 0 {
                t
            } else {
                let is_new = !t.changed.contains(name);
                let t1 = TallyV {
                    changed: if is_new { t.changed.push(name) } else { t.changed },
                    top: if is_new && t.top.len() < 4 { t.top.push(name) } else { t.top },
                    ..t
                };
                let left = char_or_space(status, 0);
                let right = char_or_space(status, 1);
                if status == "??"@ {
                    TallyV { created: t1.created + 1, untracked: t1.untracked.push(name), ..t1 }
                } else if left == 'R' || right == 'R' {
                    TallyV { renamed: t1.renamed + 1, ..t1 }
                } else if left == 'D' || right == 'D' {
                    TallyV { deleted: t1.deleted + 1, ..t1 }
                } else if left == 'A' || right == 'A' {
                    TallyV { created: t1.created + 1, ..t1 }
                } else {
                    TallyV { modified: t1.modified + 1, ..t1 }
                }
            }
        },
    }
}

pub open spec fn empty_tally() -> TallyV {
    TallyV {
        changed: Seq::empty(),
        created: 0,
        modified: 0,
        deleted: 0,
        renamed: 0,
        top: Seq::empty(),
        untracked: Seq::empty(),
    }
}

/// The tally of `lines`, read in order.
pub open spec fn tally_lines(lines: Seq<Seq<char>>) -> TallyV
    decreases lines.len(),
{
    if lines.len() == 0 {
        empty_tally()
    } else {
        tally_step(tally_lines(lines.drop_last()), lines.last())
    }
}

/// What `git status --porcelain` says of a workspace.
#[derive(Debug, Clone)]
pub struct StatusTally {
    /// Distinct paths listed.
    pub files_changed: usize,
    pub created: usize,
    pub modified: usize,
    pub deleted: usize,
    pub renamed: usize,
    /// The first four distinct paths, in order.
    pub top_files: Vec<String>,
    /// The untracked paths, in order (their lines count as insertions).
    pub untracked: Vec<String>,
}

pub open spec fn strings_view(v: Seq<String>) -> Seq<Seq<char>> {
    v.map_values(|s: String| s@)
}

pub open spec fn tally_matches(t: StatusTally, v: TallyV) -> bool {
    &&& t.files_changed == v.changed.len()
    &&& t.created == v.created
    &&& t.modified == v.modified
    &&& t.deleted == v.deleted
    &&& t.renamed == v.renamed
    &&& strings_view(t.top_files@) == v.top
    &&& strings_view(t.untracked@) == v.untracked
}

fn contains_text(v: &Vec<String>, s: &Vec<char>) -> (r: bool)
    ensures
        r == strings_view(v@).contains(s@),
{
    let text = string_from_chars(s.as_slice());
    let mut i: usize = 0;
    while i < v.len()
        invariant
            i <= v@.len(),
            text@ == s@,
            forall|j: int| 0 <= j < i ==> v@[j]@ != s@,
        decreases v@.len() - i,
    {
        if str_eq(v[i].as_str(), text.as_str()) {
            proof {
                assert(strings_view(v@)[i as int] == s@);
            }
            return true;
        }
        i = i + 1;
    }
    proof {
        if strings_view(v@).contains(s@) {
            let k = choose|k: int| 0 <= k < strings_view(v@).len() && strings_view(v@)[k] == s@;
            assert(v@[k]@ == s@);
        }
    }
    false
}

fn status_is(status: &[char], a: char, b: char) -> (r: bool)
    ensures
        r == (status@ == seq![a, b]),
{
    if status.len() == 2 && status[0] == a && status[1] == b {
        proof {
            assert(status@ =~= seq![a, b]);
        }
        true
    } else {
        proof {
            if status@ == seq![a, b] {
                assert(status@.len() == 2);
            }
        }
        false
    }
}

fn either_column(status: &[char], c: char) -> (r: bool)
    ensures
        r == (char_or_space(status@, 0) == c || char_or_space(status@, 1) == c),
{
    let left = if status.len() > 0 { status[0] } else { ' ' };
    let right = if status.len() > 1 { status[1] } else { ' ' };
    left == c || right == c
}

fn tally_one(t: &mut StatusTally, changed: &mut Vec<String>, line: &Vec<char>, Ghost(v): Ghost<TallyV>)
    requires
        tally_matches(*old(t), v),
        strings_view(old(changed)@) == v.changed,
        byte_len(line@) >= 4 ==> index_at_byte(line@, 2) is Some && index_at_byte(line@, 3) is Some,
        v.changed.len() < usize::MAX,
        v.created < usize::MAX,
        v.modified < usize::MAX,
        v.deleted < usize::MAX,
        v.renamed < usize::MAX,
    ensures
        tally_matches(*final(t), tally_step(v, line@)),
        strings_view(final(changed)@) == tally_step(v, line@).changed,
{
    if !bytes_at_least(line.as_slice(), 4) {
        return;
    }
    let a = match char_index_at_byte(line.as_slice(), 2) {
        Some(a) => a,
        None => return,
    };
    let b = match char_index_at_byte(line.as_slice(), 3) {
        Some(b) => b,
        None => return,
    };
    let status = slice_chars(line.as_slice(), 0, a);
    let raw = trim_chars(slice_chars(line.as_slice(), b, line.len()).as_slice());
    let arrow = chars_of(" -> ");
    proof {
        reveal_strlit(" -> ");
        assert(arrow@.len() == 4);
    }
    let name = trim_chars(last_piece_of(raw.as_slice(), arrow.as_slice()).as_slice());
    if name.len() == 0 {
        return;
    }
    let ghost name_v = name@;
    let is_new = !contains_text(changed, &name);
    let text = string_from_chars(name.as_slice());
    if is_new {
        let ghost before = changed@;
        changed.push(text.clone());
        proof {
            assert(strings_view(changed@) =~= strings_view(before).push(name_v));
        }
        t.files_changed = t.files_changed + 1;
        if t.top_files.len() < 4 {
            let ghost tb = t.top_files@;
            t.top_files.push(text.clone());
            proof {
                assert(strings_view(t.top_files@) =~= strings_view(tb).push(name_v));
            }
        }
    }
    if status_is(status.as_slice(), '?', '?') {
        proof {
            reveal_strlit("??");
            assert("??"@ =~= seq!['?', '?']);
        }
        t.created = t.created + 1;
        let ghost ub = t.untracked@;
        t.untracked.push(text);
        proof {
            assert(strings_view(t.untracked@) =~= strings_view(ub).push(name_v));
        }
    } else {
        proof {
            reveal_strlit("??");
            assert("??"@ =~= seq!['?', '?']);
        }
        if either_column(status.as_slice(), 'R') {
            t.renamed = t.renamed + 1;
        } else if either_column(status.as_slice(), 'D') {
            t.deleted = t.deleted + 1;
        } else if either_column(status.as_slice(), 'A') {
            t.created = t.created + 1;
        } else {
            t.modified = t.modified + 1;
        }
    }
}

proof fn lemma_tally_bounds(lines: Seq<Seq<char>>)
    ensures
        tally_lines(lines).changed.len() <= lines.len(),
        tally_lines(lines).created <= lines.len(),
        tally_lines(lines).modified <= lines.len(),
        tally_lines(lines).deleted <= lines.len(),
        tally_lines(lines).renamed <= lines.len(),
    decreases lines.len(),
{
    if lines.len() > 0 {
        lemma_tally_bounds(lines.drop_last());
    }
}

/// Whether every line of `output` can be sliced as a porcelain line (see
/// `porcelain_ok`).
pub fn porcelain_lines_ok(output: &str) -> (r: bool)
    ensures
        r == porcelain_ok(text_lines(output@)),
{
    let lines = split_lines(output);
    let ghost views = line_views(lines@);
    let mut i: usize = 0;
    while i < lines.len()
        invariant
            i <= lines@.len(),
            views == line_views(lines@),
            views == text_lines(output@),
            forall|k: int|
                0 <= k < i && byte_len(#[trigger] views[k]) >= 4 ==> index_at_byte(views[k], 2) is Some
                    && index_at_byte(views[k], 3) is Some,
        decreases lines@.len() - i,
    {
        let line = lines[i].as_slice();
        proof {
            assert(views[i as int] == lines@[i as int]@);
        }
        if bytes_at_least(line, 4) {
            if char_index_at_byte(line, 2).is_none() || char_index_at_byte(line, 3).is_none() {
                proof {
                    assert(byte_len(views[i as int]) >= 4);
                    assert(!porcelain_ok(views));
                }
                return false;
            }
        }
        i = i + 1;
    }
    true
}

/// The tally of `git status --porcelain` output (see `tally_step`).
pub fn tally_git_status(output: &str) -> (r: StatusTally)
    requires
        porcelain_ok(text_lines(output@)),
    ensures
        tally_matches(r, tally_lines(text_lines(output@))),
{
    let lines = split_lines(output);
    let ghost views = line_views(lines@);
    let mut t = StatusTally {
        files_changed: 0,
        created: 0,
        modified: 0,
        deleted: 0,
        renamed: 0,
        top_files: Vec::new(),
        untracked: Vec::new(),
    };
    let mut changed: Vec<String> = Vec::new();
    proof {
        assert(strings_view(t.top_files@) =~= Seq::<Seq<char>>::empty());
        assert(strings_view(t.untracked@) =~= Seq::<Seq<char>>::empty());
        assert(strings_view(changed@) =~= Seq::<Seq<char>>::empty());
        assert(views.subrange(0, 0) =~= Seq::<Seq<char>>::empty());
    }
    let mut i: usize = 0;
    while i < lines.len()
        invariant
            i <= lines@.len(),
            views == line_views(lines@),
            porcelain_ok(views),
            tally_matches(t, tally_lines(views.subrange(0, i as int))),
            strings_view(changed@) == tally_lines(views.subrange(0, i as int)).changed,
        decreases lines@.len() - i,
    {
        proof {
            assert(views[i as int] == lines@[i as int]@);
            lemma_tally_bounds(views.subrange(0, i as int));
            assert(views.subrange(0, i + 1).drop_last() =~= views.subrange(0, i as int));
        }
        tally_one(&mut t, &mut changed, &lines[i], Ghost(tally_lines(views.subrange(0, i as int))));
        i = i + 1;
    }
    proof {
        assert(views.subrange(0, lines@.len() as int) =~= views);
    }
    t
}

/// The added and removed counts of a numstat line: its first two
/// tab-separated fields, the second `0` where the line has no tab.
pub open spec fn numstat_fields(line: Seq<char>) -> (Seq<char>, Seq<char>) {
    match first_index_of(line, '\t') {
        None => (line, "0"@),
        Some(i) => {
            let rest = line.subrange(i + 1, line.len() as int);
            let removed = match first_index_of(rest, '\t') {
                Some(j) => rest.subrange(0, j),
                None => rest,
            };
            (line.subrange(0, i), removed)
        },
    }
}

/// A field read as a `u64`, or 0 where it is not one (`-` for binary files).
pub open spec fn count_or_zero(s: Seq<char>) -> nat {
    match spec_parse_u64(s) {
        Ok(n) => n,
        Err(_) => 0,
    }
}

/// Lines inserted and deleted over all numstat lines.
pub open spec fn numstat_totals(lines: Seq<Seq<char>>) -> (nat, nat)
    decreases lines.len(),
{
    if lines.len() == 0 {
        (0, 0)
    } else {
        let (a, d) = numstat_totals(lines.drop_last());
        let (x, y) = numstat_fields(lines.last());
        (a + count_or_zero(x), d + count_or_zero(y))
    }
}

fn count_field(s: &[char]) -> (r: u64)
    ensures
        r == count_or_zero(s@),
{
    match parse_u64(s) {
        Ok(n) => n,
        Err(_) => 0,
    }
}

proof fn lemma_count_bound(s: Seq<char>)
    ensures
        count_or_zero(s) <= u64::MAX,
{
    crate::number::lemma_parse_u64_bound(s);
}

proof fn lemma_numstat_bound(lines: Seq<Seq<char>>)
    ensures
        numstat_totals(lines).0 <= lines.len() * 0xffff_ffff_ffff_ffff,
        numstat_totals(lines).1 <= lines.len() * 0xffff_ffff_ffff_ffff,
    decreases lines.len(),
{
    if lines.len() > 0 {
        lemma_numstat_bound(lines.drop_last());
        let (x, y) = numstat_fields(lines.last());
        lemma_count_bound(x);
        lemma_count_bound(y);
        let n = lines.len() as int;
        assert((n - 1) * 0xffff_ffff_ffff_ffff + 0xffff_ffff_ffff_ffff == n * 0xffff_ffff_ffff_ffff) by (nonlinear_arith);
    }
}

/// Lines inserted and deleted per `git diff --numstat` output, summed over
/// its lines. The sums are exact; they are wider than `u64` because nothing
/// bounds how many lines there are.
pub fn numstat_sums(output: &str) -> (r: (u128, u128))
    ensures
        r.0 == numstat_totals(text_lines(output@)).0,
        r.1 == numstat_totals(text_lines(output@)).1,
{
    let lines = split_lines(output);
    let ghost views = line_views(lines@);
    let mut ins: u128 = 0;
    let mut del: u128 = 0;
    let mut i: usize = 0;
    proof {
        assert(views.subrange(0, 0) =~= Seq::<Seq<char>>::empty());
    }
    while i < lines.len()
        invariant
            i <= lines@.len(),
            views == line_views(lines@),
            ins == numstat_totals(views.subrange(0, i as int)).0,
            del == numstat_totals(views.subrange(0, i as int)).1,
        decreases lines@.len() - i,
    {
        let line = lines[i].as_slice();
        proof {
            assert(views[i as int] == lines@[i as int]@);
            assert(views.subrange(0, i + 1).drop_last() =~= views.subrange(0, i as int));
            lemma_numstat_bound(views.subrange(0, i + 1));
            assert((i + 1) * 0xffff_ffff_ffff_ffff <= 0xffff_ffff_ffff_ffff * 0xffff_ffff_ffff_ffff) by (nonlinear_arith)
                requires
                    i + 1 <= 0xffff_ffff_ffff_ffff,
            ;
        }
        let (added, removed) = match find_char(line, '\t') {
            None => (count_field(line), 0u64),
            Some(t) => {
                let rest = slice_chars(line, t + 1, line.len());
                let removed = match find_char(rest.as_slice(), '\t') {
                    Some(j) => count_field(slice_chars(rest.as_slice(), 0, j).as_slice()),
                    None => count_field(rest.as_slice()),
                };
                (count_field(slice_chars(line, 0, t).as_slice()), removed)
            },
        };
        proof {
            reveal_strlit("0");
            assert(count_or_zero("0"@) == 0) by {
                assert("0"@ =~= seq!['0']);
                reveal_with_fuel(crate::number::scan_digits, 3);
            }
        }
        ins = ins + added as u128;
        del = del + removed as u128;
        i = i + 1;
    }
    proof {
        assert(views.subrange(0, lines@.len() as int) =~= views);
    }
    (ins, del)
}

/// How many lines `text` has, as `str::lines` counts them.
pub fn line_count(text: &str) -> (r: usize)
    ensures
        r == text_lines(text@).len(),
{
    split_lines(text).len()
}

/// The branch `origin/HEAD` points at, from `git symbolic-ref --short
/// refs/remotes/origin/HEAD` output: the trimmed text after `origin/`, where
/// it has that prefix and something follows it.
pub open spec fn spec_origin_branch(out: Seq<char>) -> Option<Seq<char>> {
    let t = trim_seq(out);
    if t.len() > 7 && t.subrange(0, 7) == "origin/"@ {
        Some(t.subrange(7, t.len() as int))
    } else {
        None
    }
}

pub fn origin_branch(out: &str) -> (r: Option<String>)
    ensures
        match spec_origin_branch(out@) {
            Some(b) => r matches Some(s) && s@ == b,
            None => r is None,
        },
{
    let t = trim_chars(chars_of(out).as_slice());
    let prefix = chars_of("origin/");
    proof {
        reveal_strlit("origin/");
        assert(prefix@.len() == 7);
    }
    if t.len() > 7 && crate::text::starts_with_chars(t.as_slice(), prefix.as_slice()) {
        proof {
            assert(t@.subrange(0, 7) =~= prefix@);
        }
        Some(string_from_chars(slice_chars(t.as_slice(), 7, t.len()).as_slice()))
    } else {
        proof {
            if t@.len() > 7 && t@.subrange(0, 7) == "origin/"@ {
                assert(crate::text::has_prefix(t@, prefix@));
            }
        }
        None
    }
}

/// The current branch, from `git symbolic-ref --short HEAD` output: the
/// trimmed text, where it is not empty.
pub fn head_branch(out: &str) -> (r: Option<String>)
    ensures
        match r {
            Some(s) => s@ == trim_seq(out@) && s@.len() > 0,
            None => trim_seq(out@).len() == 0,
        },
{
    let t = trim_chars(chars_of(out).as_slice());
    if t.len() == 0 {
        None
    } else {
        Some(string_from_chars(t.as_slice()))
    }
}

/// The paths a status tally lists first are the first distinct paths of
/// the output, at most four of them; every path is listed once.
pub proof fn law_top_files_are_first_changed(lines: Seq<Seq<char>>)
    ensures
        tally_lines(lines).top == tally_lines(lines).changed.take(
            if tally_lines(lines).changed.len() < 4 { tally_lines(lines).changed.len() as int } else { 4 },
        ),
        tally_lines(lines).changed.no_duplicates(),
    decreases lines.len(),
{
    if lines.len() > 0 {
        law_top_files_are_first_changed(lines.drop_last());
        let t = tally_lines(lines.drop_last());
        let n = t.changed.len() as int;
        let u = tally_lines(lines);
        if u.changed.len() > n {
            assert(u.changed == t.changed.push(u.changed.last()));
            if n < 4 {
                assert(u.top =~= u.changed.take(n + 1));
            } else {
                assert(u.changed.take(4) =~= t.changed.take(4));
            }
            assert forall|i: int, j: int| 0 <= i < j < u.changed.len() implies u.changed[i] != u.changed[j] by {
                if j == n {
                    assert(t.changed.contains(t.changed[i]));
                }
            }
        }
    }
}

} // verus!
