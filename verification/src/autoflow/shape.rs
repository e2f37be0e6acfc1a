//! Text shaping for autoflow tables and live views: truncation, compact
//! identifiers, thousands separators and joined lists.

use vstd::prelude::*;
use vstd::string::*;
use crate::number::{decimal, u64_to_string, usize_to_string};
use crate::text::{
    chars_of, has_prefix, join_seqs, join_strings, push_char, slice_chars, starts_with_chars, str_eq,
    string_from_chars, take_chars, trim_chars, trim_seq,
};

verus! {

/// `max - 1`, or `0` when `max` is `0`.
pub open spec fn sat_pred(max: nat) -> nat {
    if max == 0 {
        0
    } else {
        (max - 1) as nat
    }
}

/// Keep `s` when it has at most `max` characters; otherwise its first
/// `max - 1` characters followed by an ellipsis.
pub open spec fn spec_truncate(s: Seq<char>, max: nat) -> Seq<char> {
    if s.len() <= max {
        s
    } else {
        s.subrange(0, sat_pred(max) as int).push('…')
    }
}

fn truncate_seq(cs: &[char], max: usize) -> (r: String)
    ensures
        r@ == spec_truncate(cs@, max as nat),
{
    if cs.len() <= max {
        return string_from_chars(cs);
    }
    let keep: usize = if max == 0 { 0 } else { max - 1 };
    let head = take_chars(cs, keep);
    let mut out = string_from_chars(head.as_slice());
    push_char(&mut out, '…');
    out
}

/// Truncate `value` to at most `max` characters, marking the cut with `…`.
pub fn truncate_text(value: &str, max: usize) -> (r: String)
    ensures
        r@ == spec_truncate(value@, max as nat),
{
    truncate_seq(chars_of(value).as_slice(), max)
}

/// Trim `value`, then truncate it to `max_chars` characters for a table cell.
pub fn truncate_for_table(value: &str, max_chars: usize) -> (r: String)
    ensures
        r@ == spec_truncate(trim_seq(value@), max_chars as nat),
{
    let t = trim_chars(chars_of(value).as_slice());
    truncate_seq(t.as_slice(), max_chars)
}

/// Trim `value`, then truncate it to `max_chars` characters for an event detail.
pub fn truncate_detail(value: &str, max_chars: usize) -> (r: String)
    ensures
        r@ == spec_truncate(trim_seq(value@), max_chars as nat),
{
    truncate_for_table(value, max_chars)
}

/// A run id shortened to its first 12 and last 6 characters when it is
/// longer than 22 characters.
pub open spec fn spec_short_run_id(s: Seq<char>) -> Seq<char> {
    if s.len() <= 22 {
        s
    } else {
        s.subrange(0, 12).push('…') + s.subrange(s.len() - 6, s.len() as int)
    }
}

/// Shorten a long run id around an ellipsis.
pub fn short_run_id(value: &str) -> (r: String)
    ensures
        r@ == spec_short_run_id(value@),
{
    let cs = chars_of(value);
    let n = cs.len();
    if n <= 22 {
        return String::from_str(value);
    }
    let head = take_chars(cs.as_slice(), 12);
    let tail = slice_chars(cs.as_slice(), n - 6, n);
    let mut out = string_from_chars(head.as_slice());
    push_char(&mut out, '…');
    let t = string_from_chars(tail.as_slice());
    out.append(t.as_str());
    out
}

/// `s` with the first of `prefixes` that it starts with removed.
pub open spec fn strip_first_prefix(s: Seq<char>, a: Seq<char>, b: Seq<char>, c: Seq<char>) -> Seq<char> {
    if has_prefix(s, a) {
        s.subrange(a.len() as int, s.len() as int)
    } else if has_prefix(s, b) {
        s.subrange(b.len() as int, s.len() as int)
    } else if has_prefix(s, c) {
        s.subrange(c.len() as int, s.len() as int)
    } else {
        s
    }
}

fn strip_one_of(cs: &[char], a: &str, b: &str, c: &str) -> (r: Vec<char>)
    ensures
        r@ == strip_first_prefix(cs@, a@, b@, c@),
{
    let ca = chars_of(a);
    let cb = chars_of(b);
    let cc = chars_of(c);
    if starts_with_chars(cs, ca.as_slice()) {
        slice_chars(cs, ca.len(), cs.len())
    } else if starts_with_chars(cs, cb.as_slice()) {
        slice_chars(cs, cb.len(), cs.len())
    } else if starts_with_chars(cs, cc.as_slice()) {
        slice_chars(cs, cc.len(), cs.len())
    } else {
        slice_chars(cs, 0, cs.len())
    }
}

/// A source locator without its `github:` / `jira:` / `linear:` tracker
/// prefix, truncated to `max` characters.
pub fn short_locator(value: &str, max: usize) -> (r: String)
    ensures
        r@ == spec_truncate(strip_first_prefix(value@, "github:"@, "jira:"@, "linear:"@), max as nat),
{
    let cs = chars_of(value);
    let s = strip_one_of(cs.as_slice(), "github:", "jira:", "linear:");
    proof {
        assert(cs@.subrange(0, cs@.len() as int) =~= cs@);
    }
    truncate_seq(s.as_slice(), max)
}

/// A URL without its `https://` / `http://` scheme, truncated to `max` characters.
pub fn short_url_like(value: &str, max: usize) -> (r: String)
    ensures
        r@ == spec_truncate(strip_first_prefix(value@, "https://"@, "http://"@, "http://"@), max as nat),
{
    let cs = chars_of(value);
    let s = strip_one_of(cs.as_slice(), "https://", "http://", "http://");
    proof {
        assert(cs@.subrange(0, cs@.len() as int) =~= cs@);
    }
    truncate_seq(s.as_slice(), max)
}

/// The display name of a tracker key.
pub open spec fn spec_human_tracker_name(value: Seq<char>) -> Seq<char> {
    if value == "github"@ {
        "GitHub"@
    } else if value == "jira"@ {
        "Jira"@
    } else if value == "linear"@ {
        "Linear"@
    } else {
        value
    }
}

/// `GitHub` / `Jira` / `Linear` for their keys; any other key unchanged.
pub fn human_tracker_name<'a>(value: &'a str) -> (r: &'a str)
    ensures
        r@ == spec_human_tracker_name(value@),
{
    if str_eq(value, "github") {
        "GitHub"
    } else if str_eq(value, "jira") {
        "Jira"
    } else if str_eq(value, "linear") {
        "Linear"
    } else {
        value
    }
}

/// The position of the first `c` in `s`, if any.
#[verifier::opaque]
pub open spec fn first_index_of(s: Seq<char>, c: char) -> Option<int> {
    if exists|i: int| 0 <= i < s.len() && s[i] == c {
        Some(choose|i: int| 0 <= i < s.len() && s[i] == c && forall|j: int| 0 <= j < i ==> s[j] != c)
    } else {
        None
    }
}

/// `first_index_of` is the index of a `c` with none before it.
pub proof fn lemma_first_index_of(s: Seq<char>, c: char, i: int)
    requires
        0 <= i < s.len(),
        s[i] == c,
        forall|j: int| 0 <= j < i ==> s[j] != c,
    ensures
        first_index_of(s, c) == Some(i),
{
    reveal(first_index_of);
    let k = choose|k: int| 0 <= k < s.len() && s[k] == c && forall|j: int| 0 <= j < k ==> s[j] != c;
    if k < i {
    } else if k > i {
        assert(s[i] == c);
    }
}

proof fn lemma_has_first(s: Seq<char>, c: char, i: int)
    requires
        0 <= i < s.len(),
        s[i] == c,
    ensures
        exists|k: int| 0 <= k <= i && s[k] == c && forall|j: int| 0 <= j < k ==> s[j] != c,
    decreases i,
{
    if exists|j: int| 0 <= j < i && s[j] == c {
        let j = choose|j: int| 0 <= j < i && s[j] == c;
        lemma_has_first(s, c, j);
    } else {
        assert(forall|j: int| 0 <= j < i ==> s[j] != c);
    }
}

/// What `first_index_of` gives is the index of a `c`.
pub proof fn lemma_first_index_of_spec(s: Seq<char>, c: char)
    ensures
        first_index_of(s, c) matches Some(i) ==> 0 <= i < s.len() && s[i] == c && forall|j: int|
            0 <= j < i ==> s[j] != c,
        first_index_of(s, c) is None ==> forall|j: int| 0 <= j < s.len() ==> s[j] != c,
{
    reveal(first_index_of);
    if exists|i: int| 0 <= i < s.len() && s[i] == c {
        let i = choose|i: int| 0 <= i < s.len() && s[i] == c;
        lemma_has_first(s, c, i);
    }
}

/// `first_index_of` is `None` on a text without `c`.
pub proof fn lemma_first_index_of_none(s: Seq<char>, c: char)
    requires
        forall|j: int| 0 <= j < s.len() ==> s[j] != c,
    ensures
        first_index_of(s, c) is None,
{
    reveal(first_index_of);
}

/// Find the first `c` in `s`.
pub fn find_char(s: &[char], c: char) -> (r: Option<usize>)
    ensures
        match r {
            Some(i) => i < s@.len() && s@[i as int] == c && forall|j: int| 0 <= j < i ==> s@[j] != c,
            None => forall|j: int| 0 <= j < s@.len() ==> s@[j] != c,
        },
        r matches Some(i) ==> first_index_of(s@, c) == Some(i as int),
        r is None ==> first_index_of(s@, c) is None,
{
    let mut i: usize = 0;
    while i < s.len()
        invariant
            i <= s@.len(),
            forall|j: int| 0 <= j < i ==> s@[j] != c,
        decreases s@.len() - i,
    {
        if s[i] == c {
            proof {
                lemma_first_index_of(s@, c, i as int);
            }
            return Some(i);
        }
        i = i + 1;
    }
    proof {
        lemma_first_index_of_none(s@, c);
    }
    None
}

/// The display name of the tracker an issue ref starts with, or `Issue`.
pub open spec fn spec_tracker_name_from_issue_ref(issue_ref: Seq<char>) -> Seq<char> {
    match first_index_of(issue_ref, ':') {
        Some(i) => spec_human_tracker_name(issue_ref.subrange(0, i)),
        None => "Issue"@,
    }
}

/// `GitHub` for `github:owner/repo/issues/1`, and so on; `Issue` without a tracker.
pub fn tracker_name_from_issue_ref(issue_ref: &str) -> (r: String)
    ensures
        r@ == spec_tracker_name_from_issue_ref(issue_ref@),
{
    let cs = chars_of(issue_ref);
    match find_char(cs.as_slice(), ':') {
        Some(i) => {
            let head = string_from_chars(take_chars(cs.as_slice(), i).as_slice());
            String::from_str(human_tracker_name(head.as_str()))
        },
        None => String::from_str("Issue"),
    }
}

/// Decimal digits grouped in threes from the right with commas.
pub open spec fn group_thousands(d: Seq<char>) -> Seq<char>
    decreases d.len(),
{
    if d.len() <= 3 {
        d
    } else {
        group_thousands(d.subrange(0, d.len() - 3)).push(',') + d.subrange(d.len() - 3, d.len() as int)
    }
}

fn group_prefix(d: &[char], n: usize) -> (r: String)
    requires
        n <= d@.len(),
    ensures
        r@ == group_thousands(d@.subrange(0, n as int)),
    decreases n,
{
    if n <= 3 {
        return string_from_chars(take_chars(d, n).as_slice());
    }
    let mut out = group_prefix(d, n - 3);
    push_char(&mut out, ',');
    let tail = string_from_chars(slice_chars(d, n - 3, n).as_slice());
    out.append(tail.as_str());
    proof {
        let p = d@.subrange(0, n as int);
        assert(p.subrange(0, p.len() - 3) =~= d@.subrange(0, n - 3));
        assert(p.subrange(p.len() - 3, p.len() as int) =~= d@.subrange(n - 3, n as int));
    }
    out
}

/// `n` with thousands separators, e.g. `1234567` → `1,234,567`.
pub fn format_count(n: u64) -> (r: String)
    ensures
        r@ == group_thousands(decimal(n as nat)),
{
    let s = u64_to_string(n);
    let d = chars_of(s.as_str());
    proof {
        assert(d@.subrange(0, d@.len() as int) =~= d@);
    }
    group_prefix(d.as_slice(), d.len())
}

/// The parts `compact_join` shows: the first `max_items` values, plus a
/// `+<rest>` marker when some were left out.
pub open spec fn compact_parts(values: Seq<Seq<char>>, max_items: nat) -> Seq<Seq<char>> {
    if values.len() > max_items {
        values.subrange(0, max_items as int).push("+"@ + decimal((values.len() - max_items) as nat))
    } else {
        values
    }
}

/// Up to `max_items` values joined with `, `, a `+N` marker for the rest, and
/// the whole truncated to `max_len` characters; empty for no values.
pub fn compact_join(values: &Vec<String>, max_items: usize, max_len: usize) -> (r: String)
    ensures
        r@ == (if values@.len() == 0 {
            Seq::empty()
        } else {
            spec_truncate(
                join_seqs(compact_parts(values@.map_values(|s: String| s@), max_items as nat), ", "@),
                max_len as nat,
            )
        }),
{
    if values.len() == 0 {
        return String::new();
    }
    let ghost views = values@.map_values(|s: String| s@);
    let mut shown: Vec<String> = Vec::new();
    let mut i: usize = 0;
    let limit = if values.len() < max_items { values.len() } else { max_items };
    while i < limit
        invariant
            limit <= values@.len(),
            limit <= max_items,
            i <= limit,
            views == values@.map_values(|s: String| s@),
            shown@.map_values(|s: String| s@) == views.subrange(0, i as int),
        decreases limit - i,
    {
        let v = values[i].clone();
        let ghost before = shown@;
        shown.push(v);
        proof {
            assert(shown@.map_values(|s: String| s@) =~= before.map_values(|s: String| s@).push(views[i as int]));
            assert(views.subrange(0, i + 1) =~= views.subrange(0, i as int).push(views[i as int]));
        }
        i = i + 1;
    }
    if values.len() > max_items {
        let mut more = String::from_str("+");
        let count = usize_to_string(values.len() - max_items);
        more.append(count.as_str());
        let ghost before = shown@;
        shown.push(more);
        proof {
            assert(shown@.map_values(|s: String| s@) =~= before.map_values(|s: String| s@).push(
                "+"@ + decimal((values@.len() - max_items) as nat),
            ));
        }
    } else {
        proof {
            assert(views.subrange(0, limit as int) =~= views);
        }
    }
    let joined = join_strings(&shown, ", ");
    truncate_text(joined.as_str(), max_len)
}

} // verus!
