//! `rupu cleanup`: pruning archived sessions and standalone transcripts, and
//! the report of what was (or would be) removed.

use vstd::prelude::*;
use vstd::string::*;
use vstd::multiset::Multiset;
use crate::autoflow::select::{lemma_lex_lt_irreflexive, lemma_lex_lt_total, lemma_lex_lt_transitive, lex_less, lex_lt};
use crate::output::{ensure_supported, spec_supports, OutputFormat, SupportedFormats, UnsupportedFormat};
use crate::text::str_eq;

verus! {

/// The arguments of `rupu cleanup`.
#[derive(Debug, Clone)]
pub struct Args {
    /// Retention cutoff override for every selected resource.
    pub older_than: Option<String>,
    /// Preview deletions without removing files.
    pub dry_run: bool,
    /// Only clean archived sessions.
    pub sessions: bool,
    /// Only clean archived standalone transcripts.
    pub transcripts: bool,
}

/// Which resources a cleanup covers: sessions unless only transcripts were
/// asked for, transcripts unless only sessions were.
pub fn cleanup_selection(args: &Args) -> (r: (bool, bool))
    ensures
        r.0 == (args.sessions || !args.transcripts),
        r.1 == (args.transcripts || !args.sessions),
{
    (args.sessions || !args.transcripts, args.transcripts || !args.sessions)
}

/// `cleanup` prints a table, JSON or CSV.
pub fn ensure_output_format(format: OutputFormat) -> (r: Result<(), UnsupportedFormat>)
    ensures
        r is Ok,
{
    ensure_supported("cleanup", format, SupportedFormats::TableJsonCsv)
}

/// One removed (or, in a dry run, removable) resource.
#[derive(Debug, Clone)]
pub struct CleanupRow {
    pub kind: String,
    pub id: String,
    pub scope: String,
    pub retained_at: String,
    pub action: String,
    pub detail: String,
}

/// The row of a pruned session: `status <status>` as detail.
pub fn session_row(session_id: String, scope: String, updated_at: String, action: String, status: &str) -> (r: CleanupRow)
    ensures
        r.kind@ == "session"@,
        r.id == session_id,
        r.scope == scope,
        r.retained_at == updated_at,
        r.action == action,
        r.detail@ == "status "@ + status@,
{
    let mut detail = String::from_str("status ");
    detail.append(status);
    CleanupRow { kind: String::from_str("session"), id: session_id, scope, retained_at: updated_at, action, detail }
}

/// The row of a pruned transcript: its location as detail.
pub fn transcript_row(run_id: String, scope: String, archived_at: String, action: String, location: String) -> (r:
    CleanupRow)
    ensures
        r.kind@ == "transcript"@,
        r.id == run_id,
        r.scope == scope,
        r.retained_at == archived_at,
        r.action == action,
        r.detail == location,
{
    CleanupRow { kind: String::from_str("transcript"), id: run_id, scope, retained_at: archived_at, action, detail: location }
}

/// The order of the report: by kind, then id, then scope.
pub open spec fn row_key(r: CleanupRow) -> (Seq<char>, Seq<char>, Seq<char>) {
    (r.kind@, r.id@, r.scope@)
}

pub open spec fn key3_lt(a: (Seq<char>, Seq<char>, Seq<char>), b: (Seq<char>, Seq<char>, Seq<char>)) -> bool {
    lex_lt(a.0, b.0) || (a.0 == b.0 && (lex_lt(a.1, b.1) || (a.1 == b.1 && lex_lt(a.2, b.2))))
}

proof fn lemma_key3_transitive(
    a: (Seq<char>, Seq<char>, Seq<char>),
    b: (Seq<char>, Seq<char>, Seq<char>),
    c: (Seq<char>, Seq<char>, Seq<char>),
)
    requires
        key3_lt(a, b),
        key3_lt(b, c),
    ensures
        key3_lt(a, c),
{
    if lex_lt(a.0, b.0) && lex_lt(b.0, c.0) {
        lemma_lex_lt_transitive(a.0, b.0, c.0);
    } else if a.0 == b.0 && b.0 == c.0 {
        if lex_lt(a.1, b.1) && lex_lt(b.1, c.1) {
            lemma_lex_lt_transitive(a.1, b.1, c.1);
        } else if a.1 == b.1 && b.1 == c.1 {
            lemma_lex_lt_transitive(a.2, b.2, c.2);
        }
    }
}

proof fn lemma_key3_asymmetric(a: (Seq<char>, Seq<char>, Seq<char>), b: (Seq<char>, Seq<char>, Seq<char>))
    requires
        key3_lt(a, b),
    ensures
        !key3_lt(b, a),
{
    if key3_lt(b, a) {
        lemma_key3_transitive(a, b, a);
        lemma_lex_lt_irreflexive(a.0);
        lemma_lex_lt_irreflexive(a.1);
        lemma_lex_lt_irreflexive(a.2);
    }
}

proof fn lemma_key3_total(a: (Seq<char>, Seq<char>, Seq<char>), b: (Seq<char>, Seq<char>, Seq<char>))
    ensures
        key3_lt(a, b) || key3_lt(b, a) || a == b,
{
    lemma_lex_lt_total(a.0, b.0);
    lemma_lex_lt_total(a.1, b.1);
    lemma_lex_lt_total(a.2, b.2);
}

fn row_before(a: &CleanupRow, b: &CleanupRow) -> (r: bool)
    ensures
        r == key3_lt(row_key(*a), row_key(*b)),
{
    lex_less(a.kind.as_str(), b.kind.as_str()) || (str_eq(a.kind.as_str(), b.kind.as_str()) && (lex_less(
        a.id.as_str(),
        b.id.as_str(),
    ) || (str_eq(a.id.as_str(), b.id.as_str()) && lex_less(a.scope.as_str(), b.scope.as_str()))))
}

/// Rows in report order.
pub open spec fn rows_ordered(rows: Seq<CleanupRow>) -> bool {
    forall|i: int, j: int| 0 <= i < j < rows.len() ==> !key3_lt(row_key(#[trigger] rows[j]), row_key(#[trigger] rows[i]))
}

/// Put the report's rows in order (by kind, id, scope), keeping the order
/// of rows with the same key.
pub fn sort_cleanup_rows(rows: Vec<CleanupRow>) -> (r: Vec<CleanupRow>)
    ensures
        rows_ordered(r@),
        r@.to_multiset() == rows@.to_multiset(),
{
    broadcast use vstd::seq_lib::group_to_multiset_ensures;

    let ghost all = rows@;
    let mut rest = rows;
    let mut out: Vec<CleanupRow> = Vec::new();
    proof {
        assert(out@.to_multiset().add(rest@.to_multiset()) =~= all.to_multiset());
    }
    while rest.len() > 0
        invariant
            rows_ordered(out@),
            out@.to_multiset().add(rest@.to_multiset()) == all.to_multiset(),
        decreases rest@.len(),
    {
        let ghost before = rest@;
        let x = rest.remove(0);
        let mut p: usize = 0;
        while p < out.len() && !row_before(&x, &out[p])
            invariant
                p <= out@.len(),
                forall|k: int| 0 <= k < p ==> !key3_lt(row_key(x), row_key(#[trigger] out@[k])),
            decreases out@.len() - p,
        {
            p = p + 1;
        }
        let ghost pre = out@;
        proof {
            assert forall|b: int| p <= b < pre.len() implies key3_lt(row_key(x), row_key(#[trigger] pre[b])) by {
                if b > p {
                    lemma_key3_total(row_key(pre[p as int]), row_key(pre[b]));
                    if key3_lt(row_key(pre[p as int]), row_key(pre[b])) {
                        lemma_key3_transitive(row_key(x), row_key(pre[p as int]), row_key(pre[b]));
                    }
                }
            }
        }
        out.insert(p, x);
        proof {
            assert forall|a: int, b: int| 0 <= a < b < out@.len() implies !key3_lt(
                row_key(#[trigger] out@[b]),
                row_key(#[trigger] out@[a]),
            ) by {
                if b < p {
                    assert(out@[a] == pre[a] && out@[b] == pre[b]);
                } else if b == p {
                    assert(out@[a] == pre[a]);
                } else if a < p {
                    assert(out@[a] == pre[a] && out@[b] == pre[b - 1]);
                    if key3_lt(row_key(pre[b - 1]), row_key(pre[a])) {
                        lemma_key3_transitive(row_key(x), row_key(pre[b - 1]), row_key(pre[a]));
                    }
                } else if a == p {
                    assert(out@[b] == pre[b - 1]);
                    lemma_key3_asymmetric(row_key(x), row_key(pre[b - 1]));
                } else {
                    assert(out@[a] == pre[a - 1] && out@[b] == pre[b - 1]);
                }
            }
            vstd::seq_lib::to_multiset_insert(pre, p as int, x);
            assert(before =~= rest@.insert(0, x));
            vstd::seq_lib::to_multiset_insert(rest@, 0, x);
            assert(out@.to_multiset().add(rest@.to_multiset()) =~= all.to_multiset());
        }
    }
    proof {
        assert(rest@.to_multiset() =~= Multiset::empty());
        assert(out@.to_multiset() =~= all.to_multiset());
    }
    out
}

} // verus!
