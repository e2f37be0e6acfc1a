//! The shape an `autoflow_outcome_v1` document is brought into before it is
//! validated: shorthands become the canonical fields and stray keys go.

use vstd::prelude::*;
use vstd::string::*;
use crate::json::{
    entries_get, entries_insert, entries_retain, entries_set, entries_view, entry_get, json_as_str, json_copy,
    json_opt_str, jv_opt_str, jview, lemma_entries_retain_get, lemma_entries_set_get, lemma_object_view, ojv, Json, JsonV,
};
use crate::text::str_eq;

verus! {

/// The top-level keys an outcome keeps.
pub open spec fn is_outcome_key(k: Seq<char>) -> bool {
    k == "status"@ || k == "summary"@ || k == "dispatch"@ || k == "retry_after"@ || k == "pr_url"@ || k == "reason"@
        || k == "artifacts"@
}

/// The keys a dispatch keeps.
pub open spec fn is_dispatch_key(k: Seq<char>) -> bool {
    k == "workflow"@ || k == "target"@ || k == "inputs"@ || k == "summary"@
}

/// Every key of `es` satisfies `keep`.
pub open spec fn keys_within(es: Seq<(Seq<char>, JsonV)>, keep: spec_fn(Seq<char>) -> bool) -> bool {
    forall|i: int| 0 <= i < es.len() ==> keep(#[trigger] es[i].0)
}

/// The keys an outcome is read and written under are distinct.
proof fn lemma_keys_distinct()
    ensures
        "workflow"@ != "target"@,
        "workflow"@ != "inputs"@,
        "workflow"@ != "summary"@,
        "target"@ != "inputs"@,
        "target"@ != "summary"@,
        "inputs"@ != "summary"@,
        "status"@ != "summary"@,
        "status"@ != "dispatch"@,
        "status"@ != "retry_after"@,
        "status"@ != "pr_url"@,
        "status"@ != "reason"@,
        "status"@ != "artifacts"@,
        "summary"@ != "dispatch"@,
        "summary"@ != "retry_after"@,
        "summary"@ != "pr_url"@,
        "summary"@ != "reason"@,
        "summary"@ != "artifacts"@,
        "dispatch"@ != "retry_after"@,
        "dispatch"@ != "pr_url"@,
        "dispatch"@ != "reason"@,
        "dispatch"@ != "artifacts"@,
        "dispatch"@ != "workflow"@,
        "dispatch"@ != "decision"@,
        "status"@ != "decision"@,
        "status"@ != "workflow"@,
        "summary"@ != "workflow"@,
        "summary"@ != "decision"@,
        "retry_after"@ != "pr_url"@,
        "retry_after"@ != "reason"@,
        "retry_after"@ != "artifacts"@,
        "pr_url"@ != "reason"@,
        "pr_url"@ != "artifacts"@,
        "reason"@ != "artifacts"@,
        "continue"@ != "dispatch"@,
{
    reveal_strlit("workflow");
    reveal_strlit("target");
    reveal_strlit("inputs");
    reveal_strlit("summary");
    reveal_strlit("status");
    reveal_strlit("dispatch");
    reveal_strlit("retry_after");
    reveal_strlit("pr_url");
    reveal_strlit("reason");
    reveal_strlit("artifacts");
    reveal_strlit("decision");
    reveal_strlit("continue");
    assert("workflow"@[0] != "target"@[0]);
    assert("workflow"@[0] != "inputs"@[0]);
    assert("workflow"@[0] != "summary"@[0]);
    assert("target"@[0] != "inputs"@[0]);
    assert("target"@[0] != "summary"@[0]);
    assert("inputs"@[0] != "summary"@[0]);
    assert("status"@[1] != "summary"@[1]);
    assert("status"@[0] != "dispatch"@[0]);
    assert("status"@[0] != "retry_after"@[0]);
    assert("status"@[0] != "pr_url"@[0]);
    assert("status"@[0] != "reason"@[0]);
    assert("status"@[0] != "artifacts"@[0]);
    assert("summary"@[0] != "dispatch"@[0]);
    assert("summary"@[0] != "retry_after"@[0]);
    assert("summary"@[0] != "pr_url"@[0]);
    assert("summary"@[0] != "reason"@[0]);
    assert("summary"@[0] != "artifacts"@[0]);
    assert("dispatch"@[0] != "retry_after"@[0]);
    assert("dispatch"@[0] != "pr_url"@[0]);
    assert("dispatch"@[0] != "reason"@[0]);
    assert("dispatch"@[0] != "artifacts"@[0]);
    assert("dispatch"@[0] != "workflow"@[0]);
    assert("dispatch"@[1] != "decision"@[1]);
    assert("status"@[0] != "decision"@[0]);
    assert("status"@[0] != "workflow"@[0]);
    assert("summary"@[0] != "workflow"@[0]);
    assert("summary"@[0] != "decision"@[0]);
    assert("retry_after"@[0] != "pr_url"@[0]);
    assert("retry_after"@[2] != "reason"@[2]);
    assert("retry_after"@[0] != "artifacts"@[0]);
    assert("pr_url"@[0] != "reason"@[0]);
    assert("pr_url"@[0] != "artifacts"@[0]);
    assert("reason"@[0] != "artifacts"@[0]);
    assert("continue"@[0] != "dispatch"@[0]);
}

/// The value found, or the default.
pub open spec fn or_default(v: Option<JsonV>, d: JsonV) -> JsonV {
    match v {
        Some(x) => x,
        None => d,
    }
}

/// The empty object.
pub open spec fn empty_object() -> JsonV {
    JsonV::Object(Seq::empty())
}

/// A dispatch in canonical shape: a workflow named by a string becomes
/// `{workflow, target: <issue>, inputs: {}}`; an object gets the issue as its
/// default target and `{}` as its default inputs and keeps only workflow,
/// target, inputs and summary; anything else is left as it is.
pub open spec fn dispatch_shaped(out: JsonV, d: JsonV, issue_ref: Seq<char>) -> bool {
    match d {
        JsonV::Str(w) => out matches JsonV::Object(os) && keys_within(os, |k: Seq<char>| is_dispatch_key(k))
            && entry_get(os, "workflow"@) == Some(JsonV::Str(w)) && entry_get(os, "target"@) == Some(
            JsonV::Str(issue_ref),
        ) && entry_get(os, "inputs"@) == Some(empty_object()) && entry_get(os, "summary"@) is None,
        JsonV::Object(es) => out matches JsonV::Object(os) && keys_within(os, |k: Seq<char>| is_dispatch_key(k))
            && entry_get(os, "workflow"@) == entry_get(es, "workflow"@) && entry_get(os, "summary"@) == entry_get(
            es,
            "summary"@,
        ) && entry_get(os, "target"@) == Some(or_default(entry_get(es, "target"@), JsonV::Str(issue_ref)))
            && entry_get(os, "inputs"@) == Some(or_default(entry_get(es, "inputs"@), empty_object())),
        _ => out == d,
    }
}

/// The dispatch an outcome carries: its `dispatch`, else a string or object
/// `workflow`.
pub open spec fn outcome_dispatch(m: Seq<(Seq<char>, JsonV)>) -> Option<JsonV> {
    match entry_get(m, "dispatch"@) {
        Some(d) => Some(d),
        None => match entry_get(m, "workflow"@) {
            Some(JsonV::Str(w)) => Some(JsonV::Str(w)),
            Some(JsonV::Object(es)) => Some(JsonV::Object(es)),
            _ => None,
        },
    }
}

/// The decisions that name a status of their own.
pub open spec fn is_status_decision(d: Seq<char>) -> bool {
    d == "continue"@ || d == "await_human"@ || d == "await_external"@ || d == "retry"@ || d == "blocked"@ || d
        == "complete"@
}

/// The status an outcome ends with: its own; else its decision, with
/// `dispatch` meaning `continue`; else `continue` where it dispatches.
pub open spec fn outcome_status(m: Seq<(Seq<char>, JsonV)>) -> Option<JsonV> {
    match entry_get(m, "status"@) {
        Some(s) => Some(s),
        None => match entry_get(m, "decision"@) {
            Some(JsonV::Str(d)) => if d == "dispatch"@ {
                Some(JsonV::Str("continue"@))
            } else if is_status_decision(d) {
                Some(JsonV::Str(d))
            } else if outcome_dispatch(m) is Some {
                Some(JsonV::Str("continue"@))
            } else {
                None
            },
            _ => if outcome_dispatch(m) is Some {
                Some(JsonV::Str("continue"@))
            } else {
                None
            },
        },
    }
}

/// An outcome object brought into shape from `m`.
pub open spec fn outcome_shaped(rs: Seq<(Seq<char>, JsonV)>, m: Seq<(Seq<char>, JsonV)>, issue_ref: Seq<char>) -> bool {
    &&& keys_within(rs, |k: Seq<char>| is_outcome_key(k))
    &&& entry_get(rs, "status"@) == outcome_status(m)
    &&& entry_get(rs, "summary"@) == match entry_get(m, "summary"@) {
        Some(s) => Some(s),
        None => entry_get(m, "reason"@),
    }
    &&& match outcome_dispatch(m) {
        None => entry_get(rs, "dispatch"@) is None,
        Some(d) => entry_get(rs, "dispatch"@) matches Some(o) && dispatch_shaped(o, d, issue_ref),
    }
    &&& entry_get(rs, "retry_after"@) == entry_get(m, "retry_after"@)
    &&& entry_get(rs, "pr_url"@) == entry_get(m, "pr_url"@)
    &&& entry_get(rs, "reason"@) == entry_get(m, "reason"@)
    &&& entry_get(rs, "artifacts"@) == entry_get(m, "artifacts"@)
}

fn outcome_key(k: &str) -> (r: bool)
    ensures
        r == is_outcome_key(k@),
{
    str_eq(k, "status") || str_eq(k, "summary") || str_eq(k, "dispatch") || str_eq(k, "retry_after") || str_eq(
        k,
        "pr_url",
    ) || str_eq(k, "reason") || str_eq(k, "artifacts")
}

fn dispatch_key(k: &str) -> (r: bool)
    ensures
        r == is_dispatch_key(k@),
{
    str_eq(k, "workflow") || str_eq(k, "target") || str_eq(k, "inputs") || str_eq(k, "summary")
}

proof fn lemma_retain_keys(es: Seq<(Seq<char>, JsonV)>, keep: spec_fn(Seq<char>) -> bool)
    ensures
        keys_within(entries_retain(es, keep), keep),
    decreases es.len(),
{
    if es.len() > 0 {
        lemma_retain_keys(es.drop_first(), keep);
        let r = entries_retain(es.drop_first(), keep);
        if keep(es[0].0) {
            let s = seq![es[0]] + r;
            assert forall|i: int| 0 <= i < s.len() implies keep(#[trigger] s[i].0) by {
                if i > 0 {
                    assert(s[i] == r[i - 1]);
                }
            }
        }
    }
}

/// Keep the entries whose key satisfies the outcome or dispatch key set.
fn retain_entries(es: Vec<(String, Json)>, dispatch: bool) -> (r: Vec<(String, Json)>)
    ensures
        dispatch ==> entries_view(r@) == entries_retain(entries_view(es@), |k: Seq<char>| is_dispatch_key(k)),
        !dispatch ==> entries_view(r@) == entries_retain(entries_view(es@), |k: Seq<char>| is_outcome_key(k)),
{
    let ghost keep = if dispatch {
        |k: Seq<char>| is_dispatch_key(k)
    } else {
        |k: Seq<char>| is_outcome_key(k)
    };
    let ghost all = entries_view(es@);
    let mut es = es;
    let mut kept: Vec<(String, Json)> = Vec::new();
    let total = es.len();
    let mut i: usize = 0;
    proof {
        assert(all.subrange(0, 0) =~= Seq::<(Seq<char>, JsonV)>::empty());
        assert(entries_view(kept@) =~= Seq::<(Seq<char>, JsonV)>::empty());
        assert(entries_view(es@) =~= all.subrange(0, all.len() as int));
    }
    while es.len() > 0
        invariant
            all.len() == total,
            i + es@.len() == total,
            entries_view(es@) == all.subrange(i as int, total as int),
            entries_retain(all, keep) == entries_view(kept@) + entries_retain(all.subrange(i as int, total as int), keep),
            keep == (if dispatch {
                |k: Seq<char>| is_dispatch_key(k)
            } else {
                |k: Seq<char>| is_outcome_key(k)
            }),
        decreases es@.len(),
    {
        let ghost rest = all.subrange(i as int, total as int);
        let ghost before = es@;
        let e = es.remove(0);
        proof {
            assert(entries_view(before)[0] == rest[0]);
            assert(rest.drop_first() =~= all.subrange(i + 1, total as int));
            assert(entries_view(es@) =~= all.subrange(i + 1, total as int)) by {
                assert forall|k: int| 0 <= k < es@.len() implies entries_view(es@)[k] == all.subrange(
                    i + 1,
                    total as int,
                )[k] by {
                    assert(es@[k] == before[k + 1]);
                    assert(entries_view(before)[k + 1] == rest[k + 1]);
                }
            }
        }
        let keep_it = if dispatch {
            dispatch_key(e.0.as_str())
        } else {
            outcome_key(e.0.as_str())
        };
        if keep_it {
            let ghost kv = entries_view(kept@);
            kept.push(e);
            proof {
                assert(entries_view(kept@) =~= kv.push((e.0@, jview(e.1))));
                assert(kv.push((e.0@, jview(e.1))) + entries_retain(rest.drop_first(), keep) =~= kv + (seq![
                    rest[0],
                ] + entries_retain(rest.drop_first(), keep)));
            }
        }
        i = i + 1;
    }
    proof {
        assert(entries_retain(all.subrange(total as int, total as int), keep) =~= Seq::<(Seq<char>, JsonV)>::empty());
        assert(entries_view(kept@) + Seq::<(Seq<char>, JsonV)>::empty() =~= entries_view(kept@));
    }
    kept
}

/// A dispatch object with the issue as its default target, `{}` as its
/// default inputs, and only its workflow, target, inputs and summary.
fn shape_dispatch_object(es: Vec<(String, Json)>, issue_ref: &str) -> (r: Vec<(String, Json)>)
    ensures
        dispatch_shaped(JsonV::Object(entries_view(r@)), JsonV::Object(entries_view(es@)), issue_ref@),
{
    let ghost e0 = entries_view(es@);
    proof {
        lemma_keys_distinct();
    }
    let mut es = es;
    if entries_get(&es, "target").is_none() {
        entries_insert(&mut es, "target", Json::Str(String::from_str(issue_ref)));
        proof {
            lemma_entries_set_get(e0, "target"@, JsonV::Str(issue_ref@), "inputs"@);
            lemma_entries_set_get(e0, "target"@, JsonV::Str(issue_ref@), "workflow"@);
            lemma_entries_set_get(e0, "target"@, JsonV::Str(issue_ref@), "summary"@);
        }
    }
    let ghost e1 = entries_view(es@);
    if entries_get(&es, "inputs").is_none() {
        let empty: Vec<(String, Json)> = Vec::new();
        let obj = Json::Object(empty);
        proof {
            assert(jview(obj)->Object_0 =~= Seq::<(Seq<char>, JsonV)>::empty());
        }
        entries_insert(&mut es, "inputs", obj);
        proof {
            lemma_entries_set_get(e1, "inputs"@, empty_object(), "target"@);
            lemma_entries_set_get(e1, "inputs"@, empty_object(), "workflow"@);
            lemma_entries_set_get(e1, "inputs"@, empty_object(), "summary"@);
        }
    }
    let ghost e2 = entries_view(es@);
    let r = retain_entries(es, true);
    proof {
        let keep = |k: Seq<char>| is_dispatch_key(k);
        lemma_retain_keys(e2, keep);
        lemma_entries_retain_get(e2, keep, "workflow"@);
        lemma_entries_retain_get(e2, keep, "target"@);
        lemma_entries_retain_get(e2, keep, "inputs"@);
        lemma_entries_retain_get(e2, keep, "summary"@);
    }
    r
}

/// `{workflow: <name>, target: <issue>, inputs: {}}`.
fn dispatch_for_workflow(workflow: &str, issue_ref: &str) -> (r: Vec<(String, Json)>)
    ensures
        dispatch_shaped(JsonV::Object(entries_view(r@)), JsonV::Str(workflow@), issue_ref@),
{
    let mut es: Vec<(String, Json)> = Vec::new();
    let ghost e0 = entries_view(es@);
    proof {
        assert(e0 =~= Seq::<(Seq<char>, JsonV)>::empty());
    }
    entries_insert(&mut es, "workflow", Json::Str(String::from_str(workflow)));
    let ghost e1 = entries_view(es@);
    entries_insert(&mut es, "target", Json::Str(String::from_str(issue_ref)));
    let ghost e2 = entries_view(es@);
    let empty: Vec<(String, Json)> = Vec::new();
    let obj = Json::Object(empty);
    proof {
        assert(jview(obj)->Object_0 =~= Seq::<(Seq<char>, JsonV)>::empty());
    }
    entries_insert(&mut es, "inputs", obj);
    proof {
        let w = JsonV::Str(workflow@);
        let t = JsonV::Str(issue_ref@);
        lemma_entries_set_get(e0, "workflow"@, w, "summary"@);
        lemma_entries_set_get(e1, "target"@, t, "workflow"@);
        lemma_entries_set_get(e1, "target"@, t, "summary"@);
        lemma_entries_set_get(e2, "inputs"@, empty_object(), "workflow"@);
        lemma_entries_set_get(e2, "inputs"@, empty_object(), "target"@);
        lemma_entries_set_get(e2, "inputs"@, empty_object(), "summary"@);
        let es3 = entries_view(es@);
        assert(es3 == entries_set(entries_set(entries_set(e0, "workflow"@, w), "target"@, t), "inputs"@, empty_object()));
        assert(e1 == seq![("workflow"@, w)]);
        lemma_keys_distinct();
        crate::json::lemma_set_absent(e1, "target"@, t);
        assert(e2 =~= seq![("workflow"@, w), ("target"@, t)]);
        crate::json::lemma_set_absent(e2, "inputs"@, empty_object());
        assert(es3 =~= seq![("workflow"@, w), ("target"@, t), ("inputs"@, empty_object())]);
        assert forall|i: int| 0 <= i < es3.len() implies is_dispatch_key(#[trigger] es3[i].0) by {}
    }
    es
}

/// Setting one key leaves every other key's value alone.
proof fn lemma_set_keeps(es: Seq<(Seq<char>, JsonV)>, key: Seq<char>, value: JsonV)
    ensures
        entry_get(entries_set(es, key, value), key) == Some(value),
        forall|other: Seq<char>| other != key ==> #[trigger] entry_get(entries_set(es, key, value), other) == entry_get(es, other),
{
    lemma_entries_set_get(es, key, value, key);
    assert forall|other: Seq<char>| other != key implies #[trigger] entry_get(entries_set(es, key, value), other)
        == entry_get(es, other) by {
        lemma_entries_set_get(es, key, value, other);
    }
}

/// Shaping a dispatch that is already in shape changes none of what the
/// shape speaks of.
proof fn lemma_reshape(o2: JsonV, d1: JsonV, d0: JsonV, issue_ref: Seq<char>)
    requires
        d1 is Object,
        dispatch_shaped(o2, d1, issue_ref),
        dispatch_shaped(d1, d0, issue_ref),
        d0 is Str || d0 is Object,
    ensures
        dispatch_shaped(o2, d0, issue_ref),
{
}

fn status_decision(d: &str) -> (r: bool)
    ensures
        r == is_status_decision(d@),
{
    str_eq(d, "continue") || str_eq(d, "await_human") || str_eq(d, "await_external") || str_eq(d, "retry") || str_eq(
        d,
        "blocked",
    ) || str_eq(d, "complete")
}

fn copy_entry(m: &Vec<(String, Json)>, key: &str) -> (r: Option<Json>)
    ensures
        match r {
            Some(x) => entry_get(entries_view(m@), key@) == Some(jview(x)),
            None => entry_get(entries_view(m@), key@) is None,
        },
{
    match entries_get(m, key) {
        Some(x) => Some(json_copy(x)),
        None => None,
    }
}

/// Bring an `autoflow_outcome_v1` outcome into its canonical shape: a missing
/// summary falls back to the reason; a `workflow` shorthand becomes the
/// dispatch; a missing status comes from the decision or from there being a
/// dispatch; the dispatch takes its canonical shape; and only the outcome's
/// own keys are kept. Other schemas, and outcomes that are not objects, pass
/// through unchanged.
pub fn normalize_autoflow_outcome_shape(schema: &str, raw: Json, issue_ref: &str) -> (r: Json)
    ensures
        (schema@ != "autoflow_outcome_v1"@ || !(jview(raw) is Object)) ==> jview(r) == jview(raw),
        schema@ == "autoflow_outcome_v1"@ && jview(raw) is Object ==> (jview(r) matches JsonV::Object(rs)
            && outcome_shaped(rs, jview(raw)->Object_0, issue_ref@)),
{
    if !str_eq(schema, "autoflow_outcome_v1") {
        return raw;
    }
    let mut m = match raw {
        Json::Object(m) => m,
        other => return other,
    };
    let ghost m0 = entries_view(m@);
    proof {
        lemma_object_view(m);
        lemma_keys_distinct();
    }
    if entries_get(&m, "summary").is_none() {
        if let Some(x) = copy_entry(&m, "reason") {
            proof {
                lemma_set_keeps(m0, "summary"@, jview(x));
            }
            entries_insert(&mut m, "summary", x);
        }
    }
    let ghost m1 = entries_view(m@);
    assert(entry_get(m1, "summary"@) == match entry_get(m0, "summary"@) {
        Some(s) => Some(s),
        None => entry_get(m0, "reason"@),
    });
    assert(forall|k: Seq<char>| k != "summary"@ ==> #[trigger] entry_get(m1, k) == entry_get(m0, k));
    if entries_get(&m, "dispatch").is_none() {
        match copy_entry(&m, "workflow") {
            Some(Json::Str(w)) => {
                let d = dispatch_for_workflow(w.as_str(), issue_ref);
                let obj = Json::Object(d);
                proof {
                    lemma_object_view(d);
                    lemma_set_keeps(m1, "dispatch"@, jview(obj));
                }
                entries_insert(&mut m, "dispatch", obj);
            },
            Some(Json::Object(dm)) => {
                proof {
                    lemma_object_view(dm);
                }
                let d = shape_dispatch_object(dm, issue_ref);
                let obj = Json::Object(d);
                proof {
                    lemma_object_view(d);
                    lemma_set_keeps(m1, "dispatch"@, jview(obj));
                }
                entries_insert(&mut m, "dispatch", obj);
            },
            _ => {},
        }
    }
    let ghost m2 = entries_view(m@);
    assert(forall|k: Seq<char>| k != "dispatch"@ ==> #[trigger] entry_get(m2, k) == entry_get(m1, k));
    assert(entry_get(m2, "dispatch"@) is Some <==> outcome_dispatch(m0) is Some);
    assert(entry_get(m0, "dispatch"@) is Some ==> entry_get(m2, "dispatch"@) == entry_get(m0, "dispatch"@));
    assert(entry_get(m0, "dispatch"@) is None && outcome_dispatch(m0) is Some ==> (entry_get(m2, "dispatch"@) matches Some(
        d1,
    ) && d1 is Object && dispatch_shaped(d1, outcome_dispatch(m0).unwrap(), issue_ref@)));
    if entries_get(&m, "status").is_none() {
        let has_dispatch = entries_get(&m, "dispatch").is_some();
        let status: Option<String> = match json_opt_str(entries_get(&m, "decision")) {
            Some(d) => {
                if str_eq(d, "dispatch") {
                    Some(String::from_str("continue"))
                } else if status_decision(d) {
                    Some(String::from_str(d))
                } else if has_dispatch {
                    Some(String::from_str("continue"))
                } else {
                    None
                }
            },
            None => {
                if has_dispatch {
                    Some(String::from_str("continue"))
                } else {
                    None
                }
            },
        };
        if let Some(st) = status {
            let v = Json::Str(st);
            proof {
                lemma_set_keeps(m2, "status"@, jview(v));
            }
            entries_insert(&mut m, "status", v);
        }
    }
    let ghost m3 = entries_view(m@);
    assert(forall|k: Seq<char>| k != "status"@ ==> #[trigger] entry_get(m3, k) == entry_get(m2, k));
    assert(entry_get(m3, "status"@) == outcome_status(m0));
    match copy_entry(&m, "dispatch") {
        Some(Json::Str(w)) => {
            let d = dispatch_for_workflow(w.as_str(), issue_ref);
            let obj = Json::Object(d);
            proof {
                lemma_object_view(d);
                lemma_set_keeps(m3, "dispatch"@, jview(obj));
            }
            entries_insert(&mut m, "dispatch", obj);
        },
        Some(Json::Object(dm)) => {
            proof {
                lemma_object_view(dm);
            }
            let d = shape_dispatch_object(dm, issue_ref);
            let obj = Json::Object(d);
            proof {
                lemma_object_view(d);
                lemma_set_keeps(m3, "dispatch"@, jview(obj));
                if entry_get(m0, "dispatch"@) is None && outcome_dispatch(m0) is Some {
                    lemma_reshape(jview(obj), entry_get(m2, "dispatch"@).unwrap(), outcome_dispatch(m0).unwrap(), issue_ref@);
                }
            }
            entries_insert(&mut m, "dispatch", obj);
        },
        _ => {},
    }
    let ghost m4 = entries_view(m@);
    assert(forall|k: Seq<char>| k != "dispatch"@ ==> #[trigger] entry_get(m4, k) == entry_get(m3, k));
    if entries_get(&m, "status").is_none() && entries_get(&m, "dispatch").is_some() {
        let v = Json::Str(String::from_str("continue"));
        proof {
            lemma_set_keeps(m4, "status"@, jview(v));
        }
        entries_insert(&mut m, "status", v);
    }
    let ghost m5 = entries_view(m@);
    let kept = retain_entries(m, false);
    let r = Json::Object(kept);
    proof {
        lemma_object_view(kept);
        let keep = |k: Seq<char>| is_outcome_key(k);
        lemma_retain_keys(m5, keep);
        lemma_entries_retain_get(m5, keep, "status"@);
        lemma_entries_retain_get(m5, keep, "summary"@);
        lemma_entries_retain_get(m5, keep, "dispatch"@);
        lemma_entries_retain_get(m5, keep, "retry_after"@);
        lemma_entries_retain_get(m5, keep, "pr_url"@);
        lemma_entries_retain_get(m5, keep, "reason"@);
        lemma_entries_retain_get(m5, keep, "artifacts"@);
    }
    r
}

/// An outcome wrapped under its schema's name, `{"<schema>": {...}}`, is
/// unwrapped; anything else is left as it is.
pub fn unwrap_schema_named_outcome(schema: &str, raw: Json) -> (r: Json)
    ensures
        jview(r) == match jview(raw) {
            JsonV::Object(es) => if es.len() == 1 && es[0].0 == schema@ && es[0].1 is Object {
                es[0].1
            } else {
                jview(raw)
            },
            _ => jview(raw),
        },
{
    match raw {
        Json::Object(mut es) => {
            proof {
                lemma_object_view(es);
            }
            if es.len() == 1 && str_eq(es[0].0.as_str(), schema) && match &es[0].1 {
                Json::Object(_) => true,
                _ => false,
            } {
                let (_, inner) = es.remove(0);
                inner
            } else {
                Json::Object(es)
            }
        },
        other => other,
    }
}

proof fn lemma_keys_within_none(es: Seq<(Seq<char>, JsonV)>, keep: spec_fn(Seq<char>) -> bool, k: Seq<char>)
    requires
        keys_within(es, keep),
        !keep(k),
    ensures
        entry_get(es, k) is None,
    decreases es.len(),
{
    if es.len() > 0 {
        assert(keep(es[0].0));
        assert(keys_within(es.drop_first(), keep)) by {
            assert forall|i: int| 0 <= i < es.drop_first().len() implies keep(#[trigger] es.drop_first()[i].0) by {
                assert(es.drop_first()[i] == es[i + 1]);
            }
        }
        lemma_keys_within_none(es.drop_first(), keep, k);
    }
}

/// The shorthand keys are not among the keys an outcome keeps.
proof fn lemma_shorthands_not_kept()
    ensures
        !is_outcome_key("workflow"@),
        !is_outcome_key("decision"@),
{
    assert(!is_outcome_key("workflow"@)) by {
        reveal_strlit("workflow");
        reveal_strlit("status");
        reveal_strlit("summary");
        reveal_strlit("dispatch");
        reveal_strlit("retry_after");
        reveal_strlit("pr_url");
        reveal_strlit("reason");
        reveal_strlit("artifacts");
        assert("workflow"@[0] != "dispatch"@[0]);
    }
    assert(!is_outcome_key("decision"@)) by {
        reveal_strlit("decision");
        reveal_strlit("status");
        reveal_strlit("summary");
        reveal_strlit("dispatch");
        reveal_strlit("retry_after");
        reveal_strlit("pr_url");
        reveal_strlit("reason");
        reveal_strlit("artifacts");
        assert("decision"@[1] != "dispatch"@[1]);
        assert("decision"@.len() == 8 && "reason"@.len() == 6 && "pr_url"@.len() == 6);
        assert("retry_after"@.len() == 11 && "artifacts"@.len() == 9);
    }
}

/// Two values answer every lookup alike: objects with the same value under
/// every key, or equal values otherwise.
pub open spec fn same_lookups(a: JsonV, b: JsonV) -> bool {
    match (a, b) {
        (JsonV::Object(x), JsonV::Object(y)) => forall|k: Seq<char>| #[trigger] entry_get(x, k) == entry_get(y, k),
        _ => a == b,
    }
}

/// Normalizing an already normalized outcome changes nothing a lookup can
/// see: every key gives the same value, and the dispatch answers every
/// lookup as before.
pub proof fn law_normalize_idempotent(
    m: Seq<(Seq<char>, JsonV)>,
    rs: Seq<(Seq<char>, JsonV)>,
    rs2: Seq<(Seq<char>, JsonV)>,
    issue_ref: Seq<char>,
)
    requires
        outcome_shaped(rs, m, issue_ref),
        outcome_shaped(rs2, rs, issue_ref),
    ensures
        forall|k: Seq<char>| k != "dispatch"@ ==> #[trigger] entry_get(rs2, k) == entry_get(rs, k),
        match (entry_get(rs2, "dispatch"@), entry_get(rs, "dispatch"@)) {
            (Some(a), Some(b)) => same_lookups(a, b),
            (None, None) => true,
            _ => false,
        },
{
    lemma_keys_distinct();
    let keep = |k: Seq<char>| is_outcome_key(k);
    let dkeep = |k: Seq<char>| is_dispatch_key(k);
    lemma_shorthands_not_kept();
    lemma_keys_within_none(rs, keep, "workflow"@);
    lemma_keys_within_none(rs, keep, "decision"@);
    assert forall|k: Seq<char>| k != "dispatch"@ implies #[trigger] entry_get(rs2, k) == entry_get(rs, k) by {
        if !is_outcome_key(k) {
            lemma_keys_within_none(rs, keep, k);
            lemma_keys_within_none(rs2, keep, k);
        }
    }
    match (entry_get(rs2, "dispatch"@), entry_get(rs, "dispatch"@)) {
        (Some(a), Some(b)) => {
            match b {
                JsonV::Object(y) => {
                    let x = a->Object_0;
                    assert forall|k: Seq<char>| #[trigger] entry_get(x, k) == entry_get(y, k) by {
                        if !is_dispatch_key(k) {
                            lemma_keys_within_none(x, dkeep, k);
                            lemma_keys_within_none(y, dkeep, k);
                        }
                    }
                },
                _ => {},
            }
        },
        _ => {},
    }
}

/// One of the statuses a decision may name: continue, await_human,
/// await_external, retry, blocked or complete.
pub open spec fn named_outcome_status(t: Seq<char>) -> bool {
    ||| t == "continue"@
    ||| t == "await_human"@
    ||| t == "await_external"@
    ||| t == "retry"@
    ||| t == "blocked"@
    ||| t == "complete"@
}

/// The status a normalized outcome carries is the outcome's own status, or
/// one of the statuses a decision may name, or none. Without a status of its
/// own: a decision naming one of those statuses gives it; a `dispatch`
/// decision gives continue; and a dispatch (or a workflow shorthand) under
/// any other decision, or none, gives continue too.
pub proof fn law_normalized_status_is_a_claim_status(
    rs: Seq<(Seq<char>, JsonV)>,
    m: Seq<(Seq<char>, JsonV)>,
    issue_ref: Seq<char>,
)
    requires
        outcome_shaped(rs, m, issue_ref),
    ensures
        entry_get(rs, "status"@) is None || entry_get(rs, "status"@) == entry_get(m, "status"@) || (entry_get(
            rs,
            "status"@,
        ) matches Some(JsonV::Str(t)) && named_outcome_status(t)),
        entry_get(m, "status"@) is Some ==> entry_get(rs, "status"@) == entry_get(m, "status"@),
        entry_get(m, "status"@) is None && entry_get(m, "decision"@) == Some(JsonV::Str("dispatch"@)) ==> entry_get(
            rs,
            "status"@,
        ) == Some(JsonV::Str("continue"@)),
        forall|d: Seq<char>|
            entry_get(m, "status"@) is None && entry_get(m, "decision"@) == Some(JsonV::Str(d)) && #[trigger] named_outcome_status(
                d,
            ) ==> entry_get(rs, "status"@) == Some(JsonV::Str(d)),
        entry_get(m, "status"@) is None && !(entry_get(m, "decision"@) matches Some(JsonV::Str(d)) && named_outcome_status(d))
            && (entry_get(m, "dispatch"@) is Some || entry_get(m, "workflow"@) matches Some(JsonV::Str(_)) || entry_get(
            m,
            "workflow"@,
        ) matches Some(JsonV::Object(_))) ==> entry_get(rs, "status"@) == Some(JsonV::Str("continue"@)),
        entry_get(m, "status"@) is None && !(entry_get(m, "decision"@) matches Some(JsonV::Str(d)) && (named_outcome_status(d)
            || d == "dispatch"@)) && entry_get(m, "dispatch"@) is None && !(entry_get(m, "workflow"@) matches Some(
            JsonV::Str(_),
        )) && !(entry_get(m, "workflow"@) matches Some(JsonV::Object(_))) ==> entry_get(rs, "status"@) is None,
{
    assert forall|d: Seq<char>| #[trigger] named_outcome_status(d) implies d != "dispatch"@ by {
        reveal_strlit("dispatch");
        reveal_strlit("continue");
        reveal_strlit("await_human");
        reveal_strlit("await_external");
        reveal_strlit("retry");
        reveal_strlit("blocked");
        reveal_strlit("complete");
        if d == "dispatch"@ {
            assert(d[0] == 'd');
        }
    }
}

/// What normalizing keeps of an outcome besides its status: its summary, or
/// its reason where it has none; its retry time, PR, reason and artifacts as
/// they were; no decision or workflow shorthand; and as dispatch its own
/// `dispatch`, else a workflow named by a string, sent to the issue with no
/// inputs, else nothing. An object dispatch without a target goes to the
/// issue, and one without inputs gets none.
pub proof fn law_normalized_outcome_fields(
    rs: Seq<(Seq<char>, JsonV)>,
    m: Seq<(Seq<char>, JsonV)>,
    issue_ref: Seq<char>,
)
    requires
        outcome_shaped(rs, m, issue_ref),
    ensures
        entry_get(m, "summary"@) is Some ==> entry_get(rs, "summary"@) == entry_get(m, "summary"@),
        entry_get(m, "summary"@) is None ==> entry_get(rs, "summary"@) == entry_get(m, "reason"@),
        entry_get(rs, "retry_after"@) == entry_get(m, "retry_after"@),
        entry_get(rs, "pr_url"@) == entry_get(m, "pr_url"@),
        entry_get(rs, "reason"@) == entry_get(m, "reason"@),
        entry_get(rs, "artifacts"@) == entry_get(m, "artifacts"@),
        entry_get(rs, "decision"@) is None,
        entry_get(rs, "workflow"@) is None,
        entry_get(m, "dispatch"@) is None ==> (entry_get(m, "workflow"@) matches Some(JsonV::Str(w)) ==> (entry_get(
            rs,
            "dispatch"@,
        ) matches Some(JsonV::Object(os)) && entry_get(os, "workflow"@) == Some(JsonV::Str(w)) && entry_get(os, "target"@)
            == Some(JsonV::Str(issue_ref)) && entry_get(os, "inputs"@) == Some(JsonV::Object(Seq::empty())))),
        entry_get(m, "dispatch"@) is None && !(entry_get(m, "workflow"@) matches Some(JsonV::Str(_))) && !(entry_get(
            m,
            "workflow"@,
        ) matches Some(JsonV::Object(_))) ==> entry_get(rs, "dispatch"@) is None,
        entry_get(m, "dispatch"@) matches Some(JsonV::Object(es)) ==> (entry_get(rs, "dispatch"@) matches Some(
            JsonV::Object(os),
        ) && entry_get(os, "workflow"@) == entry_get(es, "workflow"@) && (entry_get(es, "target"@) is None ==> entry_get(
            os,
            "target"@,
        ) == Some(JsonV::Str(issue_ref))) && (entry_get(es, "target"@) is Some ==> entry_get(os, "target"@) == entry_get(
            es,
            "target"@,
        )) && (entry_get(es, "inputs"@) is None ==> entry_get(os, "inputs"@) == Some(JsonV::Object(Seq::empty())))
            && (entry_get(es, "inputs"@) is Some ==> entry_get(os, "inputs"@) == entry_get(es, "inputs"@)) && entry_get(
            os,
            "summary"@,
        ) == entry_get(es, "summary"@)),
{
    lemma_shorthands_not_kept();
    let keep = |k: Seq<char>| is_outcome_key(k);
    lemma_keys_within_none(rs, keep, "workflow"@);
    lemma_keys_within_none(rs, keep, "decision"@);
}

} // verus!
