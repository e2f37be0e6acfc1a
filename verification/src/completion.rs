//! Shell completion candidates: names found on disk, filtered by what the
//! user typed, sorted and without repeats.

use vstd::prelude::*;
use vstd::string::*;
use crate::autoflow::wake_hints::{insert_sorted, sorted_set, text_set};
use crate::text::{has_prefix, str_eq, str_starts_with};

verus! {

/// The names starting with `prefix`.
pub open spec fn prefixed(names: Seq<String>, prefix: Seq<char>) -> Set<Seq<char>> {
    Set::new(|t: Seq<char>| text_set(names).contains(t) && has_prefix(t, prefix))
}

/// The completion candidates among `names` for what the user typed: those
/// starting with it, each once, in ascending order.
pub fn completion_candidates(names: &Vec<String>, prefix: &str) -> (r: Vec<String>)
    ensures
        sorted_set(r@),
        text_set(r@) == prefixed(names@, prefix@),
{
    let mut out: Vec<String> = Vec::new();
    let mut i: usize = 0;
    proof {
        assert(text_set(out@) =~= Set::<Seq<char>>::empty());
    }
    while i < names.len()
        invariant
            i <= names@.len(),
            sorted_set(out@),
            text_set(out@) == prefixed(names@.subrange(0, i as int), prefix@),
        decreases names@.len() - i,
    {
        let ghost prev = text_set(out@);
        if str_starts_with(names[i].as_str(), prefix) {
            insert_sorted(&mut out, names[i].as_str());
        }
        proof {
            let before = names@.subrange(0, i as int);
            let after = names@.subrange(0, i + 1);
            assert(text_set(out@) =~= prefixed(after, prefix@)) by {
                assert forall|t: Seq<char>| prefixed(after, prefix@).contains(t) implies text_set(out@).contains(t) by {
                    let k = choose|k: int| 0 <= k < after.len() && (#[trigger] after[k])@ == t;
                    if k < i {
                        assert(before[k] == after[k]);
                        assert(prefixed(before, prefix@).contains(t));
                    }
                }
                assert forall|t: Seq<char>| text_set(out@).contains(t) implies prefixed(after, prefix@).contains(t) by {
                    if prev.contains(t) {
                        let k = choose|k: int| 0 <= k < before.len() && (#[trigger] before[k])@ == t;
                        assert(after[k] == before[k]);
                    } else {
                        assert(after[i as int]@ == t);
                    }
                }
            }
        }
        i = i + 1;
    }
    proof {
        assert(names@.subrange(0, names@.len() as int) =~= names@);
    }
    out
}

/// The texts of `v`, in order.
pub open spec fn texts(v: Seq<String>) -> Seq<Seq<char>> {
    v.map_values(|s: String| s@)
}

/// Workflow name candidates: the `.yaml` names, then the `.yml` names that
/// are not also `.yaml` names, each list as `completion_candidates` gives it.
pub fn workflow_name_candidates(yaml_names: &Vec<String>, yml_names: &Vec<String>, prefix: &str) -> (r: Vec<String>)
    ensures
        exists|a: Seq<String>, b: Seq<String>|
            {
                &&& sorted_set(a) && text_set(a) == prefixed(yaml_names@, prefix@)
                &&& sorted_set(b) && text_set(b) == prefixed(yml_names@, prefix@)
                &&& texts(r@) == texts(a) + texts(b).filter(|t: Seq<char>| !text_set(a).contains(t))
            },
{
    let a = completion_candidates(yaml_names, prefix);
    let b = completion_candidates(yml_names, prefix);
    let ghost pred = |t: Seq<char>| !text_set(a@).contains(t);
    let mut out: Vec<String> = Vec::new();
    let mut i: usize = 0;
    while i < a.len()
        invariant
            i <= a@.len(),
            texts(out@) == texts(a@).subrange(0, i as int),
        decreases a@.len() - i,
    {
        let ghost before = out@;
        out.push(a[i].clone());
        proof {
            assert(texts(out@) =~= texts(before).push(a@[i as int]@));
            assert(texts(a@).subrange(0, i + 1) =~= texts(a@).subrange(0, i as int).push(a@[i as int]@));
        }
        i = i + 1;
    }
    proof {
        assert(texts(a@).subrange(0, a@.len() as int) =~= texts(a@));
        reveal(Seq::filter);
        assert(texts(b@).subrange(0, 0).filter(pred) =~= Seq::<Seq<char>>::empty());
        assert(texts(out@) =~= texts(a@) + texts(b@).subrange(0, 0).filter(pred));
    }
    let mut j: usize = 0;
    while j < b.len()
        invariant
            j <= b@.len(),
            pred == (|t: Seq<char>| !text_set(a@).contains(t)),
            texts(out@) == texts(a@) + texts(b@).subrange(0, j as int).filter(pred),
        decreases b@.len() - j,
    {
        let ghost before = out@;
        let mut seen = false;
        let mut k: usize = 0;
        while k < a.len() && !seen
            invariant
                k <= a@.len(),
                j < b@.len(),
                seen ==> text_set(a@).contains(b@[j as int]@),
                !seen ==> forall|m: int| 0 <= m < k ==> a@[m]@ != b@[j as int]@,
            decreases a@.len() - k,
        {
            if str_eq(a[k].as_str(), b[j].as_str()) {
                seen = true;
                proof {
                    assert(a@[k as int]@ == b@[j as int]@);
                }
            }
            k = k + 1;
        }
        proof {
            let tb = texts(b@);
            assert(tb.subrange(0, j + 1) =~= tb.subrange(0, j as int).push(tb[j as int]));
            tb.subrange(0, j as int).lemma_filter_push(tb[j as int], pred);
            assert(tb[j as int] == b@[j as int]@);
        }
        if !seen {
            out.push(b[j].clone());
            proof {
                assert(texts(out@) =~= texts(before).push(b@[j as int]@));
            }
        }
        j = j + 1;
    }
    proof {
        assert(texts(b@).subrange(0, b@.len() as int) =~= texts(b@));
    }
    out
}

} // verus!
