use vstd::prelude::*;
use crate::package::{BackendFailure, ErrorKind, Tagged, key_of};

verus! {

/// What one backend answered to one read operation.
pub struct BackendOutcome<T> {
    pub backend: String,
    pub result: Result<Vec<T>, ErrorKind>,
}

/// Merged results of a fan-out read, with the failures of the backends that
/// did not answer.
pub struct Merged<T> {
    pub items: Vec<T>,
    pub failures: Vec<BackendFailure>,
}

/// Successful results concatenated in outcome order.
pub open spec fn successes<T>(outs: Seq<BackendOutcome<T>>) -> Seq<T>
    decreases outs.len(),
{
    if outs.len() == 0 {
        seq![]
    } else {
        let rest = successes(outs.drop_last());
        match outs.last().result {
            Ok(v) => rest + v@,
            Err(_) => rest,
        }
    }
}

/// The (backend, kind) pairs of the failed outcomes, in outcome order.
pub open spec fn failures_of<T>(outs: Seq<BackendOutcome<T>>) -> Seq<(Seq<char>, ErrorKind)>
    decreases outs.len(),
{
    if outs.len() == 0 {
        seq![]
    } else {
        let rest = failures_of(outs.drop_last());
        match outs.last().result {
            Ok(_) => rest,
            Err(e) => rest.push((outs.last().backend@, e)),
        }
    }
}

/// Keeps the first item of each (name, backend) pair, in order.
pub open spec fn dedup<T: Tagged>(s: Seq<T>) -> Seq<T>
    decreases s.len(),
{
    if s.len() == 0 {
        seq![]
    } else {
        let rest = dedup(s.drop_last());
        if exists|j: int| 0 <= j < s.len() - 1 && key_of(s[j]) == key_of(s.last()) {
            rest
        } else {
            rest.push(s.last())
        }
    }
}

pub open spec fn failure_view(f: BackendFailure) -> (Seq<char>, ErrorKind) {
    (f.backend@, f.kind)
}

/// The merge of a fan-out read.
pub open spec fn merged_items<T: Tagged>(outs: Seq<BackendOutcome<T>>) -> Seq<T> {
    dedup(successes(outs))
}

pub open spec fn no_duplicate_keys<T: Tagged>(s: Seq<T>) -> bool {
    forall|i: int, j: int| 0 <= i < j < s.len() ==> key_of(s[i]) != key_of(s[j])
}

/// Every item of a successful outcome is tagged with that outcome's backend.
pub open spec fn outcomes_tagged<T: Tagged>(outs: Seq<BackendOutcome<T>>) -> bool {
    forall|i: int, k: int|
        0 <= i < outs.len() && outs[i].result is Ok && 0 <= k < outs[i].result->Ok_0@.len()
            ==> outs[i].result->Ok_0@[k].backend_of() == outs[i].backend@
}

pub proof fn lemma_dedup_push<T: Tagged>(s: Seq<T>, x: T)
    ensures
        dedup(s.push(x)) == if exists|j: int| 0 <= j < s.len() && key_of(s[j]) == key_of(x) {
            dedup(s)
        } else {
            dedup(s).push(x)
        },
{
    assert(s.push(x).drop_last() =~= s);
    assert forall|j: int| 0 <= j < s.len() implies s.push(x)[j] == s[j] by {}
}

/// An item of the deduplicated sequence is an item of the input, and a key
/// occurs in the output exactly when it occurs in the input.
pub proof fn lemma_dedup_keys<T: Tagged>(s: Seq<T>)
    ensures
        forall|k: int| 0 <= k < dedup(s).len() ==> s.contains(#[trigger] dedup(s)[k]),
        forall|j: int| #![trigger s[j]] 0 <= j < s.len() ==> exists|k: int|
            0 <= k < dedup(s).len() && key_of(#[trigger] dedup(s)[k]) == key_of(s[j]),
        no_duplicate_keys(dedup(s)),
    decreases s.len(),
{
    if s.len() > 0 {
        let p = s.drop_last();
        lemma_dedup_keys(p);
        lemma_dedup_push(p, s.last());
        assert(s =~= p.push(s.last()));
        let d = dedup(s);
        let dp = dedup(p);
        assert forall|k: int| 0 <= k < d.len() implies s.contains(#[trigger] d[k]) by {
            if k < dp.len() {
                assert(d[k] == dp[k]);
                let m = choose|m: int| 0 <= m < p.len() && p[m] == dp[k];
                assert(s[m] == d[k]);
            } else {
                assert(s[s.len() - 1] == d[k]);
            }
        }
        assert forall|j: int| #![trigger s[j]] 0 <= j < s.len() implies exists|k: int|
            0 <= k < d.len() && key_of(#[trigger] d[k]) == key_of(s[j]) by {
            if j < p.len() {
                assert(s[j] == p[j]);
                let k = choose|k: int| 0 <= k < dp.len() && key_of(#[trigger] dp[k]) == key_of(p[j]);
                assert(d[k] == dp[k]);
            } else if exists|i: int| 0 <= i < p.len() && key_of(p[i]) == key_of(s.last()) {
                let i = choose|i: int| 0 <= i < p.len() && key_of(p[i]) == key_of(s.last());
                let k = choose|k: int| 0 <= k < dp.len() && key_of(#[trigger] dp[k]) == key_of(p[i]);
                assert(d[k] == dp[k]);
            } else {
                assert(d[dp.len() as int] == s.last());
            }
        }
        if !(exists|i: int| 0 <= i < p.len() && key_of(p[i]) == key_of(s.last())) {
            assert forall|k: int| 0 <= k < dp.len() implies key_of(#[trigger] dp[k]) != key_of(s.last()) by {
                let m = choose|m: int| 0 <= m < p.len() && p[m] == dp[k];
            }
        }
    }
}

pub proof fn lemma_successes_push<T>(outs: Seq<BackendOutcome<T>>, o: BackendOutcome<T>)
    ensures
        successes(outs.push(o)) == match o.result {
            Ok(v) => successes(outs) + v@,
            Err(_) => successes(outs),
        },
        failures_of(outs.push(o)) == match o.result {
            Ok(_) => failures_of(outs),
            Err(e) => failures_of(outs).push((o.backend@, e)),
        },
{
    assert(outs.push(o).drop_last() =~= outs);
}

fn contains_key<T: Tagged>(items: &Vec<T>, x: &T) -> (found: bool)
    ensures
        found == exists|m: int| 0 <= m < items@.len() && key_of(items@[m]) == key_of(*x),
{
    let mut found = false;
    let mut k: usize = 0;
    while k < items.len()
        invariant
            k <= items@.len(),
            found == exists|m: int| 0 <= m < k && key_of(items@[m]) == key_of(*x),
        decreases items@.len() - k,
    {
        if items[k].same_key(x) {
            found = true;
        }
        k += 1;
    }
    found
}

fn push_if_new<T: Tagged>(items: &mut Vec<T>, x: &T, Ghost(s): Ghost<Seq<T>>)
    requires
        old(items)@ == dedup(s),
    ensures
        final(items)@ == dedup(s.push(*x)),
{
    proof {
        lemma_dedup_keys(s);
        lemma_dedup_push(s, *x);
    }
    let found = contains_key(items, x);
    proof {
        if found {
            let m = choose|m: int| 0 <= m < items@.len() && key_of(items@[m]) == key_of(*x);
            assert(s.contains(items@[m]));
        } else if exists|m: int| 0 <= m < s.len() && key_of(s[m]) == key_of(*x) {
            let m = choose|m: int| 0 <= m < s.len() && key_of(s[m]) == key_of(*x);
            let q = choose|q: int| 0 <= q < items@.len() && key_of(#[trigger] items@[q]) == key_of(s[m]);
            assert(false);
        }
    }
    if !found {
        items.push(x.duplicate());
    }
}

fn extend_dedup<T: Tagged>(items: &mut Vec<T>, v: &Vec<T>, Ghost(s): Ghost<Seq<T>>)
    requires
        old(items)@ == dedup(s),
    ensures
        final(items)@ == dedup(s + v@),
{
    let mut j: usize = 0;
    while j < v.len()
        invariant
            j <= v@.len(),
            items@ == dedup(s + v@.take(j as int)),
        decreases v@.len() - j,
    {
        proof {
            assert(s + v@.take(j as int + 1) =~= (s + v@.take(j as int)).push(v@[j as int]));
        }
        push_if_new(items, &v[j], Ghost(s + v@.take(j as int)));
        j += 1;
    }
    assert(v@.take(v@.len() as int) =~= v@);
}

/// Merges the outcomes of a fan-out read: successful results are concatenated
/// in outcome order and deduplicated by (name, backend), keeping the first
/// occurrence; every failed outcome is reported, in order.
pub fn merge_outcomes<T: Tagged>(outs: &Vec<BackendOutcome<T>>) -> (r: Merged<T>)
    ensures
        r.items@ == merged_items(outs@),
        r.failures@.map_values(|f: BackendFailure| failure_view(f)) == failures_of(outs@),
{
    let mut items: Vec<T> = Vec::new();
    let mut failures: Vec<BackendFailure> = Vec::new();
    let mut i: usize = 0;
    while i < outs.len()
        invariant
            i <= outs@.len(),
            items@ == dedup(successes(outs@.take(i as int))),
            failures@.map_values(|f: BackendFailure| failure_view(f)) == failures_of(outs@.take(i as int)),
        decreases outs@.len() - i,
    {
        proof {
            assert(outs@.take(i as int + 1) =~= outs@.take(i as int).push(outs@[i as int]));
            lemma_successes_push(outs@.take(i as int), outs@[i as int]);
        }
        match &outs[i].result {
            Ok(v) => {
                extend_dedup(&mut items, v, Ghost(successes(outs@.take(i as int))));
            },
            Err(e) => {
                failures.push(BackendFailure { backend: outs[i].backend.clone(), kind: *e });
                proof {
                    assert(failures@.map_values(|f: BackendFailure| failure_view(f))
                        =~= failures_of(outs@.take(i as int)).push((outs@[i as int].backend@, *e)));
                }
            },
        }
        i += 1;
    }
    assert(outs@.take(outs@.len() as int) =~= outs@);
    Merged { items, failures }
}

/// `x` is one of the items of a successful outcome.
pub open spec fn from_some_outcome<T>(outs: Seq<BackendOutcome<T>>, x: T) -> bool {
    exists|i: int, m: int|
        0 <= i < outs.len() && outs[i].result is Ok && 0 <= m < outs[i].result->Ok_0@.len()
            && x == #[trigger] outs[i].result->Ok_0@[m]
}

/// Every item of the concatenated successes comes from a successful outcome.
pub proof fn lemma_successes_from_outcomes<T>(outs: Seq<BackendOutcome<T>>)
    ensures
        forall|k: int| 0 <= k < successes(outs).len() ==> from_some_outcome(outs, #[trigger] successes(outs)[k]),
    decreases outs.len(),
{
    if outs.len() > 0 {
        let p = outs.drop_last();
        lemma_successes_from_outcomes(p);
        let s = successes(outs);
        let sp = successes(p);
        assert forall|k: int| 0 <= k < s.len() implies from_some_outcome(outs, #[trigger] s[k]) by {
            if k < sp.len() {
                assert(s[k] == sp[k]);
                assert(from_some_outcome(p, sp[k]));
                let (i, m) = choose|i: int, m: int|
                    0 <= i < p.len() && p[i].result is Ok && 0 <= m < p[i].result->Ok_0@.len()
                        && sp[k] == #[trigger] p[i].result->Ok_0@[m];
                assert(outs[i] == p[i]);
            } else {
                let last = outs.len() - 1;
                assert(outs[last].result is Ok);
                let m = k - sp.len();
                assert(0 <= m < outs[last].result->Ok_0@.len());
                assert(s[k] == outs[last].result->Ok_0@[m]);
            }
        }
    }
}

/// Every merged item carries the tag of one of the backends that answered,
/// provided each backend tags its own results.
pub proof fn lemma_merged_tags_are_backends<T: Tagged>(outs: Seq<BackendOutcome<T>>)
    requires
        outcomes_tagged(outs),
    ensures
        forall|k: int| 0 <= k < merged_items(outs).len() ==> exists|i: int|
            0 <= i < outs.len() && outs[i].result is Ok
                && (#[trigger] merged_items(outs)[k]).backend_of() == outs[i].backend@,
{
    let s = successes(outs);
    lemma_dedup_keys(s);
    lemma_successes_from_outcomes(outs);
    assert forall|k: int| 0 <= k < merged_items(outs).len() implies exists|i: int|
        0 <= i < outs.len() && outs[i].result is Ok
            && (#[trigger] merged_items(outs)[k]).backend_of() == outs[i].backend@ by {
        let x = merged_items(outs)[k];
        assert(s.contains(x));
        let q = choose|q: int| 0 <= q < s.len() && s[q] == x;
        assert(from_some_outcome(outs, s[q]));
        let (i, m) = choose|i: int, m: int|
            0 <= i < outs.len() && outs[i].result is Ok && 0 <= m < outs[i].result->Ok_0@.len()
                && s[q] == #[trigger] outs[i].result->Ok_0@[m];
    }
}

/// Merged results hold at most one item per (name, backend) pair, whatever
/// the outcomes held.
pub proof fn lemma_merged_no_duplicates<T: Tagged>(outs: Seq<BackendOutcome<T>>)
    ensures
        no_duplicate_keys(merged_items(outs)),
{
    lemma_dedup_keys(successes(outs));
}

/// A failed outcome adds nothing to the successes and exactly one failure.
pub proof fn lemma_drop_failed<T>(outs: Seq<BackendOutcome<T>>, f: int)
    requires
        0 <= f < outs.len(),
        outs[f].result is Err,
    ensures
        successes(outs) == successes(outs.remove(f)),
        failures_of(outs).len() == failures_of(outs.remove(f)).len() + 1,
    decreases outs.len(),
{
    let p = outs.drop_last();
    if f == outs.len() - 1 {
        assert(outs.remove(f) =~= p);
    } else {
        lemma_drop_failed(p, f);
        assert(outs.remove(f) =~= p.remove(f).push(outs.last()));
        lemma_successes_push(p.remove(f), outs.last());
    }
}

pub proof fn lemma_no_failures<T>(outs: Seq<BackendOutcome<T>>)
    requires
        forall|i: int| 0 <= i < outs.len() ==> outs[i].result is Ok,
    ensures
        failures_of(outs).len() == 0,
    decreases outs.len(),
{
    if outs.len() > 0 {
        lemma_no_failures(outs.drop_last());
    }
}

/// When one backend fails and the others answer, the merge is exactly the
/// merge of the others' results, and exactly one failure is reported: that
/// backend's.
pub proof fn lemma_one_backend_failing<T: Tagged>(outs: Seq<BackendOutcome<T>>, f: int)
    requires
        0 <= f < outs.len(),
        outs[f].result is Err,
        forall|i: int| 0 <= i < outs.len() && i != f ==> outs[i].result is Ok,
    ensures
        merged_items(outs) == merged_items(outs.remove(f)),
        failures_of(outs).len() == 1,
        failures_of(outs)[0] == (outs[f].backend@, outs[f].result->Err_0),
    decreases outs.len(),
{
    lemma_drop_failed(outs, f);
    assert forall|i: int| 0 <= i < outs.remove(f).len() implies outs.remove(f)[i].result is Ok by {
        if i < f {
            assert(outs.remove(f)[i] == outs[i]);
        } else {
            assert(outs.remove(f)[i] == outs[i + 1]);
        }
    }
    lemma_no_failures(outs.remove(f));
    if f == outs.len() - 1 {
        assert(outs.remove(f) =~= outs.drop_last());
    } else {
        let p = outs.drop_last();
        lemma_one_backend_failing(p, f);
    }
}

} // verus!
