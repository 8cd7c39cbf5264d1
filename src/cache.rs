use vstd::prelude::*;
use crate::package::{PackageInfo, PackageUpdate, copy_items};

verus! {

/// How long a cached read stays usable, in milliseconds.
pub const CACHE_TTL_MS: u64 = 30000;

/// A cached search: the query, when the read that produced it was issued, and
/// its results.
pub struct SearchEntry {
    pub query: String,
    pub captured_at: u64,
    pub items: Vec<PackageInfo>,
}

/// The cached list of pending updates.
pub struct UpdatesEntry {
    pub captured_at: u64,
    pub items: Vec<PackageUpdate>,
}

/// One backend's memo of recent reads. `floor` is the time of the latest
/// invalidation: nothing read before it is ever stored or served again.
pub struct ResultCache {
    pub searches: Vec<SearchEntry>,
    pub updates: Option<UpdatesEntry>,
    pub floor: u64,
}

/// A read issued at `captured_at` is still usable at `now`.
pub open spec fn is_fresh(captured_at: u64, now: u64) -> bool {
    captured_at <= now && now - captured_at < CACHE_TTL_MS
}

/// The cached search for query `q`, as (time issued, results).
pub open spec fn entry_of(es: Seq<SearchEntry>, q: Seq<char>) -> Option<(u64, Seq<PackageInfo>)> {
    if exists|i: int| 0 <= i < es.len() && es[i].query@ == q {
        let i = choose|i: int| 0 <= i < es.len() && es[i].query@ == q;
        Some((es[i].captured_at, es[i].items@))
    } else {
        None
    }
}

pub open spec fn updates_of(u: Option<UpdatesEntry>) -> Option<(u64, Seq<PackageUpdate>)> {
    match u {
        Some(e) => Some((e.captured_at, e.items@)),
        None => None,
    }
}

/// What a read served from the cache at `now` returns for a cached entry.
pub open spec fn served<T>(e: Option<(u64, Seq<T>)>, now: u64) -> Option<Seq<T>> {
    match e {
        Some((t, v)) => if is_fresh(t, now) {
            Some(v)
        } else {
            None
        },
        None => None,
    }
}

impl ResultCache {
    pub open spec fn search_entry(&self, q: Seq<char>) -> Option<(u64, Seq<PackageInfo>)> {
        entry_of(self.searches@, q)
    }

    pub open spec fn updates_entry(&self) -> Option<(u64, Seq<PackageUpdate>)> {
        updates_of(self.updates)
    }

    /// One entry per query, and nothing captured before the latest
    /// invalidation.
    pub open spec fn wf(&self) -> bool {
        &&& forall|i: int, j: int|
            0 <= i < j < self.searches@.len() ==> self.searches@[i].query@ != self.searches@[j].query@
        &&& forall|i: int| 0 <= i < self.searches@.len() ==> self.searches@[i].captured_at >= self.floor
        &&& match self.updates {
            Some(e) => e.captured_at >= self.floor,
            None => true,
        }
    }

    pub fn new() -> (r: ResultCache)
        ensures
            r.wf(),
            r.floor == 0,
            r.searches@.len() == 0,
            r.updates is None,
    {
        ResultCache { searches: Vec::new(), updates: None, floor: 0 }
    }

    fn find(&self, query: &str) -> (r: Option<usize>)
        requires
            self.wf(),
        ensures
            match r {
                Some(i) => i < self.searches@.len() && self.searches@[i as int].query@ == query@,
                None => forall|i: int| 0 <= i < self.searches@.len() ==> self.searches@[i].query@ != query@,
            },
    {
        let wanted: String = query.to_owned();
        let mut i: usize = 0;
        while i < self.searches.len()
            invariant
                i <= self.searches@.len(),
                wanted@ == query@,
                forall|k: int| 0 <= k < i ==> self.searches@[k].query@ != query@,
            decreases self.searches@.len() - i,
        {
            if self.searches[i].query == wanted {
                return Some(i);
            }
            i += 1;
        }
        None
    }

    /// The cached results of `query`, if a read of it issued no more than
    /// the time to live before `now` is held.
    pub fn lookup_search(&self, query: &str, now: u64) -> (r: Option<Vec<PackageInfo>>)
        requires
            self.wf(),
        ensures
            r matches Some(v) ==> served(self.search_entry(query@), now) == Some(v@),
            r is None ==> served(self.search_entry(query@), now) is None,
    {
        match self.find(query) {
            Some(i) => {
                let e = &self.searches[i];
                if e.captured_at <= now && now - e.captured_at < CACHE_TTL_MS {
                    Some(copy_items(&e.items))
                } else {
                    None
                }
            },
            None => None,
        }
    }

    /// The cached pending updates, if they were read no more than the time
    /// to live before `now`.
    pub fn lookup_updates(&self, now: u64) -> (r: Option<Vec<PackageUpdate>>)
        ensures
            r matches Some(v) ==> served(self.updates_entry(), now) == Some(v@),
            r is None ==> served(self.updates_entry(), now) is None,
    {
        match &self.updates {
            Some(e) => if e.captured_at <= now && now - e.captured_at < CACHE_TTL_MS {
                Some(copy_items(&e.items))
            } else {
                None
            },
            None => None,
        }
    }

    /// Records the results of a search issued at `issued_at`. A read issued
    /// before the latest invalidation is dropped, since the host may have
    /// changed under it.
    pub fn store_search(&mut self, query: String, issued_at: u64, items: Vec<PackageInfo>)
        requires
            old(self).wf(),
        ensures
            final(self).wf(),
            final(self).floor == old(self).floor,
            issued_at < old(self).floor ==> final(self).searches@ == old(self).searches@,
            issued_at >= old(self).floor ==> final(self).search_entry(query@) == Some((issued_at, items@)),
            forall|q: Seq<char>| q != query@ ==> final(self).search_entry(q) == old(self).search_entry(q),
            final(self).updates == old(self).updates,
    {
        if issued_at < self.floor {
            return;
        }
        let ghost q0 = query@;
        let ghost items0 = items@;
        let ghost old_es = self.searches@;
        let entry = SearchEntry { query, captured_at: issued_at, items };
        match self.find(entry.query.as_str()) {
            Some(i) => {
                self.searches.set(i, entry);
                proof {
                    let es = self.searches@;
                    assert(es[i as int].query@ == q0);
                    assert forall|q: Seq<char>| q != q0 implies entry_of(es, q) == entry_of(old_es, q) by {
                        assert forall|k: int| 0 <= k < es.len() && es[k].query@ == q implies old_es[k] == es[k] by {}
                        assert forall|k: int| 0 <= k < es.len() && old_es[k].query@ == q implies old_es[k] == es[k] by {}
                    }
                }
            },
            None => {
                self.searches.push(entry);
                proof {
                    let es = self.searches@;
                    assert(es[old_es.len() as int].query@ == q0);
                    assert forall|q: Seq<char>| q != q0 implies entry_of(es, q) == entry_of(old_es, q) by {
                        assert forall|k: int| 0 <= k < old_es.len() implies old_es[k] == es[k] by {}
                    }
                }
            },
        }
    }

    /// Records the pending updates read at `issued_at`, unless the read was
    /// issued before the latest invalidation.
    pub fn store_updates(&mut self, issued_at: u64, items: Vec<PackageUpdate>)
        requires
            old(self).wf(),
        ensures
            final(self).wf(),
            final(self).floor == old(self).floor,
            final(self).searches@ == old(self).searches@,
            issued_at < old(self).floor ==> final(self).updates == old(self).updates,
            issued_at >= old(self).floor ==> final(self).updates_entry() == Some((issued_at, items@)),
    {
        if issued_at >= self.floor {
            self.updates = Some(UpdatesEntry { captured_at: issued_at, items });
        }
    }

    /// Drops every cached read; reads issued before `now` are refused from
    /// then on.
    pub fn invalidate(&mut self, now: u64)
        requires
            old(self).wf(),
        ensures
            final(self).wf(),
            final(self).floor == if now > old(self).floor { now } else { old(self).floor },
            forall|q: Seq<char>| final(self).search_entry(q) is None,
            final(self).updates_entry() is None,
            final(self).searches@.len() == 0,
            final(self).updates is None,
    {
        self.searches = Vec::new();
        self.updates = None;
        if now > self.floor {
            self.floor = now;
        }
    }
}

/// Read-after-write: once a cache has been invalidated at `t`, whatever it
/// serves afterwards was read at or after `t`.
pub proof fn lemma_no_stale_reads(c: ResultCache, t: u64, q: Seq<char>, now: u64)
    requires
        c.wf(),
        c.floor >= t,
    ensures
        c.search_entry(q) matches Some((at, _)) ==> at >= t,
        c.updates_entry() matches Some((at, _)) ==> at >= t,
        served(c.search_entry(q), now) is Some ==> c.search_entry(q)->Some_0.0 >= t,
{
    if exists|i: int| 0 <= i < c.searches@.len() && c.searches@[i].query@ == q {
        let i = choose|i: int| 0 <= i < c.searches@.len() && c.searches@[i].query@ == q;
        assert(c.searches@[i].captured_at >= c.floor);
    }
}

} // verus!
