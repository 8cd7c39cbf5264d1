use vstd::prelude::*;
use crate::apt::AptManager;
use crate::backend::{Invocation, PackageManager, RunStatus, argv_of, classify_mutation, mutation_result,
    parse_search_output, parse_updates_output,
    parsed_search, parsed_updates};
use crate::cache::{ResultCache, served, lemma_no_stale_reads};
use crate::merge::{BackendOutcome, Merged, merge_outcomes, merged_items, failures_of, failure_view,
    outcomes_tagged, no_duplicate_keys, lemma_merged_tags_are_backends, lemma_merged_no_duplicates};
use crate::package::{BackendFailure, ErrorKind, PackageInfo, PackageUpdate, Tagged, copy_items};
use crate::text::views;
use crate::pacman::PacmanManager;

verus! {

/// The closed set of backends this library knows how to drive.
#[derive(Clone, Copy)]
pub enum Backend {
    Apt(AptManager),
    Pacman(PacmanManager),
}

impl PackageManager for Backend {
    open spec fn spec_tag(&self) -> Seq<char> {
        match self {
            Backend::Apt(m) => m.spec_tag(),
            Backend::Pacman(m) => m.spec_tag(),
        }
    }

    open spec fn probe_argv(&self) -> Seq<Seq<char>> {
        match self {
            Backend::Apt(m) => m.probe_argv(),
            Backend::Pacman(m) => m.probe_argv(),
        }
    }

    open spec fn search_argv(&self, q: Seq<char>) -> Seq<Seq<char>> {
        match self {
            Backend::Apt(m) => m.search_argv(q),
            Backend::Pacman(m) => m.search_argv(q),
        }
    }

    open spec fn install_argv(&self, pkgs: Seq<Seq<char>>) -> Seq<Seq<char>> {
        match self {
            Backend::Apt(m) => m.install_argv(pkgs),
            Backend::Pacman(m) => m.install_argv(pkgs),
        }
    }

    open spec fn remove_argv(&self, pkgs: Seq<Seq<char>>) -> Seq<Seq<char>> {
        match self {
            Backend::Apt(m) => m.remove_argv(pkgs),
            Backend::Pacman(m) => m.remove_argv(pkgs),
        }
    }

    open spec fn upgrade_argv(&self) -> Seq<Seq<char>> {
        match self {
            Backend::Apt(m) => m.upgrade_argv(),
            Backend::Pacman(m) => m.upgrade_argv(),
        }
    }

    open spec fn updates_argv(&self) -> Seq<Seq<char>> {
        match self {
            Backend::Apt(m) => m.updates_argv(),
            Backend::Pacman(m) => m.updates_argv(),
        }
    }

    open spec fn search_line(&self, line: Seq<char>) -> Option<(Seq<char>, Seq<char>)> {
        match self {
            Backend::Apt(m) => m.search_line(line),
            Backend::Pacman(m) => m.search_line(line),
        }
    }

    open spec fn update_line(&self, line: Seq<char>) -> Option<(Seq<char>, Seq<char>, Seq<char>)> {
        match self {
            Backend::Apt(m) => m.update_line(line),
            Backend::Pacman(m) => m.update_line(line),
        }
    }

    fn tag(&self) -> (r: String) {
        match self {
            Backend::Apt(m) => m.tag(),
            Backend::Pacman(m) => m.tag(),
        }
    }

    fn initialize(&self) -> (r: Invocation) {
        match self {
            Backend::Apt(m) => m.initialize(),
            Backend::Pacman(m) => m.initialize(),
        }
    }

    fn search(&self, query: &str) -> (r: Invocation) {
        match self {
            Backend::Apt(m) => m.search(query),
            Backend::Pacman(m) => m.search(query),
        }
    }

    fn install(&self, packages: &Vec<String>) -> (r: Invocation) {
        match self {
            Backend::Apt(m) => m.install(packages),
            Backend::Pacman(m) => m.install(packages),
        }
    }

    fn remove(&self, packages: &Vec<String>) -> (r: Invocation) {
        match self {
            Backend::Apt(m) => m.remove(packages),
            Backend::Pacman(m) => m.remove(packages),
        }
    }

    fn update_system(&self) -> (r: Invocation) {
        match self {
            Backend::Apt(m) => m.update_system(),
            Backend::Pacman(m) => m.update_system(),
        }
    }

    fn get_updates(&self) -> (r: Invocation) {
        match self {
            Backend::Apt(m) => m.get_updates(),
            Backend::Pacman(m) => m.get_updates(),
        }
    }

    fn parse_search_line(&self, line: &str) -> (r: Option<(String, String)>) {
        match self {
            Backend::Apt(m) => m.parse_search_line(line),
            Backend::Pacman(m) => m.parse_search_line(line),
        }
    }

    fn parse_update_line(&self, line: &str) -> (r: Option<(String, String, String)>) {
        match self {
            Backend::Apt(m) => m.parse_update_line(line),
            Backend::Pacman(m) => m.parse_update_line(line),
        }
    }
}

/// Every backend variant, in discovery order; their tags are distinct.
pub fn known_backends() -> (r: Vec<Backend>)
    ensures
        r@.len() == 2,
        r@[0] is Apt,
        r@[1] is Pacman,
        tags_distinct(tags_of(r@)),
{
    let r = vec![Backend::Apt(AptManager::new()), Backend::Pacman(PacmanManager::new())];
    proof {
        reveal_strlit("apt");
        reveal_strlit("pacman");
        assert(tags_of(r@)[0].len() != tags_of(r@)[1].len());
    }
    r
}

/// A registered backend and its private cache.
pub struct BackendHandle {
    pub backend: Backend,
    pub cache: ResultCache,
}

/// The backends usable on this host, in discovery order, and those that
/// were tried and found unusable, with the reason.
pub struct Registry {
    pub handles: Vec<BackendHandle>,
    pub unavailable: Vec<BackendFailure>,
}

/// Discovery found no usable backend; `tried` names every one tried, with
/// the reason it was found unusable.
pub struct DiscoveryError {
    pub kind: ErrorKind,
    pub tried: Vec<BackendFailure>,
}

/// A fan-out search: each backend's outcome, in registry order, and their
/// merge.
pub struct SearchReport {
    pub outcomes: Vec<BackendOutcome<PackageInfo>>,
    pub merged: Merged<PackageInfo>,
}

pub open spec fn tags_of(bs: Seq<Backend>) -> Seq<Seq<char>> {
    bs.map_values(|b: Backend| b.spec_tag())
}

pub open spec fn backends_of(hs: Seq<BackendHandle>) -> Seq<Backend> {
    hs.map_values(|h: BackendHandle| h.backend)
}

/// A probe found its tool usable.
pub open spec fn probe_ok(s: RunStatus) -> bool {
    s == RunStatus::Exited(true)
}

/// No tag occurs twice.
pub open spec fn tags_distinct(tags: Seq<Seq<char>>) -> bool {
    forall|i: int, j: int| 0 <= i < j < tags.len() ==> tags[i] != tags[j]
}

/// The candidates whose probe succeeded, in order.
pub open spec fn usable_of(cands: Seq<Backend>, probes: Seq<RunStatus>) -> Seq<Backend>
    decreases cands.len(),
{
    if cands.len() == 0 {
        seq![]
    } else {
        let rest = usable_of(cands.drop_last(), probes.take(cands.len() - 1));
        if probe_ok(probes[cands.len() - 1]) {
            rest.push(cands.last())
        } else {
            rest
        }
    }
}

/// The (tag, reason) of each candidate whose probe failed, in order: a tool
/// that cannot be used at initialization is unavailable, however its probe
/// ended.
pub open spec fn unusable_of(cands: Seq<Backend>, probes: Seq<RunStatus>) -> Seq<(Seq<char>, ErrorKind)>
    decreases cands.len(),
{
    if cands.len() == 0 {
        seq![]
    } else {
        let rest = unusable_of(cands.drop_last(), probes.take(cands.len() - 1));
        if probe_ok(probes[cands.len() - 1]) {
            rest
        } else {
            rest.push((cands.last().spec_tag(), ErrorKind::BackendUnavailable))
        }
    }
}

pub open spec fn failures_view(fs: Seq<BackendFailure>) -> Seq<(Seq<char>, ErrorKind)> {
    fs.map_values(|f: BackendFailure| failure_view(f))
}

/// Everything a cache holds is tagged `tag`.
pub open spec fn cache_tagged(c: ResultCache, tag: Seq<char>) -> bool {
    &&& forall|j: int, k: int|
        0 <= j < c.searches@.len() && 0 <= k < c.searches@[j].items@.len()
            ==> (#[trigger] c.searches@[j].items@[k]).backend@ == tag
    &&& match c.updates {
        Some(e) => forall|k: int| 0 <= k < e.items@.len() ==> (#[trigger] e.items@[k]).backend@ == tag,
        None => true,
    }
}

pub open spec fn handle_wf(h: BackendHandle) -> bool {
    h.cache.wf() && cache_tagged(h.cache, h.backend.spec_tag())
}

/// What a fan-out read's outcome is for one backend, given what the caller
/// brought back from the host for it (`None`: nothing was run).
pub open spec fn search_outcome_ok(
    b: Backend,
    cached: Option<Seq<PackageInfo>>,
    raw: Option<Result<String, ErrorKind>>,
    o: BackendOutcome<PackageInfo>,
) -> bool {
    &&& o.backend@ == b.spec_tag()
    &&& match raw {
        None => match cached {
            Some(v) => o.result matches Ok(w) && w@ == v,
            None => o.result == Err::<Vec<PackageInfo>, ErrorKind>(ErrorKind::BackendInvocationFailed),
        },
        Some(Ok(out)) => o.result matches Ok(w) && parsed_search(b, out@, w@),
        Some(Err(k)) => o.result == Err::<Vec<PackageInfo>, ErrorKind>(k),
    }
}

/// A fan-out read of pending updates: each backend's outcome, in registry
/// order, and their merge.
pub struct UpdatesReport {
    pub outcomes: Vec<BackendOutcome<PackageUpdate>>,
    pub merged: Merged<PackageUpdate>,
}

/// The pending-updates counterpart of `search_outcome_ok`.
pub open spec fn updates_outcome_ok(
    b: Backend,
    cached: Option<Seq<PackageUpdate>>,
    raw: Option<Result<String, ErrorKind>>,
    o: BackendOutcome<PackageUpdate>,
) -> bool {
    &&& o.backend@ == b.spec_tag()
    &&& match raw {
        None => match cached {
            Some(v) => o.result matches Ok(w) && w@ == v,
            None => o.result == Err::<Vec<PackageUpdate>, ErrorKind>(ErrorKind::BackendInvocationFailed),
        },
        Some(Ok(out)) => o.result matches Ok(w) && parsed_updates(b, out@, w@),
        Some(Err(k)) => o.result == Err::<Vec<PackageUpdate>, ErrorKind>(k),
    }
}

impl Registry {
    /// Each cache is sound, and no two backends share a tag.
    pub open spec fn wf(&self) -> bool {
        &&& forall|i: int| 0 <= i < self.handles@.len() ==> handle_wf(#[trigger] self.handles@[i])
        &&& tags_distinct(tags_of(backends_of(self.handles@)))
    }

    /// Registers, in order, every candidate whose probe (`initialize`, run
    /// by the caller) ended in success, and records the others with the
    /// reason. Fails only when no candidate is usable.
    pub fn discover_and_register(candidates: &Vec<Backend>, probes: &Vec<RunStatus>) -> (r: Result<Registry, DiscoveryError>)
        requires
            candidates@.len() == probes@.len(),
            tags_distinct(tags_of(candidates@)),
        ensures
            r is Ok <==> exists|i: int| 0 <= i < probes@.len() && probe_ok(probes@[i]),
            r matches Ok(reg) ==> {
                &&& reg.wf()
                &&& backends_of(reg.handles@) == usable_of(candidates@, probes@)
                &&& failures_view(reg.unavailable@) == unusable_of(candidates@, probes@)
                &&& forall|i: int| 0 <= i < reg.handles@.len() ==>
                    (#[trigger] reg.handles@[i]).cache.searches@.len() == 0
                        && reg.handles@[i].cache.updates is None
            },
            r matches Err(e) ==> e.kind == ErrorKind::NoBackendsAvailable
                && failures_view(e.tried@) == unusable_of(candidates@, probes@)
                && e.tried@.len() == candidates@.len(),
    {
        let mut handles: Vec<BackendHandle> = Vec::new();
        let mut unavailable: Vec<BackendFailure> = Vec::new();
        let mut i: usize = 0;
        while i < candidates.len()
            invariant
                i <= candidates@.len(),
                candidates@.len() == probes@.len(),
                tags_distinct(tags_of(candidates@)),
                backends_of(handles@) == usable_of(candidates@.take(i as int), probes@.take(i as int)),
                failures_view(unavailable@) == unusable_of(candidates@.take(i as int), probes@.take(i as int)),
                handles@.len() + unavailable@.len() == i,
                handles@.len() > 0 <==> exists|j: int| 0 <= j < i && probe_ok(probes@[j]),
                forall|j: int| 0 <= j < handles@.len() ==> handle_wf(#[trigger] handles@[j])
                    && handles@[j].cache.searches@.len() == 0 && handles@[j].cache.updates is None,
                forall|j: int| 0 <= j < handles@.len() ==> exists|m: int|
                    0 <= m < i && #[trigger] handles@[j].backend == candidates@[m],
                tags_distinct(tags_of(backends_of(handles@))),
            decreases candidates@.len() - i,
        {
            let b = candidates[i];
            proof {
                let c1 = candidates@.take(i as int + 1);
                let u1 = probes@.take(i as int + 1);
                assert(c1.drop_last() =~= candidates@.take(i as int));
                assert(u1.take(i as int) =~= probes@.take(i as int));
                assert(b == candidates@[i as int]);
            }
            let t = b.tag();
            let ghost unavailable0 = unavailable@;
            let ghost handles0 = handles@;
            if probes[i] == RunStatus::Exited(true) {
                let cache = ResultCache::new();
                handles.push(BackendHandle { backend: b, cache });
                proof {
                    assert(backends_of(handles@) =~= usable_of(candidates@.take(i as int + 1), probes@.take(i as int + 1)));
                    assert(tags_of(backends_of(handles@)) =~= tags_of(backends_of(handles0)).push(b.spec_tag()));
                    assert forall|j: int| 0 <= j < handles0.len() implies
                        tags_of(backends_of(handles0))[j] != b.spec_tag() by {
                        let m = choose|m: int| 0 <= m < i && #[trigger] handles0[j].backend == candidates@[m];
                        assert(tags_of(candidates@)[m] != tags_of(candidates@)[i as int]);
                    }
                    assert forall|j: int| 0 <= j < handles@.len() implies exists|m: int|
                        0 <= m < i + 1 && #[trigger] handles@[j].backend == candidates@[m] by {
                        if j < handles0.len() {
                            assert(handles@[j] == handles0[j]);
                        } else {
                            assert(handles@[j].backend == candidates@[i as int]);
                        }
                    }
                }
            } else {
                let kind = ErrorKind::BackendUnavailable;
                unavailable.push(BackendFailure { backend: t, kind });
                proof {
                    assert(failures_view(unavailable@) =~= failures_view(unavailable0).push((t@, kind)));
                    assert(failures_view(unavailable@) =~= unusable_of(candidates@.take(i as int + 1), probes@.take(i as int + 1)));
                    assert forall|j: int| 0 <= j < handles@.len() implies exists|m: int|
                        0 <= m < i + 1 && #[trigger] handles@[j].backend == candidates@[m] by {
                        let m = choose|m: int| 0 <= m < i && #[trigger] handles@[j].backend == candidates@[m];
                    }
                }
            }
            i += 1;
        }
        assert(candidates@.take(candidates@.len() as int) =~= candidates@);
        assert(probes@.take(probes@.len() as int) =~= probes@);
        if handles.len() == 0 {
            Err(DiscoveryError { kind: ErrorKind::NoBackendsAvailable, tried: unavailable })
        } else {
            Ok(Registry { handles, unavailable })
        }
    }

    /// The tags of the registered backends, in registration order.
    pub fn active_backends(&self) -> (r: Vec<String>)
        ensures
            views(r@) == tags_of(backends_of(self.handles@)),
    {
        let mut r: Vec<String> = Vec::new();
        let mut i: usize = 0;
        while i < self.handles.len()
            invariant
                i <= self.handles@.len(),
                views(r@) == tags_of(backends_of(self.handles@.take(i as int))),
            decreases self.handles@.len() - i,
        {
            let ghost r0 = r@;
            let t = self.handles[i].backend.tag();
            r.push(t);
            assert(views(r@) =~= views(r0).push(t@));
            assert(backends_of(self.handles@.take(i as int + 1)) =~= backends_of(self.handles@.take(i as int)).push(self.handles@[i as int].backend));
            assert(views(r@) =~= tags_of(backends_of(self.handles@.take(i as int + 1))));
            i += 1;
        }
        assert(self.handles@.take(self.handles@.len() as int) =~= self.handles@);
        r
    }

    /// For each backend, in order: nothing to run when its cache serves
    /// `query` at `now`, else the search command to run.
    pub fn search_plan(&self, query: &str, now: u64) -> (r: Vec<Option<Invocation>>)
        requires
            self.wf(),
        ensures
            r@.len() == self.handles@.len(),
            forall|i: int| 0 <= i < r@.len() ==> {
                &&& ((#[trigger] r@[i]) is None <==> served(self.handles@[i].cache.search_entry(query@), now) is Some)
                &&& r@[i] matches Some(inv) ==> argv_of(inv) == self.handles@[i].backend.search_argv(query@)
            },
    {
        let mut r: Vec<Option<Invocation>> = Vec::new();
        let mut i: usize = 0;
        while i < self.handles.len()
            invariant
                i <= self.handles@.len(),
                self.wf(),
                r@.len() == i,
                forall|j: int| 0 <= j < i ==> {
                    &&& ((#[trigger] r@[j]) is None <==> served(self.handles@[j].cache.search_entry(query@), now) is Some)
                    &&& r@[j] matches Some(inv) ==> argv_of(inv) == self.handles@[j].backend.search_argv(query@)
                },
            decreases self.handles@.len() - i,
        {
            let h = &self.handles[i];
            assert(handle_wf(self.handles@[i as int]));
            match h.cache.lookup_search(query, now) {
                Some(_) => r.push(None),
                None => r.push(Some(h.backend.search(query))),
            }
            i += 1;
        }
        r
    }

    /// Completes a fan-out search begun at `now`: `raw[i]` is what the host
    /// gave for backend `i` (its output, or the failure), or `None` where
    /// nothing was run and the cache answers. Fresh output is parsed and
    /// cached; every backend's outcome is kept, and the results are merged.
    pub fn complete_search(&mut self, query: &str, now: u64, raw: &Vec<Option<Result<String, ErrorKind>>>) -> (r: SearchReport)
        requires
            old(self).wf(),
            raw@.len() == old(self).handles@.len(),
        ensures
            final(self).wf(),
            final(self).handles@.len() == old(self).handles@.len(),
            backends_of(final(self).handles@) == backends_of(old(self).handles@),
            final(self).unavailable@ == old(self).unavailable@,
            forall|j: int| 0 <= j < final(self).handles@.len() ==>
                (#[trigger] final(self).handles@[j]).cache.floor == old(self).handles@[j].cache.floor,
            r.outcomes@.len() == raw@.len(),
            forall|i: int| 0 <= i < raw@.len() && !(raw@[i] matches Some(Ok(_))) ==>
                #[trigger] final(self).handles@[i] == old(self).handles@[i],
            forall|i: int| 0 <= i < raw@.len() && (raw@[i] matches Some(Ok(_)))
                && now >= old(self).handles@[i].cache.floor ==>
                (#[trigger] final(self).handles@[i]).cache.search_entry(query@) == Some((now, r.outcomes@[i].result->Ok_0@)),
            forall|i: int| 0 <= i < raw@.len() ==> search_outcome_ok(
                old(self).handles@[i].backend,
                served(old(self).handles@[i].cache.search_entry(query@), now),
                raw@[i],
                #[trigger] r.outcomes@[i],
            ),
            r.merged.items@ == merged_items(r.outcomes@),
            r.merged.failures@.map_values(|f: BackendFailure| failure_view(f)) == failures_of(r.outcomes@),
            no_duplicate_keys(r.merged.items@),
            forall|k: int| 0 <= k < r.merged.items@.len() ==>
                tags_of(backends_of(final(self).handles@)).contains((#[trigger] r.merged.items@[k]).backend@),
            forall|k: int, i: int| 0 <= k < r.merged.items@.len() && 0 <= i < r.outcomes@.len()
                && r.outcomes@[i].result is Err ==>
                (#[trigger] r.merged.items@[k]).backend@ != (#[trigger] r.outcomes@[i]).backend@,
    {
        let ghost old_handles = self.handles@;
        let ghost old_unavailable = self.unavailable@;
        let mut outcomes: Vec<BackendOutcome<PackageInfo>> = Vec::new();
        let mut i: usize = 0;
        while i < self.handles.len()
            invariant
                i <= self.handles@.len(),
                self.handles@.len() == old_handles.len(),
                self.unavailable@ == old_unavailable,
                raw@.len() == old_handles.len(),
                self.wf(),
                backends_of(self.handles@) == backends_of(old_handles),
                forall|j: int| 0 <= j < old_handles.len() ==>
                    (#[trigger] self.handles@[j]).cache.floor == old_handles[j].cache.floor,
                forall|j: int| i <= j < old_handles.len() ==> #[trigger] self.handles@[j] == old_handles[j],
                outcomes@.len() == i,
                forall|j: int| 0 <= j < i && !(raw@[j] matches Some(Ok(_))) ==>
                    #[trigger] self.handles@[j] == old_handles[j],
                forall|j: int| 0 <= j < i && (raw@[j] matches Some(Ok(_))) && now >= old_handles[j].cache.floor ==>
                    (#[trigger] self.handles@[j]).cache.search_entry(query@) == Some((now, outcomes@[j].result->Ok_0@)),
                forall|j: int| 0 <= j < i ==> search_outcome_ok(
                    old_handles[j].backend,
                    served(old_handles[j].cache.search_entry(query@), now),
                    raw@[j],
                    #[trigger] outcomes@[j],
                ),
            decreases self.handles@.len() - i,
        {
            assert(handle_wf(self.handles@[i as int]));
            assert(self.handles@[i as int] == old_handles[i as int]);
            let b = self.handles[i].backend;
            let tag = b.tag();
            let result = match &raw[i] {
                None => match self.handles[i].cache.lookup_search(query, now) {
                    Some(v) => Ok(v),
                    None => Err(ErrorKind::BackendInvocationFailed),
                },
                Some(Ok(out)) => {
                    let v = parse_search_output(&b, out.as_str());
                    let ghost before = self.handles@;
                    self.handles[i].cache.store_search(query.to_owned(), now, copy_items(&v));
                    proof {
                        assert(backends_of(self.handles@) =~= backends_of(before));
                        let c = self.handles@[i as int].cache;
                        assert forall|j: int, k: int|
                            0 <= j < c.searches@.len() && 0 <= k < c.searches@[j].items@.len()
                                implies (#[trigger] c.searches@[j].items@[k]).backend@ == b.spec_tag() by {
                            if c.searches@[j].query@ != query@ {
                                assert(c.search_entry(c.searches@[j].query@) == before[i as int].cache.search_entry(c.searches@[j].query@));
                            }
                        }
                        assert(handle_wf(self.handles@[i as int]));
                        assert forall|j: int| 0 <= j < self.handles@.len() implies handle_wf(#[trigger] self.handles@[j]) by {
                            if j != i {
                                assert(self.handles@[j] == before[j]);
                            }
                        }
                        assert forall|j: int| 0 <= j < old_handles.len() implies
                            (#[trigger] self.handles@[j]).cache.floor == old_handles[j].cache.floor by {
                            if j != i {
                                assert(self.handles@[j] == before[j]);
                            }
                        }
                        assert forall|j: int| 0 <= j < old_handles.len() && j != i implies
                            #[trigger] self.handles@[j] == before[j] by {}
                    }
                    Ok(v)
                },
                Some(Err(k)) => Err(*k),
            };
            outcomes.push(BackendOutcome { backend: tag, result });
            i += 1;
        }
        let merged = merge_outcomes(&outcomes);
        proof {
            lemma_merged_no_duplicates(outcomes@);
            assert(outcomes_tagged(outcomes@));
            lemma_merged_tags_are_backends(outcomes@);
            assert forall|k: int| 0 <= k < merged.items@.len() implies
                tags_of(backends_of(self.handles@)).contains((#[trigger] merged.items@[k]).backend@) by {
                let j = choose|j: int| 0 <= j < outcomes@.len() && outcomes@[j].result is Ok
                    && merged_items(outcomes@)[k].backend_of() == outcomes@[j].backend@;
                assert(tags_of(backends_of(self.handles@))[j] == outcomes@[j].backend@);
            }
            assert forall|k: int, i: int| 0 <= k < merged.items@.len() && 0 <= i < outcomes@.len()
                && outcomes@[i].result is Err implies
                (#[trigger] merged.items@[k]).backend@ != (#[trigger] outcomes@[i]).backend@ by {
                let j = choose|j: int| 0 <= j < outcomes@.len() && outcomes@[j].result is Ok
                    && merged_items(outcomes@)[k].backend_of() == outcomes@[j].backend@;
                assert(j != i);
                assert(tags_of(backends_of(self.handles@))[j] == outcomes@[j].backend@);
                assert(tags_of(backends_of(self.handles@))[i] == outcomes@[i].backend@);
            }
        }
        SearchReport { outcomes, merged }
    }

    /// For each backend, in order: nothing to run when its cache serves the
    /// pending updates at `now`, else the command that lists them.
    pub fn updates_plan(&self, now: u64) -> (r: Vec<Option<Invocation>>)
        requires
            self.wf(),
        ensures
            r@.len() == self.handles@.len(),
            forall|i: int| 0 <= i < r@.len() ==> {
                &&& ((#[trigger] r@[i]) is None <==> served(self.handles@[i].cache.updates_entry(), now) is Some)
                &&& r@[i] matches Some(inv) ==> argv_of(inv) == self.handles@[i].backend.updates_argv()
            },
    {
        let mut r: Vec<Option<Invocation>> = Vec::new();
        let mut i: usize = 0;
        while i < self.handles.len()
            invariant
                i <= self.handles@.len(),
                self.wf(),
                r@.len() == i,
                forall|j: int| 0 <= j < i ==> {
                    &&& ((#[trigger] r@[j]) is None <==> served(self.handles@[j].cache.updates_entry(), now) is Some)
                    &&& r@[j] matches Some(inv) ==> argv_of(inv) == self.handles@[j].backend.updates_argv()
                },
            decreases self.handles@.len() - i,
        {
            let h = &self.handles[i];
            match h.cache.lookup_updates(now) {
                Some(_) => r.push(None),
                None => r.push(Some(h.backend.get_updates())),
            }
            i += 1;
        }
        r
    }

    /// Completes a fan-out read of pending updates begun at `now`, as
    /// `complete_search` does for a search.
    pub fn complete_updates(&mut self, now: u64, raw: &Vec<Option<Result<String, ErrorKind>>>) -> (r: UpdatesReport)
        requires
            old(self).wf(),
            raw@.len() == old(self).handles@.len(),
        ensures
            final(self).wf(),
            final(self).handles@.len() == old(self).handles@.len(),
            backends_of(final(self).handles@) == backends_of(old(self).handles@),
            final(self).unavailable@ == old(self).unavailable@,
            forall|j: int| 0 <= j < final(self).handles@.len() ==>
                (#[trigger] final(self).handles@[j]).cache.floor == old(self).handles@[j].cache.floor,
            r.outcomes@.len() == raw@.len(),
            forall|i: int| 0 <= i < raw@.len() && !(raw@[i] matches Some(Ok(_))) ==>
                #[trigger] final(self).handles@[i] == old(self).handles@[i],
            forall|i: int| 0 <= i < raw@.len() && (raw@[i] matches Some(Ok(_)))
                && now >= old(self).handles@[i].cache.floor ==>
                (#[trigger] final(self).handles@[i]).cache.updates_entry() == Some((now, r.outcomes@[i].result->Ok_0@)),
            forall|i: int| 0 <= i < raw@.len() ==> updates_outcome_ok(
                old(self).handles@[i].backend,
                served(old(self).handles@[i].cache.updates_entry(), now),
                raw@[i],
                #[trigger] r.outcomes@[i],
            ),
            r.merged.items@ == merged_items(r.outcomes@),
            r.merged.failures@.map_values(|f: BackendFailure| failure_view(f)) == failures_of(r.outcomes@),
            no_duplicate_keys(r.merged.items@),
            forall|k: int| 0 <= k < r.merged.items@.len() ==>
                tags_of(backends_of(final(self).handles@)).contains((#[trigger] r.merged.items@[k]).backend@),
            forall|k: int, i: int| 0 <= k < r.merged.items@.len() && 0 <= i < r.outcomes@.len()
                && r.outcomes@[i].result is Err ==>
                (#[trigger] r.merged.items@[k]).backend@ != (#[trigger] r.outcomes@[i]).backend@,
    {
        let ghost old_handles = self.handles@;
        let ghost old_unavailable = self.unavailable@;
        let mut outcomes: Vec<BackendOutcome<PackageUpdate>> = Vec::new();
        let mut i: usize = 0;
        while i < self.handles.len()
            invariant
                i <= self.handles@.len(),
                self.handles@.len() == old_handles.len(),
                self.unavailable@ == old_unavailable,
                raw@.len() == old_handles.len(),
                self.wf(),
                backends_of(self.handles@) == backends_of(old_handles),
                forall|j: int| 0 <= j < old_handles.len() ==>
                    (#[trigger] self.handles@[j]).cache.floor == old_handles[j].cache.floor,
                forall|j: int| i <= j < old_handles.len() ==> #[trigger] self.handles@[j] == old_handles[j],
                outcomes@.len() == i,
                forall|j: int| 0 <= j < i && !(raw@[j] matches Some(Ok(_))) ==>
                    #[trigger] self.handles@[j] == old_handles[j],
                forall|j: int| 0 <= j < i && (raw@[j] matches Some(Ok(_))) && now >= old_handles[j].cache.floor ==>
                    (#[trigger] self.handles@[j]).cache.updates_entry() == Some((now, outcomes@[j].result->Ok_0@)),
                forall|j: int| 0 <= j < i ==> updates_outcome_ok(
                    old_handles[j].backend,
                    served(old_handles[j].cache.updates_entry(), now),
                    raw@[j],
                    #[trigger] outcomes@[j],
                ),
            decreases self.handles@.len() - i,
        {
            assert(handle_wf(self.handles@[i as int]));
            assert(self.handles@[i as int] == old_handles[i as int]);
            let b = self.handles[i].backend;
            let tag = b.tag();
            let result = match &raw[i] {
                None => match self.handles[i].cache.lookup_updates(now) {
                    Some(v) => Ok(v),
                    None => Err(ErrorKind::BackendInvocationFailed),
                },
                Some(Ok(out)) => {
                    let v = parse_updates_output(&b, out.as_str());
                    let ghost before = self.handles@;
                    self.handles[i].cache.store_updates(now, copy_items(&v));
                    proof {
                        assert(backends_of(self.handles@) =~= backends_of(before));
                        assert(handle_wf(self.handles@[i as int]));
                        assert forall|j: int| 0 <= j < self.handles@.len() implies handle_wf(#[trigger] self.handles@[j]) by {
                            if j != i {
                                assert(self.handles@[j] == before[j]);
                            }
                        }
                        assert forall|j: int| 0 <= j < old_handles.len() implies
                            (#[trigger] self.handles@[j]).cache.floor == old_handles[j].cache.floor by {
                            if j != i {
                                assert(self.handles@[j] == before[j]);
                            }
                        }
                        assert forall|j: int| 0 <= j < old_handles.len() && j != i implies
                            #[trigger] self.handles@[j] == before[j] by {}
                    }
                    Ok(v)
                },
                Some(Err(k)) => Err(*k),
            };
            outcomes.push(BackendOutcome { backend: tag, result });
            i += 1;
        }
        let merged = merge_outcomes(&outcomes);
        proof {
            lemma_merged_no_duplicates(outcomes@);
            assert(outcomes_tagged(outcomes@));
            lemma_merged_tags_are_backends(outcomes@);
            assert forall|k: int| 0 <= k < merged.items@.len() implies
                tags_of(backends_of(self.handles@)).contains((#[trigger] merged.items@[k]).backend@) by {
                let j = choose|j: int| 0 <= j < outcomes@.len() && outcomes@[j].result is Ok
                    && merged_items(outcomes@)[k].backend_of() == outcomes@[j].backend@;
                assert(tags_of(backends_of(self.handles@))[j] == outcomes@[j].backend@);
            }
            assert forall|k: int, i: int| 0 <= k < merged.items@.len() && 0 <= i < outcomes@.len()
                && outcomes@[i].result is Err implies
                (#[trigger] merged.items@[k]).backend@ != (#[trigger] outcomes@[i]).backend@ by {
                let j = choose|j: int| 0 <= j < outcomes@.len() && outcomes@[j].result is Ok
                    && merged_items(outcomes@)[k].backend_of() == outcomes@[j].backend@;
                assert(j != i);
                assert(tags_of(backends_of(self.handles@))[j] == outcomes@[j].backend@);
                assert(tags_of(backends_of(self.handles@))[i] == outcomes@[i].backend@);
            }
        }
        UpdatesReport { outcomes, merged }
    }

    /// The position of the backend tagged `tag`, if one is registered.
    pub fn backend_index(&self, tag: &str) -> (r: Option<usize>)
        ensures
            r matches Some(i) ==> i < self.handles@.len() && self.handles@[i as int].backend.spec_tag() == tag@,
            r is None ==> !tags_of(backends_of(self.handles@)).contains(tag@),
    {
        let wanted = tag.to_owned();
        let mut i: usize = 0;
        while i < self.handles.len()
            invariant
                i <= self.handles@.len(),
                wanted@ == tag@,
                forall|j: int| 0 <= j < i ==> self.handles@[j].backend.spec_tag() != tag@,
            decreases self.handles@.len() - i,
        {
            if self.handles[i].backend.tag() == wanted {
                return Some(i);
            }
            i += 1;
        }
        proof {
            if tags_of(backends_of(self.handles@)).contains(tag@) {
                let j = choose|j: int| 0 <= j < self.handles@.len() && tags_of(backends_of(self.handles@))[j] == tag@;
                assert(self.handles@[j].backend.spec_tag() == tag@);
            }
        }
        None
    }

    /// Drops backend `i`'s cached reads; reads issued before `now` are never
    /// cached again. Run before a mutating command starts and again after it
    /// ends, whatever its outcome.
    pub fn invalidate_backend(&mut self, i: usize, now: u64)
        requires
            old(self).wf(),
            i < old(self).handles@.len(),
        ensures
            final(self).wf(),
            final(self).handles@.len() == old(self).handles@.len(),
            backends_of(final(self).handles@) == backends_of(old(self).handles@),
            final(self).unavailable@ == old(self).unavailable@,
            final(self).handles@[i as int].backend == old(self).handles@[i as int].backend,
            final(self).handles@[i as int].cache.floor >= now,
            final(self).handles@[i as int].cache.floor >= old(self).handles@[i as int].cache.floor,
            forall|q: Seq<char>| final(self).handles@[i as int].cache.search_entry(q) is None,
            final(self).handles@[i as int].cache.updates_entry() is None,
            forall|j: int| 0 <= j < final(self).handles@.len() && j != i ==>
                #[trigger] final(self).handles@[j] == old(self).handles@[j],
    {
        let ghost before = self.handles@;
        assert(handle_wf(self.handles@[i as int]));
        self.handles[i].cache.invalidate(now);
        proof {
            assert(backends_of(self.handles@) =~= backends_of(before));
            assert forall|j: int| 0 <= j < self.handles@.len() implies handle_wf(#[trigger] self.handles@[j]) by {
                if j != i {
                    assert(self.handles@[j] == before[j]);
                }
            }
        }
    }

    /// Starts an install on backend `i` at `now`: its cache is purged first,
    /// and the command to run is returned.
    pub fn install(&mut self, i: usize, packages: &Vec<String>, now: u64) -> (r: Invocation)
        requires
            old(self).wf(),
            i < old(self).handles@.len(),
        ensures
            final(self).wf(),
            final(self).handles@.len() == old(self).handles@.len(),
            backends_of(final(self).handles@) == backends_of(old(self).handles@),
            final(self).handles@[i as int].cache.floor >= now,
            forall|q: Seq<char>| final(self).handles@[i as int].cache.search_entry(q) is None,
            final(self).handles@[i as int].cache.updates_entry() is None,
            final(self).unavailable@ == old(self).unavailable@,
            forall|j: int| 0 <= j < final(self).handles@.len() && j != i ==>
                #[trigger] final(self).handles@[j] == old(self).handles@[j],
            argv_of(r) == old(self).handles@[i as int].backend.install_argv(views(packages@)),
    {
        self.invalidate_backend(i, now);
        self.handles[i].backend.install(packages)
    }

    /// Starts a removal on backend `i` at `now`, as `install` does.
    pub fn remove(&mut self, i: usize, packages: &Vec<String>, now: u64) -> (r: Invocation)
        requires
            old(self).wf(),
            i < old(self).handles@.len(),
        ensures
            final(self).wf(),
            final(self).handles@.len() == old(self).handles@.len(),
            backends_of(final(self).handles@) == backends_of(old(self).handles@),
            final(self).handles@[i as int].cache.floor >= now,
            forall|q: Seq<char>| final(self).handles@[i as int].cache.search_entry(q) is None,
            final(self).handles@[i as int].cache.updates_entry() is None,
            final(self).unavailable@ == old(self).unavailable@,
            forall|j: int| 0 <= j < final(self).handles@.len() && j != i ==>
                #[trigger] final(self).handles@[j] == old(self).handles@[j],
            argv_of(r) == old(self).handles@[i as int].backend.remove_argv(views(packages@)),
    {
        self.invalidate_backend(i, now);
        self.handles[i].backend.remove(packages)
    }

    /// Starts a full upgrade on backend `i` at `now`, as `install` does.
    pub fn update_system(&mut self, i: usize, now: u64) -> (r: Invocation)
        requires
            old(self).wf(),
            i < old(self).handles@.len(),
        ensures
            final(self).wf(),
            final(self).handles@.len() == old(self).handles@.len(),
            backends_of(final(self).handles@) == backends_of(old(self).handles@),
            final(self).handles@[i as int].cache.floor >= now,
            forall|q: Seq<char>| final(self).handles@[i as int].cache.search_entry(q) is None,
            final(self).handles@[i as int].cache.updates_entry() is None,
            final(self).unavailable@ == old(self).unavailable@,
            forall|j: int| 0 <= j < final(self).handles@.len() && j != i ==>
                #[trigger] final(self).handles@[j] == old(self).handles@[j],
            argv_of(r) == old(self).handles@[i as int].backend.upgrade_argv(),
    {
        self.invalidate_backend(i, now);
        self.handles[i].backend.update_system()
    }

    /// Ends a mutation on backend `i` that ran until `now`: the cache is
    /// purged again, whatever happened, and the mutation's outcome is told
    /// from how its runs ended (one run for the whole command, or one per
    /// package when the caller runs them one by one).
    pub fn finish_mutation(&mut self, i: usize, now: u64, runs: &Vec<RunStatus>) -> (r: Result<(), ErrorKind>)
        requires
            old(self).wf(),
            runs@.len() > 0,
            i < old(self).handles@.len(),
        ensures
            final(self).wf(),
            final(self).handles@.len() == old(self).handles@.len(),
            backends_of(final(self).handles@) == backends_of(old(self).handles@),
            final(self).handles@[i as int].cache.floor >= now,
            final(self).handles@[i as int].cache.floor >= old(self).handles@[i as int].cache.floor,
            forall|q: Seq<char>| final(self).handles@[i as int].cache.search_entry(q) is None,
            final(self).handles@[i as int].cache.updates_entry() is None,
            final(self).unavailable@ == old(self).unavailable@,
            forall|j: int| 0 <= j < final(self).handles@.len() && j != i ==>
                #[trigger] final(self).handles@[j] == old(self).handles@[j],
            r == mutation_result(runs@),
    {
        self.invalidate_backend(i, now);
        classify_mutation(runs)
    }
}

/// Read-after-write: once backend `i`'s cache has been purged at `t` (as
/// `install`, `remove`, `update_system` and `finish_mutation` do, and as
/// later reads leave it), nothing it serves was read before `t`.
pub proof fn lemma_no_reads_from_before_mutation(reg: Registry, i: int, t: u64, q: Seq<char>, now: u64)
    requires
        reg.wf(),
        0 <= i < reg.handles@.len(),
        reg.handles@[i].cache.floor >= t,
    ensures
        served(reg.handles@[i].cache.search_entry(q), now) is Some ==> reg.handles@[i].cache.search_entry(q)->Some_0.0 >= t,
        served(reg.handles@[i].cache.updates_entry(), now) is Some ==> reg.handles@[i].cache.updates_entry()->Some_0.0 >= t,
{
    assert(handle_wf(reg.handles@[i]));
    lemma_no_stale_reads(reg.handles@[i].cache, t, q, now);
}

} // verus!
