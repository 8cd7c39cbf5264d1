use vstd::prelude::*;
use crate::package::{ErrorKind, PackageInfo, PackageUpdate};
use crate::text::{split, split_str, views, words, words_of};

verus! {

/// A command line to run on the host: the program, then its arguments.
pub struct Invocation {
    pub argv: Vec<String>,
}

pub open spec fn argv_of(inv: Invocation) -> Seq<Seq<char>> {
    views(inv.argv@)
}

/// The uniform contract of a backend. A backend says how each operation is
/// run on the host, and how the host tool's output reads back as packages;
/// running the command is left to the caller.
pub trait PackageManager {
    /// The tag that marks everything this backend produces.
    spec fn spec_tag(&self) -> Seq<char>;

    spec fn probe_argv(&self) -> Seq<Seq<char>>;

    spec fn search_argv(&self, q: Seq<char>) -> Seq<Seq<char>>;

    spec fn install_argv(&self, pkgs: Seq<Seq<char>>) -> Seq<Seq<char>>;

    spec fn remove_argv(&self, pkgs: Seq<Seq<char>>) -> Seq<Seq<char>>;

    spec fn upgrade_argv(&self) -> Seq<Seq<char>>;

    spec fn updates_argv(&self) -> Seq<Seq<char>>;

    /// The (name, version) that one line of search output announces, if any.
    spec fn search_line(&self, line: Seq<char>) -> Option<(Seq<char>, Seq<char>)>;

    /// The (name, installed version, candidate version) that one line of the
    /// pending-updates output announces, if any.
    spec fn update_line(&self, line: Seq<char>) -> Option<(Seq<char>, Seq<char>, Seq<char>)>;

    fn tag(&self) -> (r: String)
        ensures
            r@ == self.spec_tag(),
    ;

    /// The command that tells whether the tool is present and usable.
    fn initialize(&self) -> (r: Invocation)
        ensures
            argv_of(r) == self.probe_argv(),
    ;

    fn search(&self, query: &str) -> (r: Invocation)
        ensures
            argv_of(r) == self.search_argv(query@),
    ;

    fn install(&self, packages: &Vec<String>) -> (r: Invocation)
        ensures
            argv_of(r) == self.install_argv(views(packages@)),
    ;

    fn remove(&self, packages: &Vec<String>) -> (r: Invocation)
        ensures
            argv_of(r) == self.remove_argv(views(packages@)),
    ;

    fn update_system(&self) -> (r: Invocation)
        ensures
            argv_of(r) == self.upgrade_argv(),
    ;

    fn get_updates(&self) -> (r: Invocation)
        ensures
            argv_of(r) == self.updates_argv(),
    ;

    fn parse_search_line(&self, line: &str) -> (r: Option<(String, String)>)
        ensures
            r matches Some((n, v)) ==> self.search_line(line@) == Some((n@, v@)),
            r is None ==> self.search_line(line@) is None,
    ;

    fn parse_update_line(&self, line: &str) -> (r: Option<(String, String, String)>)
        ensures
            r matches Some((n, c, v)) ==> self.update_line(line@) == Some((n@, c@, v@)),
            r is None ==> self.update_line(line@) is None,
    ;
}

/// The (name, version) pairs announced by the lines, in order.
pub open spec fn search_entries<M: PackageManager>(m: M, lines: Seq<Seq<char>>) -> Seq<(Seq<char>, Seq<char>)>
    decreases lines.len(),
{
    if lines.len() == 0 {
        seq![]
    } else {
        let rest = search_entries(m, lines.drop_last());
        match m.search_line(lines.last()) {
            Some(e) => rest.push(e),
            None => rest,
        }
    }
}

/// The (name, installed, candidate) triples announced by the lines, in order.
pub open spec fn update_entries<M: PackageManager>(m: M, lines: Seq<Seq<char>>) -> Seq<(Seq<char>, Seq<char>, Seq<char>)>
    decreases lines.len(),
{
    if lines.len() == 0 {
        seq![]
    } else {
        let rest = update_entries(m, lines.drop_last());
        match m.update_line(lines.last()) {
            Some(e) => rest.push(e),
            None => rest,
        }
    }
}

/// `v` is what the search output `out` of backend `m` reads as.
pub open spec fn parsed_search<M: PackageManager>(m: M, out: Seq<char>, v: Seq<PackageInfo>) -> bool {
    &&& v.len() == search_entries(m, split(out, '\n')).len()
    &&& forall|k: int| 0 <= k < v.len() ==> {
        &&& (#[trigger] v[k]).name@ == search_entries(m, split(out, '\n'))[k].0
        &&& v[k].version@ == search_entries(m, split(out, '\n'))[k].1
        &&& v[k].backend@ == m.spec_tag()
        &&& v[k].description is None
    }
}

/// `v` is what the pending-updates output `out` of backend `m` reads as.
pub open spec fn parsed_updates<M: PackageManager>(m: M, out: Seq<char>, v: Seq<PackageUpdate>) -> bool {
    &&& v.len() == update_entries(m, split(out, '\n')).len()
    &&& forall|k: int| 0 <= k < v.len() ==> {
        &&& (#[trigger] v[k]).name@ == update_entries(m, split(out, '\n'))[k].0
        &&& v[k].current_version@ == update_entries(m, split(out, '\n'))[k].1
        &&& v[k].version@ == update_entries(m, split(out, '\n'))[k].2
        &&& v[k].backend@ == m.spec_tag()
    }
}

/// Reads a backend's search output: one package per line that announces
/// one, tagged with the backend, in output order.
pub fn parse_search_output<M: PackageManager>(m: &M, output: &str) -> (r: Vec<PackageInfo>)
    ensures
        parsed_search(*m, output@, r@),
{
    let lines = split_str(output, '\n');
    let ghost ls = views(lines@);
    let mut r: Vec<PackageInfo> = Vec::new();
    let mut i: usize = 0;
    while i < lines.len()
        invariant
            i <= lines@.len(),
            ls == views(lines@),
            ls == split(output@, '\n'),
            r@.len() == search_entries(*m, ls.take(i as int)).len(),
            forall|k: int| 0 <= k < r@.len() ==> {
                &&& (#[trigger] r@[k]).name@ == search_entries(*m, ls.take(i as int))[k].0
                &&& r@[k].version@ == search_entries(*m, ls.take(i as int))[k].1
                &&& r@[k].backend@ == m.spec_tag()
                &&& r@[k].description is None
            },
        decreases lines@.len() - i,
    {
        proof {
            assert(ls.take(i as int + 1).drop_last() =~= ls.take(i as int));
        }
        match m.parse_search_line(lines[i].as_str()) {
            Some((n, v)) => {
                r.push(PackageInfo { name: n, version: v, backend: m.tag(), description: None });
            },
            None => {},
        }
        i += 1;
    }
    assert(ls.take(ls.len() as int) =~= ls);
    r
}

/// Reads a backend's pending-updates output: one update per line that
/// announces one, tagged with the backend, in output order.
pub fn parse_updates_output<M: PackageManager>(m: &M, output: &str) -> (r: Vec<PackageUpdate>)
    ensures
        parsed_updates(*m, output@, r@),
{
    let lines = split_str(output, '\n');
    let ghost ls = views(lines@);
    let mut r: Vec<PackageUpdate> = Vec::new();
    let mut i: usize = 0;
    while i < lines.len()
        invariant
            i <= lines@.len(),
            ls == views(lines@),
            ls == split(output@, '\n'),
            r@.len() == update_entries(*m, ls.take(i as int)).len(),
            forall|k: int| 0 <= k < r@.len() ==> {
                &&& (#[trigger] r@[k]).name@ == update_entries(*m, ls.take(i as int))[k].0
                &&& r@[k].current_version@ == update_entries(*m, ls.take(i as int))[k].1
                &&& r@[k].version@ == update_entries(*m, ls.take(i as int))[k].2
                &&& r@[k].backend@ == m.spec_tag()
            },
        decreases lines@.len() - i,
    {
        proof {
            assert(ls.take(i as int + 1).drop_last() =~= ls.take(i as int));
        }
        match m.parse_update_line(lines[i].as_str()) {
            Some((n, c, v)) => {
                r.push(PackageUpdate { name: n, current_version: c, version: v, backend: m.tag() });
            },
            None => {},
        }
        i += 1;
    }
    assert(ls.take(ls.len() as int) =~= ls);
    r
}

/// `prefix` followed by the package names.
pub fn with_packages(prefix: Vec<String>, packages: &Vec<String>) -> (r: Vec<String>)
    ensures
        views(r@) == views(prefix@) + views(packages@),
{
    let mut r = prefix;
    let ghost start = views(r@);
    let mut i: usize = 0;
    while i < packages.len()
        invariant
            i <= packages@.len(),
            views(r@) == start + views(packages@.take(i as int)),
        decreases packages@.len() - i,
    {
        let ghost before = r@;
        r.push(packages[i].clone());
        assert(r@ == before.push(packages@[i as int]));
        assert(views(r@) =~= views(before).push(packages@[i as int]@));
        assert(views(packages@.take(i as int + 1)) =~= views(packages@.take(i as int)).push(packages@[i as int]@));
        assert(views(r@) =~= start + views(packages@.take(i as int + 1)));
        i += 1;
    }
    assert(packages@.take(packages@.len() as int) =~= packages@);
    r
}

/// How a host command ended, as seen by the caller that ran it under a
/// time bound.
#[derive(PartialEq, Eq, Structural, Clone, Copy, Debug)]
pub enum RunStatus {
    /// The tool could not be started.
    NotStarted,
    /// The time bound ran out first; the process was stopped.
    TimedOut,
    /// The tool exited; `true` when it reported success.
    Exited(bool),
}

/// The failure, if any, that a command's end amounts to.
pub open spec fn run_result(status: RunStatus) -> Result<(), ErrorKind> {
    match status {
        RunStatus::NotStarted => Err(ErrorKind::BackendUnavailable),
        RunStatus::TimedOut => Err(ErrorKind::BackendTimeout),
        RunStatus::Exited(false) => Err(ErrorKind::BackendInvocationFailed),
        RunStatus::Exited(true) => Ok(()),
    }
}

pub fn classify_run(status: RunStatus) -> (r: Result<(), ErrorKind>)
    ensures
        r == run_result(status),
{
    match status {
        RunStatus::NotStarted => Err(ErrorKind::BackendUnavailable),
        RunStatus::TimedOut => Err(ErrorKind::BackendTimeout),
        RunStatus::Exited(false) => Err(ErrorKind::BackendInvocationFailed),
        RunStatus::Exited(true) => Ok(()),
    }
}

/// What a read command's run hands to a fan-out: its output when it
/// succeeded, else its failure.
pub fn read_result(status: RunStatus, output: String) -> (r: Result<String, ErrorKind>)
    ensures
        run_result(status) is Ok ==> r == Ok::<String, ErrorKind>(output),
        run_result(status) matches Err(k) ==> r == Err::<String, ErrorKind>(k),
{
    match classify_run(status) {
        Ok(()) => Ok(output),
        Err(k) => Err(k),
    }
}

/// The outcome of a mutation run as one command per package: success when
/// every run succeeded, `PartialOperationFailure` when some did and some did
/// not, else the failure of the first run.
pub open spec fn mutation_result(runs: Seq<RunStatus>) -> Result<(), ErrorKind> {
    if forall|i: int| 0 <= i < runs.len() ==> runs[i] == RunStatus::Exited(true) {
        Ok(())
    } else if exists|i: int| 0 <= i < runs.len() && runs[i] == RunStatus::Exited(true) {
        Err(ErrorKind::PartialOperationFailure)
    } else {
        run_result(runs[0])
    }
}

pub fn classify_mutation(runs: &Vec<RunStatus>) -> (r: Result<(), ErrorKind>)
    requires
        runs@.len() > 0,
    ensures
        r == mutation_result(runs@),
{
    let mut any_ok = false;
    let mut all_ok = true;
    let mut i: usize = 0;
    while i < runs.len()
        invariant
            i <= runs@.len(),
            any_ok == exists|j: int| 0 <= j < i && runs@[j] == RunStatus::Exited(true),
            all_ok == forall|j: int| 0 <= j < i ==> runs@[j] == RunStatus::Exited(true),
        decreases runs@.len() - i,
    {
        if runs[i] == RunStatus::Exited(true) {
            any_ok = true;
        } else {
            all_ok = false;
        }
        i += 1;
    }
    if all_ok {
        Ok(())
    } else if any_ok {
        Err(ErrorKind::PartialOperationFailure)
    } else {
        classify_run(runs[0])
    }
}

} // verus!
