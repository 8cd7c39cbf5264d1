use vstd::prelude::*;
use crate::backend::{Invocation, PackageManager, with_packages};
use crate::text::{split, split_str, views, words, words_of};

verus! {

/// The Debian family's apt. Search lists the packages whose names match the
/// query as an apt glob pattern, with their candidate versions.
#[derive(Clone, Copy)]
pub struct AptManager {}

impl AptManager {
    pub fn new() -> (r: AptManager) {
        AptManager {}
    }
}

/// `name/suite version arch [...]`: the name and the version.
pub open spec fn apt_search_line(line: Seq<char>) -> Option<(Seq<char>, Seq<char>)> {
    let ws = words(line);
    if ws.len() >= 2 && split(ws[0], '/').len() >= 2 {
        Some((split(ws[0], '/')[0], ws[1]))
    } else {
        None
    }
}

/// `name/suite candidate arch [upgradable from: installed]`.
pub open spec fn apt_update_line(line: Seq<char>) -> Option<(Seq<char>, Seq<char>, Seq<char>)> {
    let ws = words(line);
    if ws.len() >= 6 && split(ws[0], '/').len() >= 2 {
        Some((split(ws[0], '/')[0], split(ws[5], ']')[0], ws[1]))
    } else {
        None
    }
}

impl PackageManager for AptManager {
    open spec fn spec_tag(&self) -> Seq<char> {
        "apt"@
    }

    open spec fn probe_argv(&self) -> Seq<Seq<char>> {
        seq!["apt-get"@, "--version"@]
    }

    open spec fn search_argv(&self, q: Seq<char>) -> Seq<Seq<char>> {
        seq!["apt"@, "list"@, q]
    }

    open spec fn install_argv(&self, pkgs: Seq<Seq<char>>) -> Seq<Seq<char>> {
        seq!["apt-get"@, "install"@, "-y"@] + pkgs
    }

    open spec fn remove_argv(&self, pkgs: Seq<Seq<char>>) -> Seq<Seq<char>> {
        seq!["apt-get"@, "remove"@, "-y"@] + pkgs
    }

    open spec fn upgrade_argv(&self) -> Seq<Seq<char>> {
        seq!["apt-get"@, "upgrade"@, "-y"@]
    }

    open spec fn updates_argv(&self) -> Seq<Seq<char>> {
        seq!["apt"@, "list"@, "--upgradable"@]
    }

    open spec fn search_line(&self, line: Seq<char>) -> Option<(Seq<char>, Seq<char>)> {
        apt_search_line(line)
    }

    open spec fn update_line(&self, line: Seq<char>) -> Option<(Seq<char>, Seq<char>, Seq<char>)> {
        apt_update_line(line)
    }

    fn tag(&self) -> (r: String) {
        "apt".to_owned()
    }

    fn initialize(&self) -> (r: Invocation) {
        let argv = vec!["apt-get".to_owned(), "--version".to_owned()];
        assert(views(argv@) =~= self.probe_argv());
        Invocation { argv }
    }

    fn search(&self, query: &str) -> (r: Invocation) {
        let argv = vec!["apt".to_owned(), "list".to_owned(), query.to_owned()];
        assert(views(argv@) =~= self.search_argv(query@));
        Invocation { argv }
    }

    fn install(&self, packages: &Vec<String>) -> (r: Invocation) {
        let prefix = vec!["apt-get".to_owned(), "install".to_owned(), "-y".to_owned()];
        assert(views(prefix@) =~= seq!["apt-get"@, "install"@, "-y"@]);
        Invocation { argv: with_packages(prefix, packages) }
    }

    fn remove(&self, packages: &Vec<String>) -> (r: Invocation) {
        let prefix = vec!["apt-get".to_owned(), "remove".to_owned(), "-y".to_owned()];
        assert(views(prefix@) =~= seq!["apt-get"@, "remove"@, "-y"@]);
        Invocation { argv: with_packages(prefix, packages) }
    }

    fn update_system(&self) -> (r: Invocation) {
        let argv = vec!["apt-get".to_owned(), "upgrade".to_owned(), "-y".to_owned()];
        assert(views(argv@) =~= self.upgrade_argv());
        Invocation { argv }
    }

    fn get_updates(&self) -> (r: Invocation) {
        let argv = vec!["apt".to_owned(), "list".to_owned(), "--upgradable".to_owned()];
        assert(views(argv@) =~= self.updates_argv());
        Invocation { argv }
    }

    fn parse_search_line(&self, line: &str) -> (r: Option<(String, String)>) {
        let ws = words_of(line);
        assert(views(ws@).len() == ws@.len());
        if ws.len() >= 2 {
            let parts = split_str(ws[0].as_str(), '/');
            assert(views(parts@).len() == parts@.len());
            if parts.len() >= 2 {
                assert(views(ws@)[0] == ws@[0]@ && views(ws@)[1] == ws@[1]@);
                assert(views(parts@)[0] == parts@[0]@);
                return Some((parts[0].clone(), ws[1].clone()));
            }
        }
        None
    }

    fn parse_update_line(&self, line: &str) -> (r: Option<(String, String, String)>) {
        let ws = words_of(line);
        assert(views(ws@).len() == ws@.len());
        if ws.len() >= 6 {
            let parts = split_str(ws[0].as_str(), '/');
            assert(views(parts@).len() == parts@.len());
            if parts.len() >= 2 {
                let installed = split_str(ws[5].as_str(), ']');
                proof {
                    crate::text::lemma_split_nonempty(ws@[5]@, ']');
                }
                assert(views(installed@).len() == installed@.len());
                assert(views(ws@)[0] == ws@[0]@ && views(ws@)[1] == ws@[1]@ && views(ws@)[5] == ws@[5]@);
                assert(views(parts@)[0] == parts@[0]@);
                assert(views(installed@)[0] == installed@[0]@);
                return Some((parts[0].clone(), installed[0].clone(), ws[1].clone()));
            }
        }
        None
    }
}

} // verus!
