use vstd::prelude::*;
use crate::backend::{Invocation, PackageManager, with_packages};
use crate::text::{split, split_str, views, words, words_of};

verus! {

/// Arch Linux's pacman. Search matches the query as a regular expression
/// against names and descriptions of the sync databases.
#[derive(Clone, Copy)]
pub struct PacmanManager {}

impl PacmanManager {
    pub fn new() -> (r: PacmanManager) {
        PacmanManager {}
    }
}

/// `repo/name version [...]`, not indented (indented lines hold
/// descriptions): the name and the version.
pub open spec fn pacman_search_line(line: Seq<char>) -> Option<(Seq<char>, Seq<char>)> {
    let ws = words(line);
    if line.len() > 0 && line[0] != ' ' && ws.len() >= 2 && split(ws[0], '/').len() >= 2 {
        Some((split(ws[0], '/')[1], ws[1]))
    } else {
        None
    }
}

/// `name installed -> candidate`.
pub open spec fn pacman_update_line(line: Seq<char>) -> Option<(Seq<char>, Seq<char>, Seq<char>)> {
    let ws = words(line);
    if ws.len() >= 4 && ws[2] == "->"@ {
        Some((ws[0], ws[1], ws[3]))
    } else {
        None
    }
}

impl PackageManager for PacmanManager {
    open spec fn spec_tag(&self) -> Seq<char> {
        "pacman"@
    }

    open spec fn probe_argv(&self) -> Seq<Seq<char>> {
        seq!["pacman"@, "--version"@]
    }

    open spec fn search_argv(&self, q: Seq<char>) -> Seq<Seq<char>> {
        seq!["pacman"@, "-Ss"@, q]
    }

    open spec fn install_argv(&self, pkgs: Seq<Seq<char>>) -> Seq<Seq<char>> {
        seq!["pacman"@, "-S"@, "--noconfirm"@] + pkgs
    }

    open spec fn remove_argv(&self, pkgs: Seq<Seq<char>>) -> Seq<Seq<char>> {
        seq!["pacman"@, "-R"@, "--noconfirm"@] + pkgs
    }

    open spec fn upgrade_argv(&self) -> Seq<Seq<char>> {
        seq!["pacman"@, "-Syu"@, "--noconfirm"@]
    }

    open spec fn updates_argv(&self) -> Seq<Seq<char>> {
        seq!["pacman"@, "-Qu"@]
    }

    open spec fn search_line(&self, line: Seq<char>) -> Option<(Seq<char>, Seq<char>)> {
        pacman_search_line(line)
    }

    open spec fn update_line(&self, line: Seq<char>) -> Option<(Seq<char>, Seq<char>, Seq<char>)> {
        pacman_update_line(line)
    }

    fn tag(&self) -> (r: String) {
        "pacman".to_owned()
    }

    fn initialize(&self) -> (r: Invocation) {
        let argv = vec!["pacman".to_owned(), "--version".to_owned()];
        assert(views(argv@) =~= self.probe_argv());
        Invocation { argv }
    }

    fn search(&self, query: &str) -> (r: Invocation) {
        let argv = vec!["pacman".to_owned(), "-Ss".to_owned(), query.to_owned()];
        assert(views(argv@) =~= self.search_argv(query@));
        Invocation { argv }
    }

    fn install(&self, packages: &Vec<String>) -> (r: Invocation) {
        let prefix = vec!["pacman".to_owned(), "-S".to_owned(), "--noconfirm".to_owned()];
        assert(views(prefix@) =~= seq!["pacman"@, "-S"@, "--noconfirm"@]);
        Invocation { argv: with_packages(prefix, packages) }
    }

    fn remove(&self, packages: &Vec<String>) -> (r: Invocation) {
        let prefix = vec!["pacman".to_owned(), "-R".to_owned(), "--noconfirm".to_owned()];
        assert(views(prefix@) =~= seq!["pacman"@, "-R"@, "--noconfirm"@]);
        Invocation { argv: with_packages(prefix, packages) }
    }

    fn update_system(&self) -> (r: Invocation) {
        let argv = vec!["pacman".to_owned(), "-Syu".to_owned(), "--noconfirm".to_owned()];
        assert(views(argv@) =~= self.upgrade_argv());
        Invocation { argv }
    }

    fn get_updates(&self) -> (r: Invocation) {
        let argv = vec!["pacman".to_owned(), "-Qu".to_owned()];
        assert(views(argv@) =~= self.updates_argv());
        Invocation { argv }
    }

    fn parse_search_line(&self, line: &str) -> (r: Option<(String, String)>) {
        if line.unicode_len() == 0 || line.get_char(0) == ' ' {
            return None;
        }
        let ws = words_of(line);
        assert(views(ws@).len() == ws@.len());
        if ws.len() >= 2 {
            let parts = split_str(ws[0].as_str(), '/');
            assert(views(parts@).len() == parts@.len());
            if parts.len() >= 2 {
                assert(views(ws@)[0] == ws@[0]@ && views(ws@)[1] == ws@[1]@);
                assert(views(parts@)[1] == parts@[1]@);
                return Some((parts[1].clone(), ws[1].clone()));
            }
        }
        None
    }

    fn parse_update_line(&self, line: &str) -> (r: Option<(String, String, String)>) {
        let ws = words_of(line);
        assert(views(ws@).len() == ws@.len());
        if ws.len() >= 4 {
            let arrow = "->".to_owned();
            assert(views(ws@)[0] == ws@[0]@ && views(ws@)[1] == ws@[1]@);
            assert(views(ws@)[2] == ws@[2]@ && views(ws@)[3] == ws@[3]@);
            if ws[2] == arrow {
                return Some((ws[0].clone(), ws[1].clone(), ws[3].clone()));
            }
        }
        None
    }
}

} // verus!
