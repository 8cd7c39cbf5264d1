use unipkg::apt::AptManager;
use unipkg::backend::{classify_mutation, classify_run, parse_search_output, parse_updates_output, read_result, PackageManager, RunStatus};
use unipkg::package::ErrorKind;
use unipkg::pacman::PacmanManager;
use unipkg::registry::{known_backends, Registry};
use unipkg::ui::summary;

fn both() -> Registry {
    match Registry::discover_and_register(&known_backends(), &vec![RunStatus::Exited(true), RunStatus::Exited(true)]) {
        Ok(r) => r,
        Err(_) => panic!("both backends were usable"),
    }
}

const APT_VIM: &str = "Listing...\nvim/jammy 9.0 amd64\n";

#[test]
fn search_merges_one_backend_and_reports_the_other() {
    let mut reg = both();
    let plan = reg.search_plan("vim", 1000);
    assert_eq!(plan.len(), 2);
    assert!(plan[0].is_some() && plan[1].is_some());
    let raw = vec![
        Some(Ok(APT_VIM.to_string())),
        Some(Err(ErrorKind::BackendInvocationFailed)),
    ];
    let report = reg.complete_search("vim", 1000, &raw);
    assert_eq!(report.merged.items.len(), 1);
    assert_eq!(report.merged.items[0].name, "vim");
    assert_eq!(report.merged.items[0].version, "9.0");
    assert_eq!(report.merged.items[0].backend, "apt");
    assert_eq!(report.merged.failures.len(), 1);
    assert_eq!(report.merged.failures[0].backend, "pacman");
    assert_eq!(report.merged.failures[0].kind, ErrorKind::BackendInvocationFailed);
    assert_eq!(summary(report.merged.items.len(), &report.merged.failures), "1 result (pacman unavailable)");
}

#[test]
fn merged_results_have_no_duplicate_pairs() {
    let mut reg = both();
    let raw = vec![
        Some(Ok("vim/jammy 9.0 amd64\nvim/jammy-updates 9.1 amd64\nvim-gtk/jammy 9.0 amd64\n".to_string())),
        Some(Ok("extra/vim 9.1-1\n    Vi Improved\n".to_string())),
    ];
    let report = reg.complete_search("vim", 5, &raw);
    let pairs: Vec<(String, String)> =
        report.merged.items.iter().map(|p| (p.name.clone(), p.backend.clone())).collect();
    assert_eq!(
        pairs,
        vec![
            ("vim".to_string(), "apt".to_string()),
            ("vim-gtk".to_string(), "apt".to_string()),
            ("vim".to_string(), "pacman".to_string()),
        ]
    );
    assert_eq!(report.merged.items[0].version, "9.0");
}

#[test]
fn merged_tags_are_active_backends() {
    let mut reg = both();
    let active = reg.active_backends();
    assert_eq!(active, vec!["apt".to_string(), "pacman".to_string()]);
    let raw = vec![Some(Ok(APT_VIM.to_string())), Some(Ok("core/vim 9.0-2\n".to_string()))];
    let report = reg.complete_search("vim", 7, &raw);
    assert_eq!(report.merged.items.len(), 2);
    for p in &report.merged.items {
        assert!(active.contains(&p.backend));
    }
}

#[test]
fn one_failing_backend_leaves_the_other_results() {
    let mut reg = both();
    let raw = vec![
        Some(Err(ErrorKind::BackendTimeout)),
        Some(Ok("vim 9.0-1 -> 9.1-1\ngit 2.40-1 -> 2.41-1\n".to_string())),
    ];
    let report = reg.complete_updates(10, &raw);
    assert_eq!(report.merged.items.len(), 2);
    assert_eq!(report.merged.items[1].name, "git");
    assert_eq!(report.merged.items[1].current_version, "2.40-1");
    assert_eq!(report.merged.items[1].version, "2.41-1");
    assert_eq!(report.merged.failures.len(), 1);
    assert_eq!(report.merged.failures[0].backend, "apt");
    assert_eq!(report.merged.failures[0].kind, ErrorKind::BackendTimeout);
    assert_eq!(summary(2, &report.merged.failures), "2 results (apt unavailable)");
}

#[test]
fn cached_search_is_served_until_install_purges_it() {
    let mut reg = both();
    let raw = vec![Some(Ok(APT_VIM.to_string())), Some(Ok(String::new()))];
    reg.complete_search("vim", 100, &raw);
    let plan = reg.search_plan("vim", 200);
    assert!(plan[0].is_none() && plan[1].is_none());
    let from_cache = reg.complete_search("vim", 200, &vec![None, None]);
    assert_eq!(from_cache.merged.items.len(), 1);
    assert_eq!(from_cache.merged.items[0].name, "vim");

    let apt = reg.backend_index("apt").unwrap();
    let inv = reg.install(apt, &vec!["vim".to_string()], 300);
    assert_eq!(inv.argv, vec!["apt-get", "install", "-y", "vim"]);
    let plan = reg.search_plan("vim", 301);
    assert!(plan[0].is_some());
    assert!(plan[1].is_none());
    let after = reg.complete_search("vim", 301, &vec![None, None]);
    assert_eq!(after.merged.items.len(), 0);
    assert_eq!(after.merged.failures.len(), 1);
    assert_eq!(reg.finish_mutation(apt, 400, &vec![RunStatus::Exited(true)]), Ok(()));
    // a read issued before the install ended is not cached
    reg.complete_search("vim", 350, &vec![Some(Ok(APT_VIM.to_string())), None]);
    assert!(reg.search_plan("vim", 360)[0].is_some());
    assert!(reg.handles[apt].cache.lookup_search("vim", 360).is_none());
}

#[test]
fn cached_updates_expire_after_the_time_to_live() {
    let mut reg = both();
    reg.complete_updates(0, &vec![Some(Ok(String::new())), Some(Ok("vim 1 -> 2\n".to_string()))]);
    assert!(reg.updates_plan(29_999)[1].is_none());
    assert!(reg.updates_plan(30_000)[1].is_some());
}

#[test]
fn update_system_twice_succeeds_both_times() {
    let mut reg = both();
    let pacman = reg.backend_index("pacman").unwrap();
    let first = reg.update_system(pacman, 1);
    assert_eq!(reg.finish_mutation(pacman, 2, &vec![RunStatus::Exited(true)]), Ok(()));
    let second = reg.update_system(pacman, 3);
    assert_eq!(reg.finish_mutation(pacman, 4, &vec![RunStatus::Exited(true)]), Ok(()));
    assert_eq!(first.argv, second.argv);
    assert_eq!(first.argv, vec!["pacman", "-Syu", "--noconfirm"]);
}

#[test]
fn timed_out_backend_is_reported_as_timeout() {
    assert_eq!(classify_run(RunStatus::TimedOut), Err(ErrorKind::BackendTimeout));
    assert_eq!(classify_run(RunStatus::NotStarted), Err(ErrorKind::BackendUnavailable));
    assert_eq!(classify_run(RunStatus::Exited(false)), Err(ErrorKind::BackendInvocationFailed));
    assert_eq!(read_result(RunStatus::Exited(true), "x".to_string()), Ok("x".to_string()));
    let mut reg = both();
    let raw = vec![
        Some(read_result(RunStatus::Exited(true), APT_VIM.to_string())),
        Some(read_result(RunStatus::TimedOut, String::new())),
    ];
    let report = reg.complete_search("vim", 1, &raw);
    assert_eq!(report.merged.items.len(), 1);
    assert_eq!(report.merged.failures[0].kind, ErrorKind::BackendTimeout);
}

#[test]
fn discovery_keeps_usable_backends_only() {
    let reg = match Registry::discover_and_register(&known_backends(), &vec![RunStatus::Exited(false), RunStatus::Exited(true)]) {
        Ok(r) => r,
        Err(_) => panic!("pacman was usable"),
    };
    assert_eq!(reg.active_backends(), vec!["pacman".to_string()]);
    assert_eq!(reg.unavailable.len(), 1);
    assert_eq!(reg.unavailable[0].backend, "apt");
    assert_eq!(reg.unavailable[0].kind, ErrorKind::BackendUnavailable);
    assert!(reg.backend_index("apt").is_none());
}

#[test]
fn discovery_fails_when_nothing_is_usable() {
    match Registry::discover_and_register(&known_backends(), &vec![RunStatus::NotStarted, RunStatus::TimedOut]) {
        Ok(_) => panic!("no backend was usable"),
        Err(e) => {
            assert_eq!(e.kind, ErrorKind::NoBackendsAvailable);
            let tried: Vec<(String, ErrorKind)> = e.tried.iter().map(|f| (f.backend.clone(), f.kind)).collect();
            assert_eq!(
                tried,
                vec![
                    ("apt".to_string(), ErrorKind::BackendUnavailable),
                    ("pacman".to_string(), ErrorKind::BackendUnavailable),
                ]
            );
        }
    }
}

#[test]
fn apt_commands_and_output() {
    let apt = AptManager::new();
    assert_eq!(apt.tag(), "apt");
    assert_eq!(apt.initialize().argv, vec!["apt-get", "--version"]);
    assert_eq!(apt.search("vim").argv, vec!["apt", "list", "vim"]);
    assert_eq!(apt.remove(&vec!["a".to_string(), "b".to_string()]).argv, vec!["apt-get", "remove", "-y", "a", "b"]);
    assert_eq!(apt.get_updates().argv, vec!["apt", "list", "--upgradable"]);
    let ups = parse_updates_output(
        &apt,
        "Listing...\nvim/jammy-updates 2:9.1 amd64 [upgradable from: 2:9.0]\n",
    );
    assert_eq!(ups.len(), 1);
    assert_eq!(ups[0].name, "vim");
    assert_eq!(ups[0].current_version, "2:9.0");
    assert_eq!(ups[0].version, "2:9.1");
    assert_eq!(ups[0].backend, "apt");
}

#[test]
fn pacman_commands_and_output() {
    let pacman = PacmanManager::new();
    assert_eq!(pacman.install(&vec!["vim".to_string()]).argv, vec!["pacman", "-S", "--noconfirm", "vim"]);
    let found = parse_search_output(&pacman, "extra/vim 9.1-1 [installed]\n    Vi Improved\ncore/vi 1:070224-6\n");
    assert_eq!(found.len(), 2);
    assert_eq!(found[0].name, "vim");
    assert_eq!(found[0].version, "9.1-1");
    assert_eq!(found[1].name, "vi");
    assert!(found[1].description.is_none());
}

#[test]
fn mutations_that_partly_succeed_are_told_apart() {
    let ok = RunStatus::Exited(true);
    let bad = RunStatus::Exited(false);
    assert_eq!(classify_mutation(&vec![ok, ok]), Ok(()));
    assert_eq!(classify_mutation(&vec![ok, bad]), Err(ErrorKind::PartialOperationFailure));
    assert_eq!(classify_mutation(&vec![RunStatus::TimedOut, bad]), Err(ErrorKind::BackendTimeout));
    let mut reg = both();
    let apt = reg.backend_index("apt").unwrap();
    reg.install(apt, &vec!["a".to_string(), "b".to_string()], 5);
    assert_eq!(reg.finish_mutation(apt, 6, &vec![ok, bad]), Err(ErrorKind::PartialOperationFailure));
}
