use unipkg::backend::RunStatus;
use unipkg::package::{BackendFailure, ErrorKind, PackageInfo, PackageUpdate};
use unipkg::registry::{known_backends, Registry};
use unipkg::text::{split_str, words_of};
use unipkg::ui::{package_label, parse_command, summary, update_label, App, Command, InputMode, Key, KeyAction};

fn app() -> App {
    match Registry::discover_and_register(&known_backends(), &vec![RunStatus::Exited(true), RunStatus::Exited(false)]) {
        Ok(r) => App::new(r),
        Err(_) => panic!("apt was usable"),
    }
}

#[test]
fn normal_mode_keys() {
    let mut a = app();
    assert!(matches!(a.handle_key_event(Key::Tab), KeyAction::Continue));
    assert_eq!(a.selected_tab, 1);
    a.handle_key_event(Key::Tab);
    a.handle_key_event(Key::Tab);
    assert_eq!(a.selected_tab, 0);
    assert!(matches!(a.handle_key_event(Key::Char('x')), KeyAction::Continue));
    assert!(matches!(a.handle_key_event(Key::Char('q')), KeyAction::Quit));
}

#[test]
fn editing_a_command_line() {
    let mut a = app();
    a.handle_key_event(Key::Char('e'));
    assert_eq!(a.input_mode, InputMode::Editing);
    for c in "search vimm".chars() {
        a.handle_key_event(Key::Char(c));
    }
    a.handle_key_event(Key::Backspace);
    assert_eq!(a.input, "search vim");
    match a.handle_key_event(Key::Enter) {
        KeyAction::Run(Command::Search(q)) => assert_eq!(q, "vim"),
        _ => panic!("a search was typed"),
    }
    assert_eq!(a.input, "");
    assert_eq!(a.input_mode, InputMode::Normal);
    a.handle_key_event(Key::Char('e'));
    a.handle_key_event(Key::Esc);
    assert_eq!(a.input_mode, InputMode::Normal);
}

#[test]
fn command_lines_split_at_any_whitespace() {
    assert!(matches!(parse_command("\u{3000}"), Command::Nothing));
    assert!(matches!(parse_command("search\u{3000}"), Command::Nothing));
    assert!(matches!(parse_command("update\u{3000}"), Command::Update));
    match parse_command("\tsearch\u{3000}vim\u{a0}x") {
        Command::Search(q) => assert_eq!(q, "vim"),
        _ => panic!("a search was typed"),
    }
    assert_eq!(words_of("a\u{2003}b\nc"), vec!["a", "b", "c"]);
}

#[test]
fn command_lines() {
    assert!(matches!(parse_command("update"), Command::Update));
    assert!(matches!(parse_command("  "), Command::Nothing));
    assert!(matches!(parse_command("search"), Command::Nothing));
    assert!(matches!(parse_command("frobnicate x"), Command::Unknown));
    match parse_command("  search   htop extra") {
        Command::Search(q) => assert_eq!(q, "htop"),
        _ => panic!("a search was typed"),
    }
}

#[test]
fn summaries_and_labels() {
    assert_eq!(summary(0, &vec![]), "0 results");
    assert_eq!(summary(1, &vec![]), "1 result");
    let fs = vec![
        BackendFailure { backend: "apt".to_string(), kind: ErrorKind::BackendTimeout },
        BackendFailure { backend: "pacman".to_string(), kind: ErrorKind::BackendUnavailable },
    ];
    assert_eq!(summary(120, &fs), "120 results (apt, pacman unavailable)");
    let p = PackageInfo { name: "vim".to_string(), version: "9.0".to_string(), backend: "apt".to_string(), description: None };
    assert_eq!(package_label(&p), "vim - 9.0");
    let u = PackageUpdate {
        name: "vim".to_string(),
        current_version: "9.0".to_string(),
        version: "9.1".to_string(),
        backend: "apt".to_string(),
    };
    assert_eq!(update_label(&u), "vim -> 9.1");
}

#[test]
fn showing_results() {
    let mut a = app();
    let report = a.registry.complete_search("vim", 3, &vec![Some(Ok("vim/jammy 9.0 amd64\n".to_string()))]);
    a.show_search(report);
    assert_eq!(a.package_list.len(), 1);
    assert_eq!(a.status, "1 result");
    a.show_unknown_command();
    assert_eq!(a.error_message.as_deref(), Some("Unknown command"));
    assert_eq!(a.status, "1 result");
    assert!(matches!(a.handle_key_event(Key::Char('x')), KeyAction::Continue));
    assert_eq!(a.package_list.len(), 1);
}

#[test]
fn splitting_text() {
    assert_eq!(split_str("a//b", '/'), vec!["a", "", "b"]);
    assert_eq!(split_str("", '/'), vec![""]);
    assert_eq!(words_of("  one two  three "), vec!["one", "two", "three"]);
}
