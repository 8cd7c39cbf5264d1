use vstd::prelude::*;
use crate::merge::failure_view;
use crate::package::{BackendFailure, PackageInfo, PackageUpdate};
use crate::registry::{Registry, SearchReport, UpdatesReport};
use crate::text::{push_char, views, words, words_of};

verus! {

/// The two input modes: keys act as commands, or they edit the command line.
#[derive(PartialEq, Eq, Structural, Clone, Copy, Debug)]
pub enum InputMode {
    Normal,
    Editing,
}

/// A key press, as the terminal layer reports it.
#[derive(PartialEq, Eq, Structural, Clone, Copy, Debug)]
pub enum Key {
    Char(char),
    Enter,
    Backspace,
    Esc,
    Tab,
    Other,
}

/// A command typed on the command line.
#[derive(Clone, Debug)]
pub enum Command {
    /// `search <query>`: search every backend.
    Search(String),
    /// `update`: list the pending updates of every backend.
    Update,
    /// A first word that names no command.
    Unknown,
    /// Nothing to do: an empty line, or `search` without a query.
    Nothing,
}

/// What the caller does after a key press.
#[derive(Clone, Debug)]
pub enum KeyAction {
    Quit,
    Continue,
    Run(Command),
}

/// The number of tabs: packages, updates, settings.
pub const TAB_COUNT: usize = 3;

/// The state of the interactive front end.
pub struct App {
    pub input_mode: InputMode,
    pub input: String,
    pub selected_tab: usize,
    pub package_list: Vec<PackageInfo>,
    pub updates_available: Vec<PackageUpdate>,
    pub error_message: Option<String>,
    pub status: String,
    pub registry: Registry,
}

/// Relies on String::pop: removes and returns the last character, or
/// returns `None` and leaves the string as it is when it is empty.
#[verifier::external_body]
fn pop_char(s: &mut String) -> (r: Option<char>)
    ensures
        old(s)@.len() == 0 ==> r is None && final(s)@ == old(s)@,
        old(s)@.len() > 0 ==> r == Some(old(s)@.last()) && final(s)@ == old(s)@.drop_last(),
{
    s.pop()
}

/// `c` is what the command line `line` asks for.
pub open spec fn command_matches(line: Seq<char>, c: Command) -> bool {
    let ws = words(line);
    if ws.len() == 0 {
        c is Nothing
    } else if ws[0] == "search"@ {
        if ws.len() >= 2 {
            c matches Command::Search(q) && q@ == ws[1]
        } else {
            c is Nothing
        }
    } else if ws[0] == "update"@ {
        c is Update
    } else {
        c is Unknown
    }
}

/// Reads a command line: its first word names the command, the second is
/// the search query.
pub fn parse_command(line: &str) -> (r: Command)
    ensures
        command_matches(line@, r),
{
    let ws = words_of(line);
    assert(views(ws@).len() == ws@.len());
    if ws.len() == 0 {
        return Command::Nothing;
    }
    assert(views(ws@)[0] == ws@[0]@);
    let search = "search".to_owned();
    let update = "update".to_owned();
    if ws[0] == search {
        if ws.len() >= 2 {
            assert(views(ws@)[1] == ws@[1]@);
            Command::Search(ws[1].clone())
        } else {
            Command::Nothing
        }
    } else if ws[0] == update {
        Command::Update
    } else {
        Command::Unknown
    }
}

pub open spec fn digit_char(d: nat) -> char {
    if d == 0 { '0' } else if d == 1 { '1' } else if d == 2 { '2' } else if d == 3 { '3' }
    else if d == 4 { '4' } else if d == 5 { '5' } else if d == 6 { '6' } else if d == 7 { '7' }
    else if d == 8 { '8' } else { '9' }
}

/// The decimal digits of `n`.
pub open spec fn decimal(n: nat) -> Seq<char>
    decreases n,
{
    if n < 10 {
        seq![digit_char(n)]
    } else {
        decimal(n / 10).push(digit_char(n % 10))
    }
}

fn digit(d: u64) -> (c: char)
    requires
        d < 10,
    ensures
        c == digit_char(d as nat),
{
    if d == 0 { '0' } else if d == 1 { '1' } else if d == 2 { '2' } else if d == 3 { '3' }
    else if d == 4 { '4' } else if d == 5 { '5' } else if d == 6 { '6' } else if d == 7 { '7' }
    else if d == 8 { '8' } else { '9' }
}

/// Appends the decimal digits of `n`.
pub fn push_decimal(s: &mut String, n: u64)
    ensures
        final(s)@ == old(s)@ + decimal(n as nat),
    decreases n,
{
    if n >= 10 {
        push_decimal(s, n / 10);
    }
    push_char(s, digit(n % 10));
    assert(final(s)@ =~= old(s)@ + decimal(n as nat)) by {
        if n >= 10 {
            assert(decimal(n as nat) == decimal((n / 10) as nat).push(digit_char((n % 10) as nat)));
        }
    };
}

/// The tags joined by ", ".
pub open spec fn joined(tags: Seq<Seq<char>>) -> Seq<char>
    decreases tags.len(),
{
    if tags.len() == 0 {
        Seq::empty()
    } else if tags.len() == 1 {
        tags[0]
    } else {
        joined(tags.drop_last()) + ", "@ + tags.last()
    }
}

/// `N results`, or `1 result`, followed by ` (a, b unavailable)` when some
/// backends failed.
pub open spec fn summary_text(n: nat, failed: Seq<Seq<char>>) -> Seq<char> {
    let count = decimal(n) + if n == 1 { " result"@ } else { " results"@ };
    if failed.len() == 0 {
        count
    } else {
        count + " ("@ + joined(failed) + " unavailable)"@
    }
}

pub open spec fn failed_tags(fs: Seq<BackendFailure>) -> Seq<Seq<char>> {
    fs.map_values(|f: BackendFailure| failure_view(f).0)
}

/// The one-line summary of a fan-out read: how many results, and which
/// backends did not answer.
pub fn summary(n: usize, failures: &Vec<BackendFailure>) -> (r: String)
    ensures
        r@ == summary_text(n as nat, failed_tags(failures@)),
{
    let mut s = String::new();
    push_decimal(&mut s, n as u64);
    if n == 1 {
        s.append(" result");
    } else {
        s.append(" results");
    }
    if failures.len() > 0 {
        let ghost count = s@;
        s.append(" (");
        let mut i: usize = 0;
        while i < failures.len()
            invariant
                i <= failures@.len(),
                failures@.len() > 0,
                s@ == count + " ("@ + joined(failed_tags(failures@.take(i as int))),
            decreases failures@.len() - i,
        {
            let ghost prev = s@;
            if i > 0 {
                s.append(", ");
            }
            s.append(failures[i].backend.as_str());
            proof {
                let t = failed_tags(failures@.take(i as int + 1));
                assert(t.drop_last() =~= failed_tags(failures@.take(i as int)));
                assert(t.last() == failures@[i as int].backend@);
                if i == 0 {
                    assert(joined(failed_tags(failures@.take(0))) =~= Seq::<char>::empty());
                    assert(joined(t) == t[0]);
                    assert(s@ =~= count + " ("@ + joined(t));
                } else {
                    assert(s@ =~= count + " ("@ + joined(t));
                }
            }
            i += 1;
        }
        assert(failures@.take(failures@.len() as int) =~= failures@);
        s.append(" unavailable)");
        assert(s@ =~= summary_text(n as nat, failed_tags(failures@)));
    }
    s
}

impl App {
    /// A fresh front end over the registered backends.
    pub fn new(registry: Registry) -> (r: App)
        ensures
            r.input_mode == InputMode::Normal,
            r.input@.len() == 0,
            r.selected_tab == 0,
            r.package_list@.len() == 0,
            r.updates_available@.len() == 0,
            r.error_message is None,
            r.status@.len() == 0,
            r.registry == registry,
    {
        App {
            input_mode: InputMode::Normal,
            input: String::new(),
            selected_tab: 0,
            package_list: Vec::new(),
            updates_available: Vec::new(),
            error_message: None,
            status: String::new(),
            registry,
        }
    }

    /// Applies one key press. In normal mode `q` quits, `e` starts editing and
    /// Tab moves to the next tab. In editing mode characters are typed,
    /// Backspace deletes, Esc leaves editing, and Enter hands over the typed
    /// command and clears the line.
    pub fn handle_key_event(&mut self, key: Key) -> (r: KeyAction)
        requires
            old(self).selected_tab < TAB_COUNT,
        ensures
            final(self).selected_tab < TAB_COUNT,
            final(self).registry == old(self).registry,
            final(self).package_list@ == old(self).package_list@,
            final(self).updates_available@ == old(self).updates_available@,
            final(self).error_message == old(self).error_message,
            final(self).status@ == old(self).status@,
            old(self).input_mode == InputMode::Normal ==> {
                &&& final(self).input@ == old(self).input@
                &&& key == Key::Char('q') ==> r is Quit && final(self).input_mode == InputMode::Normal
                &&& key == Key::Char('e') ==> r is Continue && final(self).input_mode == InputMode::Editing
                &&& key == Key::Tab ==> r is Continue && final(self).input_mode == InputMode::Normal
                    && final(self).selected_tab == (old(self).selected_tab + 1) % (TAB_COUNT as int)
                &&& key != Key::Tab ==> final(self).selected_tab == old(self).selected_tab
                &&& key != Key::Char('q') && key != Key::Char('e') ==> r is Continue
                    && final(self).input_mode == InputMode::Normal
            },
            old(self).input_mode == InputMode::Editing ==> {
                &&& final(self).selected_tab == old(self).selected_tab
                &&& key == Key::Enter ==> final(self).input@.len() == 0
                    && final(self).input_mode == InputMode::Normal
                    && (r matches KeyAction::Run(c) && command_matches(old(self).input@, c))
                &&& (key matches Key::Char(c) ==> r is Continue && final(self).input@ == old(self).input@.push(c)
                    && final(self).input_mode == InputMode::Editing)
                &&& key == Key::Backspace ==> r is Continue
                    && final(self).input@ == (if old(self).input@.len() == 0 { old(self).input@ } else { old(self).input@.drop_last() })
                    && final(self).input_mode == InputMode::Editing
                &&& key == Key::Esc ==> r is Continue && final(self).input@ == old(self).input@
                    && final(self).input_mode == InputMode::Normal
                &&& key == Key::Tab || key == Key::Other ==> r is Continue
                    && final(self).input@ == old(self).input@ && final(self).input_mode == InputMode::Editing
            },
    {
        match self.input_mode {
            InputMode::Normal => match key {
                Key::Char('q') => KeyAction::Quit,
                Key::Char('e') => {
                    self.input_mode = InputMode::Editing;
                    KeyAction::Continue
                },
                Key::Tab => {
                    self.selected_tab = (self.selected_tab + 1) % TAB_COUNT;
                    KeyAction::Continue
                },
                _ => KeyAction::Continue,
            },
            InputMode::Editing => match key {
                Key::Enter => {
                    let cmd = parse_command(self.input.as_str());
                    self.input = String::new();
                    self.input_mode = InputMode::Normal;
                    KeyAction::Run(cmd)
                },
                Key::Char(c) => {
                    push_char(&mut self.input, c);
                    KeyAction::Continue
                },
                Key::Backspace => {
                    pop_char(&mut self.input);
                    KeyAction::Continue
                },
                Key::Esc => {
                    self.input_mode = InputMode::Normal;
                    KeyAction::Continue
                },
                _ => KeyAction::Continue,
            },
        }
    }

    /// Shows the merged results of a search, with its summary line.
    pub fn show_search(&mut self, report: SearchReport)
        ensures
            final(self).package_list@ == report.merged.items@,
            final(self).status@ == summary_text(report.merged.items@.len() as nat, failed_tags(report.merged.failures@)),
            final(self).updates_available@ == old(self).updates_available@,
            final(self).input@ == old(self).input@,
            final(self).error_message == old(self).error_message,
            final(self).registry == old(self).registry,
            final(self).selected_tab == old(self).selected_tab,
            final(self).input_mode == old(self).input_mode,
    {
        self.status = summary(report.merged.items.len(), &report.merged.failures);
        self.package_list = report.merged.items;
    }

    /// Shows the merged pending updates, with their summary line.
    pub fn show_updates(&mut self, report: UpdatesReport)
        ensures
            final(self).updates_available@ == report.merged.items@,
            final(self).status@ == summary_text(report.merged.items@.len() as nat, failed_tags(report.merged.failures@)),
            final(self).package_list@ == old(self).package_list@,
            final(self).input@ == old(self).input@,
            final(self).error_message == old(self).error_message,
            final(self).registry == old(self).registry,
            final(self).selected_tab == old(self).selected_tab,
            final(self).input_mode == old(self).input_mode,
    {
        self.status = summary(report.merged.items.len(), &report.merged.failures);
        self.updates_available = report.merged.items;
    }

    /// Reports a command line whose first word names no command.
    pub fn show_unknown_command(&mut self)
        ensures
            final(self).error_message matches Some(m) && m@ == "Unknown command"@,
            final(self).registry == old(self).registry,
            final(self).package_list@ == old(self).package_list@,
            final(self).updates_available@ == old(self).updates_available@,
            final(self).input@ == old(self).input@,
            final(self).status@ == old(self).status@,
            final(self).input_mode == old(self).input_mode,
            final(self).selected_tab == old(self).selected_tab,
    {
        self.error_message = Some("Unknown command".to_owned());
    }
}

/// `name - version`: how a package is listed.
pub fn package_label(p: &PackageInfo) -> (r: String)
    ensures
        r@ == p.name@ + " - "@ + p.version@,
{
    let mut s = p.name.clone();
    s.append(" - ");
    s.append(p.version.as_str());
    s
}

/// `name -> version`: how a pending update is listed.
pub fn update_label(u: &PackageUpdate) -> (r: String)
    ensures
        r@ == u.name@ + " -> "@ + u.version@,
{
    let mut s = u.name.clone();
    s.append(" -> ");
    s.append(u.version.as_str());
    s
}

} // verus!
