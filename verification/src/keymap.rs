//! Which key does what.

use vstd::prelude::*;

use crate::event::{KeyCode, KeyEvent};

verus! {

/// How many lines the page keys scroll by.
pub const PAGE: i32 = 10;

/// What a key press asks for.
#[derive(Clone, Copy, Debug, PartialEq, Eq, Structural)]
pub enum Action {
    Ignore,
    /// Leave, and stop all targets.
    KillAll,
    /// Leave, with all targets running on.
    Detach,
    OpenHelp,
    CloseHelp,
    CloseDescription,
    OpenSearch,
    EndSearch,
    NextMatch,
    EraseFromQuery,
    AddToQuery(char),
    /// Move the selection by so many rows.
    Move(i32),
    /// Scroll the log by so many lines.
    Scroll(i32),
    ExpandFolder,
    CollapseFolder,
    ToggleFolder,
    Start,
    Stop,
    Restart,
    RestartAll,
    DumpLog,
    ClearLog,
    ToggleWrap,
    ToggleZoom,
    Describe,
    Edit,
}

/// The keys that leave the application from an overlay; the others are swallowed.
pub open spec fn overlay_action(key: KeyEvent) -> Action {
    if key.code == KeyCode::Char('Q') || is_ctrl_c(key) {
        Action::KillAll
    } else if key.code == KeyCode::Char('q') {
        Action::Detach
    } else {
        Action::Ignore
    }
}

/// Whether the key is `c` with the control key held.
pub open spec fn is_ctrl_c(key: KeyEvent) -> bool {
    key.code == KeyCode::Char('c') && key.control
}

/// While searching, every character but `/` goes into the query.
pub open spec fn search_action(key: KeyEvent) -> Action {
    if is_ctrl_c(key) {
        Action::KillAll
    } else {
        match key.code {
            KeyCode::Esc => Action::EndSearch,
            KeyCode::Enter => Action::NextMatch,
            KeyCode::Backspace => Action::EraseFromQuery,
            KeyCode::Char(c) => if c == '/' {
                Action::NextMatch
            } else {
                Action::AddToQuery(c)
            },
            _ => Action::Ignore,
        }
    }
}

/// What a character key does when no overlay is open and no search goes on.
pub open spec fn char_action(c: char) -> Action {
    if c == 'Q' {
        Action::KillAll
    } else if c == 'q' {
        Action::Detach
    } else if c == '?' {
        Action::OpenHelp
    } else if c == '/' {
        Action::OpenSearch
    } else if c == 'k' {
        Action::Move((-1) as i32)
    } else if c == 'j' {
        Action::Move(1)
    } else if c == 'b' {
        Action::Scroll((-PAGE) as i32)
    } else if c == 'f' {
        Action::Scroll(PAGE)
    } else if c == 'l' {
        Action::ExpandFolder
    } else if c == 'h' {
        Action::CollapseFolder
    } else if c == ' ' {
        Action::ToggleFolder
    } else if c == 'r' {
        Action::Restart
    } else if c == 'R' {
        Action::RestartAll
    } else if c == 's' {
        Action::Stop
    } else if c == 'S' {
        Action::Start
    } else if c == 'd' {
        Action::DumpLog
    } else if c == 'c' {
        Action::ClearLog
    } else if c == 'w' {
        Action::ToggleWrap
    } else if c == 'z' {
        Action::ToggleZoom
    } else if c == 'D' {
        Action::Describe
    } else if c == 'E' {
        Action::Edit
    } else {
        Action::Ignore
    }
}

/// What a key does when no overlay is open and no search goes on.
pub open spec fn plain_action(key: KeyEvent) -> Action {
    if is_ctrl_c(key) {
        Action::KillAll
    } else {
        match key.code {
            KeyCode::Char(c) => char_action(c),
            KeyCode::Up => Action::Move((-1) as i32),
            KeyCode::Down => Action::Move(1),
            KeyCode::Tab => Action::Move(1),
            KeyCode::PageUp => Action::Scroll((-PAGE) as i32),
            KeyCode::PageDown => Action::Scroll(PAGE),
            KeyCode::Right => Action::ExpandFolder,
            KeyCode::Left => Action::CollapseFolder,
            KeyCode::Enter => Action::ToggleFolder,
            _ => Action::Ignore,
        }
    }
}

/// What a key press asks for, by what is open: the help, a description, a search.
pub open spec fn bound_action(
    help: bool,
    describing: bool,
    searching: bool,
    key: KeyEvent,
) -> Action {
    if help {
        if key.code == KeyCode::Char('?') || key.code == KeyCode::Esc {
            Action::CloseHelp
        } else {
            overlay_action(key)
        }
    } else if describing {
        if key.code == KeyCode::Char('D') || key.code == KeyCode::Esc {
            Action::CloseDescription
        } else {
            overlay_action(key)
        }
    } else if searching {
        search_action(key)
    } else {
        plain_action(key)
    }
}

fn overlay_key(key: KeyEvent) -> (r: Action)
    ensures
        r == overlay_action(key),
{
    if key.code == KeyCode::Char('Q') || (key.code == KeyCode::Char('c') && key.control) {
        Action::KillAll
    } else if key.code == KeyCode::Char('q') {
        Action::Detach
    } else {
        Action::Ignore
    }
}

fn search_key(key: KeyEvent) -> (r: Action)
    ensures
        r == search_action(key),
{
    if key.code == KeyCode::Char('c') && key.control {
        return Action::KillAll;
    }
    match key.code {
        KeyCode::Esc => Action::EndSearch,
        KeyCode::Enter => Action::NextMatch,
        KeyCode::Backspace => Action::EraseFromQuery,
        KeyCode::Char('/') => Action::NextMatch,
        KeyCode::Char(c) => Action::AddToQuery(c),
        _ => Action::Ignore,
    }
}

fn plain_key(key: KeyEvent) -> (r: Action)
    ensures
        r == plain_action(key),
{
    if key.code == KeyCode::Char('c') && key.control {
        return Action::KillAll;
    }
    match key.code {
        KeyCode::Char('Q') => Action::KillAll,
        KeyCode::Char('q') => Action::Detach,
        KeyCode::Char('?') => Action::OpenHelp,
        KeyCode::Char('/') => Action::OpenSearch,
        KeyCode::Up | KeyCode::Char('k') => Action::Move(-1),
        KeyCode::Down | KeyCode::Char('j') | KeyCode::Tab => Action::Move(1),
        KeyCode::PageUp | KeyCode::Char('b') => Action::Scroll(-PAGE),
        KeyCode::PageDown | KeyCode::Char('f') => Action::Scroll(PAGE),
        KeyCode::Right | KeyCode::Char('l') => Action::ExpandFolder,
        KeyCode::Left | KeyCode::Char('h') => Action::CollapseFolder,
        KeyCode::Enter | KeyCode::Char(' ') => Action::ToggleFolder,
        KeyCode::Char('r') => Action::Restart,
        KeyCode::Char('R') => Action::RestartAll,
        KeyCode::Char('s') => Action::Stop,
        KeyCode::Char('S') => Action::Start,
        KeyCode::Char('d') => Action::DumpLog,
        KeyCode::Char('c') => Action::ClearLog,
        KeyCode::Char('w') => Action::ToggleWrap,
        KeyCode::Char('z') => Action::ToggleZoom,
        KeyCode::Char('D') => Action::Describe,
        KeyCode::Char('E') => Action::Edit,
        _ => Action::Ignore,
    }
}

/// Looks up what a key press asks for, by what is open: the help, a description,
/// a search.
pub fn action_for(help: bool, describing: bool, searching: bool, key: KeyEvent) -> (r: Action)
    ensures
        r == bound_action(help, describing, searching, key),
{
    if help {
        if key.code == KeyCode::Char('?') || key.code == KeyCode::Esc {
            Action::CloseHelp
        } else {
            overlay_key(key)
        }
    } else if describing {
        if key.code == KeyCode::Char('D') || key.code == KeyCode::Esc {
            Action::CloseDescription
        } else {
            overlay_key(key)
        }
    } else if searching {
        search_key(key)
    } else {
        plain_key(key)
    }
}

/// Control and `c` leaves and stops all targets, whatever is open.
pub proof fn law_ctrl_c_always_kills(help: bool, describing: bool, searching: bool, key: KeyEvent)
    requires
        is_ctrl_c(key),
    ensures
        bound_action(help, describing, searching, key) == Action::KillAll,
{
}

/// While searching, every character goes into the query, but for `/` and for `c` with
/// the control key.
pub proof fn law_search_takes_every_character(c: char, control: bool)
    requires
        c != '/',
        !(c == 'c' && control),
    ensures
        bound_action(false, false, true, KeyEvent { code: KeyCode::Char(c), control })
            == Action::AddToQuery(c),
{
}

} // verus!
