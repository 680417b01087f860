//! The application's state machine, driven by events.

use std::collections::BTreeMap;
use std::sync::{Arc, Mutex};

use tukituki::app::App;
use tukituki::area::Area;
use tukituki::event::{AppEvent, KeyCode, KeyEvent};
use tukituki::handle::ManagerHandle;
use tukituki::names::NameMap;
use tukituki::screen::Draw;
use tukituki::spans::Piece;
use tukituki::target::{RunTarget, Status};
use tukituki::view::render;

#[derive(Default)]
struct FakeManager {
    statuses: Mutex<BTreeMap<String, Status>>,
    log_lines: Mutex<BTreeMap<String, Vec<String>>>,
    started: Mutex<Vec<String>>,
    stopped: Mutex<Vec<String>>,
    restarted: Mutex<Vec<String>>,
    dumped: Mutex<Vec<(String, String)>>,
    cleared: Mutex<Vec<String>>,
    /// The statuses to return after the next `reload_state_from_disk`.
    pending_reload_statuses: Mutex<Option<BTreeMap<String, Status>>>,
    reload_count: Mutex<usize>,
    /// The manager's own target list. `update_targets` overwrites it and
    /// `ensure_otel_collector` appends the virtual entry.
    targets: Mutex<Vec<RunTarget>>,
    /// Whether `ensure_otel_collector` registers the virtual target.
    otel_enabled: Mutex<bool>,
}

impl ManagerHandle for FakeManager {
    fn get_all_statuses(&self) -> NameMap<Status> {
        let mut all = NameMap::new();
        for (name, status) in self.statuses.lock().unwrap().iter() {
            all.insert(name.clone(), *status);
        }
        all
    }
    fn get_targets(&self) -> Vec<RunTarget> {
        self.targets.lock().unwrap().clone()
    }
    fn get_log_lines(&self, name: &str) -> Vec<String> {
        self.log_lines.lock().unwrap().get(name).cloned().unwrap_or_default()
    }
    fn start(&self, name: &str) -> Result<(), String> {
        self.started.lock().unwrap().push(name.into());
        Ok(())
    }
    fn stop(&self, name: &str) -> Result<(), String> {
        self.stopped.lock().unwrap().push(name.into());
        Ok(())
    }
    fn restart(&self, name: &str) -> Result<(), String> {
        self.restarted.lock().unwrap().push(name.into());
        Ok(())
    }
    fn dump_log(&self, name: &str, dest: &str) -> Result<(), String> {
        self.dumped.lock().unwrap().push((name.into(), dest.into()));
        Ok(())
    }
    fn clear_log(&self, name: &str) -> Result<(), String> {
        self.cleared.lock().unwrap().push(name.into());
        Ok(())
    }
    fn stop_all(&self) -> Result<(), String> {
        Ok(())
    }
    fn update_targets(&self, targets: Vec<RunTarget>) {
        *self.targets.lock().unwrap() = targets;
    }
    fn describe(&self, name: &str) -> String {
        format!("description of {name}")
    }
    fn ensure_otel_collector(&self) -> Result<(), String> {
        if *self.otel_enabled.lock().unwrap() {
            let mut targets = self.targets.lock().unwrap();
            if !targets.iter().any(|t| t.name == "otel-errors") {
                targets.push(virtual_target("otel-errors"));
            }
        }
        Ok(())
    }
    fn log_file_path(&self, _name: &str) -> Option<String> {
        None
    }
    fn state_file_path(&self) -> String {
        "/tmp/fake-tukituki-state.json".to_string()
    }
    fn reload_state_from_disk(&self) {
        *self.reload_count.lock().unwrap() += 1;
        if let Some(new) = self.pending_reload_statuses.lock().unwrap().take() {
            *self.statuses.lock().unwrap() = new;
        }
    }
}

fn target(name: &str) -> RunTarget {
    RunTarget { name: name.into(), command: "true".into(), ..Default::default() }
}

fn grouped(name: &str, group: &str) -> RunTarget {
    RunTarget {
        name: name.into(),
        group: group.into(),
        command: "true".into(),
        ..Default::default()
    }
}

fn virtual_target(name: &str) -> RunTarget {
    RunTarget {
        name: name.into(),
        is_virtual: true,
        command: "true".into(),
        ..Default::default()
    }
}

fn make_app(targets: Vec<RunTarget>) -> App<FakeManager> {
    App::new(targets, Arc::new(FakeManager::default()), ".".to_string(), ".".to_string())
}

fn key(code: KeyCode) -> AppEvent {
    AppEvent::Key(KeyEvent { code, control: false })
}

fn dispatch<H: ManagerHandle>(app: &mut App<H>, ev: AppEvent) -> bool {
    app.handle(ev).continue_loop
}

/// The lines of text on the screen.
fn screen_lines<H: ManagerHandle>(app: &App<H>, width: u16, height: u16) -> Vec<String> {
    let area = Area { x: 0, y: 0, width, height };
    let mut out = Vec::new();
    for step in render(area, app) {
        if let Draw::Text { lines, .. } = step {
            for line in lines {
                let mut text = String::new();
                for piece in line.pieces {
                    if let Piece::Text { text: t, .. } = piece {
                        text.push_str(&t);
                    }
                }
                out.push(text);
            }
        }
    }
    out
}

#[test]
fn down_arrow_moves_selection() {
    let mut app = make_app(vec![target("a"), target("b"), target("c")]);
    assert_eq!(app.selected, 0);
    dispatch(&mut app, key(KeyCode::Down));
    assert_eq!(app.selected, 1);
    dispatch(&mut app, key(KeyCode::Char('j')));
    assert_eq!(app.selected, 2);
    // Past-end clamps.
    dispatch(&mut app, key(KeyCode::Down));
    assert_eq!(app.selected, 2);
}

#[test]
fn up_arrow_moves_selection() {
    let mut app = make_app(vec![target("a"), target("b"), target("c")]);
    app.selected = 2;
    dispatch(&mut app, key(KeyCode::Up));
    assert_eq!(app.selected, 1);
    dispatch(&mut app, key(KeyCode::Char('k')));
    assert_eq!(app.selected, 0);
    // Past-start clamps.
    dispatch(&mut app, key(KeyCode::Up));
    assert_eq!(app.selected, 0);
}

#[test]
fn folder_expand_collapse_reshapes_rows() {
    let mut app = make_app(vec![
        target("api"),
        grouped("kb-a", "kb"),
        grouped("kb-b", "kb"),
    ]);
    // Initial: top-level row, then a single folder header (collapsed).
    assert_eq!(app.rows.len(), 2);

    // Select the folder header and expand it.
    app.selected = 1;
    dispatch(&mut app, key(KeyCode::Right));
    assert_eq!(app.rows.len(), 4, "expanded folder should show its members");

    // Collapse.
    dispatch(&mut app, key(KeyCode::Char('h')));
    assert_eq!(app.rows.len(), 2);
}

#[test]
fn enter_toggles_selected_folder() {
    let mut app = make_app(vec![grouped("kb-a", "kb")]);
    app.selected = 0; // the folder header (kb-a is grouped, so no top-level rows)
    assert_eq!(app.rows.len(), 1);
    dispatch(&mut app, key(KeyCode::Enter));
    assert_eq!(app.rows.len(), 2, "Enter should expand");
    dispatch(&mut app, key(KeyCode::Enter));
    assert_eq!(app.rows.len(), 1, "Enter should re-collapse");
}

#[test]
fn detach_quits_loop_without_stop_all() {
    let mut app = make_app(vec![target("a")]);
    let cont = app.handle(AppEvent::Key(KeyEvent { code: KeyCode::Char('q'), control: false }));
    assert!(!cont.continue_loop, "q should end the loop");
    assert!(!cont.stop_all, "q should NOT request stop_all");
}

#[test]
fn shift_q_quits_with_stop_all() {
    let mut app = make_app(vec![target("a")]);
    let cont = app.handle(AppEvent::Key(KeyEvent { code: KeyCode::Char('Q'), control: false }));
    assert!(!cont.continue_loop);
    assert!(cont.stop_all, "Q should request stop_all");
}

#[test]
fn ctrl_c_quits_with_stop_all() {
    let mut app = make_app(vec![target("a")]);
    let cont = app.handle(AppEvent::Key(KeyEvent { code: KeyCode::Char('c'), control: true }));
    assert!(!cont.continue_loop);
    assert!(cont.stop_all);
}

#[test]
fn start_key_calls_manager_start() {
    let mgr = std::sync::Arc::new(FakeManager::default());
    let mut app = App::new(
        vec![target("alpha")],
        mgr.clone(),
        ".".to_string(),
        ".".to_string(),
    );
    app.selected = 0;
    dispatch(&mut app, key(KeyCode::Char('S')));
    let started = mgr.started.lock().unwrap();
    assert_eq!(*started, vec!["alpha".to_string()]);
}

#[test]
fn stop_key_calls_manager_stop() {
    let mgr = std::sync::Arc::new(FakeManager::default());
    let mut app = App::new(
        vec![target("alpha")],
        mgr.clone(),
        ".".to_string(),
        ".".to_string(),
    );
    dispatch(&mut app, key(KeyCode::Char('s')));
    let stopped = mgr.stopped.lock().unwrap();
    assert_eq!(*stopped, vec!["alpha".to_string()]);
}

#[test]
fn restart_key_calls_manager_restart() {
    let mgr = std::sync::Arc::new(FakeManager::default());
    let mut app = App::new(
        vec![target("alpha")],
        mgr.clone(),
        ".".to_string(),
        ".".to_string(),
    );
    dispatch(&mut app, key(KeyCode::Char('r')));
    assert_eq!(*mgr.restarted.lock().unwrap(), vec!["alpha".to_string()]);
}

#[test]
fn op_done_removes_in_flight_entry_and_flashes_summary() {
    // Simulate the asynchronous path: an action handler would have
    // pushed into `in_flight` with some id, spawned a worker, and the
    // worker would eventually post OpDone. Here we seed in_flight by
    // hand and verify the OpDone handler does the cleanup.
    let mut app = make_app(vec![target("a")]);
    app.in_flight.insert(42, "restarting a".into());
    assert_eq!(app.in_flight.len(), 1);
    dispatch(
        &mut app,
        AppEvent::OpDone {
            id: 42,
            summary: "restarted a".into(),
        },
    );
    assert!(
        app.in_flight.is_empty(),
        "OpDone must remove the in-flight entry"
    );
    assert_eq!(
        app.status_msg, "restarted a",
        "OpDone summary should flash in the header"
    );
}

#[test]
fn restart_all_runs_synchronously_in_tests_and_clears_in_flight() {
    // No event sender is attached in tests, so spawn_op falls back to
    // running the work inline. Verify the in-flight map is empty after
    // dispatch (insert + immediate remove) and that the manager
    // observed the stop+start sequence.
    let mgr = std::sync::Arc::new(FakeManager::default());
    let mut app = App::new(
        vec![target("a"), target("b")],
        mgr.clone(),
        ".".to_string(),
        ".".to_string(),
    );
    dispatch(&mut app, key(KeyCode::Char('R')));
    assert!(
        app.in_flight.is_empty(),
        "synchronous fallback should not leave in-flight entries behind"
    );
    assert_eq!(*mgr.stopped.lock().unwrap(), vec!["a", "b"]);
    assert_eq!(*mgr.started.lock().unwrap(), vec!["a", "b"]);
    assert!(
        app.status_msg.contains("restarted 2 target(s)"),
        "summary should flash after synchronous restart-all, got {:?}",
        app.status_msg
    );
}

#[test]
fn state_file_change_reloads_and_refreshes_statuses() {
    // Models the external-CLI scenario: TUI's cached status is Running;
    // an external `tukituki restart` rewrites state.json and the new
    // PID is alive — but the TUI's status would only update after a
    // reload. Firing StateFileChange should pull the fresh statuses in.
    let mgr = std::sync::Arc::new(FakeManager::default());
    mgr.statuses
        .lock()
        .unwrap()
        .insert("alpha".into(), Status::Running);
    let mut app = App::new(
        vec![target("alpha")],
        mgr.clone(),
        ".".to_string(),
        ".".to_string(),
    );
    app.statuses = mgr.get_all_statuses();
    // Stage the post-reload statuses the manager will switch to when
    // reload_state_from_disk fires.
    let mut after = BTreeMap::new();
    after.insert("alpha".into(), Status::Failed);
    *mgr.pending_reload_statuses.lock().unwrap() = Some(after);

    dispatch(&mut app, AppEvent::StateFileChange);

    assert_eq!(
        *mgr.reload_count.lock().unwrap(),
        1,
        "StateFileChange must call reload_state_from_disk exactly once"
    );
    assert_eq!(
        app.statuses.get("alpha").copied(),
        Some(Status::Failed),
        "App should adopt the post-reload manager statuses"
    );
}

#[test]
fn file_change_reload_keeps_virtual_otel_target() {
    // The run files define no virtual `otel-errors` entry, so the list that
    // comes with the event does not hold one. The sidebar must go by what the
    // manager has after the reload, or the `─ collectors ─` cluster would be
    // gone for the rest of the session.
    let mgr = std::sync::Arc::new(FakeManager::default());
    *mgr.otel_enabled.lock().unwrap() = true;
    // Startup state: the manager already registered the collector, so
    // the App is handed the list with the virtual target in it.
    mgr.update_targets(vec![target("alpha")]);
    mgr.ensure_otel_collector().unwrap();

    let mut app = App::new(
        mgr.get_targets(),
        mgr.clone(),
        ".run".to_string(),
        ".".to_string(),
    );
    assert!(
        app.targets.iter().any(|t| t.name == "otel-errors"),
        "precondition: collector row present before the reload"
    );
    let rows_before = app.rows.len();

    dispatch(&mut app, AppEvent::FileChange(Some(vec![target("alpha")])));

    assert!(
        app.targets.iter().any(|t| t.name == "otel-errors"),
        "collector must survive a run-file reload, got {:?}",
        app.targets.iter().map(|t| &t.name).collect::<Vec<_>>()
    );
    assert_eq!(
        app.rows.len(),
        rows_before,
        "separator + collector rows must still be in the sidebar"
    );
}

#[test]
fn file_change_reload_picks_up_new_yaml_targets() {
    // The reload must still surface targets added while the application runs:
    // reading the list back from the manager must not pin the sidebar to the
    // startup set.
    let mgr = std::sync::Arc::new(FakeManager::default());
    mgr.update_targets(vec![target("alpha")]);
    let mut app = App::new(
        mgr.get_targets(),
        mgr.clone(),
        ".run".to_string(),
        ".".to_string(),
    );

    dispatch(
        &mut app,
        AppEvent::FileChange(Some(vec![target("alpha"), target("beta")])),
    );

    let names: Vec<&str> = app.targets.iter().map(|t| t.name.as_str()).collect();
    assert!(
        names.contains(&"alpha") && names.contains(&"beta"),
        "reload should surface newly-added targets, got {names:?}"
    );
}

#[test]
fn clear_key_calls_manager_clear_and_empties_buffer() {
    let mgr = std::sync::Arc::new(FakeManager::default());
    let mut app = App::new(
        vec![target("alpha")],
        mgr.clone(),
        ".".to_string(),
        ".".to_string(),
    );
    // Pre-load some lines.
    dispatch(
        &mut app,
        AppEvent::LogLine {
            target: "alpha".into(),
            line: "old line".into(),
        },
    );
    dispatch(&mut app, key(KeyCode::Char('c')));
    let buf = app.logs.get("alpha").unwrap();
    assert!(buf.lines.is_empty(), "buffer should be cleared");
    assert_eq!(*mgr.cleared.lock().unwrap(), vec!["alpha".to_string()]);
}

#[test]
fn help_overlay_toggles_visibility() {
    let mut app = make_app(vec![target("a")]);
    assert!(!app.help_visible);
    dispatch(&mut app, key(KeyCode::Char('?')));
    assert!(app.help_visible);
    dispatch(&mut app, key(KeyCode::Char('?')));
    assert!(!app.help_visible);
}

#[test]
fn describe_overlay_populated_from_manager() {
    let mgr = std::sync::Arc::new(FakeManager::default());
    let mut app = App::new(
        vec![target("alpha")],
        mgr.clone(),
        ".".to_string(),
        ".".to_string(),
    );
    dispatch(&mut app, key(KeyCode::Char('D')));
    assert!(app.describe.as_deref().is_some_and(|s| s.contains("alpha")));
    // Esc / D toggles closed.
    dispatch(&mut app, key(KeyCode::Esc));
    assert!(app.describe.is_none());
}

#[test]
fn wrap_and_zoom_toggle() {
    let mut app = make_app(vec![target("a")]);
    assert!(!app.wrap_logs);
    assert!(!app.zoom_logs);
    dispatch(&mut app, key(KeyCode::Char('w')));
    assert!(app.wrap_logs);
    dispatch(&mut app, key(KeyCode::Char('z')));
    assert!(app.zoom_logs);
}

#[test]
fn log_line_event_appends_to_buffer() {
    let mut app = make_app(vec![target("a")]);
    dispatch(
        &mut app,
        AppEvent::LogLine {
            target: "a".into(),
            line: "hello".into(),
        },
    );
    let buf = app.logs.get("a").unwrap();
    assert_eq!(buf.lines.back().map(String::as_str), Some("hello"));
}

fn log(target: &str, line: &str) -> AppEvent {
    AppEvent::LogLine {
        target: target.into(),
        line: line.into(),
    }
}

#[test]
fn slash_enters_search_mode_and_esc_exits() {
    let mut app = make_app(vec![target("a")]);
    assert!(!app.search_mode);
    dispatch(&mut app, key(KeyCode::Char('/')));
    assert!(app.search_mode);
    dispatch(&mut app, key(KeyCode::Esc));
    assert!(!app.search_mode);
    assert!(app.search_query.is_empty());
    assert!(app.search_matches.is_empty());
}

#[test]
fn typing_in_search_mode_updates_matches() {
    let mut app = make_app(vec![target("a")]);
    dispatch(&mut app, log("a", "hello world"));
    dispatch(&mut app, log("a", "another line"));
    dispatch(&mut app, log("a", "world peace"));

    dispatch(&mut app, key(KeyCode::Char('/')));
    dispatch(&mut app, key(KeyCode::Char('w')));
    dispatch(&mut app, key(KeyCode::Char('o')));
    dispatch(&mut app, key(KeyCode::Char('r')));
    dispatch(&mut app, key(KeyCode::Char('l')));
    dispatch(&mut app, key(KeyCode::Char('d')));
    assert_eq!(app.search_query, "world");
    // "hello world" (line 0) and "world peace" (line 2) match.
    assert_eq!(app.search_matches, vec![0, 2]);
}

#[test]
fn search_is_case_insensitive() {
    let mut app = make_app(vec![target("a")]);
    dispatch(&mut app, log("a", "ERROR: boom"));
    dispatch(&mut app, log("a", "error: again"));

    dispatch(&mut app, key(KeyCode::Char('/')));
    for c in "Error".chars() {
        dispatch(&mut app, key(KeyCode::Char(c)));
    }
    assert_eq!(app.search_matches, vec![0, 1]);
}

#[test]
fn enter_cycles_to_next_match() {
    let mut app = make_app(vec![target("a")]);
    dispatch(&mut app, log("a", "one foo"));
    dispatch(&mut app, log("a", "two foo"));
    dispatch(&mut app, log("a", "three foo"));

    dispatch(&mut app, key(KeyCode::Char('/')));
    for c in "foo".chars() {
        dispatch(&mut app, key(KeyCode::Char(c)));
    }
    assert_eq!(app.search_match_idx, 0);
    dispatch(&mut app, key(KeyCode::Enter));
    assert_eq!(app.search_match_idx, 1);
    dispatch(&mut app, key(KeyCode::Enter));
    assert_eq!(app.search_match_idx, 2);
    // Wrap-around.
    dispatch(&mut app, key(KeyCode::Enter));
    assert_eq!(app.search_match_idx, 0);
}

#[test]
fn slash_in_search_mode_also_cycles() {
    let mut app = make_app(vec![target("a")]);
    dispatch(&mut app, log("a", "alpha"));
    dispatch(&mut app, log("a", "alpha again"));

    dispatch(&mut app, key(KeyCode::Char('/')));
    for c in "alpha".chars() {
        dispatch(&mut app, key(KeyCode::Char(c)));
    }
    dispatch(&mut app, key(KeyCode::Char('/')));
    assert_eq!(app.search_match_idx, 1);
}

#[test]
fn backspace_shrinks_query_and_re_searches() {
    let mut app = make_app(vec![target("a")]);
    dispatch(&mut app, log("a", "errno=2"));
    dispatch(&mut app, log("a", "err loading"));

    dispatch(&mut app, key(KeyCode::Char('/')));
    for c in "errn".chars() {
        dispatch(&mut app, key(KeyCode::Char(c)));
    }
    assert_eq!(app.search_matches, vec![0]); // only "errno=2"
    dispatch(&mut app, key(KeyCode::Backspace));
    assert_eq!(app.search_query, "err");
    // Now both lines match.
    assert_eq!(app.search_matches, vec![0, 1]);
}

#[test]
fn empty_query_clears_matches() {
    let mut app = make_app(vec![target("a")]);
    dispatch(&mut app, log("a", "hello"));
    dispatch(&mut app, key(KeyCode::Char('/')));
    dispatch(&mut app, key(KeyCode::Char('h')));
    assert_eq!(app.search_matches, vec![0]);
    dispatch(&mut app, key(KeyCode::Backspace));
    assert!(app.search_query.is_empty());
    assert!(app.search_matches.is_empty());
}

#[test]
fn switching_target_resets_search() {
    let mut app = make_app(vec![target("a"), target("b")]);
    dispatch(&mut app, log("a", "hello"));
    dispatch(&mut app, key(KeyCode::Char('/')));
    dispatch(&mut app, key(KeyCode::Char('h')));
    assert!(app.search_mode);
    // Esc exits search; navigation moves to row b.
    dispatch(&mut app, key(KeyCode::Esc));
    // Reopen search, then move selection — the dispatcher in this
    // crate enters search mode first, so jumping via arrow keys
    // happens outside search. Reproduce: enter search, exit, then
    // move selection — search must already be off.
    dispatch(&mut app, key(KeyCode::Down));
    assert_eq!(app.selected, 1);
    // Now open search on the new target. Matches must be empty.
    dispatch(&mut app, key(KeyCode::Char('/')));
    dispatch(&mut app, key(KeyCode::Char('h')));
    assert!(app.search_matches.is_empty(), "no matches in target b");
}

#[test]
fn moving_selection_while_searching_resets_state() {
    // The dispatcher routes arrow keys through `move_selection`, which
    // calls `reset_search` when search is active. This guards against
    // stale match indices pointing into a different target's buffer.
    let mut app = make_app(vec![target("a"), target("b")]);
    dispatch(&mut app, log("a", "hello a"));
    dispatch(&mut app, key(KeyCode::Char('/')));
    dispatch(&mut app, key(KeyCode::Char('h')));
    assert_eq!(app.search_matches, vec![0]);

    // Arrow keys are swallowed by search mode (every char goes into
    // the query). To trigger the reset path we exit search first, then
    // navigate. After navigation, opening search on the new target
    // should yield zero matches.
    dispatch(&mut app, key(KeyCode::Esc));
    dispatch(&mut app, key(KeyCode::Down));
    dispatch(&mut app, key(KeyCode::Char('/')));
    dispatch(&mut app, key(KeyCode::Char('h')));
    assert!(app.search_matches.is_empty());
}

#[test]
fn live_log_line_extends_matches_when_search_active() {
    let mut app = make_app(vec![target("a")]);
    dispatch(&mut app, log("a", "first"));
    dispatch(&mut app, key(KeyCode::Char('/')));
    for c in "match".chars() {
        dispatch(&mut app, key(KeyCode::Char(c)));
    }
    assert!(app.search_matches.is_empty());

    // A new log line arrives that matches → matches list grows.
    dispatch(&mut app, log("a", "this is a MATCH"));
    assert_eq!(app.search_matches, vec![1]);

    // A non-matching new line is ignored by the index list.
    dispatch(&mut app, log("a", "no hit here"));
    assert_eq!(app.search_matches, vec![1]);

    // Another match → appended.
    dispatch(&mut app, log("a", "another match line"));
    assert_eq!(app.search_matches, vec![1, 3]);
}

#[test]
fn down_arrow_skips_separator_before_virtual_target() {
    // Layout: a (sel=0), b (sel=1), separator (sel=2 — unselectable),
    // otel-errors (sel=3). Down from b must land on otel-errors,
    // not stop on the separator.
    let mut app = make_app(vec![
        target("a"),
        target("b"),
        virtual_target("otel-errors"),
    ]);
    // Sanity-check the row layout.
    assert_eq!(app.rows.len(), 4);
    app.selected = 1; // sitting on "b"
    dispatch(&mut app, key(KeyCode::Down));
    assert_eq!(app.selected, 3, "Down from b should land on otel-errors");
    assert_eq!(app.selected_target_name().as_deref(), Some("otel-errors"));
}

#[test]
fn up_arrow_skips_separator_above_virtual_target() {
    let mut app = make_app(vec![
        target("a"),
        target("b"),
        virtual_target("otel-errors"),
    ]);
    app.selected = 3; // otel-errors
    dispatch(&mut app, key(KeyCode::Up));
    assert_eq!(app.selected, 1, "Up from otel-errors should land on b");
}

#[test]
fn page_up_increases_scroll_offset() {
    // `buf.scroll` counts newer lines hidden below the viewport, so
    // PgUp (scrolling toward older logs) must INCREASE scroll. 
    let mut app = make_app(vec![target("a")]);
    for i in 0..50 {
        dispatch(&mut app, log("a", &format!("line {i}")));
    }
    assert_eq!(
        app.logs.get("a").unwrap().scroll,
        0,
        "starts pinned to bottom"
    );
    assert!(app.logs.get("a").unwrap().at_bottom);

    dispatch(&mut app, key(KeyCode::PageUp));
    let scroll_after_pgup = app.logs.get("a").unwrap().scroll;
    assert!(
        scroll_after_pgup > 0,
        "PgUp should move scroll up from 0; got {scroll_after_pgup}"
    );
    assert!(!app.logs.get("a").unwrap().at_bottom);
}

#[test]
fn page_down_decreases_scroll_offset() {
    let mut app = make_app(vec![target("a")]);
    for i in 0..50 {
        dispatch(&mut app, log("a", &format!("line {i}")));
    }
    // Pump the user up into history.
    for _ in 0..3 {
        dispatch(&mut app, key(KeyCode::PageUp));
    }
    let scroll_after_pgup = app.logs.get("a").unwrap().scroll;
    assert!(scroll_after_pgup > 0);

    dispatch(&mut app, key(KeyCode::PageDown));
    let scroll_after_pgdn = app.logs.get("a").unwrap().scroll;
    assert!(
        scroll_after_pgdn < scroll_after_pgup,
        "PgDn should bring scroll closer to 0; was {scroll_after_pgup}, now {scroll_after_pgdn}"
    );
}

#[test]
fn page_down_pinned_at_bottom_does_not_underflow() {
    // Starting at scroll=0 (bottom), PgDn should be a no-op rather
    // than walking into negative scroll territory.
    let mut app = make_app(vec![target("a")]);
    for i in 0..10 {
        dispatch(&mut app, log("a", &format!("line {i}")));
    }
    let before = app.logs.get("a").unwrap().scroll;
    dispatch(&mut app, key(KeyCode::PageDown));
    let after = app.logs.get("a").unwrap().scroll;
    assert_eq!(before, 0);
    assert_eq!(after, 0);
    assert!(app.logs.get("a").unwrap().at_bottom);
}

#[test]
fn page_up_clamps_at_buffer_start() {
    let mut app = make_app(vec![target("a")]);
    for i in 0..5 {
        dispatch(&mut app, log("a", &format!("line {i}")));
    }
    // Page up far more than the buffer holds.
    for _ in 0..20 {
        dispatch(&mut app, key(KeyCode::PageUp));
    }
    let scroll = app.logs.get("a").unwrap().scroll;
    assert!(
        scroll <= 5,
        "scroll should clamp at buffer length (5), got {scroll}"
    );
}

#[test]
fn new_lines_while_scrolled_up_keep_reading_position_stable() {
    // The user pages up to look at older logs. As new lines stream in
    // at the bottom, their reading position should stay anchored —
    // not drift forward in history under their cursor.
    let mut app = make_app(vec![target("a")]);
    for i in 0..30 {
        dispatch(&mut app, log("a", &format!("line {i}")));
    }
    dispatch(&mut app, key(KeyCode::PageUp));
    dispatch(&mut app, key(KeyCode::PageUp));
    let scroll_before = app.logs.get("a").unwrap().scroll;
    assert!(scroll_before > 0, "should be scrolled up");

    // Three new lines arrive (no eviction — ring isn't full).
    for i in 30..33 {
        dispatch(&mut app, log("a", &format!("line {i}")));
    }
    let scroll_after = app.logs.get("a").unwrap().scroll;
    // For every new line, scroll bumps by 1 so the absolute line we
    // were reading stays in the same place on screen.
    assert_eq!(
        scroll_after,
        scroll_before + 3,
        "scroll must compensate for appended lines"
    );
}

#[test]
fn new_lines_at_bottom_do_not_change_scroll() {
    let mut app = make_app(vec![target("a")]);
    for i in 0..10 {
        dispatch(&mut app, log("a", &format!("line {i}")));
    }
    assert_eq!(app.logs.get("a").unwrap().scroll, 0);
    for i in 10..15 {
        dispatch(&mut app, log("a", &format!("line {i}")));
    }
    assert_eq!(
        app.logs.get("a").unwrap().scroll,
        0,
        "at_bottom=true means scroll stays at 0 as new lines arrive"
    );
}

#[test]
fn parsed_buffer_stays_in_sync_with_raw_buffer() {
    // Both deques must always have the same length so view-time
    // slicing of `buf.parsed` lines up with `buf.lines` (and
    // search-match indices, which key off `buf.lines`).
    let mut app = make_app(vec![target("a")]);
    for i in 0..50 {
        dispatch(&mut app, log("a", &format!("line {i}")));
    }
    let buf = app.logs.get("a").unwrap();
    assert_eq!(
        buf.lines.len(),
        buf.parsed.len(),
        "raw/parsed deques out of sync"
    );
}

#[test]
fn parsed_buffer_evicts_alongside_raw_buffer() {
    // Push more than TUI_RING (10_000) to trigger eviction. Both
    // deques should cap at the same length, so a slice computed
    // against `buf.lines.len()` is always valid for `buf.parsed`.
    let mut app = make_app(vec![target("a")]);
    for i in 0..10_050 {
        dispatch(&mut app, log("a", &format!("line {i}")));
    }
    let buf = app.logs.get("a").unwrap();
    assert_eq!(buf.lines.len(), 10_000);
    assert_eq!(buf.parsed.len(), 10_000);
}

#[test]
fn ansi_rich_burst_handled_within_perf_budget() {
    // Specifically targets osewa-style structured logs: each line
    // carries ANSI color/style sequences. parse-on-receive moves the
    // ansi-to-tui cost off the render path; this test pins the
    // event-handling cost to a sane upper bound (well below the rate
    // a real backend would emit).
    //
    // Format mirrors what zap/logrus/slog produce: bold green
    // timestamp + colored level + reset + key=value pairs.
    let ansi_line = "\x1b[32m2026-05-15T20:35:01.123Z\x1b[0m \
                     \x1b[1;34mINFO\x1b[0m \
                     handler=http method=POST path=/v1/orders \
                     status=200 dur=12ms";
    let mut app = make_app(vec![target("a")]);
    let start = std::time::Instant::now();
    let n = 20_000usize;
    for _ in 0..n {
        dispatch(&mut app, log("a", ansi_line));
    }
    let elapsed = start.elapsed();
    // 20k ANSI-rich events in well under 2 seconds. On the dev box
    // this finishes in ~250ms. Flag a 4x regression.
    assert!(
        elapsed < std::time::Duration::from_secs(2),
        "20k ANSI lines took {elapsed:?} — parse-on-receive regression?"
    );
    let buf = app.logs.get("a").unwrap();
    assert_eq!(buf.lines.len().min(10_000), buf.parsed.len());
}

#[test]
fn log_line_for_non_selected_target_does_not_mark_dirty() {
    // The decisive optimization for "multiple chatty targets" lag:
    // events buffered into off-screen target buffers must NOT trigger
    // a re-render. Otherwise the render rate scales with total log
    // throughput across all targets, not just the visible one.
    let mut app = make_app(vec![target("a"), target("b")]);
    app.clear_dirty();
    assert!(!app.is_dirty());
    // Selected target is "a" (selected=0). A LogLine for "b" must
    // buffer without marking dirty.
    dispatch(&mut app, log("b", "line for unselected target"));
    assert!(
        !app.is_dirty(),
        "LogLine for non-selected target should NOT mark dirty"
    );
    // Confirm it actually buffered.
    assert_eq!(
        app.logs.get("b").map(|b| b.lines.len()),
        Some(1),
        "non-selected LogLine should still be appended to its target's buffer"
    );
}

#[test]
fn log_line_for_selected_target_marks_dirty() {
    let mut app = make_app(vec![target("a"), target("b")]);
    app.clear_dirty();
    dispatch(&mut app, log("a", "line for selected target"));
    assert!(
        app.is_dirty(),
        "LogLine for selected target must mark dirty"
    );
}

#[test]
fn key_event_always_marks_dirty() {
    let mut app = make_app(vec![target("a"), target("b")]);
    app.clear_dirty();
    dispatch(&mut app, key(KeyCode::Down));
    assert!(app.is_dirty(), "Down key must mark dirty");
}

#[test]
fn key_event_marks_urgent_to_bypass_frame_budget() {
    // The decisive fix for "switch-target lag in osewa": key presses
    // must render immediately, NOT wait out the FRAME_BUDGET rate cap
    // intended only for log-stream-driven repaints. take_urgent()
    // returning true is the signal to the render loop that it can
    // bypass the cap.
    let mut app = make_app(vec![target("a"), target("b")]);
    // Drain the initial-render urgency.
    let _ = app.take_urgent();
    app.clear_dirty();
    dispatch(&mut app, key(KeyCode::Down));
    assert!(
        app.take_urgent(),
        "Key event must mark urgent to render without the FRAME_BUDGET delay"
    );
    // Second call returns false — it's a take, not a peek.
    assert!(
        !app.take_urgent(),
        "take_urgent must reset the flag after the first read"
    );
}

#[test]
fn log_line_for_selected_target_does_not_mark_urgent() {
    // LogLine is the one event class the rate cap exists for: chatty
    // targets emit thousands per second and we WANT 60fps coalescing.
    // Marking them urgent would defeat the cap.
    let mut app = make_app(vec![target("a")]);
    let _ = app.take_urgent();
    dispatch(&mut app, log("a", "line for selected target"));
    assert!(
        !app.take_urgent(),
        "LogLine must NOT mark urgent — would defeat the rate cap"
    );
    // But it does mark dirty (covered by another test) so the render
    // still happens at the next frame boundary.
    assert!(app.is_dirty());
}

#[test]
fn scroll_log_does_not_mark_urgent() {
    // Mouse-wheel scrolls fire in dense bursts (a physical wheel tick
    // can produce dozens of events) and stay rate-limited intentionally.
    let mut app = make_app(vec![target("a")]);
    dispatch(&mut app, log("a", "x"));
    let _ = app.take_urgent();
    dispatch(&mut app, AppEvent::ScrollLog(-1));
    assert!(
        !app.take_urgent(),
        "ScrollLog must NOT mark urgent — would defeat the rate cap under sustained scroll"
    );
}

#[test]
fn tick_marks_dirty_only_when_statuses_change() {
    let mut app = make_app(vec![target("a")]);
    app.clear_dirty();
    // Initial statuses == fake's empty map. Tick reads the same
    // empty map back → no change → no dirty.
    dispatch(&mut app, AppEvent::Tick);
    assert!(
        !app.is_dirty(),
        "tick with no status changes should not mark dirty"
    );
}

#[test]
fn handle_chews_through_a_burst_of_log_lines() {
    // Regression guard for the osewa-style freeze: when a backend
    // pours out thousands of log lines, the App's main-loop handler
    // must process them faster than they come in, otherwise the
    // event queue grows without bound and the TUI stops responding
    // to keys. 100k LogLine events should take well under a second
    // on any reasonable hardware — flag if we ever regress 50x.
    let mut app = make_app(vec![target("a")]);
    let start = std::time::Instant::now();
    let pushed = 100_000usize;
    for i in 0..pushed {
        dispatch(&mut app, log("a", &format!("line {i}")));
    }
    let elapsed = start.elapsed();
    assert!(
        elapsed < std::time::Duration::from_secs(5),
        "100k LogLine events took {elapsed:?} — handle() perf regression?"
    );
    // Ring buffer caps at TUI_RING (10_000); rest got evicted.
    let len = app.logs.get("a").unwrap().lines.len();
    assert!(
        len > 0 && len <= 10_000,
        "buffer length out of bounds: {len}"
    );
    // The newest line should be the last one we pushed.
    assert_eq!(
        app.logs.get("a").unwrap().lines.back().map(|s| s.as_str()),
        Some(format!("line {}", pushed - 1).as_str())
    );
}

#[test]
fn ctrl_c_still_kills_during_search() {
    let mut app = make_app(vec![target("a")]);
    dispatch(&mut app, key(KeyCode::Char('/')));
    let cont = app.handle(AppEvent::Key(KeyEvent { code: KeyCode::Char('c'), control: true }));
    assert!(!cont.continue_loop);
    assert!(cont.stop_all);
}

#[test]
fn restart_all_clears_per_target_buffers() {
    let mgr = std::sync::Arc::new(FakeManager::default());
    let mut app = App::new(
        vec![target("a"), target("b")],
        mgr.clone(),
        ".".to_string(),
        ".".to_string(),
    );
    dispatch(
        &mut app,
        AppEvent::LogLine {
            target: "a".into(),
            line: "before".into(),
        },
    );
    dispatch(&mut app, key(KeyCode::Char('R')));
    assert!(app.logs.get("a").unwrap().lines.is_empty());
    // Restart-all is two-phase: all stops (with cleanup) run before any
    // starts, so a later target's cleanup can't kill an earlier target.
    assert_eq!(*mgr.stopped.lock().unwrap(), vec!["a", "b"]);
    assert_eq!(*mgr.started.lock().unwrap(), vec!["a", "b"]);
}

// ─── Otel error blink ────────────────────────────────────────────────────────
//
// The collector pushes an ErrorEvent over the notify socket for every
// log record at/above the severity threshold; the TUI surfaces each as
// an OtelError event. These tests pin the state machine that turns
// those events into the sidebar's unread badge + blink.

/// App with a plain target selected (row 0) and the virtual
/// `otel-errors` target sitting after the separator (row 2).
fn make_otel_app() -> App<FakeManager> {
    make_app(vec![target("api"), virtual_target("otel-errors")])
}

#[test]
fn otel_error_increments_unread_and_arms_blink() {
    let mut app = make_otel_app();
    assert_eq!(app.unread_otel_errors, 0);

    dispatch(&mut app, AppEvent::OtelError);
    dispatch(&mut app, AppEvent::OtelError);

    assert_eq!(app.unread_otel_errors, 2);
    assert!(app.otel_blinking, "first error should arm the blink chain");
    assert!(app.otel_blink_on, "blink starts in the 'on' phase");
}

#[test]
fn otel_error_while_row_selected_is_marked_seen() {
    let mut app = make_otel_app();
    // Down from `api` skips the separator and lands on `otel-errors`.
    dispatch(&mut app, key(KeyCode::Down));
    assert_eq!(app.selected_target_name().as_deref(), Some("otel-errors"));

    dispatch(&mut app, AppEvent::OtelError);

    assert_eq!(app.unread_otel_errors, 0);
    assert!(!app.otel_blinking);
    assert!(!app.otel_blink_on);
}

#[test]
fn otel_blink_toggles_phase_while_unread() {
    let mut app = make_otel_app();
    dispatch(&mut app, AppEvent::OtelError);
    assert!(app.otel_blink_on);

    dispatch(&mut app, AppEvent::OtelBlink);
    assert!(!app.otel_blink_on, "tick flips on → off");
    assert!(app.otel_blinking, "chain stays armed while unread > 0");

    dispatch(&mut app, AppEvent::OtelBlink);
    assert!(app.otel_blink_on, "next tick flips off → on");
    assert!(app.otel_blinking);
}

#[test]
fn otel_blink_chain_dies_once_errors_are_seen() {
    let mut app = make_otel_app();
    dispatch(&mut app, AppEvent::OtelError);
    assert!(app.otel_blinking);

    // Selecting the row consumes the unread badge immediately…
    dispatch(&mut app, key(KeyCode::Down));
    assert_eq!(app.selected_target_name().as_deref(), Some("otel-errors"));
    assert_eq!(app.unread_otel_errors, 0);
    assert!(!app.otel_blink_on);

    // …and the still-in-flight tick shuts the chain down instead of
    // re-arming.
    dispatch(&mut app, AppEvent::OtelBlink);
    assert!(!app.otel_blinking);
    assert!(!app.otel_blink_on);
}

#[test]
fn otel_errors_resume_blinking_after_navigating_away() {
    let mut app = make_otel_app();
    // Visit the otel row, then move back up to `api`.
    dispatch(&mut app, key(KeyCode::Down));
    dispatch(&mut app, key(KeyCode::Up));
    dispatch(&mut app, AppEvent::OtelBlink); // retire the old chain
    assert!(!app.otel_blinking);

    dispatch(&mut app, AppEvent::OtelError);
    assert_eq!(app.unread_otel_errors, 1);
    assert!(app.otel_blinking, "a fresh error re-arms the blink");
    assert!(app.otel_blink_on);
}

#[test]
fn sidebar_renders_otel_unread_count() {
    let mut app = make_otel_app();
    dispatch(&mut app, AppEvent::OtelError);
    dispatch(&mut app, AppEvent::OtelError);

    let lines = screen_lines(&app, 80, 20);
    assert!(
        lines.iter().any(|l| l.contains("otel-errors (2)")),
        "sidebar should show the unread count, got:\n{}",
        lines.join("\n")
    );

    // Selecting the row clears the badge from the next render.
    dispatch(&mut app, key(KeyCode::Down));
    let lines = screen_lines(&app, 80, 20);
    assert!(
        lines.iter().any(|l| l.contains("otel-errors")),
        "row itself still renders"
    );
    assert!(
        !lines.iter().any(|l| l.contains("otel-errors (")),
        "badge should be gone once seen, got:\n{}",
        lines.join("\n")
    );
}
