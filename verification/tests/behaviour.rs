//! How the application behaves from one event to the next.

use std::sync::{Arc, Mutex};

use tukituki::app::App;
use tukituki::area::Area;
use tukituki::event::{AppEvent, Effect, KeyCode, KeyEvent};
use tukituki::handle::ManagerHandle;
use tukituki::input::{dump_at, editor_left};
use tukituki::names::NameMap;
use tukituki::ops::{label_of, run_op, Op};
use tukituki::rows::{compute, is_selectable, Row, SEPARATOR_LABEL};
use tukituki::session::Session;
use tukituki::target::{RunTarget, Status};
use tukituki::view::render;

/// A manager that notes what it is asked for. Requests that name the target
/// `broken` fail.
#[derive(Default)]
struct Recorder {
    calls: Mutex<Vec<String>>,
    statuses: Mutex<Vec<(String, Status)>>,
    targets: Mutex<Vec<RunTarget>>,
    collector_error: Mutex<Option<String>>,
    description: Mutex<String>,
    lines: Mutex<Vec<String>>,
}

impl Recorder {
    fn note(&self, what: &str, name: &str) -> Result<(), String> {
        self.calls.lock().unwrap().push(format!("{what} {name}"));
        if name == "broken" {
            Err("no such file".to_string())
        } else {
            Ok(())
        }
    }
    fn calls(&self) -> Vec<String> {
        self.calls.lock().unwrap().clone()
    }
}

impl ManagerHandle for Recorder {
    fn get_all_statuses(&self) -> NameMap<Status> {
        let mut all = NameMap::new();
        for (name, status) in self.statuses.lock().unwrap().iter() {
            all.insert(name.clone(), *status);
        }
        all
    }
    fn get_targets(&self) -> Vec<RunTarget> {
        self.targets.lock().unwrap().clone()
    }
    fn get_log_lines(&self, name: &str) -> Vec<String> {
        let lines = self.lines.lock().unwrap();
        lines.iter().map(|l| format!("{name}: {l}")).collect()
    }
    fn start(&self, name: &str) -> Result<(), String> {
        self.note("start", name)
    }
    fn stop(&self, name: &str) -> Result<(), String> {
        self.note("stop", name)
    }
    fn restart(&self, name: &str) -> Result<(), String> {
        self.note("restart", name)
    }
    fn dump_log(&self, name: &str, dest: &str) -> Result<(), String> {
        self.calls.lock().unwrap().push(format!("to {dest}"));
        self.note("dump", name)
    }
    fn clear_log(&self, name: &str) -> Result<(), String> {
        self.note("clear", name)
    }
    fn stop_all(&self) -> Result<(), String> {
        Ok(())
    }
    fn update_targets(&self, targets: Vec<RunTarget>) {
        *self.targets.lock().unwrap() = targets;
    }
    fn describe(&self, _name: &str) -> String {
        self.description.lock().unwrap().clone()
    }
    fn ensure_otel_collector(&self) -> Result<(), String> {
        match self.collector_error.lock().unwrap().clone() {
            Some(text) => Err(text),
            None => Ok(()),
        }
    }
    fn log_file_path(&self, _name: &str) -> Option<String> {
        None
    }
    fn state_file_path(&self) -> String {
        String::new()
    }
    fn reload_state_from_disk(&self) {
        self.calls.lock().unwrap().push("reload".to_string());
    }
}

fn target(name: &str) -> RunTarget {
    RunTarget { name: name.into(), ..Default::default() }
}

fn grouped(name: &str, group: &str) -> RunTarget {
    RunTarget { name: name.into(), group: group.into(), ..Default::default() }
}

fn by_hand(name: &str) -> RunTarget {
    RunTarget { name: name.into(), autorun: false, ..Default::default() }
}

fn virtual_target(name: &str) -> RunTarget {
    RunTarget { name: name.into(), is_virtual: true, ..Default::default() }
}

fn app_with(targets: Vec<RunTarget>) -> (App<Recorder>, Arc<Recorder>) {
    let mgr = Arc::new(Recorder::default());
    (App::new(targets, mgr.clone(), "run".to_string(), "root".to_string()), mgr)
}

fn press(app: &mut App<Recorder>, c: char) {
    app.handle(AppEvent::Key(KeyEvent { code: KeyCode::Char(c), control: false }));
}

fn push(app: &mut App<Recorder>, code: KeyCode) {
    app.handle(AppEvent::Key(KeyEvent { code, control: false }));
}

fn line(app: &mut App<Recorder>, target: &str, text: &str) {
    app.handle(AppEvent::LogLine { target: target.into(), line: text.into() });
}

fn shown_names(app: &App<Recorder>) -> Vec<String> {
    app.rows
        .iter()
        .map(|row| match row {
            Row::Folder { group, expanded, count } => format!("{group}/{expanded}/{count}"),
            Row::Target { target_idx, .. } => app.targets[*target_idx].name.clone(),
            Row::Separator { label } => label.clone(),
        })
        .collect()
}

#[test]
fn a_new_application_is_as_documented() {
    let (mut app, _) = app_with(vec![target("a"), grouped("b", "g")]);
    assert_eq!((app.run_dir.as_str(), app.project_root.as_str()), ("run", "root"));
    assert_eq!(app.last_height, 24);
    assert_eq!(app.selected, 0);
    assert_eq!(shown_names(&app), vec!["a", "g/false/1"]);
    assert!(app.is_dirty());
    assert!(app.take_urgent());
    assert!(app.logs.get("a").is_some() && app.logs.get("b").is_some());
}

#[test]
fn sidebar_lists_top_level_then_folders_then_virtual_targets() {
    let targets = vec![
        grouped("g1", "g"),
        virtual_target("otel-errors"),
        target("a"),
        grouped("h1", "h"),
        grouped("g2", "g"),
    ];
    let mut open: NameMap<bool> = NameMap::new();
    open.insert("g".to_string(), true);
    let rows = compute(&targets, &open);
    let names: Vec<String> = rows
        .iter()
        .map(|row| match row {
            Row::Folder { group, expanded, count } => format!("{group}/{expanded}/{count}"),
            Row::Target { target_idx, group } => format!("{}@{group}", targets[*target_idx].name),
            Row::Separator { label } => label.clone(),
        })
        .collect();
    assert_eq!(
        names,
        vec!["a@", "g/true/2", "g1@g", "g2@g", "h/false/1", SEPARATOR_LABEL, "otel-errors@"]
    );
    assert!(is_selectable(&rows[0]) && is_selectable(&rows[1]) && !is_selectable(&rows[5]));
}

#[test]
fn toggling_a_folder_twice_restores_the_rows() {
    let (mut app, _) = app_with(vec![grouped("x", "g"), grouped("y", "h"), grouped("z", "g")]);
    push(&mut app, KeyCode::Down);
    let before = shown_names(&app);
    press(&mut app, ' ');
    assert_eq!(shown_names(&app), vec!["g/false/2", "h/true/1", "y"]);
    assert_eq!(app.selected, 1);
    press(&mut app, ' ');
    assert_eq!(shown_names(&app), before);
    assert_eq!(app.selected, 1);
}

#[test]
fn closing_a_folder_from_inside_selects_its_header() {
    let (mut app, _) = app_with(vec![target("a"), grouped("x", "g"), grouped("y", "g")]);
    push(&mut app, KeyCode::Down);
    press(&mut app, 'l');
    push(&mut app, KeyCode::Down);
    push(&mut app, KeyCode::Down);
    assert_eq!(app.selected_target_name().as_deref(), Some("y"));
    press(&mut app, 'h');
    assert_eq!(shown_names(&app), vec!["a", "g/false/2"]);
    assert_eq!(app.selected, 1);
}

#[test]
fn the_selection_keeps_its_target_over_a_reload() {
    let (mut app, mgr) = app_with(vec![target("a"), target("b")]);
    push(&mut app, KeyCode::Down);
    app.folder_expanded.insert("g".to_string(), true);
    app.targets = vec![target("a"), target("b"), grouped("c", "g")];
    app.rebuild_rows();
    assert_eq!(app.selected_target_name().as_deref(), Some("b"));
    // It is found again where it stands now.
    app.targets = vec![target("c"), target("a"), target("b")];
    app.rebuild_rows();
    assert_eq!(app.selected_target_name().as_deref(), Some("b"));
    assert_eq!(app.selected, 2);
    app.handle(AppEvent::FileChange(Some(vec![target("a"), target("b"), target("c")])));
    assert_eq!(app.selected_target_name().as_deref(), Some("b"));
    assert_eq!(app.selected, 1);
    // A target that is gone leaves the selection in place, as far as there are rows.
    app.handle(AppEvent::FileChange(Some(vec![target("a")])));
    assert_eq!(app.selected, 0);
    assert_eq!(app.status_msg, "reloaded run files");
    assert_eq!(mgr.get_targets().len(), 1);
}

#[test]
fn a_reload_takes_the_managers_targets() {
    let (mut app, mgr) = app_with(vec![target("a")]);
    *mgr.collector_error.lock().unwrap() = Some("port taken".to_string());
    app.clear_dirty();
    app.handle(AppEvent::FileChange(Some(vec![target("b"), target("c")])));
    assert_eq!(shown_names(&app), vec!["b", "c"]);
    assert_eq!(app.status_msg, "otel collector: port taken");
    assert!(app.is_dirty());
    app.clear_dirty();
    app.handle(AppEvent::FileChange(None));
    assert!(!app.is_dirty());
    assert_eq!(shown_names(&app), vec!["b", "c"]);
}

#[test]
fn rebuilding_moves_off_a_divider() {
    let (mut app, _) = app_with(vec![target("a"), target("b"), virtual_target("otel-errors")]);
    app.selected = 1;
    app.targets = vec![target("a"), virtual_target("otel-errors")];
    // Row 1 showed `b`, which is gone, and is the divider now.
    app.rebuild_rows();
    assert_eq!(app.selected, 0);
    app.selected = 1;
    app.rebuild_rows();
    assert_eq!(app.selected, 0);
}

#[test]
fn a_target_in_front_leaves_the_selection_on_its_target() {
    let (mut app, _) = app_with(vec![target("b"), target("c")]);
    assert_eq!(app.selected, 0);
    app.targets = vec![target("a"), target("b"), target("c")];
    app.rebuild_rows();
    assert_eq!(app.selected_target_name().as_deref(), Some("b"));
    assert_eq!(app.selected, 1);
}

#[test]
fn a_search_goes_on_over_a_reload_that_keeps_its_target() {
    let (mut app, _) = app_with(vec![target("b"), target("c")]);
    for text in ["x", "y", "x"] {
        app.handle(AppEvent::LogLine { target: "b".to_string(), line: text.to_string() });
    }
    press(&mut app, '/');
    press(&mut app, 'x');
    push(&mut app, KeyCode::Enter);
    app.handle(AppEvent::FileChange(Some(vec![target("a"), target("b")])));
    assert_eq!(app.selected_target_name().as_deref(), Some("b"));
    assert!(app.search_mode);
    assert_eq!(app.search_matches, vec![0, 2]);
    assert_eq!(app.search_match_idx, 1);
    // The matches belong to `b`: they go with it.
    app.handle(AppEvent::FileChange(Some(vec![target("a"), target("c")])));
    assert_eq!(app.selected_target_name().as_deref(), Some("c"));
    assert!(!app.search_mode);
    assert!(app.search_matches.is_empty());
    assert!(app.search_query.is_empty());
}

#[test]
fn an_empty_log_cannot_be_scrolled() {
    let (mut app, _) = app_with(vec![target("a")]);
    app.scroll_log(-10);
    let buf = app.logs.get("a").unwrap();
    assert_eq!(buf.scroll, 0);
    assert!(buf.at_bottom);
    // The lines that come in are followed.
    for text in ["x", "y"] {
        app.handle(AppEvent::LogLine { target: "a".to_string(), line: text.to_string() });
    }
    assert_eq!(app.logs.get("a").unwrap().scroll, 0);
    app.scroll_log(-1);
    assert!(!app.logs.get("a").unwrap().at_bottom);
    app.scroll_log(1);
    assert!(app.logs.get("a").unwrap().at_bottom);
}

#[test]
fn a_reader_keeps_their_place_in_a_full_log() {
    let (mut app, _) = app_with(vec![target("a")]);
    let wrote = |i: usize| AppEvent::LogLine { target: "a".to_string(), line: format!("line {i}") };
    for i in 0..10_000 {
        app.handle(wrote(i));
    }
    app.handle(AppEvent::ScrollLog(-20));
    let area = Area { x: 0, y: 0, width: 80, height: 24 };
    let before = format!("{:?}", render(area, &app));
    for i in 10_000..10_003 {
        app.handle(wrote(i));
        let buf = app.logs.get("a").unwrap();
        assert_eq!(buf.lines[buf.lines.len() - buf.scroll - 1], "line 9979");
    }
    assert_eq!(app.logs.get("a").unwrap().scroll, 23);
    assert_eq!(format!("{:?}", render(area, &app)), before);
}

#[test]
fn urgent_repaints_are_due() {
    let (mut app, _) = app_with(vec![target("a")]);
    let wrote = || AppEvent::LogLine { target: "a".to_string(), line: "x".to_string() };
    let done = || AppEvent::OpDone { id: 0, summary: "done".to_string() };
    let events: Vec<(AppEvent, bool, bool)> = vec![
        (wrote(), true, false),
        (AppEvent::ScrollLog(-1), true, false),
        (AppEvent::OtelBlink, true, false),
        (AppEvent::Resize(80, 24), true, true),
        (done(), true, true),
        (AppEvent::OtelError, true, true),
        (AppEvent::FileChange(None), false, false),
    ];
    for (event, dirty, urgent) in events {
        app.take_urgent();
        app.clear_dirty();
        app.handle(event);
        assert_eq!(app.is_dirty(), dirty);
        assert_eq!(app.take_urgent(), urgent);
    }
}

#[test]
fn a_quiet_event_changes_nothing_on_the_screen() {
    let (mut app, _) = app_with(vec![target("a"), target("b")]);
    app.handle(AppEvent::LogLine { target: "a".to_string(), line: "x".to_string() });
    app.clear_dirty();
    let area = Area { x: 0, y: 0, width: 80, height: 24 };
    let before = format!("{:?}", render(area, &app));
    app.handle(AppEvent::LogLine { target: "b".to_string(), line: "y".to_string() });
    app.handle(AppEvent::Tick);
    assert!(!app.is_dirty());
    assert_eq!(format!("{:?}", render(area, &app)), before);
    app.handle(AppEvent::LogLine { target: "a".to_string(), line: "y".to_string() });
    assert!(app.is_dirty());
    assert_ne!(format!("{:?}", render(area, &app)), before);
}

#[test]
fn moves_stop_at_the_edges_and_pass_over_dividers() {
    let (mut app, _) = app_with(vec![target("a"), virtual_target("otel-errors")]);
    push(&mut app, KeyCode::Up);
    assert_eq!(app.selected, 0);
    push(&mut app, KeyCode::Tab);
    assert_eq!(app.selected, 2);
    push(&mut app, KeyCode::Down);
    assert_eq!(app.selected, 2);
    push(&mut app, KeyCode::Up);
    assert_eq!(app.selected, 0);
    // Off a divider, the next row in the same direction is taken.
    app.selected = 1;
    push(&mut app, KeyCode::Down);
    assert_eq!(app.selected, 2);
}

#[test]
fn requests_are_reported_by_their_outcome() {
    let (mut app, mgr) = app_with(vec![target("api"), target("broken")]);
    press(&mut app, 'S');
    assert_eq!(app.status_msg, "started api");
    press(&mut app, 's');
    assert_eq!(app.status_msg, "stopped api");
    press(&mut app, 'r');
    assert_eq!(app.status_msg, "restarted api");
    press(&mut app, 'c');
    assert_eq!(app.status_msg, "cleared api logs");
    push(&mut app, KeyCode::Down);
    press(&mut app, 'S');
    assert_eq!(app.status_msg, "start broken: no such file");
    press(&mut app, 's');
    assert_eq!(app.status_msg, "stop broken: no such file");
    press(&mut app, 'r');
    assert_eq!(app.status_msg, "restart broken: no such file");
    press(&mut app, 'c');
    assert_eq!(app.status_msg, "clear broken: no such file");
    press(&mut app, 'd');
    assert_eq!(app.status_msg, "dump broken: no such file");
    let calls = mgr.calls();
    assert_eq!(calls[..2], ["start api".to_string(), "stop api".to_string()]);
    assert_eq!(calls.len(), 10);
}

#[test]
fn nothing_is_requested_without_a_selected_target() {
    let (mut app, mgr) = app_with(vec![grouped("x", "g")]);
    for c in ['S', 's', 'r', 'd', 'c', 'D', 'E'] {
        press(&mut app, c);
    }
    assert!(mgr.calls().is_empty());
    assert_eq!(app.status_msg, "");
    assert!(app.take_effects().is_empty());
}

#[test]
fn a_bulk_restart_stops_all_before_it_starts_any() {
    let (mut app, mgr) = app_with(vec![target("a"), target("broken"), target("c")]);
    press(&mut app, 'R');
    assert_eq!(
        mgr.calls(),
        vec!["stop a", "stop broken", "stop c", "start a", "start broken", "start c"]
    );
    assert_eq!(app.status_msg, "restarted 2 target(s), 1 error(s)");
}

#[test]
fn a_bulk_restart_leaves_targets_alone_that_run_by_hand() {
    let (mut app, mgr) = app_with(vec![target("a"), by_hand("b"), by_hand("c")]);
    app.statuses.insert("b".to_string(), Status::Running);
    app.statuses.insert("c".to_string(), Status::Stopped);
    for name in ["a", "b", "c"] {
        line(&mut app, name, "old");
    }
    press(&mut app, 'R');
    assert_eq!(mgr.calls(), vec!["stop a", "stop b", "start a", "start b"]);
    assert_eq!(app.logs.get("a").unwrap().lines.len(), 0);
    assert_eq!(app.logs.get("b").unwrap().lines.len(), 0);
    assert_eq!(app.logs.get("c").unwrap().lines.len(), 1);
}

#[test]
fn clearing_empties_one_log_and_its_matches() {
    let (mut app, _) = app_with(vec![target("a"), target("b")]);
    line(&mut app, "a", "hit");
    line(&mut app, "b", "hit");
    app.search_matches = vec![0];
    press(&mut app, 'c');
    assert_eq!(app.logs.get("a").unwrap().lines.len(), 0);
    assert_eq!(app.logs.get("b").unwrap().lines.len(), 1);
    assert!(app.search_matches.is_empty());
}

#[test]
fn a_dump_goes_into_the_directory_that_is_set() {
    let (mut app, mgr) = app_with(vec![target("api")]);
    app.set_dump_dir("/var/log".to_string());
    dump_at(&mut app, "api".to_string(), "20260102-030405");
    assert_eq!(mgr.calls(), vec!["to /var/log/api-20260102-030405.log", "dump api"]);
    assert_eq!(app.status_msg, "dumped to /var/log/api-20260102-030405.log");
}

#[test]
fn a_dump_bears_the_time_in_its_name() {
    let (mut app, mgr) = app_with(vec![target("api")]);
    press(&mut app, 'd');
    let calls = mgr.calls();
    let stamp = calls[0].strip_prefix("to ./api-").unwrap().strip_suffix(".log").unwrap();
    assert!(stamp.len() >= 15, "{stamp}");
    let (date, time) = stamp.split_at(stamp.len() - 7);
    assert!(date.chars().all(|c| c.is_ascii_digit()));
    assert!(time.starts_with('-'));
    assert!(time[1..].chars().all(|c| c.is_ascii_digit()));
    assert!(stamp != "%Y%m%d-%H%M%S");
}

#[test]
fn operations_are_listed_while_they_run() {
    let (mut app, mgr) = app_with(vec![target("a")]);
    app.attach_event_sender();
    press(&mut app, 'S');
    press(&mut app, 'R');
    assert!(mgr.calls().is_empty(), "the event loop runs them");
    let labels: Vec<&str> = app.in_flight.values().map(|l| l.as_str()).collect();
    assert_eq!(labels, vec!["starting a", "restarting 1 target(s)"]);
    let effects = app.take_effects();
    assert_eq!(effects.len(), 2);
    assert!(app.take_effects().is_empty());
    for effect in effects {
        if let Effect::RunOp { id, op } = effect {
            let summary = run_op(&mut Session::new(mgr.clone()), &op);
            app.handle(AppEvent::OpDone { id, summary });
        }
    }
    assert!(app.in_flight.is_empty());
    assert_eq!(app.status_msg, "restarted 1 target(s), 0 error(s)");
    assert_eq!(mgr.calls(), vec!["start a", "stop a", "start a"]);
}

#[test]
fn operations_have_labels() {
    let name = || "x".to_string();
    assert_eq!(label_of(&Op::Stop { name: name() }), "stopping x");
    assert_eq!(label_of(&Op::Restart { name: name() }), "restarting x");
    assert_eq!(label_of(&Op::Dump { name: name(), dest: "d".to_string() }), "dumping x");
    let names: Vec<String> = (0..12).map(|i| format!("t{i}")).collect();
    assert_eq!(label_of(&Op::RestartAll { names }), "restarting 12 target(s)");
}

#[test]
fn operation_ids_start_again_after_the_last() {
    let (mut app, _) = app_with(vec![target("a")]);
    app.attach_event_sender();
    app.next_op_id = u64::MAX;
    press(&mut app, 'S');
    press(&mut app, 's');
    let ids: Vec<u64> = app.in_flight.keys().copied().collect();
    assert_eq!(ids, vec![0, u64::MAX]);
}

#[test]
fn a_message_is_gone_after_two_ticks() {
    let (mut app, _) = app_with(vec![target("a")]);
    app.flash("hello");
    app.clear_dirty();
    app.handle(AppEvent::Tick);
    assert_eq!(app.status_msg, "hello");
    assert!(app.is_dirty());
    app.handle(AppEvent::Tick);
    assert_eq!(app.status_msg, "");
    app.clear_dirty();
    let _ = app.take_urgent();
    app.handle(AppEvent::Tick);
    assert!(!app.is_dirty() && !app.take_urgent());
}

#[test]
fn new_statuses_are_taken_over_and_painted() {
    let (mut app, mgr) = app_with(vec![target("a")]);
    mgr.statuses.lock().unwrap().push(("a".to_string(), Status::Running));
    app.clear_dirty();
    app.handle(AppEvent::Tick);
    assert_eq!(app.statuses.get("a").copied(), Some(Status::Running));
    assert!(app.is_dirty());
    app.clear_dirty();
    app.handle(AppEvent::StateFileChange);
    assert!(!app.is_dirty());
    mgr.statuses.lock().unwrap()[0].1 = Status::Failed;
    app.handle(AppEvent::StateFileChange);
    assert!(app.is_dirty());
    assert_eq!(app.statuses.get("a").copied(), Some(Status::Failed));
    assert_eq!(mgr.calls(), vec!["reload", "reload"]);
}

#[test]
fn resizing_and_leaving_an_editor_repaint_at_once() {
    let (mut app, _) = app_with(vec![target("a")]);
    for ev in [AppEvent::Resize(80, 50), AppEvent::EditorDone(Ok(()))] {
        app.clear_dirty();
        let _ = app.take_urgent();
        assert!(app.handle(ev).continue_loop);
        assert!(app.is_dirty() && app.take_urgent());
    }
    assert_eq!(app.last_height, 50);
    assert!(!app.take_full_redraw());
    app.mark_full_redraw();
    assert!(app.take_full_redraw());
    assert!(!app.take_full_redraw());
}

#[test]
fn the_wheel_scrolls_the_selected_log() {
    let (mut app, _) = app_with(vec![target("a")]);
    for i in 0..20 {
        line(&mut app, "a", &format!("{i}"));
    }
    app.handle(AppEvent::ScrollLog(-7));
    assert_eq!(app.logs.get("a").unwrap().scroll, 7);
    app.handle(AppEvent::ScrollLog(3));
    assert_eq!(app.logs.get("a").unwrap().scroll, 4);
    app.handle(AppEvent::ScrollLog(0));
    assert_eq!(app.logs.get("a").unwrap().scroll, 4);
    app.handle(AppEvent::ScrollLog(i32::MIN));
    assert_eq!(app.logs.get("a").unwrap().scroll, 20);
}

#[test]
fn logs_are_filled_up_from_the_manager() {
    let (mut app, mgr) = app_with(vec![target("a"), target("b")]);
    *mgr.lines.lock().unwrap() = vec!["one".to_string(), "two".to_string()];
    app.backfill_logs();
    let lines: Vec<String> = app.logs.get("b").unwrap().lines.iter().cloned().collect();
    assert_eq!(lines, vec!["b: one", "b: two"]);
    assert!(app.logs.get("b").unwrap().at_bottom);
}

#[test]
fn one_blink_timer_runs_at_a_time() {
    let (mut app, _) = app_with(vec![target("a"), virtual_target("otel-errors")]);
    app.attach_event_sender();
    app.handle(AppEvent::OtelError);
    app.handle(AppEvent::OtelError);
    assert!(matches!(app.take_effects()[..], [Effect::ArmBlink]));
    app.handle(AppEvent::OtelBlink);
    assert!(matches!(app.take_effects()[..], [Effect::ArmBlink]));
    push(&mut app, KeyCode::Down);
    app.handle(AppEvent::OtelBlink);
    assert!(app.take_effects().is_empty());
    assert!(!app.otel_blinking);
}

#[test]
fn zooming_leaves_the_mouse_to_the_terminal() {
    let (mut app, _) = app_with(vec![target("a")]);
    press(&mut app, 'z');
    assert_eq!(app.status_msg, "zoom on (mouse off, select-to-copy enabled)");
    press(&mut app, 'z');
    assert_eq!(app.status_msg, "zoom off");
    assert!(matches!(
        app.take_effects()[..],
        [Effect::CaptureMouse(false), Effect::CaptureMouse(true)]
    ));
    press(&mut app, 'w');
    assert_eq!(app.status_msg, "wrap on");
    press(&mut app, 'w');
    assert_eq!(app.status_msg, "wrap off");
}

#[test]
fn the_editor_is_asked_for_and_reported_on() {
    let mut with_file = target("a");
    with_file.source_file = ".run/a.yaml".to_string();
    let (mut app, _) = app_with(vec![with_file, target("b")]);
    press(&mut app, 'E');
    match &app.take_effects()[..] {
        [Effect::OpenEditor { source }] => assert_eq!(source, ".run/a.yaml"),
        other => panic!("{other:?}"),
    }
    editor_left(&mut app, ".run/a.yaml", Ok(()));
    assert_eq!(app.status_msg, "edited .run/a.yaml");
    assert!(app.take_full_redraw());
    editor_left(&mut app, ".run/a.yaml", Err("not found".to_string()));
    assert_eq!(app.status_msg, "editor: not found");
    push(&mut app, KeyCode::Down);
    press(&mut app, 'E');
    assert_eq!(app.status_msg, "no source file for this target");
}

#[test]
fn a_description_is_shown_or_said_to_be_missing() {
    let (mut app, mgr) = app_with(vec![target("a")]);
    press(&mut app, 'D');
    assert_eq!(app.status_msg, "no description for a");
    assert!(app.describe.is_none());
    *mgr.description.lock().unwrap() = "runs true".to_string();
    press(&mut app, 'D');
    assert_eq!(app.describe.as_deref(), Some("runs true"));
    press(&mut app, 'S');
    assert!(mgr.calls().is_empty(), "the overlay takes the keys");
    press(&mut app, 'D');
    assert!(app.describe.is_none());
}

#[test]
fn overlays_let_the_user_out() {
    for c in ['q', 'Q'] {
        let (mut app, _) = app_with(vec![target("a")]);
        press(&mut app, '?');
        let cont = app.handle(AppEvent::Key(KeyEvent { code: KeyCode::Char(c), control: false }));
        assert!(!cont.continue_loop);
        assert_eq!(cont.stop_all, c == 'Q');
    }
    let (mut app, _) = app_with(vec![target("a")]);
    app.describe = Some("x".to_string());
    let cont = app.handle(AppEvent::Key(KeyEvent { code: KeyCode::Char('c'), control: true }));
    assert!(!cont.continue_loop && cont.stop_all);
    push(&mut app, KeyCode::Other);
    assert!(app.describe.is_some());
}

#[test]
fn while_searching_keys_go_into_the_query() {
    let (mut app, mgr) = app_with(vec![target("a"), target("b")]);
    press(&mut app, '/');
    for c in "qQRx?".chars() {
        press(&mut app, c);
    }
    push(&mut app, KeyCode::Down);
    assert_eq!(app.search_query, "qQRx?");
    assert_eq!(app.selected, 0);
    assert!(mgr.calls().is_empty());
}

#[test]
fn matches_follow_lines_out_of_a_full_ring() {
    let (mut app, _) = app_with(vec![target("a"), target("b")]);
    line(&mut app, "a", "hit");
    for i in 1..10_000 {
        line(&mut app, "a", if i == 5 { "another HIT" } else { "miss" });
    }
    press(&mut app, '/');
    for c in "hit".chars() {
        press(&mut app, c);
    }
    assert_eq!(app.search_matches, vec![0, 5]);
    push(&mut app, KeyCode::Enter);
    assert_eq!(app.search_match_idx, 1);
    line(&mut app, "a", "new hit");
    assert_eq!(app.search_matches, vec![4, 9_999]);
    assert_eq!(app.search_match_idx, 0, "there was one match left before the new one");
    line(&mut app, "b", "hit");
    assert_eq!(app.search_matches, vec![4, 9_999]);
    let found = app.search_matches.clone();
    app.update_search_matches();
    assert_eq!(app.search_matches, found);
}

#[test]
fn the_current_match_is_moved_into_view() {
    let (mut app, _) = app_with(vec![target("a")]);
    for i in 0..100 {
        line(&mut app, "a", if i == 10 || i == 90 { "hit" } else { "miss" });
    }
    press(&mut app, '/');
    for c in "hit".chars() {
        press(&mut app, c);
    }
    // Twenty rows are taken to be visible; the match has ten of them below it.
    let buf = app.logs.get("a").unwrap();
    assert_eq!(buf.scroll, 100 - (10 + 10 + 1));
    assert!(!buf.at_bottom);
    push(&mut app, KeyCode::Enter);
    let buf = app.logs.get("a").unwrap();
    assert_eq!(buf.scroll, 0);
    assert!(buf.at_bottom);
    app.reset_search();
    assert!(!app.search_mode && app.search_query.is_empty() && app.search_matches.is_empty());
}

#[test]
fn a_move_ends_the_search() {
    let (mut app, _) = app_with(vec![target("a"), target("b")]);
    line(&mut app, "a", "x");
    app.search_mode = true;
    app.search_query = "x".to_string();
    app.update_search_matches();
    assert_eq!(app.search_matches, vec![0]);
    tukituki::input::move_selection(&mut app, 1);
    assert!(!app.search_mode && app.search_query.is_empty() && app.search_matches.is_empty());
}

#[test]
fn names_are_kept_apart() {
    let mut map: NameMap<Status> = NameMap::default();
    map.insert("a".to_string(), Status::Running);
    map.insert("b".to_string(), Status::Stopped);
    map.insert("a".to_string(), Status::Failed);
    assert_eq!(map.get("a").copied(), Some(Status::Failed));
    assert_eq!(map.get("b").copied(), Some(Status::Stopped));
    assert!(map.get("c").is_none());
    *map.get_mut("b").unwrap() = Status::Unknown;
    let mut other: NameMap<Status> = NameMap::new();
    other.insert("b".to_string(), Status::Unknown);
    assert!(!map.same(&other) && !other.same(&map));
    other.insert("a".to_string(), Status::Failed);
    assert!(map.same(&other) && other.same(&map));
}
