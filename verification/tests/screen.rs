//! What is on the screen.

use std::sync::Arc;

use tukituki::app::App;
use tukituki::area::{overlay, Area};
use tukituki::event::{AppEvent, KeyCode, KeyEvent};
use tukituki::handle::ManagerHandle;
use tukituki::highlight::{find_hits, highlight_line, highlight_styled, mark_ranges};
use tukituki::names::NameMap;
use tukituki::screen::{Draw, Panes, SIDEBAR_WIDTH};
use tukituki::spans::{parse_log_line, single_line, Line, Paint, Piece, Tone};
use tukituki::target::{RunTarget, Status};
use tukituki::text::{decimal, lines_of, pad_to};
use tukituki::view::{draw, lay_out, render, visible_lines};

#[derive(Default)]
struct Idle;

impl ManagerHandle for Idle {
    fn get_all_statuses(&self) -> NameMap<Status> {
        NameMap::new()
    }
    fn get_targets(&self) -> Vec<RunTarget> {
        Vec::new()
    }
    fn get_log_lines(&self, _name: &str) -> Vec<String> {
        Vec::new()
    }
    fn start(&self, _name: &str) -> Result<(), String> {
        Ok(())
    }
    fn stop(&self, _name: &str) -> Result<(), String> {
        Ok(())
    }
    fn restart(&self, _name: &str) -> Result<(), String> {
        Ok(())
    }
    fn dump_log(&self, _name: &str, _dest: &str) -> Result<(), String> {
        Ok(())
    }
    fn clear_log(&self, _name: &str) -> Result<(), String> {
        Ok(())
    }
    fn stop_all(&self) -> Result<(), String> {
        Ok(())
    }
    fn update_targets(&self, _targets: Vec<RunTarget>) {}
    fn describe(&self, _name: &str) -> String {
        "first\r\nsecond\n\nlast".to_string()
    }
    fn ensure_otel_collector(&self) -> Result<(), String> {
        Ok(())
    }
    fn log_file_path(&self, _name: &str) -> Option<String> {
        None
    }
    fn state_file_path(&self) -> String {
        String::new()
    }
    fn reload_state_from_disk(&self) {}
}

const SCREEN: Area = Area { x: 0, y: 0, width: 80, height: 24 };

fn app_of(names: &[&str]) -> App<Idle> {
    let targets = names
        .iter()
        .map(|name| RunTarget {
            name: name.to_string(),
            is_virtual: *name == "otel-errors",
            ..Default::default()
        })
        .collect();
    App::new(targets, Arc::new(Idle), String::new(), String::new())
}

fn press(app: &mut App<Idle>, c: char) {
    app.handle(AppEvent::Key(KeyEvent { code: KeyCode::Char(c), control: false }));
}

fn line(app: &mut App<Idle>, target: &str, text: &str) {
    app.handle(AppEvent::LogLine { target: target.into(), line: text.into() });
}

fn text_of(line: &Line) -> String {
    let mut out = String::new();
    for piece in &line.pieces {
        match piece {
            Piece::Text { text, .. } => out.push_str(text),
            Piece::Icon(status) => out.push_str(&format!("{status:?}")),
        }
    }
    out
}

fn tones(line: &Line) -> Vec<Option<Tone>> {
    line.pieces
        .iter()
        .map(|piece| match piece {
            Piece::Text { paint: Paint::Tone(tone), .. } => Some(*tone),
            _ => None,
        })
        .collect()
}

fn texts(steps: &[Draw], at: Area) -> Vec<String> {
    for step in steps {
        if let Draw::Text { area, lines, .. } = step {
            if *area == at {
                return lines.iter().map(text_of).collect();
            }
        }
    }
    panic!("nothing is drawn there");
}

#[test]
fn the_screen_is_divided() {
    let mut app = app_of(&["a"]);
    let panes: Panes = lay_out(SCREEN, &app);
    assert_eq!(
        panes.screen,
        vec![
            Area { x: 0, y: 0, width: 80, height: 1 },
            Area { x: 0, y: 1, width: 80, height: 23 },
        ]
    );
    assert_eq!(panes.body[0], Area { x: 0, y: 1, width: SIDEBAR_WIDTH, height: 23 });
    assert_eq!(panes.body[1], Area { x: 30, y: 1, width: 50, height: 23 });
    assert_eq!(panes.sidebar[0], Area { x: 1, y: 2, width: 28, height: 16 });
    assert_eq!(panes.sidebar[1], Area { x: 1, y: 18, width: 28, height: 5 });
    assert_eq!(panes.log[0], Area { x: 31, y: 2, width: 48, height: 1 });
    assert_eq!(panes.log[1], Area { x: 31, y: 3, width: 48, height: 20 });

    app.in_flight.insert(1, "busy".to_string());
    app.search_mode = true;
    app.zoom_logs = true;
    let panes = lay_out(SCREEN, &app);
    assert_eq!(panes.screen[2], Area { x: 0, y: 23, width: 80, height: 1 });
    assert!(panes.body.is_empty() && panes.sidebar.is_empty());
    assert_eq!(panes.log.len(), 2);
    assert_eq!(panes.log[0], Area { x: 0, y: 1, width: 80, height: 21 });
    assert_eq!(panes.log[1], Area { x: 0, y: 22, width: 80, height: 1 });
}

#[test]
fn a_tiny_screen_can_be_drawn() {
    let mut app = app_of(&["a"]);
    press(&mut app, '?');
    for (width, height) in [(0, 0), (1, 1), (3, 2), (19, 4)] {
        let area = Area { x: 0, y: 0, width, height };
        assert!(!render(area, &app).is_empty());
    }
}

#[test]
fn the_header_names_the_target_and_the_message() {
    let mut app = app_of(&["api"]);
    let steps = render(SCREEN, &app);
    let at = Area { x: 0, y: 0, width: 80, height: 1 };
    assert_eq!(texts(&steps, at), vec![" tukituki — api   ? help  q detach  Q stop all & exit "]);
    app.flash("done");
    app.rows.clear();
    app.selected = 0;
    let steps = render(SCREEN, &app);
    assert_eq!(texts(&steps, at), vec![" tukituki   done "]);
    assert!(matches!(&steps[0], Draw::Text { tone: Some(Tone::Header), wrap: false, .. }));
}

#[test]
fn the_footer_lists_what_runs_in_order() {
    let mut app = app_of(&["api"]);
    app.in_flight.insert(7, "later".to_string());
    app.in_flight.insert(2, "sooner".to_string());
    let steps = render(SCREEN, &app);
    let at = Area { x: 0, y: 23, width: 80, height: 1 };
    assert_eq!(texts(&steps, at), vec![" Working: sooner  ·  later "]);
    app.in_flight.clear();
    let steps = render(SCREEN, &app);
    assert!(!steps.iter().any(|s| matches!(s, Draw::Text { tone: Some(Tone::FooterBusy), .. })));
}

#[test]
fn the_sidebar_shows_status_and_selection() {
    let mut app = app_of(&["api", "web", "otel-errors"]);
    app.targets[1].group = "g".to_string();
    app.folder_expanded.insert("g".to_string(), true);
    app.rebuild_rows();
    app.statuses.insert("api".to_string(), Status::Running);
    app.handle(AppEvent::OtelError);
    let steps = render(SCREEN, &app);
    let rows = match &steps[2] {
        Draw::Text { lines, tone: Some(Tone::Item), .. } => lines,
        other => panic!("{other:?}"),
    };
    let shown: Vec<String> = rows.iter().map(|l| text_of(l).trim_end().to_string()).collect();
    assert_eq!(
        shown,
        vec![
            " Running api",
            "▼ g (1)",
            " Unknown   web",
            "  ─ collectors ─",
            " Unknown otel-errors (1)",
        ]
    );
    assert_eq!(tones(&rows[0]), vec![None, None, None, Some(Tone::SelectedItem)]);
    assert_eq!(tones(&rows[1]), vec![Some(Tone::FolderItem)]);
    assert_eq!(tones(&rows[3]), vec![Some(Tone::KeyHint)]);
    assert_eq!(tones(&rows[4])[3], Some(Tone::OtelAlert));
    assert_eq!(text_of(&rows[1]).chars().count(), 28);
    app.handle(AppEvent::OtelBlink);
    let steps = render(SCREEN, &app);
    if let Draw::Text { lines, .. } = &steps[2] {
        assert_eq!(tones(&lines[4])[3], Some(Tone::OtelAlertOff));
    }
    if let Draw::Text { lines, .. } = &steps[3] {
        assert_eq!(lines.len(), 5);
        assert_eq!(text_of(&lines[0]), " r restart  s stop");
    }
}

#[test]
fn the_log_window_shows_the_newest_lines() {
    let mut app = app_of(&["a"]);
    for i in 0..50 {
        line(&mut app, "a", &format!("line {i}"));
    }
    let at = Area { x: 31, y: 3, width: 48, height: 20 };
    let steps = render(SCREEN, &app);
    let shown = texts(&steps, at);
    assert_eq!(shown.len(), 20);
    assert_eq!((shown[0].as_str(), shown[19].as_str()), ("line 30", "line 49"));
    app.handle(AppEvent::ScrollLog(-45));
    let shown: Vec<String> =
        visible_lines(&app, 20).iter().map(text_of).collect();
    assert_eq!(shown, vec!["line 0", "line 1", "line 2", "line 3", "line 4"]);
    assert_eq!(visible_lines(&app, 0).len(), 1);
    app.wrap_logs = true;
    let panes = lay_out(SCREEN, &app);
    let steps = draw(&app, &panes, Vec::new());
    assert!(steps.iter().any(|s| matches!(s, Draw::Text { wrap: true, tone: None, .. })));
}

#[test]
fn a_blank_line_is_shown_without_a_selected_target() {
    let mut app = app_of(&["a"]);
    assert!(visible_lines(&app, 5).is_empty());
    app.rows.clear();
    let lines = visible_lines(&app, 5);
    assert_eq!(lines.len(), 1);
    assert!(lines[0].pieces.is_empty());
    let steps = render(SCREEN, &app);
    let title = Area { x: 31, y: 2, width: 48, height: 1 };
    assert_eq!(texts(&steps, title), vec![" (no target selected) "]);
}

#[test]
fn the_search_bar_counts_the_matches() {
    let mut app = app_of(&["a"]);
    for text in ["one x", "two", "three X"] {
        line(&mut app, "a", text);
    }
    press(&mut app, '/');
    let at = Area { x: 31, y: 22, width: 48, height: 1 };
    let bar = |app: &App<Idle>| texts(&render(SCREEN, app), at)[0].clone();
    assert_eq!(bar(&app), " /  [0]  (Enter=next, Esc=close) ");
    press(&mut app, 'x');
    assert_eq!(bar(&app), " /x  [1/2]  (Enter=next, Esc=close) ");
    press(&mut app, '/');
    assert_eq!(bar(&app), " /x  [2/2]  (Enter=next, Esc=close) ");
    press(&mut app, 'y');
    assert_eq!(bar(&app), " /xy  [no matches]  (Enter=next, Esc=close) ");
}

#[test]
fn hits_are_marked_in_the_log() {
    let mut app = app_of(&["a"]);
    line(&mut app, "a", "Error one");
    line(&mut app, "a", "fine");
    line(&mut app, "a", "two ERRORs: error");
    press(&mut app, '/');
    for c in "error".chars() {
        press(&mut app, c);
    }
    let lines = visible_lines(&app, 10);
    assert_eq!(tones(&lines[0]), vec![Some(Tone::SearchCurrentMatch), None]);
    assert_eq!(tones(&lines[1]), vec![None]);
    assert_eq!(
        tones(&lines[2]),
        vec![None, Some(Tone::SearchMatch), None, Some(Tone::SearchMatch)]
    );
    assert_eq!(text_of(&lines[2]), "two ERRORs: error");
}

#[test]
fn marking_keeps_the_text() {
    for (text, query) in [("aXbxc", "x"), ("", "x"), ("xx", "xx"), ("äxÄ", "ä"), ("no", "yes")] {
        let marks = highlight_line(text, query, false);
        assert_eq!(text_of(&marks), text);
    }
    let marks = highlight_line("äxÄ", "ä", true);
    assert_eq!(tones(&marks), vec![
        Some(Tone::SearchCurrentMatch),
        None,
        Some(Tone::SearchCurrentMatch),
    ]);
    assert_eq!(tones(&highlight_line("abc", "", false)), vec![None]);
    assert!(highlight_line("", "x", false).pieces.is_empty());
}

/// The pieces of a line, each with whether it is marked.
fn marks(line: &Line) -> Vec<(String, bool)> {
    line.pieces
        .iter()
        .map(|piece| match piece {
            Piece::Text { text, paint } => (
                text.clone(),
                matches!(paint, Paint::Tone(Tone::SearchMatch | Tone::SearchCurrentMatch)),
            ),
            Piece::Icon(_) => (String::new(), false),
        })
        .collect()
}

fn pairs(expected: &[(&str, bool)]) -> Vec<(String, bool)> {
    expected.iter().map(|(text, marked)| (text.to_string(), *marked)).collect()
}

#[test]
fn marks_stand_on_the_characters_that_match() {
    // The lower-case form of this capital letter is longer than itself.
    let line = highlight_line("İx", "x", false);
    assert_eq!(marks(&line), pairs(&[("İ", false), ("x", true)]));
    assert_eq!(tones(&line), vec![None, Some(Tone::SearchMatch)]);
    assert_eq!(marks(&highlight_line("xİ", "x", false)), pairs(&[("x", true), ("İ", false)]));
    assert_eq!(
        marks(&highlight_line("aİb", "i\u{307}", false)),
        pairs(&[("a", false), ("İ", true), ("b", false)])
    );
    // The lower-case form of the Kelvin sign takes up fewer bytes than itself.
    assert_eq!(
        marks(&highlight_line("1 \u{212a}K", "k", false)),
        pairs(&[("1 ", false), ("\u{212a}", true), ("K", true)])
    );
    assert_eq!(marks(&highlight_line("ΟΔΟΣ", "οδος", false)), pairs(&[("ΟΔΟΣ", true)]));
    // The lower-case form of a sigma depends on whether a word ends there.
    assert_eq!(
        marks(&highlight_line("ΟΔΥΣΣΕΑΣ", "οδυσ", false)),
        pairs(&[("ΟΔΥΣ", true), ("ΣΕΑΣ", false)])
    );
    assert_eq!(marks(&highlight_line("ΟΔΥΣΣΕΑΣ", "ΟΔΥΣ", false)), pairs(&[("ΟΔΥΣΣΕΑΣ", false)]));
}

#[test]
fn marks_are_leftmost_and_do_not_overlap() {
    assert_eq!(
        marks(&highlight_line("AaAaa", "aa", false)),
        pairs(&[("Aa", true), ("Aa", true), ("a", false)])
    );
    assert_eq!(
        marks(&highlight_line("ababab", "BAB", false)),
        pairs(&[("a", false), ("bab", true), ("ab", false)])
    );
}

#[test]
fn hits_are_found_by_the_forms_of_the_parts() {
    let rows = |rows: &[&[&str]]| -> Vec<Vec<String>> {
        rows.iter().map(|row| row.iter().map(|form| form.to_string()).collect()).collect()
    };
    assert_eq!(find_hits(&rows(&[&["i\u{307}"], &["x"]]), "x"), vec![(1, 2)]);
    let overlapping = rows(&[&["a", "aa"], &["a", "aa"], &["a"]]);
    assert_eq!(find_hits(&overlapping, "aa"), vec![(0, 2)]);
    assert_eq!(find_hits(&overlapping, "a"), vec![(0, 1), (1, 2), (2, 3)]);
    assert!(find_hits(&overlapping, "b").is_empty());
    assert!(find_hits(&Vec::new(), "b").is_empty());
}

#[test]
fn marked_ranges_cut_the_pieces() {
    let mut line = Line::empty();
    line.push_raw("abc".to_string());
    line.push(Piece::Icon(Status::Running));
    line.push_toned("def".to_string(), Tone::Item);
    let marked = mark_ranges(&line, &vec![(1, 2), (2, 5)], Tone::SearchMatch);
    assert_eq!(
        marks(&marked),
        pairs(&[("a", false), ("b", true), ("c", true), ("", false), ("de", true), ("f", false)])
    );
    assert_eq!(tones(&marked).last(), Some(&Some(Tone::Item)));
    assert_eq!(marks(&mark_ranges(&line, &Vec::new(), Tone::Item)).len(), 3);
}

#[test]
fn marks_leave_the_styles_of_the_rest_of_a_line() {
    let mut app = app_of(&["a"]);
    line(&mut app, "a", "\u{1b}[32mok\u{1b}[0m hit");
    press(&mut app, '/');
    for c in "hit".chars() {
        press(&mut app, c);
    }
    let lines = visible_lines(&app, 10);
    assert_eq!(text_of(&lines[0]), "ok hit");
    assert_eq!(marks(&lines[0]).last(), Some(&("hit".to_string(), true)));
    match &lines[0].pieces[0] {
        Piece::Text { text, paint: Paint::Ansi(style) } => {
            assert_eq!(text, "ok");
            assert_eq!(style.fg.as_deref(), Some("Green"));
        }
        other => panic!("{other:?}"),
    }
    // A hit that reaches over two styles is marked in both.
    let line = highlight_styled(&parse_log_line("\u{1b}[31mre\u{1b}[0mady"), "REA", true);
    assert_eq!(text_of(&line), "ready");
    assert_eq!(marks(&line), pairs(&[("re", true), ("a", true), ("dy", false)]));
}

#[test]
fn a_search_can_always_be_drawn() {
    let mut app = app_of(&["a"]);
    line(&mut app, "a", "İx");
    press(&mut app, '/');
    press(&mut app, 'x');
    let lines = visible_lines(&app, 5);
    assert_eq!(marks(&lines[0]), pairs(&[("İ", false), ("x", true)]));
    assert!(!render(SCREEN, &app).is_empty());
}

#[test]
fn overlays_stand_in_the_middle() {
    assert_eq!(
        overlay(Area { x: 0, y: 1, width: 80, height: 23 }),
        Area { x: 2, y: 2, width: 76, height: 21 }
    );
    assert_eq!(
        overlay(Area { x: 5, y: 5, width: 10, height: 3 }),
        Area { x: 5, y: 5, width: 20, height: 5 }
    );
    let mut app = app_of(&["a"]);
    press(&mut app, '?');
    let steps = render(SCREEN, &app);
    let over = Area { x: 2, y: 2, width: 76, height: 21 };
    let n = steps.len();
    assert!(matches!(&steps[n - 3], Draw::Clear { area } if *area == over));
    match &steps[n - 2] {
        Draw::Border { area, title } => {
            assert_eq!(*area, over);
            assert_eq!(title.as_deref(), Some(" Help "));
        }
        other => panic!("{other:?}"),
    }
    let inside = Area { x: 3, y: 3, width: 74, height: 19 };
    let help = texts(&steps, inside);
    assert_eq!(help.len(), 30);
    assert_eq!(help[0], "");
    assert_eq!(help[12], "   R              restart all (clears logs)");
    assert_eq!(help[29], " Press ? or Esc to dismiss.");
}

#[test]
fn descriptions_are_shown_line_by_line() {
    let mut app = app_of(&["a"]);
    press(&mut app, 'D');
    let steps = render(SCREEN, &app);
    let inside = Area { x: 3, y: 3, width: 74, height: 19 };
    assert_eq!(texts(&steps, inside), vec!["first", "second", "", "last"]);
}

#[test]
fn a_zoomed_log_stands_alone() {
    let mut app = app_of(&["a"]);
    line(&mut app, "a", "x");
    press(&mut app, 'z');
    let steps = render(SCREEN, &app);
    assert_eq!(steps.len(), 2);
    assert!(!steps.iter().any(|s| matches!(s, Draw::Border { .. })));
    assert_eq!(texts(&steps, Area { x: 0, y: 1, width: 80, height: 23 }), vec!["x"]);
}

#[test]
fn escape_sequences_become_styles() {
    let shown = parse_log_line("\u{1b}[31mred\u{1b}[0m plain");
    assert_eq!(text_of(&shown), "red plain");
    match &shown.pieces[0] {
        Piece::Text { text, paint: Paint::Ansi(style) } => {
            assert_eq!(text, "red");
            assert_eq!(style.fg.as_deref(), Some("Red"));
        }
        other => panic!("{other:?}"),
    }
    assert_eq!(text_of(&parse_log_line("bare")), "bare");
    assert_eq!(text_of(&parse_log_line("two\nlines")), "two lines");
}

#[test]
fn what_was_read_becomes_one_line() {
    let read = vec![Line::plain("a"), Line::plain(""), Line::plain("b")];
    assert_eq!(text_of(&single_line("ignored", Some(read))), "a  b");
    assert_eq!(text_of(&single_line("raw\ntext", None)), "rawtext");
    assert!(single_line("x", Some(Vec::new())).pieces.is_empty());
    let line = Line::plain("copy me");
    assert_eq!(text_of(&line.copied()), "copy me");
}

#[test]
fn texts_are_cut_padded_and_split() {
    assert_eq!(pad_to(5, "abc"), "abc  ");
    assert_eq!(pad_to(2, "äöü"), "äö");
    assert_eq!(pad_to(0, "x"), "");
    assert_eq!(decimal(0), "0");
    assert_eq!(decimal(120_045), "120045");
    assert_eq!(lines_of("a\r\n\nb\r"), vec!["a", "", "b\r"]);
    assert!(lines_of("").is_empty());
}
