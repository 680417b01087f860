//! The parts that deal with the outside: log buffers, the editor, open files, the
//! collector's socket.

use tukituki::dump::{dump_destination, join_path};
use tukituki::editor::{
    chosen_editor, command_from, editor_command, Drain, Pending, MAX_DRAIN_EVENTS,
};
use tukituki::fdlimit::{nofile_target, DESIRED_NOFILE};
use tukituki::log_buffer::{LogBuffer, TUI_RING};
use tukituki::subscriber::{first_step, next_step, Step, DIAL_RETRY_MS, STREAM_RETRY_MS};

fn filled(n: usize) -> LogBuffer {
    let mut buf = LogBuffer::default();
    for i in 0..n {
        assert_eq!(buf.receive(format!("{i}")), 0);
    }
    buf
}

#[test]
fn a_full_ring_drops_its_oldest_line() {
    let mut buf = filled(TUI_RING);
    assert_eq!(buf.push("new".to_string()), 1);
    assert_eq!(buf.lines.len(), TUI_RING);
    assert_eq!(buf.parsed.len(), TUI_RING);
    assert_eq!(buf.lines.front().map(|s| s.as_str()), Some("1"));
    assert_eq!(buf.lines.back().map(|s| s.as_str()), Some("new"));
}

#[test]
fn a_reader_keeps_their_place() {
    let mut buf = filled(30);
    buf.scroll_by(-10);
    assert_eq!((buf.scroll, buf.at_bottom), (10, false));
    buf.receive("new".to_string());
    assert_eq!(buf.scroll, 11);
    buf.scroll_by(11);
    assert_eq!((buf.scroll, buf.at_bottom), (0, true));
    buf.receive("newer".to_string());
    assert_eq!(buf.scroll, 0);
}

#[test]
fn a_reader_of_a_full_ring_keeps_their_place() {
    let mut buf = filled(TUI_RING);
    buf.scroll_by(-20);
    let lowest = |buf: &LogBuffer| buf.lines[buf.lines.len() - buf.scroll - 1].clone();
    assert_eq!(lowest(&buf), "9979");
    for i in 0..5 {
        assert_eq!(buf.receive(format!("new {i}")), 1);
        assert_eq!(buf.scroll, 21 + i);
        assert_eq!(lowest(&buf), "9979");
    }
    assert!(!buf.at_bottom);
    // The oldest line cannot be kept in view once it is gone.
    buf.scroll_by(-(TUI_RING as i32));
    assert_eq!(buf.receive("last".to_string()), 1);
    assert_eq!(buf.scroll, TUI_RING);
}

#[test]
fn scrolling_down_undoes_scrolling_up() {
    let mut buf = filled(30);
    buf.scroll_by(-4);
    buf.scroll_by(-10);
    buf.scroll_by(10);
    assert_eq!(buf.scroll, 4);
    buf.scroll_by(-100);
    assert_eq!(buf.scroll, 30);
    buf.clear();
    assert_eq!((buf.lines.len(), buf.parsed.len(), buf.scroll, buf.at_bottom), (0, 0, 0, true));
}

#[test]
fn a_centered_line_stands_in_the_window() {
    let mut buf = filled(100);
    buf.center_on(50, 9);
    // Rows 46 to 54 are in view.
    assert_eq!(100 - buf.scroll, 55);
    buf.center_on(99, 9);
    assert_eq!((buf.scroll, buf.at_bottom), (0, true));
    buf.center_on(0, 1);
    assert_eq!(buf.scroll, 99);
}

#[test]
fn the_editor_is_taken_apart_as_a_shell_does() {
    let command = editor_command("code --wait 'my profile'", "a b.yaml").unwrap();
    assert_eq!(command.program, "code");
    assert_eq!(command.args, vec!["--wait", "my profile", "a b.yaml"]);
    let command = editor_command("vim", "x").unwrap();
    assert_eq!((command.program.as_str(), command.args.len()), ("vim", 1));
    // An open quote: the whole text is taken as the program.
    let command = editor_command("it's vim", "x").unwrap();
    assert_eq!(command.program, "it's vim");
    assert_eq!(command.args, vec!["x"]);
    assert!(editor_command("  ", "x").is_none());
}

#[test]
fn words_become_a_command() {
    let words = Some(vec!["e".to_string(), "-f".to_string()]);
    let command = command_from("ignored", words, "src").unwrap();
    assert_eq!(command.program, "e");
    assert_eq!(command.args, vec!["-f", "src"]);
    assert_eq!(command_from("as is", None, "src").unwrap().program, "as is");
    assert!(command_from("x", Some(Vec::new()), "src").is_none());
    assert_eq!(chosen_editor(None), "vim");
    assert_eq!(chosen_editor(Some("nano".to_string())), "nano");
}

#[test]
fn draining_ends() {
    let mut drain = Drain::new();
    let mut dropped = 0;
    while drain.goes_on() {
        drain.note(Pending::Dropped);
        dropped += 1;
    }
    assert_eq!(dropped, MAX_DRAIN_EVENTS);
    assert_eq!(MAX_DRAIN_EVENTS, 4096);
    for found in [Pending::Nothing, Pending::Unreadable] {
        let mut drain = Drain::new();
        drain.note(found);
        assert!(!drain.goes_on());
    }
    drain.note(Pending::Dropped);
    assert!(!drain.goes_on());
}

#[test]
fn the_limit_on_open_files_only_rises() {
    assert_eq!(DESIRED_NOFILE, 8192);
    assert_eq!(nofile_target(256, u64::MAX), Some(8192));
    assert_eq!(nofile_target(256, 4096), Some(4096));
    assert_eq!(nofile_target(256, 1_000_000), Some(8192));
    assert_eq!(nofile_target(8192, u64::MAX), None);
    assert_eq!(nofile_target(10_000, 20_000), None);
    assert_eq!(nofile_target(1024, 1024), None);
}

#[test]
fn a_lost_collector_is_dialed_again() {
    assert_eq!((DIAL_RETRY_MS, STREAM_RETRY_MS), (1000, 500));
    let step = first_step();
    assert_eq!(step, Step::Resolve);
    assert_eq!(next_step(Step::Resolve, true), Step::Dial);
    assert_eq!(next_step(Step::Dial, false), Step::Pause(1000));
    assert_eq!(next_step(Step::Pause(1000), true), Step::Resolve);
    assert_eq!(next_step(Step::Dial, true), Step::Subscribe);
    assert_eq!(next_step(Step::Subscribe, false), Step::Pause(1000));
    assert_eq!(next_step(Step::Subscribe, true), Step::Receive);
    assert_eq!(next_step(Step::Receive, true), Step::Forward);
    assert_eq!(next_step(Step::Forward, true), Step::Receive);
    assert_eq!(next_step(Step::Receive, false), Step::Pause(500));
}

#[test]
fn the_subscriber_leaves_when_nobody_listens() {
    assert_eq!(next_step(Step::Forward, false), Step::Stop);
    assert_eq!(next_step(Step::Resolve, false), Step::Stop);
    assert_eq!(next_step(Step::Stop, true), Step::Stop);
}

#[test]
fn paths_are_put_together() {
    assert_eq!(join_path("/a", "b"), "/a/b");
    assert_eq!(join_path("/a/", "b"), "/a/b");
    assert_eq!(join_path("", "b"), "b");
    assert_eq!(join_path("/a", "/b"), "/b");
    assert_eq!(dump_destination(".", "api", "T"), "./api-T.log");
}
