//! What holds of a log buffer over several operations.

use vstd::prelude::*;

use crate::event::EventModel;
use crate::highlight::{
    hit_ranges, in_ranges, law_highlighting_marks_the_hits, paints, pieces_text,
};
use crate::log_buffer::{LogModel, TUI_RING};
use crate::model::{lemma_logs_get, Answers, AppModel};
use crate::screen::{current_line, log_lines};

verus! {

/// A reader who has scrolled up keeps their place while lines come in: the same
/// lines stay in the window, whether the ring was full or not. Only the oldest line
/// of a full ring leaves a window that it stood in.
pub proof fn law_reading_position_is_kept(log: LogModel, line: Seq<char>, rows: nat)
    requires
        log.wf(),
        !log.at_bottom,
    ensures
        ({
            let d = log.dropped_by_push();
            let start = log.view_start(rows);
            let end = log.view_end();
            let next = log.received(line);
            &&& !next.at_bottom
            &&& end >= d ==> next.view_end() == end - d
            &&& end < d ==> next.view_end() == 0
            &&& start >= d ==> {
                &&& next.view_start(rows) == start - d
                &&& next.lines.subrange(start - d, end - d) == log.lines.subrange(
                    start as int,
                    end as int,
                )
                &&& next.parsed.subrange(start - d, end - d) == log.parsed.subrange(
                    start as int,
                    end as int,
                )
            }
        }),
{
    let d = log.dropped_by_push();
    let start = log.view_start(rows) as int;
    let end = log.view_end() as int;
    let next = log.received(line);
    if start >= d {
        assert(next.lines.subrange(start - d, end - d) =~= log.lines.subrange(start, end));
        assert(next.parsed.subrange(start - d, end - d) =~= log.parsed.subrange(start, end));
    }
}

/// What a reader who has scrolled up has before them stays as it is while the target
/// writes on, as long as none of it is pushed out of the ring.
pub proof fn law_window_stays_while_lines_come_in(
    model: AppModel,
    name: Seq<char>,
    line: Seq<char>,
    answers: Answers,
    rows: nat,
)
    requires
        model.wf(),
        !model.search_mode,
        model.selected_name() == Some(name),
        model.logs.contains_key(name),
        !model.logs[name].at_bottom,
        model.logs[name].view_start(rows) >= model.logs[name].dropped_by_push(),
    ensures
        log_lines(model.after_event(EventModel::LogLine { target: name, line }, answers), rows)
            == log_lines(model, rows),
{
    lemma_logs_get(model.logs, name);
    law_reading_position_is_kept(model.logs[name], line, rows);
    let after = model.after_event(EventModel::LogLine { target: name, line }, answers);
    assert(after.selected_name() == model.selected_name());
    assert(after.logs[name] == model.logs[name].received(line));
}

/// A view that follows the newest line goes on following it.
pub proof fn law_following_view_shows_the_newest_line(log: LogModel, line: Seq<char>)
    requires
        log.wf(),
        log.at_bottom,
    ensures
        log.received(line).at_bottom,
        log.received(line).scroll == 0,
        log.received(line).view_end() == log.received(line).lines.len(),
        log.received(line).lines.last() == line,
{
}

/// What is kept are the newest lines, as many as the ring has room for, in the order
/// in which they came.
pub proof fn law_ring_keeps_the_newest_lines(log: LogModel, lines: Seq<Seq<char>>)
    requires
        log.wf(),
    ensures
        log.pushed_all(lines).lines == newest(log.lines + lines),
        log.pushed_all(lines).scroll == log.scroll,
        log.pushed_all(lines).at_bottom == log.at_bottom,
    decreases lines.len(),
{
    let all = log.lines + lines;
    if lines.len() == 0 {
        assert(all =~= log.lines);
        assert(newest(all) =~= log.lines);
    } else {
        law_ring_keeps_the_newest_lines(log, lines.drop_last());
        let before = log.lines + lines.drop_last();
        assert(all =~= before.push(lines.last()));
        assert(log.pushed_all(lines).lines =~= newest(all));
    }
}

/// The last lines of `lines`, as many as the ring has room for.
pub open spec fn newest(lines: Seq<Seq<char>>) -> Seq<Seq<char>> {
    if lines.len() > TUI_RING {
        lines.skip(lines.len() - TUI_RING)
    } else {
        lines
    }
}

/// Scrolling down undoes scrolling up by as many lines, where there were as many to
/// scroll up by.
pub proof fn law_scrolling_down_undoes_scrolling_up(log: LogModel, lines: nat)
    requires
        log.wf(),
        lines > 0,
        log.scroll + lines <= log.lines.len(),
    ensures
        log.scrolled(-lines).scrolled(lines as int) == log,
{
}

/// A scroll keeps the view within the buffer. One to the newest line follows it from
/// then on, one up leaves it, and where there are no lines there is nothing to scroll.
pub proof fn law_scrolling_stays_within_the_log(log: LogModel, delta: int)
    requires
        log.wf(),
    ensures
        log.scrolled(delta).wf(),
        log.scrolled(delta).lines == log.lines,
        delta > 0 && log.scroll <= delta ==> log.scrolled(delta).at_bottom,
        delta < 0 && log.lines.len() > 0 ==> !log.scrolled(delta).at_bottom,
        log.lines.len() == 0 ==> log.scrolled(delta) == log,
{
}

/// The window lies within the buffer and is no taller than it has rows; it is filled
/// where there are lines enough.
pub proof fn law_window_fits(log: LogModel, rows: nat)
    requires
        log.wf(),
    ensures
        log.view_start(rows) <= log.view_end() <= log.lines.len(),
        rows > 0 ==> log.view_end() - log.view_start(rows) <= rows,
        rows > 0 && log.view_end() >= rows ==> log.view_end() - log.view_start(rows) == rows,
{
}

/// A line that the view is moved to stands in the window.
pub proof fn law_centered_line_is_in_view(log: LogModel, index: nat, rows: nat)
    requires
        log.wf(),
        index < log.lines.len(),
        rows > 0,
    ensures
        log.centered(index, rows).wf(),
        log.centered(index, rows).view_start(rows) <= index < log.centered(index, rows).view_end(),
{
}

/// No more log lines are shown than the window has rows, whether a search goes on or
/// not.
pub proof fn law_log_fits_its_window(model: AppModel, rows: nat)
    requires
        model.wf(),
        rows > 0,
    ensures
        log_lines(model, rows).len() <= rows,
{
    if let Some(name) = model.selected_name() {
        if model.logs.contains_key(name) {
            lemma_logs_get(model.logs, name);
            law_window_fits(model.logs[name], rows);
        }
    }
}

/// A search changes nothing about which log lines are shown, nor what they say: it
/// only marks the hits, and leaves the rest of each line in its styles.
pub proof fn law_search_only_marks_the_hits(model: AppModel, rows: nat, k: int)
    requires
        model.wf(),
        0 <= k < log_lines(model, rows).len(),
        model.search_query.len() > 0,
    ensures
        ({
            let query = model.search_query;
            let without = log_lines(AppModel { search_mode: false, ..model }, rows);
            let with = log_lines(model, rows);
            let hits = hit_ranges(pieces_text(without[k]), query);
            &&& with.len() == without.len()
            &&& pieces_text(with[k]) == pieces_text(without[k])
            &&& forall|i: int|
                0 <= i < pieces_text(without[k]).len() && !in_ranges(hits, i) ==> (
                #[trigger] paints(with[k])[i]) == paints(without[k])[i]
        }),
{
    if let Some(name) = model.selected_name() {
        if model.logs.contains_key(name) && model.search_mode {
            lemma_logs_get(model.logs, name);
            let log = model.logs[name];
            let at = log.view_start(rows) + k;
            law_highlighting_marks_the_hits(
                log.parsed[at],
                model.search_query,
                current_line(model) == Some(at as nat),
            );
        }
    }
}

} // verus!
