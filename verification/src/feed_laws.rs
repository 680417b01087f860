//! What the application makes of what comes in from outside: log lines, heartbeats,
//! reloads, errors of the collector.

use vstd::prelude::*;

use crate::event::{EffectModel, EventModel};
use crate::event_laws::law_sidebar_stays_current;
use crate::handle::{Call, Exchange};
use crate::key_laws::{
    hidden_below, law_selected_target_is_that_of_the_row, lines_of, only_view_differs, others_kept,
    stands_on, stands_on_none,
};
use crate::log_buffer::LogModel;
use crate::log_laws::law_ring_keeps_the_newest_lines;
use crate::model::{
    empty_logs, event_continuation, hits, lemma_logs_get, line_matches, shifted, shown_names,
    Answers, AppModel,
};
use crate::row_laws::{lemma_first_selectable, lemma_row_of_target};
use crate::rows::{computed_rows, RowModel};
use crate::search_laws::{law_hits_are_the_matching_lines, law_matches_are_right};
use crate::spans::parsed_line;
use crate::target::{Status, TargetModel};
use crate::text::{lowercase, occurs_at};

verus! {

/// Whether the lower-case form of the query is a part of that of the line.
pub open spec fn holds(line: Seq<char>, query: Seq<char>) -> bool {
    exists|at: int| {
        &&& 0 <= at
        &&& at + lowercase(query).len() <= lowercase(line).len()
        &&& #[trigger] lowercase(line).subrange(at, at + lowercase(query).len()) == lowercase(
            query,
        )
    }
}

/// A line is a hit exactly where it holds the query, letter case aside.
pub proof fn law_hits_hold_the_query(line: Seq<char>, query: Seq<char>)
    ensures
        line_matches(line, query) <==> holds(line, query),
        line_matches(line, query) ==> lowercase(line).len() >= lowercase(query).len(),
{
    let text = lowercase(line);
    let pattern = lowercase(query);
    if line_matches(line, query) {
        let at = choose|at: int| occurs_at(text, pattern, at);
        assert(text.subrange(at, at + pattern.len()) == pattern);
    }
    if holds(line, query) {
        let at = choose|at: int| {
            &&& 0 <= at
            &&& at + pattern.len() <= text.len()
            &&& #[trigger] text.subrange(at, at + pattern.len()) == pattern
        };
        assert(occurs_at(text, pattern, at));
    }
}

/// Whether one buffer is another with one more line at its end, and without its oldest
/// line where there were ten thousand.
pub open spec fn one_line_more(
    before: Seq<Seq<char>>,
    after: Seq<Seq<char>>,
    line: Seq<char>,
) -> bool {
    &&& before.len() < 10_000 ==> after == before.push(line)
    &&& before.len() == 10_000 ==> after.len() == 10_000 && after[9_999] == line && forall|i: int|
        0 <= i < 9_999 ==> #[trigger] after[i] == before[i + 1]
}

/// A line that a target writes is put at the end of its log, of which the newest ten
/// thousand lines are kept, and changes no other log. A view that follows the newest
/// line goes on following it; any other has one more line below it.
pub proof fn law_lines_are_kept(
    model: AppModel,
    target: Seq<char>,
    line: Seq<char>,
    answers: Answers,
)
    requires
        model.wf(),
    ensures
        ({
            let after = model.after_event(EventModel::LogLine { target, line }, answers);
            let before = lines_of(model, target);
            let hidden = hidden_below(model, target);
            let log = after.logs[target];
            &&& others_kept(model.logs, after.logs, target)
            &&& after.logs.dom().contains(target)
            &&& one_line_more(before, log.lines, line)
            &&& log.parsed.len() == log.lines.len()
            &&& forall|i: int|
                0 <= i < log.lines.len() ==> #[trigger] log.parsed[i] == parsed_line(log.lines[i])
            &&& hidden == 0 ==> log.scroll == 0 && log.at_bottom
            &&& hidden > 0 ==> !log.at_bottom && log.scroll == (if hidden < log.lines.len() {
                hidden + 1
            } else {
                hidden
            })
        }),
{
    let after = model.after_event(EventModel::LogLine { target, line }, answers);
    if model.logs.contains_key(target) {
        lemma_logs_get(model.logs, target);
    }
    let old = model.log_of(target);
    let log = after.logs[target];
    assert(log == old.received(line));
    assert(old.wf());
    if old.lines.len() < 10_000 {
        assert(log.lines =~= old.lines.push(line));
        assert(log.parsed =~= old.parsed.push(parsed_line(line)));
    }
    assert forall|i: int| 0 <= i < log.lines.len() implies #[trigger] log.parsed[i] == parsed_line(
        log.lines[i],
    ) by {
        let d = old.dropped_by_push() as int;
        if i + d < old.lines.len() {
            assert(old.parsed[i + d] == parsed_line(old.lines[i + d]));
        }
    }
}

/// A line that comes in leaves everything else as it was. A repaint comes to be due
/// where the target is the selected one, and it is never urgent.
pub proof fn law_lines_change_nothing_else(
    model: AppModel,
    target: Seq<char>,
    line: Seq<char>,
    answers: Answers,
)
    ensures
        ({
            let after = model.after_event(EventModel::LogLine { target, line }, answers);
            &&& after == AppModel {
                logs: after.logs,
                search_matches: after.search_matches,
                search_match_idx: after.search_match_idx,
                dirty: model.dirty || stands_on(model, target),
                ..model
            }
            &&& !stands_on(model, target) || !model.search_mode || model.search_query.len() == 0
                ==> after.search_matches == model.search_matches && after.search_match_idx
                == model.search_match_idx
        }),
{
    law_selected_target_is_that_of_the_row(model, target);
}

proof fn lemma_shifted(positions: Seq<usize>)
    requires
        forall|j: int, k: int|
            0 <= j < k < positions.len() ==> #[trigger] positions[j] < #[trigger] positions[k],
    ensures
        positions.len() == 0 || positions[0] > 0 ==> shifted(positions) == positions.map_values(
            |p: usize| (p - 1) as usize,
        ),
        positions.len() > 0 && positions[0] == 0 ==> shifted(positions) == positions.skip(
            1,
        ).map_values(|p: usize| (p - 1) as usize),
    decreases positions.len(),
{
    if positions.len() > 0 {
        let before = positions.drop_last();
        lemma_shifted(before);
        if before.len() > 0 {
            assert(positions[0] < positions[positions.len() - 1]);
            assert(before[0] == positions[0]);
        }
        if positions[0] == 0 {
            if before.len() > 0 {
                assert(positions.skip(1) =~= before.skip(1).push(positions.last()));
            }
            assert(shifted(positions) =~= positions.skip(1).map_values(
                |p: usize| (p - 1) as usize,
            ));
        } else {
            assert(shifted(positions) =~= positions.map_values(|p: usize| (p - 1) as usize));
        }
    } else {
        assert(shifted(positions) =~= positions.map_values(|p: usize| (p - 1) as usize));
    }
}

/// While a search goes on in the log of the target that writes: as long as no line is
/// pushed out, the current match stays the one that it was, the matches stay, and the
/// new line is one more exactly where it holds the query.
pub proof fn law_search_keeps_its_place(
    model: AppModel,
    target: Seq<char>,
    line: Seq<char>,
    answers: Answers,
)
    requires
        model.wf(),
        stands_on(model, target),
        model.search_mode,
        model.search_query.len() > 0,
        lines_of(model, target).len() < 10_000,
    ensures
        ({
            let after = model.after_event(EventModel::LogLine { target, line }, answers);
            &&& after.search_match_idx == model.search_match_idx
            &&& holds(line, model.search_query) ==> after.search_matches
                == model.search_matches.push(lines_of(model, target).len() as usize)
            &&& !holds(line, model.search_query) ==> after.search_matches == model.search_matches
        }),
{
    law_selected_target_is_that_of_the_row(model, target);
    law_hits_hold_the_query(line, model.search_query);
    if model.logs.contains_key(target) {
        lemma_logs_get(model.logs, target);
    }
    let old = model.log_of(target);
    assert(old.received(line).lines =~= old.lines.push(line));
}

/// Where the new line pushes the oldest one out, every match moves up by one with its
/// line, and one on the oldest line goes. The current match keeps its number, and is
/// the first one again where there is none of that number any more.
pub proof fn law_search_follows_the_lines(
    model: AppModel,
    target: Seq<char>,
    line: Seq<char>,
    answers: Answers,
)
    requires
        model.wf(),
        stands_on(model, target),
        model.search_mode,
        model.search_query.len() > 0,
        lines_of(model, target).len() == 10_000,
        forall|j: int, k: int|
            0 <= j < k < model.search_matches.len() ==> #[trigger] model.search_matches[j]
                < #[trigger] model.search_matches[k],
    ensures
        ({
            let after = model.after_event(EventModel::LogLine { target, line }, answers);
            let gone: int = if model.search_matches.len() > 0 && model.search_matches[0] == 0 {
                1
            } else {
                0
            };
            let kept = model.search_matches.skip(gone).map_values(|p: usize| (p - 1) as usize);
            &&& holds(line, model.search_query) ==> after.search_matches == kept.push(9_999)
            &&& !holds(line, model.search_query) ==> after.search_matches == kept
            &&& model.search_match_idx < kept.len() ==> after.search_match_idx
                == model.search_match_idx
            &&& model.search_match_idx >= kept.len() ==> after.search_match_idx == 0
        }),
{
    law_selected_target_is_that_of_the_row(model, target);
    law_hits_hold_the_query(line, model.search_query);
    lemma_logs_get(model.logs, target);
    lemma_shifted(model.search_matches);
    assert(model.search_matches.skip(0) =~= model.search_matches);
}

/// A turn of the mouse wheel moves the view of the selected target by as many lines as
/// it says, towards newer lines where that is positive, as far as there are any.
pub proof fn law_wheel_moves_the_view(
    model: AppModel,
    name: Seq<char>,
    delta: int,
    answers: Answers,
)
    requires
        model.wf(),
        stands_on(model, name),
    ensures
        ({
            let after = model.after_event(EventModel::ScrollLog(delta), answers);
            let total = lines_of(model, name).len() as int;
            let wanted = hidden_below(model, name) - delta;
            let hidden = if wanted < 0 {
                0
            } else if wanted > total {
                total
            } else {
                wanted
            };
            &&& only_view_differs(model, after, name, hidden)
            &&& after.dirty
            &&& after.urgent == model.urgent
        }),
{
    law_selected_target_is_that_of_the_row(model, name);
    if model.logs.contains_key(name) {
        lemma_logs_get(model.logs, name);
    }
}

/// Where no target is selected, the mouse wheel moves nothing.
pub proof fn law_wheel_needs_a_target(model: AppModel, delta: int, answers: Answers)
    requires
        stands_on_none(model),
    ensures
        model.after_event(EventModel::ScrollLog(delta), answers) == (AppModel {
            dirty: true,
            ..model
        }),
{
    law_selected_target_is_that_of_the_row(model, Seq::empty());
}

/// A new size of the terminal, the end of the editor and the end of an operation change
/// nothing but what they report. An operation that has ended is no longer listed, and
/// the header says how it went.
pub proof fn law_reports_are_taken_over(
    model: AppModel,
    width: u16,
    height: u16,
    id: u64,
    summary: Seq<char>,
    answers: Answers,
)
    ensures
        model.after_event(EventModel::Resize(width, height), answers) == (AppModel {
            last_height: height,
            dirty: true,
            urgent: true,
            ..model
        }),
        model.after_event(EventModel::EditorDone, answers) == (AppModel {
            dirty: true,
            urgent: true,
            ..model
        }),
        model.after_event(EventModel::OpDone { id, summary }, answers) == (AppModel {
            in_flight: model.in_flight.remove(id),
            status_msg: summary,
            status_msg_until_tick: 2,
            dirty: true,
            urgent: true,
            ..model
        }),
        model.after_event(EventModel::FileChange(None), answers) == model,
{
}

/// A heartbeat reads the statuses, counts down the message in the header, and asks for
/// a repaint at once exactly where one of these changed something.
pub proof fn law_heartbeat(model: AppModel, answers: Answers)
    ensures
        ({
            let after = model.after_event(EventModel::Tick, answers);
            let left = model.status_msg_until_tick;
            let changed = left > 0 || !(answers.statuses =~= model.statuses);
            &&& after == AppModel {
                asked: model.asked.push(Exchange::Statuses(answers.statuses)),
                statuses: answers.statuses,
                status_msg: after.status_msg,
                status_msg_until_tick: after.status_msg_until_tick,
                dirty: model.dirty || changed,
                urgent: model.urgent || changed,
                ..model
            }
            &&& left > 0 ==> after.status_msg_until_tick == left - 1
            &&& left == 0 ==> after.status_msg_until_tick == 0
            &&& left == 1 ==> after.status_msg.len() == 0
            &&& left != 1 ==> after.status_msg == model.status_msg
        }),
{
}

/// A change of the state files has the manager read them, then asks it for the statuses,
/// with a repaint at once exactly where they are new.
pub proof fn law_state_files_are_read(model: AppModel, answers: Answers)
    ensures
        ({
            let changed = !(answers.statuses =~= model.statuses);
            model.after_event(EventModel::StateFileChange, answers) == AppModel {
                asked: model.asked.push(Exchange::Request(Call::ReloadState, Ok(()))).push(
                    Exchange::Statuses(answers.statuses),
                ),
                statuses: answers.statuses,
                dirty: model.dirty || changed,
                urgent: model.urgent || changed,
                ..model
            }
        }),
{
}

/// Whether the names that are remembered of the rows are those of the targets that the
/// rows show.
pub open spec fn names_are_right(model: AppModel) -> bool {
    &&& model.row_names.len() == model.rows.len()
    &&& forall|k: int|
        0 <= k < model.rows.len() ==> (#[trigger] model.row_names[k]) == (match model.rows[k] {
            RowModel::Target { target_idx, .. } => if target_idx < model.targets.len() {
                Some(model.targets[target_idx as int].name)
            } else {
                None
            },
            _ => None,
        })
}

/// Reading the run files again hands them to the manager, has the collector seen to,
/// and then takes over the targets that the manager has. The rows are those of these
/// targets, and the header says how it went.
pub proof fn law_reload(model: AppModel, loaded: Seq<TargetModel>, answers: Answers)
    ensures
        ({
            let after = model.after_event(EventModel::FileChange(Some(loaded)), answers);
            &&& after == AppModel {
                targets: answers.targets,
                rows: computed_rows(answers.targets, model.folder_expanded),
                row_names: after.row_names,
                selected: after.selected,
                search_mode: after.search_mode,
                search_query: after.search_query,
                search_matches: after.search_matches,
                search_match_idx: after.search_match_idx,
                asked: model.asked.push(
                    Exchange::Request(Call::UpdateTargets(loaded), Ok(())),
                ).push(Exchange::Request(Call::EnsureOtelCollector, answers.collector)).push(
                    Exchange::Targets(answers.targets),
                ),
                status_msg: match answers.collector {
                    Ok(_) => "reloaded run files"@,
                    Err(text) => "otel collector: "@ + text,
                },
                status_msg_until_tick: 2,
                dirty: true,
                urgent: true,
                ..model
            }
            &&& names_are_right(after)
        }),
{
}

/// Whether one of the rows is that of the target called `name`.
pub open spec fn is_shown(
    rows: Seq<RowModel>,
    targets: Seq<TargetModel>,
    name: Seq<char>,
) -> bool {
    exists|k: int| {
        &&& 0 <= k < rows.len()
        &&& (#[trigger] rows[k]) is Target
        &&& rows[k]->Target_target_idx < targets.len()
        &&& targets[rows[k]->Target_target_idx as int].name == name
    }
}

/// After a reload the same target is selected, if it is still shown, by its first row,
/// and a search in its log goes on as it was.
pub proof fn law_reload_keeps_the_target(
    model: AppModel,
    loaded: Seq<TargetModel>,
    answers: Answers,
    name: Seq<char>,
)
    requires
        names_are_right(model),
        stands_on(model, name),
        is_shown(
            computed_rows(answers.targets, model.folder_expanded),
            answers.targets,
            name,
        ),
    ensures
        ({
            let after = model.after_event(EventModel::FileChange(Some(loaded)), answers);
            &&& stands_on(after, name)
            &&& !is_shown(after.rows.take(after.selected as int), after.targets, name)
            &&& after.search_mode == model.search_mode
            &&& after.search_query == model.search_query
            &&& after.search_matches == model.search_matches
            &&& after.search_match_idx == model.search_match_idx
        }),
{
    let after = model.after_event(EventModel::FileChange(Some(loaded)), answers);
    let rows = computed_rows(answers.targets, model.folder_expanded);
    law_selected_target_is_that_of_the_row(model, name);
    law_selected_target_is_that_of_the_row(after, name);
    lemma_row_of_target(rows, answers.targets, name, 0);
    assert(model.row_names[model.selected as int] == Some(name));
}

/// After a reload that takes the selected row away, the selection keeps its position,
/// or takes the last one where there are fewer rows; from a divider it goes to the first
/// row that is none. A search that went on ends where another target is selected then.
pub proof fn law_reload_without_the_target(
    model: AppModel,
    loaded: Seq<TargetModel>,
    answers: Answers,
)
    requires
        names_are_right(model),
        forall|name: Seq<char>| #[trigger]
            stands_on(model, name) ==> !is_shown(
                computed_rows(answers.targets, model.folder_expanded),
                answers.targets,
                name,
            ),
    ensures
        ({
            let after = model.after_event(EventModel::FileChange(Some(loaded)), answers);
            let rows = computed_rows(answers.targets, model.folder_expanded);
            let kept: int = if model.selected < rows.len() {
                model.selected as int
            } else {
                rows.len() - 1
            };
            &&& rows.len() == 0 ==> after.selected == 0
            &&& rows.len() > 0 && !(rows[kept] is Separator) ==> after.selected == kept
            &&& rows.len() > 0 && rows[kept] is Separator ==> (after.selected == kept && forall|
                k: int,
            |
                0 <= k < rows.len() ==> #[trigger] rows[k] is Separator) || (after.selected
                < rows.len() && !(rows[after.selected as int] is Separator) && forall|k: int|
                0 <= k < after.selected ==> #[trigger] rows[k] is Separator)
            &&& forall|name: Seq<char>| #[trigger]
                stands_on(model, name) && model.search_mode ==> !after.search_mode
                    && after.search_query.len() == 0 && after.search_matches.len() == 0
        }),
{
    let after = model.after_event(EventModel::FileChange(Some(loaded)), answers);
    let rows = computed_rows(answers.targets, model.folder_expanded);
    if let Some(name) = model.remembered_name() {
        assert(stands_on(model, name));
        lemma_row_of_target(rows, answers.targets, name, 0);
    }
    lemma_first_selectable(rows, 0);
    assert forall|name: Seq<char>| #[trigger]
        stands_on(model, name) && model.search_mode implies !after.search_mode
        && after.search_query.len() == 0 && after.search_matches.len() == 0 by {
        law_selected_target_is_that_of_the_row(model, name);
        law_selected_target_is_that_of_the_row(after, name);
    }
}

/// An error of the collector that comes in while its row is not selected is one more to
/// be seen: the row begins to blink, with one timer, if it does not blink already. One
/// that comes in before the user's eyes changes nothing.
pub proof fn law_error_comes_in(model: AppModel, answers: Answers)
    ensures
        ({
            let after = model.after_event(EventModel::OtelError, answers);
            let seen = stands_on(model, "otel-errors"@);
            &&& seen ==> after == model
            &&& !seen ==> after == AppModel {
                unread_otel_errors: model.unread_otel_errors + 1,
                otel_blinking: true,
                otel_blink_on: model.otel_blink_on || !model.otel_blinking,
                effects: if model.attached && !model.otel_blinking {
                    model.effects.push(EffectModel::ArmBlink)
                } else {
                    model.effects
                },
                dirty: true,
                urgent: true,
                ..model
            }
        }),
{
    law_selected_target_is_that_of_the_row(model, "otel-errors"@);
}

/// When the blink timer fires, the row turns over and the timer is armed again as long
/// as there are errors to be seen and the row is not selected; otherwise the blinking is
/// over.
pub proof fn law_blink_timer_fires(model: AppModel, answers: Answers)
    ensures
        ({
            let after = model.after_event(EventModel::OtelBlink, answers);
            let goes_on = model.unread_otel_errors > 0 && !stands_on(model, "otel-errors"@);
            &&& goes_on ==> after == AppModel {
                otel_blink_on: !model.otel_blink_on,
                effects: if model.attached {
                    model.effects.push(EffectModel::ArmBlink)
                } else {
                    model.effects
                },
                dirty: true,
                ..model
            }
            &&& !goes_on ==> after == AppModel {
                otel_blinking: false,
                otel_blink_on: false,
                dirty: true,
                ..model
            }
        }),
{
    law_selected_target_is_that_of_the_row(model, "otel-errors"@);
}

/// The application starts with the first row selected, all folders closed, no overlay,
/// no search and nothing to be seen or done.
pub proof fn law_start(
    targets: Seq<TargetModel>,
    run_dir: Seq<char>,
    project_root: Seq<char>,
    statuses: Map<Seq<char>, Status>,
)
    ensures
        ({
            let start = AppModel::initial(targets, run_dir, project_root, statuses);
            &&& start == AppModel {
                targets,
                run_dir,
                project_root,
                dump_dir: "."@,
                selected: 0,
                rows: computed_rows(targets, Map::empty()),
                row_names: start.row_names,
                folder_expanded: Map::empty(),
                logs: start.logs,
                statuses,
                status_msg: Seq::empty(),
                status_msg_until_tick: 0,
                quitting: false,
                stop_all: false,
                wrap_logs: false,
                zoom_logs: false,
                help_visible: false,
                describe: None,
                last_height: 24,
                unread_otel_errors: 0,
                otel_blink_on: false,
                otel_blinking: false,
                dirty: true,
                urgent: true,
                search_mode: false,
                search_query: Seq::empty(),
                search_matches: Seq::empty(),
                search_match_idx: 0,
                force_full_redraw: false,
                in_flight: Map::empty(),
                next_op_id: 0,
                attached: false,
                effects: Seq::empty(),
                asked: seq![Exchange::Statuses(statuses)],
            }
            &&& names_are_right(start)
        }),
{
}

/// The application starts with an empty log for each target, and with no other.
pub proof fn law_logs_at_the_start(
    targets: Seq<TargetModel>,
    run_dir: Seq<char>,
    project_root: Seq<char>,
    statuses: Map<Seq<char>, Status>,
    name: Seq<char>,
)
    ensures
        ({
            let start = AppModel::initial(targets, run_dir, project_root, statuses);
            &&& start.logs.dom().contains(name) <==> exists|i: int|
                0 <= i < targets.len() && (#[trigger] targets[i]).name == name
            &&& start.logs.dom().contains(name) ==> {
                &&& start.logs[name].lines.len() == 0
                &&& start.logs[name].parsed.len() == 0
                &&& start.logs[name].scroll == 0
                &&& start.logs[name].at_bottom
            }
        }),
{
    lemma_empty_logs(targets, targets.len(), name);
}

proof fn lemma_empty_logs(targets: Seq<TargetModel>, n: nat, name: Seq<char>)
    requires
        n <= targets.len(),
    ensures
        ({
            let logs = empty_logs(targets, n);
            &&& logs.dom().contains(name) <==> exists|i: int|
                0 <= i < n && (#[trigger] targets[i]).name == name
            &&& logs.dom().contains(name) ==> logs[name] == LogModel::fresh()
        }),
    decreases n,
{
    if n > 0 {
        let m = (n - 1) as nat;
        lemma_empty_logs(targets, m, name);
        if targets[n - 1].name != name && empty_logs(targets, n).dom().contains(name) {
            let i = choose|i: int| 0 <= i < m && (#[trigger] targets[i]).name == name;
            assert(targets[i].name == name);
        }
    }
}

proof fn lemma_backfill_leaves(
    model: AppModel,
    lines: Seq<Seq<Seq<char>>>,
    n: nat,
    name: Seq<char>,
)
    requires
        forall|j: int| 0 <= j < model.targets.len() ==> (#[trigger] model.targets[j]).name != name,
    ensures
        model.backfilled(lines, n).logs.contains_key(name) == model.logs.contains_key(name),
        model.backfilled(lines, n).logs[name] == model.logs[name],
        model.backfilled(lines, n).targets == model.targets,
    decreases n,
{
    if 0 < n <= model.targets.len() {
        lemma_backfill_leaves(model, lines, (n - 1) as nat, name);
    }
}

/// Filling the logs leaves those of targets that are not there alone.
pub proof fn law_backfill_leaves_other_logs(
    model: AppModel,
    lines: Seq<Seq<Seq<char>>>,
    name: Seq<char>,
)
    requires
        forall|j: int| 0 <= j < model.targets.len() ==> (#[trigger] model.targets[j]).name != name,
    ensures
        ({
            let after = model.backfilled(lines, model.targets.len());
            &&& after.logs.dom().contains(name) == model.logs.dom().contains(name)
            &&& after.logs[name] == model.logs[name]
        }),
{
    lemma_backfill_leaves(model, lines, model.targets.len(), name);
}

/// After every event the rows are those of the targets and folders as they are, and the
/// names that are remembered of them are right, if that was so before.
pub proof fn law_rows_follow_the_targets(model: AppModel, event: EventModel, answers: Answers)
    requires
        model.rows == computed_rows(model.targets, model.folder_expanded),
        names_are_right(model),
    ensures
        ({
            let after = model.after_event(event, answers);
            &&& after.rows == computed_rows(after.targets, after.folder_expanded)
            &&& names_are_right(after)
        }),
{
    assert(model.row_names =~= shown_names(model.rows, model.targets));
    law_sidebar_stays_current(model, event, answers);
}

/// Whether the matches are the positions of the lines that hold the query, all of them,
/// in increasing order.
pub open spec fn lists_the_hits(
    matches: Seq<usize>,
    lines: Seq<Seq<char>>,
    query: Seq<char>,
) -> bool {
    &&& forall|k: int|
        0 <= k < matches.len() ==> (#[trigger] matches[k]) < lines.len() && holds(
            lines[matches[k] as int],
            query,
        )
    &&& forall|j: int, k: int|
        0 <= j < k < matches.len() ==> #[trigger] matches[j] < #[trigger] matches[k]
    &&& forall|i: int|
        0 <= i < lines.len() && holds(#[trigger] lines[i], query) ==> matches.contains(i as usize)
}

/// Whether a search, if one goes on, lists the lines of the selected target that hold
/// the query, and none where there is no query or no target.
pub open spec fn search_is_right(model: AppModel) -> bool {
    model.search_mode ==> {
        &&& model.search_query.len() == 0 || stands_on_none(model) ==> model.search_matches.len()
            == 0
        &&& forall|name: Seq<char>| #[trigger]
            stands_on(model, name) && model.search_query.len() > 0 ==> lists_the_hits(
                model.search_matches,
                lines_of(model, name),
                model.search_query,
            )
    }
}

proof fn lemma_hits_list_the_hits(lines: Seq<Seq<char>>, query: Seq<char>)
    requires
        lines.len() <= usize::MAX,
    ensures
        lists_the_hits(hits(lines, query, lines.len()), lines, query),
{
    law_hits_are_the_matching_lines(lines, query, lines.len());
    assert forall|i: int| 0 <= i < lines.len() implies line_matches(#[trigger] lines[i], query)
        == holds(lines[i], query) by {
        law_hits_hold_the_query(lines[i], query);
    }
}

proof fn lemma_same_members(a: Seq<usize>, b: Seq<usize>)
    requires
        forall|j: int, k: int| 0 <= j < k < a.len() ==> #[trigger] a[j] < #[trigger] a[k],
        forall|j: int, k: int| 0 <= j < k < b.len() ==> #[trigger] b[j] < #[trigger] b[k],
        forall|k: int| 0 <= k < a.len() ==> b.contains(#[trigger] a[k]),
        forall|k: int| 0 <= k < b.len() ==> a.contains(#[trigger] b[k]),
    ensures
        a == b,
    decreases a.len(),
{
    if a.len() == 0 {
        if b.len() > 0 {
            assert(a.contains(b[0]));
        }
        assert(a =~= b);
    } else {
        let m = a.len() - 1;
        let p = choose|p: int| 0 <= p < b.len() && b[p] == a[m];
        assert(b.contains(a[m]));
        let n = b.len() - 1;
        assert(a.contains(b[n]));
        let q = choose|q: int| 0 <= q < a.len() && a[q] == b[n];
        assert(a[m] == b[n]) by {
            if p < n {
                assert(b[p] < b[n]);
            }
            if q < m {
                assert(a[q] < a[m]);
            }
        }
        let c = a.drop_last();
        let d = b.drop_last();
        assert forall|k: int| 0 <= k < c.len() implies d.contains(#[trigger] c[k]) by {
            assert(c[k] == a[k]);
            let r = choose|r: int| 0 <= r < b.len() && b[r] == a[k];
            assert(b.contains(a[k]));
            assert(a[k] < a[m]);
            assert(d[r] == c[k]);
        }
        assert forall|k: int| 0 <= k < d.len() implies c.contains(#[trigger] d[k]) by {
            assert(d[k] == b[k]);
            let r = choose|r: int| 0 <= r < a.len() && a[r] == b[k];
            assert(a.contains(b[k]));
            assert(b[k] < b[n]);
            assert(c[r] == d[k]);
        }
        lemma_same_members(c, d);
        assert(a =~= c.push(a[m]));
        assert(b =~= d.push(b[n]));
    }
}

/// There is only one way to list the hits.
proof fn lemma_hits_are_listed_once(
    a: Seq<usize>,
    b: Seq<usize>,
    lines: Seq<Seq<char>>,
    query: Seq<char>,
)
    requires
        lists_the_hits(a, lines, query),
        lists_the_hits(b, lines, query),
    ensures
        a == b,
{
    assert forall|k: int| 0 <= k < a.len() implies b.contains(#[trigger] a[k]) by {
        assert(holds(lines[a[k] as int], query));
    }
    assert forall|k: int| 0 <= k < b.len() implies a.contains(#[trigger] b[k]) by {
        assert(holds(lines[b[k] as int], query));
    }
    lemma_same_members(a, b);
}

proof fn lemma_search_is_right(model: AppModel)
    requires
        model.wf(),
        model.search_mode,
    ensures
        search_is_right(model) <==> model.search_matches == model.current_hits(),
{
    let none = Seq::<usize>::empty();
    match model.selected_name() {
        Some(name) => {
            law_selected_target_is_that_of_the_row(model, name);
            let lines = lines_of(model, name);
            if model.search_query.len() > 0 {
                if model.logs.contains_key(name) {
                    lemma_logs_get(model.logs, name);
                }
                lemma_hits_list_the_hits(lines, model.search_query);
                assert(model.current_hits() =~= hits(lines, model.search_query, lines.len()));
                if search_is_right(model) {
                    assert(stands_on(model, name));
                    lemma_hits_are_listed_once(
                        model.search_matches,
                        model.current_hits(),
                        lines,
                        model.search_query,
                    );
                }
            } else {
                assert(model.search_matches.len() == 0 ==> model.search_matches =~= none);
            }
        },
        None => {
            law_selected_target_is_that_of_the_row(model, Seq::empty());
            assert(model.search_matches.len() == 0 ==> model.search_matches =~= none);
        },
    }
}

/// While a search goes on, its matches are the lines of the selected target that hold
/// the query, letter case aside, all of them and no others, from the oldest to the
/// newest. That is so after every event, if it was so before.
pub proof fn law_search_lists_the_hits(model: AppModel, event: EventModel, answers: Answers)
    requires
        model.wf(),
        search_is_right(model),
        model.after_event(event, answers).wf(),
    ensures
        search_is_right(model.after_event(event, answers)),
{
    let after = model.after_event(event, answers);
    if model.search_mode {
        lemma_search_is_right(model);
    }
    law_matches_are_right(model, event, answers);
    if after.search_mode {
        lemma_search_is_right(after);
    }
}

/// Looking the matches up anew lists the hits, with the first one as the current one,
/// and changes nothing else.
pub proof fn law_lookup_lists_the_hits(model: AppModel)
    requires
        model.wf(),
    ensures
        ({
            let after = model.matches_updated();
            &&& after == AppModel {
                search_matches: after.search_matches,
                search_match_idx: 0,
                ..model
            }
            &&& search_is_right(after)
        }),
{
    if model.search_mode {
        lemma_search_is_right(model.matches_updated());
    }
}

proof fn lemma_backfilled_logs(model: AppModel, lines: Seq<Seq<Seq<char>>>, n: nat, i: int)
    requires
        model.wf(),
        n <= model.targets.len() == lines.len(),
        0 <= i < model.targets.len(),
        forall|j: int|
            0 <= j < model.targets.len() && j != i ==> (#[trigger] model.targets[j]).name
                != model.targets[i].name,
    ensures
        ({
            let name = model.targets[i].name;
            let after = model.backfilled(lines, n);
            &&& after.targets == model.targets
            &&& n <= i ==> after.logs.contains_key(name) == model.logs.contains_key(name)
                && after.logs[name] == model.logs[name]
            &&& n > i ==> after.logs.contains_key(name) && after.logs[name] == model.log_of(
                name,
            ).pushed_all(lines[i])
        }),
    decreases n,
{
    if n > 0 {
        lemma_backfilled_logs(model, lines, (n - 1) as nat, i);
    }
}

/// Filling the logs asks the manager for the lines of each target, in order, and puts
/// them at the end of its log, of which the newest ten thousand lines are kept.
pub proof fn law_backfill(model: AppModel, lines: Seq<Seq<Seq<char>>>, i: int)
    requires
        model.wf(),
        model.targets.len() == lines.len(),
        0 <= i < model.targets.len(),
        forall|j: int|
            0 <= j < model.targets.len() && j != i ==> (#[trigger] model.targets[j]).name
                != model.targets[i].name,
    ensures
        ({
            let after = model.backfilled(lines, lines.len());
            let name = model.targets[i].name;
            let all = lines_of(model, name) + lines[i];
            &&& after == AppModel { logs: after.logs, asked: after.asked, ..model }
            &&& after.logs.dom().contains(name)
            &&& all.len() <= 10_000 ==> after.logs[name].lines == all
            &&& all.len() > 10_000 ==> after.logs[name].lines == all.skip(all.len() - 10_000)
            &&& after.logs[name].scroll == hidden_below(model, name)
            &&& after.asked == model.asked + Seq::new(
                lines.len(),
                |k: int| Exchange::Lines(model.targets[k].name, lines[k]),
            )
        }),
{
    let name = model.targets[i].name;
    lemma_backfilled_logs(model, lines, lines.len(), i);
    lemma_backfilled_asks(model, lines, lines.len());
    if model.logs.contains_key(name) {
        lemma_logs_get(model.logs, name);
    }
    law_ring_keeps_the_newest_lines(model.log_of(name), lines[i]);
}

proof fn lemma_backfilled_asks(model: AppModel, lines: Seq<Seq<Seq<char>>>, n: nat)
    requires
        n <= model.targets.len() == lines.len(),
    ensures
        ({
            let after = model.backfilled(lines, n);
            &&& after == AppModel { logs: after.logs, asked: after.asked, ..model }
            &&& after.asked == model.asked + Seq::new(
                n,
                |k: int| Exchange::Lines(model.targets[k].name, lines[k]),
            )
        }),
    decreases n,
{
    let more = Seq::new(n, |k: int| Exchange::Lines(model.targets[k].name, lines[k]));
    if n > 0 {
        lemma_backfilled_asks(model, lines, (n - 1) as nat);
    }
    assert(model.backfilled(lines, n).asked =~= model.asked + more);
}

/// A search goes on over a reload exactly where the same target is selected after it.
pub proof fn law_reload_and_the_search(
    model: AppModel,
    loaded: Seq<TargetModel>,
    answers: Answers,
)
    ensures
        ({
            let after = model.after_event(EventModel::FileChange(Some(loaded)), answers);
            let same = forall|name: Seq<char>| #[trigger]
                stands_on(model, name) == stands_on(after, name);
            &&& same || !model.search_mode ==> {
                &&& after.search_mode == model.search_mode
                &&& after.search_query == model.search_query
                &&& after.search_matches == model.search_matches
                &&& after.search_match_idx == model.search_match_idx
            }
            &&& !same && model.search_mode ==> {
                &&& !after.search_mode
                &&& after.search_query.len() == 0
                &&& after.search_matches.len() == 0
                &&& after.search_match_idx == 0
            }
        }),
{
    let after = model.after_event(EventModel::FileChange(Some(loaded)), answers);
    assert forall|name: Seq<char>| #[trigger]
        stands_on(model, name) == (model.selected_name() == Some(name)) by {
        law_selected_target_is_that_of_the_row(model, name);
    }
    assert forall|name: Seq<char>| #[trigger]
        stands_on(after, name) == (after.selected_name() == Some(name)) by {
        law_selected_target_is_that_of_the_row(after, name);
    }
    if let Some(name) = model.selected_name() {
        assert(stands_on(model, name));
    }
    if let Some(name) = after.selected_name() {
        assert(stands_on(after, name));
        assert(stands_on(model, name) == (model.selected_name() == Some(name)));
    }
}

/// Errors are seen once their row is selected, and only then.
pub proof fn law_errors_are_seen(model: AppModel)
    ensures
        stands_on(model, "otel-errors"@) ==> model.otel_seen_if_selected() == (AppModel {
            unread_otel_errors: 0,
            otel_blink_on: false,
            ..model
        }),
        !stands_on(model, "otel-errors"@) ==> model.otel_seen_if_selected() == model,
{
    law_selected_target_is_that_of_the_row(model, "otel-errors"@);
}

/// Only a key ends the event loop.
pub proof fn law_loop_goes_on(model: AppModel, event: EventModel)
    requires
        !(event is Key),
    ensures
        event_continuation(model, event).continue_loop,
        !event_continuation(model, event).stop_all,
{
}

} // verus!
