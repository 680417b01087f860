//! What holds of the application from one event to the next.

use vstd::prelude::*;

use crate::area::Area;
use crate::event::{EffectModel, EventModel, KeyEvent};
use crate::handle::{Call, Exchange, Outcome};
use crate::input::asks;
use crate::keymap::{bound_action, is_ctrl_c, Action};
use crate::log_buffer::LogModel;
use crate::model::{
    continuation, emptied, event_continuation, is_restarted, restart_names, Answers, AppModel,
};
use crate::ops::{exchanges, law_restart_all_stops_first, op_label, plan, OpModel};
use crate::screen::{
    base_drawn, busy, current_line, drawn, footer_drawn, in_order, laid_out, lemma_order_is_unique,
    lists_in_order, log_drawn, log_frame_drawn, log_lines, overlays_drawn, row_lines, row_name,
    sidebar_drawn, DrawModel, PanesModel,
};
use crate::spans::PieceModel;
use crate::target::{Status, TargetModel};
use crate::text::padded;

verus! {

/// No action takes back a repaint that is due.
proof fn lemma_actions_keep_marks(model: AppModel, action: Action, answers: Answers)
    requires
        model.dirty,
        model.urgent,
    ensures
        model.after_action(action, answers).dirty,
        model.after_action(action, answers).urgent,
{
}

/// A key press is answered at once: whatever it does, the next repaint does not wait.
pub proof fn law_keys_repaint_at_once(model: AppModel, key: KeyEvent, answers: Answers)
    ensures
        model.after_event(EventModel::Key(key), answers).dirty,
        model.after_event(EventModel::Key(key), answers).urgent,
{
    lemma_actions_keep_marks(model.marked(), model.action_of(key), answers);
}

/// Whether a repaint that must not wait is due at all.
pub open spec fn urgent_is_due(model: AppModel) -> bool {
    model.urgent ==> model.dirty
}

proof fn lemma_other_events_urge_what_is_due(
    model: AppModel,
    event: EventModel,
    answers: Answers,
)
    requires
        urgent_is_due(model),
        !(event is Key),
    ensures
        urgent_is_due(model.after_event(event, answers)),
{
    match event {
        EventModel::LogLine { .. } => {},
        EventModel::Tick => {},
        EventModel::StateFileChange => {},
        EventModel::FileChange(_) => {},
        EventModel::OtelError => {},
        EventModel::OtelBlink => {},
        _ => {},
    }
}

/// No event asks for a repaint at once without asking for a repaint.
pub proof fn law_urgent_repaints_are_due(model: AppModel, event: EventModel, answers: Answers)
    requires
        urgent_is_due(model),
    ensures
        urgent_is_due(model.after_event(event, answers)),
{
    match event {
        EventModel::Key(key) => {
            law_keys_repaint_at_once(model, key, answers);
        },
        _ => {
            lemma_other_events_urge_what_is_due(model, event, answers);
        },
    }
}

/// The first repaint is due at once.
pub proof fn law_first_repaint_is_due(
    targets: Seq<TargetModel>,
    run_dir: Seq<char>,
    project_root: Seq<char>,
    statuses: Map<Seq<char>, Status>,
)
    ensures
        AppModel::initial(targets, run_dir, project_root, statuses).dirty,
        AppModel::initial(targets, run_dir, project_root, statuses).urgent,
{
}

/// A new size of the terminal, the end of the editor, the end of an operation, a
/// reload and an error that counts are answered at once.
pub proof fn law_rare_events_repaint_at_once(model: AppModel, event: EventModel, answers: Answers)
    requires
        event is Resize || event is EditorDone || event is OpDone || event matches
            EventModel::FileChange(Some(_)) || (event is OtelError && !model.otel_selected()),
    ensures
        model.after_event(event, answers).dirty,
        model.after_event(event, answers).urgent,
{
}

/// Log lines of targets that are not selected cost no repaint.
pub proof fn law_hidden_log_lines_cost_no_repaint(
    model: AppModel,
    target: Seq<char>,
    line: Seq<char>,
    answers: Answers,
)
    requires
        model.selected_name() != Some(target),
    ensures
        model.after_event(EventModel::LogLine { target, line }, answers).dirty == model.dirty,
        model.after_event(EventModel::LogLine { target, line }, answers).urgent == model.urgent,
{
}

/// Whether two states differ in nothing but what was asked of the manager and the log
/// buffers of targets that are not selected.
spec fn differs_out_of_sight(model: AppModel, other: AppModel) -> bool {
    &&& other == AppModel { logs: other.logs, asked: other.asked, ..model }
    &&& model.selected_name() matches Some(name) ==> {
        &&& other.logs.contains_key(name) == model.logs.contains_key(name)
        &&& other.logs[name] == model.logs[name]
    }
}

proof fn lemma_unmarked_events(model: AppModel, event: EventModel, answers: Answers)
    requires
        !model.after_event(event, answers).dirty,
    ensures
        differs_out_of_sight(model, model.after_event(event, answers)),
{
    match event {
        EventModel::Key(key) => {
            law_keys_repaint_at_once(model, key, answers);
        },
        EventModel::LogLine { target, line } => {
            lemma_unmarked_line(model, target, line);
        },
        EventModel::Tick => {},
        EventModel::StateFileChange => {},
        EventModel::FileChange(_) => {},
        EventModel::OtelError => {},
        _ => {},
    }
}

proof fn lemma_unmarked_line(model: AppModel, target: Seq<char>, line: Seq<char>)
    requires
        !model.line_received(target, line).dirty,
    ensures
        differs_out_of_sight(model, model.line_received(target, line)),
{
}

proof fn lemma_rows_look_the_same(model: AppModel, other: AppModel)
    requires
        differs_out_of_sight(model, other),
    ensures
        row_lines(other) == row_lines(model),
{
    assert forall|i: int| 0 <= i < model.rows.len() implies #[trigger] row_lines(other)[i]
        == row_lines(model)[i] by {}
    assert(row_lines(other) =~= row_lines(model));
}

proof fn lemma_drawn_the_same(
    model: AppModel,
    other: AppModel,
    panes: PanesModel,
    lines: Seq<Seq<PieceModel>>,
)
    requires
        differs_out_of_sight(model, other),
    ensures
        drawn(other, panes, lines) == drawn(model, panes, lines),
{
    lemma_rows_look_the_same(model, other);
    assert(sidebar_drawn(other, panes) == sidebar_drawn(model, panes));
    assert(log_drawn(other, panes, lines) == log_drawn(model, panes, lines));
    assert(base_drawn(other, panes, lines) == base_drawn(model, panes, lines));
    assert(footer_drawn(other, panes) == footer_drawn(model, panes));
    assert(overlays_drawn(other, panes) == overlays_drawn(model, panes));
}

/// Where no repaint is due after an event, none is needed: the log lines in a window
/// of any height are the same as before the event, the screen is divided in the same
/// way, and the same is painted on it.
pub proof fn law_nothing_changes_unpainted(model: AppModel, event: EventModel, answers: Answers)
    requires
        !model.dirty,
        !model.after_event(event, answers).dirty,
    ensures
        forall|rows: nat| #[trigger]
            log_lines(model.after_event(event, answers), rows) == log_lines(model, rows),
        forall|area: Area, panes: PanesModel| #[trigger]
            laid_out(model.after_event(event, answers), area, panes) == laid_out(
                model,
                area,
                panes,
            ),
        forall|panes: PanesModel, lines: Seq<Seq<PieceModel>>| #[trigger]
            drawn(model.after_event(event, answers), panes, lines) == drawn(model, panes, lines),
{
    let after = model.after_event(event, answers);
    lemma_unmarked_events(model, event, answers);
    assert(after.selected_name() == model.selected_name());
    assert(current_line(after) == current_line(model));
    assert forall|panes: PanesModel, lines: Seq<Seq<PieceModel>>| #[trigger]
        drawn(after, panes, lines) == drawn(model, panes, lines) by {
        lemma_drawn_the_same(model, after, panes, lines);
    }
}

/// A log line of the selected target is painted, but it can wait for the next frame,
/// and so can a turn of the mouse wheel and a blink.
pub proof fn law_frequent_events_can_wait(
    model: AppModel,
    target: Seq<char>,
    line: Seq<char>,
    delta: int,
    answers: Answers,
)
    ensures
        model.selected_name() == Some(target) ==> model.after_event(
            EventModel::LogLine { target, line },
            answers,
        ).dirty,
        model.after_event(EventModel::LogLine { target, line }, answers).urgent == model.urgent,
        model.after_event(EventModel::ScrollLog(delta), answers).dirty,
        model.after_event(EventModel::ScrollLog(delta), answers).urgent == model.urgent,
        model.after_event(EventModel::OtelBlink, answers).dirty,
        model.after_event(EventModel::OtelBlink, answers).urgent == model.urgent,
{
}

/// A heartbeat at which nothing changed asks for the statuses and changes nothing.
pub proof fn law_idle_ticks_change_nothing(model: AppModel, answers: Answers)
    requires
        model.status_msg_until_tick == 0,
        answers.statuses == model.statuses,
    ensures
        model.after_event(EventModel::Tick, answers) == model.told(
            Exchange::Statuses(answers.statuses),
        ),
{
}

/// A heartbeat or a rewritten state file brings the statuses up to date, with a
/// repaint where they are new.
pub proof fn law_statuses_are_taken_over(model: AppModel, answers: Answers)
    ensures
        model.after_event(EventModel::Tick, answers).statuses == answers.statuses,
        model.after_event(EventModel::StateFileChange, answers).statuses == answers.statuses,
        answers.statuses != model.statuses ==> model.after_event(EventModel::Tick, answers).urgent
            && model.after_event(EventModel::StateFileChange, answers).urgent,
        answers.statuses == model.statuses ==> model.after_event(
            EventModel::StateFileChange,
            answers,
        ).dirty == model.dirty,
{
}

/// A message stays in the header for one heartbeat and is gone at the next.
pub proof fn law_messages_stay_two_ticks(
    model: AppModel,
    msg: Seq<char>,
    first: Map<Seq<char>, Status>,
    second: Map<Seq<char>, Status>,
)
    ensures
        model.flashed(msg).ticked(first).status_msg == msg,
        model.flashed(msg).ticked(first).ticked(second).status_msg.len() == 0,
{
}

/// After the run files changed, the sidebar shows the targets that the manager has,
/// its virtual ones among them.
pub proof fn law_reload_takes_the_managers_targets(
    model: AppModel,
    loaded: Seq<TargetModel>,
    answers: Answers,
)
    ensures
        model.after_event(EventModel::FileChange(Some(loaded)), answers).targets
            == answers.targets,
        model.after_event(EventModel::FileChange(Some(loaded)), answers).rows_current(),
        model.after_event(EventModel::FileChange(None), answers) == model,
{
}

proof fn lemma_actions_keep_rows_current(model: AppModel, action: Action, answers: Answers)
    requires
        model.rows_current(),
    ensures
        model.after_action(action, answers).rows_current(),
{
}

proof fn lemma_other_events_keep_rows_current(
    model: AppModel,
    event: EventModel,
    answers: Answers,
)
    requires
        model.rows_current(),
        !(event is Key),
        !(event matches EventModel::FileChange(Some(_))),
    ensures
        model.after_event(event, answers).rows_current(),
{
}

/// The sidebar shows the targets and folders as they are, after every event.
pub proof fn law_sidebar_stays_current(model: AppModel, event: EventModel, answers: Answers)
    requires
        model.rows_current(),
    ensures
        model.after_event(event, answers).rows_current(),
{
    match event {
        EventModel::Key(key) => {
            lemma_actions_keep_rows_current(model.marked(), model.action_of(key), answers);
        },
        EventModel::FileChange(Some(_)) => {},
        _ => {
            lemma_other_events_keep_rows_current(model, event, answers);
        },
    }
}

/// The application starts with the sidebar as it should be.
pub proof fn law_sidebar_starts_current(
    targets: Seq<TargetModel>,
    run_dir: Seq<char>,
    project_root: Seq<char>,
    statuses: Map<Seq<char>, Status>,
)
    ensures
        AppModel::initial(targets, run_dir, project_root, statuses).rows_current(),
{
}

/// Whether the ids of the running operations have all been given out before the next
/// one.
pub open spec fn ids_given_out(model: AppModel) -> bool {
    forall|id: u64| #[trigger] model.in_flight.contains_key(id) ==> id < model.next_op_id
}

proof fn lemma_actions_give_ids_out(model: AppModel, action: Action, answers: Answers)
    requires
        ids_given_out(model),
        model.next_op_id < u64::MAX,
    ensures
        ids_given_out(model.after_action(action, answers)),
{
}

proof fn lemma_other_events_give_ids_out(model: AppModel, event: EventModel, answers: Answers)
    requires
        ids_given_out(model),
        !(event is Key),
    ensures
        ids_given_out(model.after_event(event, answers)),
{
    match event {
        EventModel::LogLine { .. } => {},
        EventModel::Tick => {},
        EventModel::StateFileChange => {},
        EventModel::FileChange(_) => {},
        EventModel::OpDone { .. } => {},
        _ => {},
    }
}

/// No running operation has the id that the next one gets, as long as there are ids
/// left: after every event, the ids of those that are running were given out before.
pub proof fn law_operation_ids_are_new(model: AppModel, event: EventModel, answers: Answers)
    requires
        ids_given_out(model),
        model.next_op_id < u64::MAX,
    ensures
        ids_given_out(model.after_event(event, answers)),
        !model.after_event(event, answers).in_flight.contains_key(
            model.after_event(event, answers).next_op_id,
        ),
{
    match event {
        EventModel::Key(key) => {
            lemma_actions_give_ids_out(model.marked(), model.action_of(key), answers);
        },
        _ => {
            lemma_other_events_give_ids_out(model, event, answers);
        },
    }
}

/// The application starts with no operation running.
pub proof fn law_no_operation_runs_at_first(
    targets: Seq<TargetModel>,
    run_dir: Seq<char>,
    project_root: Seq<char>,
    statuses: Map<Seq<char>, Status>,
)
    ensures
        AppModel::initial(targets, run_dir, project_root, statuses).in_flight.is_empty(),
        ids_given_out(AppModel::initial(targets, run_dir, project_root, statuses)),
{
}

/// An operation that was handed to the event loop is listed as running until it is
/// reported as done, and leaves no trace then.
pub proof fn law_operations_are_listed_while_they_run(
    model: AppModel,
    op: OpModel,
    outcomes: Seq<Outcome>,
    summary: Seq<char>,
)
    requires
        model.attached,
        !model.in_flight.contains_key(model.next_op_id),
    ensures
        ({
            let id = model.next_op_id;
            let begun = model.op_spawned(op, outcomes);
            let done = begun.op_left(id, summary);
            &&& begun.in_flight.contains_key(id)
            &&& begun.in_flight[id] == op_label(op)
            &&& begun.effects.last() == EffectModel::RunOp { id, op }
            &&& done.in_flight == model.in_flight
            &&& done.status_msg == summary
        }),
{
    let id = model.next_op_id;
    let done = model.op_spawned(op, outcomes).op_left(id, summary);
    assert(done.in_flight =~= model.in_flight);
}

/// Without an event loop an operation is over when it returns.
pub proof fn law_operations_run_at_once_without_a_loop(
    model: AppModel,
    op: OpModel,
    outcomes: Seq<Outcome>,
)
    requires
        !model.attached,
        !model.in_flight.contains_key(model.next_op_id),
    ensures
        model.op_spawned(op, outcomes).in_flight == model.in_flight,
        model.op_spawned(op, outcomes).effects == model.effects,
{
    assert(model.op_spawned(op, outcomes).in_flight =~= model.in_flight);
}

/// Errors that come in while their row is selected are seen at once.
pub proof fn law_errors_in_view_do_not_count(model: AppModel, answers: Answers)
    requires
        model.otel_selected(),
    ensures
        model.after_event(EventModel::OtelError, answers) == model,
{
}

/// Every error that comes in unseen is counted.
pub proof fn law_unseen_errors_count(model: AppModel, answers: Answers)
    requires
        !model.otel_selected(),
    ensures
        model.after_event(EventModel::OtelError, answers).unread_otel_errors
            == model.unread_otel_errors + 1,
        model.after_event(EventModel::OtelError, answers).otel_blinking,
        model.after_event(EventModel::OtelError, answers).urgent,
{
}

/// There is at most one blink timer: an error that comes in while one is running
/// does not arm another, and the one that fired is armed again exactly as long as
/// there are unseen errors.
pub proof fn law_one_blink_timer(model: AppModel, answers: Answers)
    ensures
        model.otel_blinking ==> model.after_event(EventModel::OtelError, answers).effects
            == model.effects,
        !model.otel_blinking && !model.otel_selected() && model.attached ==> model.after_event(
            EventModel::OtelError,
            answers,
        ).effects == model.effects.push(EffectModel::ArmBlink),
        model.attached && model.unread_otel_errors > 0 && !model.otel_selected()
            ==> model.after_event(EventModel::OtelBlink, answers).effects == model.effects.push(
            EffectModel::ArmBlink,
        ),
        model.unread_otel_errors == 0 || model.otel_selected() ==> model.after_event(
            EventModel::OtelBlink,
            answers,
        ).effects == model.effects,
{
}

/// How many times the blink timer is asked for.
pub open spec fn times_armed(effects: Seq<EffectModel>) -> int
    decreases effects.len(),
{
    if effects.len() == 0 {
        0
    } else {
        times_armed(effects.drop_last()) + if effects.last() is ArmBlink {
            1int
        } else {
            0
        }
    }
}

/// The number of timers that a flag stands for.
pub open spec fn timers(running: bool) -> int {
    if running {
        1
    } else {
        0
    }
}

proof fn lemma_times_armed_push(effects: Seq<EffectModel>, effect: EffectModel)
    ensures
        times_armed(effects.push(effect)) == times_armed(effects) + timers(effect is ArmBlink),
{
    assert(effects.push(effect).drop_last() =~= effects);
}

proof fn lemma_actions_arm_no_timer(model: AppModel, action: Action, answers: Answers)
    ensures
        times_armed(model.after_action(action, answers).effects) == times_armed(model.effects),
        model.after_action(action, answers).otel_blinking == model.otel_blinking,
        model.after_action(action, answers).attached == model.attached,
{
    let after = model.after_action(action, answers);
    assert(after.effects == model.effects || after.effects == model.effects.push(
        after.effects.last(),
    ) && !(after.effects.last() is ArmBlink));
    lemma_times_armed_push(model.effects, after.effects.last());
}

/// The flag keeps account of the timer over every event: timers asked for, less
/// those that fired, are one while it is set and none while it is not.
pub proof fn law_the_flag_accounts_for_the_timer(
    model: AppModel,
    event: EventModel,
    answers: Answers,
)
    requires
        model.attached,
        event is OtelBlink ==> model.otel_blinking,
    ensures
        ({
            let after = model.after_event(event, answers);
            let asked = times_armed(after.effects) - times_armed(model.effects);
            let fired = timers(event is OtelBlink);
            timers(after.otel_blinking) - timers(model.otel_blinking) == asked - fired
        }),
        model.after_event(event, answers).attached,
{
    lemma_times_armed_push(model.effects, EffectModel::ArmBlink);
    if let EventModel::Key(key) = event {
        lemma_actions_arm_no_timer(model.marked(), model.action_of(key), answers);
    }
}

/// The blinking turns from one phase to the other while there are unseen errors, and
/// ends, with its timer, once they are seen.
pub proof fn law_blinking_ends_once_seen(model: AppModel, answers: Answers)
    ensures
        model.unread_otel_errors > 0 && !model.otel_selected() ==> model.after_event(
            EventModel::OtelBlink,
            answers,
        ).otel_blink_on == !model.otel_blink_on,
        model.unread_otel_errors == 0 || model.otel_selected() ==> !model.after_event(
            EventModel::OtelBlink,
            answers,
        ).otel_blinking && !model.after_event(EventModel::OtelBlink, answers).otel_blink_on,
{
}

/// Moving onto the row of the errors marks them as seen, and the count is gone from
/// the row.
pub proof fn law_selecting_the_errors_marks_them_seen(
    model: AppModel,
    delta: int,
    target: TargetModel,
)
    requires
        model.moved(delta).selected != model.selected,
        model.moved(delta).otel_selected(),
    ensures
        model.moved(delta).unread_otel_errors == 0,
        !model.moved(delta).otel_blink_on,
        row_name(model.moved(delta), target) == target.name,
{
}

proof fn lemma_restart_names_contains(
    targets: Seq<TargetModel>,
    statuses: Map<Seq<char>, Status>,
    n: nat,
    i: int,
)
    requires
        0 <= i < n <= targets.len(),
        is_restarted(targets[i], statuses),
    ensures
        restart_names(targets, statuses, n).contains(targets[i].name),
    decreases n,
{
    let names = restart_names(targets, statuses, n);
    if i == n - 1 {
        assert(names.last() == targets[i].name);
    } else {
        lemma_restart_names_contains(targets, statuses, (n - 1) as nat, i);
        let before = restart_names(targets, statuses, (n - 1) as nat);
        let k = choose|k: int| 0 <= k < before.len() && before[k] == targets[i].name;
        assert(names[k] == targets[i].name);
    }
}

proof fn lemma_restart_names_covers_no_other(
    targets: Seq<TargetModel>,
    statuses: Map<Seq<char>, Status>,
    n: nat,
    k: int,
)
    requires
        n <= targets.len(),
        0 <= k < restart_names(targets, statuses, n).len(),
    ensures
        exists|i: int|
            0 <= i < n && is_restarted(#[trigger] targets[i], statuses) && targets[i].name
                == restart_names(targets, statuses, n)[k],
    decreases n,
{
    if n > 0 {
        let before = restart_names(targets, statuses, (n - 1) as nat);
        if k < before.len() {
            lemma_restart_names_covers_no_other(targets, statuses, (n - 1) as nat, k);
            let i = choose|i: int|
                0 <= i < n - 1 && is_restarted(#[trigger] targets[i], statuses) && targets[i].name
                    == before[k];
            assert(is_restarted(targets[i], statuses));
        } else {
            assert(is_restarted(targets[n - 1], statuses));
        }
    }
}

/// A bulk restart covers the targets that are started by themselves, and those that
/// are running. A target that is started by hand only and not running is left alone.
pub proof fn law_bulk_restart_covers(model: AppModel, name: Seq<char>)
    ensures
        restart_names(model.targets, model.statuses, model.targets.len()).contains(name)
            <==> exists|i: int|
            0 <= i < model.targets.len() && is_restarted(
                #[trigger] model.targets[i],
                model.statuses,
            ) && model.targets[i].name == name,
{
    let names = restart_names(model.targets, model.statuses, model.targets.len());
    if names.contains(name) {
        let k = choose|k: int| 0 <= k < names.len() && names[k] == name;
        lemma_restart_names_covers_no_other(
            model.targets,
            model.statuses,
            model.targets.len(),
            k,
        );
    }
    if exists|i: int|
        0 <= i < model.targets.len() && is_restarted(#[trigger] model.targets[i], model.statuses)
            && model.targets[i].name == name {
        let i = choose|i: int|
            0 <= i < model.targets.len() && is_restarted(
                #[trigger] model.targets[i],
                model.statuses,
            ) && model.targets[i].name == name;
        lemma_restart_names_contains(
            model.targets,
            model.statuses,
            model.targets.len(),
            i,
        );
    }
}

proof fn lemma_emptied(
    logs: Map<Seq<char>, LogModel>,
    names: Seq<Seq<char>>,
    n: nat,
    name: Seq<char>,
)
    requires
        n <= names.len(),
    ensures
        emptied(logs, names, n).contains_key(name) == logs.contains_key(name),
        logs.contains_key(name) ==> emptied(logs, names, n)[name] == (if names.take(
            n as int,
        ).contains(name) {
            LogModel::fresh()
        } else {
            logs[name]
        }),
    decreases n,
{
    if n > 0 {
        lemma_emptied(logs, names, (n - 1) as nat, name);
        let before = names.take(n - 1);
        let with = names.take(n as int);
        assert(with =~= before.push(names[n - 1]));
        if before.contains(name) {
            let k = choose|k: int| 0 <= k < before.len() && before[k] == name;
            assert(with[k] == name);
        } else if names[n - 1] == name {
            assert(with[n - 1] == name);
        } else if with.contains(name) {
            let k = choose|k: int| 0 <= k < with.len() && with[k] == name;
            assert(before[k] == name);
        }
    }
}

/// A bulk restart empties the logs of the targets that it covers and no others.
pub proof fn law_bulk_restart_empties_its_logs(model: AppModel, name: Seq<char>)
    requires
        model.logs.contains_key(name),
    ensures
        model.restarted_logs_emptied().logs.contains_key(name),
        model.restarted_logs_emptied().logs[name] == (if restart_names(
            model.targets,
            model.statuses,
            model.targets.len(),
        ).contains(name) {
            LogModel::fresh()
        } else {
            model.logs[name]
        }),
{
    let names = restart_names(model.targets, model.statuses, model.targets.len());
    lemma_emptied(model.logs, names, names.len(), name);
    assert(names.take(names.len() as int) =~= names);
}

/// The logs after a bulk restart, target by target.
pub proof fn lemma_bulk_restart_logs(model: AppModel, name: Seq<char>)
    ensures
        ({
            let names = restart_names(model.targets, model.statuses, model.targets.len());
            let logs = model.restarted_logs_emptied().logs;
            &&& logs.contains_key(name) == model.logs.contains_key(name)
            &&& model.logs.contains_key(name) ==> logs[name] == (if names.contains(name) {
                LogModel::fresh()
            } else {
                model.logs[name]
            })
        }),
{
    let names = restart_names(model.targets, model.statuses, model.targets.len());
    lemma_emptied(model.logs, names, names.len(), name);
    assert(names.take(names.len() as int) =~= names);
}

/// Clearing a log empties that of the selected target and no other, and leaves no
/// match behind that points into it.
pub proof fn law_clearing_empties_one_log(
    model: AppModel,
    selected: Seq<char>,
    name: Seq<char>,
    outcome: Outcome,
)
    requires
        model.selected_name() == Some(selected),
        model.logs.contains_key(name),
    ensures
        model.log_cleared(outcome).logs[name] == (if name == selected {
            LogModel::fresh()
        } else {
            model.logs[name]
        }),
        model.log_cleared(outcome).search_matches.len() == 0,
        model.log_cleared(outcome).search_match_idx == 0,
{
}

proof fn lemma_actions_that_ask_nothing(model: AppModel, action: Action, answers: Answers)
    requires
        !asks(action),
    ensures
        model.after_action(action, answers).asked == model.asked,
{
}

/// Moving about, scrolling and searching ask nothing of the manager, and neither do
/// log lines, the wheel, a new size of the terminal, and the collector's errors.
pub proof fn law_looking_asks_nothing_of_the_manager(
    model: AppModel,
    event: EventModel,
    answers: Answers,
)
    requires
        event matches EventModel::Key(key) ==> !asks(model.action_of(key)),
        !(event is Tick || event is StateFileChange || event is FileChange),
    ensures
        model.after_event(event, answers).asked == model.asked,
{
    if let EventModel::Key(key) = event {
        lemma_actions_that_ask_nothing(model.marked(), model.action_of(key), answers);
    }
}

/// A reload first hands the new targets over, then has the collector started, and
/// only then reads the targets back, so that none that the collector registered is
/// missing.
pub proof fn law_reload_reads_the_targets_back_last(
    model: AppModel,
    loaded: Seq<TargetModel>,
    answers: Answers,
)
    ensures
        ({
            let after = model.after_event(EventModel::FileChange(Some(loaded)), answers);
            after.asked == model.asked + seq![
                Exchange::Request(Call::UpdateTargets(loaded), Ok(())),
                Exchange::Request(Call::EnsureOtelCollector, answers.collector),
                Exchange::Targets(answers.targets),
            ]
        }),
{
    let after = model.after_event(EventModel::FileChange(Some(loaded)), answers);
    assert(after.asked =~= model.asked + seq![
        Exchange::Request(Call::UpdateTargets(loaded), Ok(())),
        Exchange::Request(Call::EnsureOtelCollector, answers.collector),
        Exchange::Targets(answers.targets),
    ]);
}

/// A bulk restart that is run at once makes every stop request before any start
/// request.
pub proof fn law_bulk_restart_stops_first(
    model: AppModel,
    answers: Answers,
    i: int,
    j: int,
)
    requires
        !model.attached,
        model.asked.len() <= i < model.after_action(Action::RestartAll, answers).asked.len(),
        model.asked.len() <= j < model.after_action(Action::RestartAll, answers).asked.len(),
        model.after_action(Action::RestartAll, answers).asked[i] matches Exchange::Request(
            Call::Stop(_),
            _,
        ),
        model.after_action(Action::RestartAll, answers).asked[j] matches Exchange::Request(
            Call::Start(_),
            _,
        ),
    ensures
        i < j,
{
    let names = restart_names(model.targets, model.statuses, model.targets.len());
    let op = OpModel::RestartAll { names };
    let after = model.after_action(Action::RestartAll, answers);
    assert(after.asked == model.asked + exchanges(op, answers.op));
    let n = model.asked.len();
    assert(after.asked[i] == Exchange::Request(plan(op)[i - n], answers.op[i - n]));
    assert(after.asked[j] == Exchange::Request(plan(op)[j - n], answers.op[j - n]));
    law_restart_all_stops_first(names, i - n, j - n);
}

/// The event loop ends on a key press only, and all targets are stopped only on the
/// way out.
pub proof fn law_only_keys_end_the_loop(model: AppModel, event: EventModel)
    ensures
        !(event is Key) ==> event_continuation(model, event).continue_loop,
        event_continuation(model, event).stop_all ==> !event_continuation(
            model,
            event,
        ).continue_loop,
{
}

/// While a search goes on, no key ends the event loop but control and `c`.
pub proof fn law_search_is_left_by_ctrl_c_only(key: KeyEvent)
    ensures
        continuation(bound_action(false, false, true, key)).continue_loop == !is_ctrl_c(key),
{
}

/// While the log fills the screen, its pane shows nothing but the log and, during a
/// search, the search bar.
pub proof fn law_zoomed_log_stands_alone(
    model: AppModel,
    panes: PanesModel,
    lines: Seq<Seq<PieceModel>>,
)
    requires
        model.zoom_logs,
    ensures
        log_frame_drawn(model, panes).len() == 0,
        !model.search_mode ==> log_drawn(model, panes, lines) == seq![
            DrawModel::Text { area: panes.log[0], lines, tone: None, wrap: model.wrap_logs },
        ],
{
    if !model.search_mode {
        assert(log_drawn(model, panes, lines) =~= seq![
            DrawModel::Text { area: panes.log[0], lines, tone: None, wrap: model.wrap_logs },
        ]);
    }
}

/// There is a footer exactly while operations are running.
pub proof fn law_footer_is_there_while_busy(model: AppModel, panes: PanesModel)
    ensures
        footer_drawn(model, panes).len() == (if busy(model) {
            1nat
        } else {
            0
        }),
{
}

/// The footer lists the running operations in the order of their ids, and
/// keeps that order when one of them is done.
pub proof fn law_footer_keeps_its_order(ids: Seq<u64>, all: Set<u64>, k: int)
    requires
        lists_in_order(ids, all),
        0 <= k < ids.len(),
    ensures
        in_order(all) == ids,
        in_order(all.remove(ids[k])) == ids.remove(k),
{
    let rest = ids.remove(k);
    let left = all.remove(ids[k]);
    lemma_order_is_unique(ids, in_order(all), all);
    assert forall|id: u64| #[trigger] rest.to_set().contains(id) == left.contains(id) by {
        if rest.contains(id) {
            let i = choose|i: int| 0 <= i < rest.len() && rest[i] == id;
            let from = if i < k {
                i
            } else {
                i + 1
            };
            assert(ids[from] == id);
            assert(ids.to_set().contains(ids[from]));
        }
        if left.contains(id) {
            assert(ids.to_set().contains(id));
            let i = choose|i: int| 0 <= i < ids.len() && ids[i] == id;
            let to = if i < k {
                i
            } else {
                i - 1
            };
            assert(rest[to] == id);
        }
    }
    assert(rest.to_set() =~= left);
    assert(lists_in_order(rest, left));
    lemma_order_is_unique(rest, in_order(left), left);
}

/// Text that is cut or filled up to a width has that width, and begins as the text
/// does.
pub proof fn law_padding_gives_the_width(width: nat, text: Seq<char>)
    ensures
        padded(width, text).len() == width,
        forall|i: int|
            0 <= i < width && i < text.len() ==> #[trigger] padded(width, text)[i] == text[i],
        forall|i: int| text.len() <= i < width ==> #[trigger] padded(width, text)[i] == ' ',
{
}

} // verus!
