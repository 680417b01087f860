//! What the keys that act on targets do, told by what is asked of the manager and what
//! the user reads of it.

use vstd::prelude::*;

use crate::dump::{is_stamp, law_dumps_go_into_the_directory};
use crate::event::{EffectModel, EventModel, KeyCode, KeyEvent};
use crate::event_laws::lemma_bulk_restart_logs;
use crate::handle::{Call, Exchange, Outcome};
use crate::key_laws::{
    at_rest, law_selected_target_is_that_of_the_row, pressed, stands_on, stands_on_none,
};
use crate::log_buffer::LogModel;
use crate::model::{restart_names, Answers, AppModel};
use crate::ops::{exchanges, op_label, op_summary, plan, successes, OpModel};
use crate::target::{Status, TargetModel};
use crate::text::decimal_text;

verus! {

/// Whether an operation was handed to the event loop, under the next id and this label,
/// and nothing else has changed but the log buffers.
pub open spec fn only_handed_over(
    model: AppModel,
    after: AppModel,
    op: OpModel,
    label: Seq<char>,
) -> bool {
    &&& after == AppModel {
        effects: model.effects.push(EffectModel::RunOp { id: model.next_op_id, op }),
        in_flight: model.in_flight.insert(model.next_op_id, label),
        next_op_id: after.next_op_id,
        logs: after.logs,
        dirty: true,
        urgent: true,
        ..model
    }
    &&& model.next_op_id < u64::MAX ==> after.next_op_id == model.next_op_id + 1
    &&& model.next_op_id == u64::MAX ==> after.next_op_id == 0
}

/// Whether these were asked of the manager, one after the other and nothing else, and
/// the header says `msg` for two heartbeats, and nothing else has changed but the log
/// buffers.
pub open spec fn only_asked(
    model: AppModel,
    after: AppModel,
    asked: Seq<Exchange>,
    msg: Seq<char>,
) -> bool {
    &&& after == AppModel {
        asked: model.asked + asked,
        status_msg: msg,
        status_msg_until_tick: 2,
        in_flight: model.in_flight.remove(model.next_op_id),
        next_op_id: after.next_op_id,
        logs: after.logs,
        dirty: true,
        urgent: true,
        ..model
    }
    &&& model.next_op_id < u64::MAX ==> after.next_op_id == model.next_op_id + 1
    &&& model.next_op_id == u64::MAX ==> after.next_op_id == 0
}

/// How a request went, in words.
pub open spec fn told_as(done: Seq<char>, tried: Seq<char>, outcome: Outcome) -> Seq<char> {
    match outcome {
        Ok(_) => done,
        Err(text) => tried + ": "@ + text,
    }
}

proof fn lemma_one_request(model: AppModel, op: OpModel, outcomes: Seq<Outcome>, call: Call)
    requires
        plan(op) == seq![call],
    ensures
        exchanges(op, outcomes) == seq![Exchange::Request(call, outcomes[0])],
        model.in_flight.insert(model.next_op_id, op_label(op)).remove(model.next_op_id)
            == model.in_flight.remove(model.next_op_id),
{
    assert(exchanges(op, outcomes) =~= seq![Exchange::Request(call, outcomes[0])]);
    assert(model.in_flight.insert(model.next_op_id, op_label(op)).remove(
        model.next_op_id,
    ) =~= model.in_flight.remove(model.next_op_id));
}

/// `S` starts the selected target, and no other. With an event loop that is handed
/// over to it; without one it is done at once, and the header says how it went.
pub proof fn law_start_key(model: AppModel, name: Seq<char>, answers: Answers)
    requires
        at_rest(model),
        stands_on(model, name),
    ensures
        ({
            let after = pressed(model, KeyCode::Char('S'), answers);
            &&& after.logs == model.logs
            &&& model.attached ==> only_handed_over(
                model,
                after,
                OpModel::Start { name },
                "starting "@ + name,
            )
            &&& !model.attached ==> only_asked(
                model,
                after,
                seq![Exchange::Request(Call::Start(name), answers.op[0])],
                told_as("started "@ + name, "start "@ + name, answers.op[0]),
            )
        }),
{
    law_selected_target_is_that_of_the_row(model, name);
    lemma_one_request(model, OpModel::Start { name }, answers.op, Call::Start(name));
}

/// `s` stops the selected target, and no other.
pub proof fn law_stop_key(model: AppModel, name: Seq<char>, answers: Answers)
    requires
        at_rest(model),
        stands_on(model, name),
    ensures
        ({
            let after = pressed(model, KeyCode::Char('s'), answers);
            &&& after.logs == model.logs
            &&& model.attached ==> only_handed_over(
                model,
                after,
                OpModel::Stop { name },
                "stopping "@ + name,
            )
            &&& !model.attached ==> only_asked(
                model,
                after,
                seq![Exchange::Request(Call::Stop(name), answers.op[0])],
                told_as("stopped "@ + name, "stop "@ + name, answers.op[0]),
            )
        }),
{
    law_selected_target_is_that_of_the_row(model, name);
    lemma_one_request(model, OpModel::Stop { name }, answers.op, Call::Stop(name));
}

/// `r` restarts the selected target, and no other.
pub proof fn law_restart_key(model: AppModel, name: Seq<char>, answers: Answers)
    requires
        at_rest(model),
        stands_on(model, name),
    ensures
        ({
            let after = pressed(model, KeyCode::Char('r'), answers);
            &&& after.logs == model.logs
            &&& model.attached ==> only_handed_over(
                model,
                after,
                OpModel::Restart { name },
                "restarting "@ + name,
            )
            &&& !model.attached ==> only_asked(
                model,
                after,
                seq![Exchange::Request(Call::Restart(name), answers.op[0])],
                told_as("restarted "@ + name, "restart "@ + name, answers.op[0]),
            )
        }),
{
    law_selected_target_is_that_of_the_row(model, name);
    lemma_one_request(model, OpModel::Restart { name }, answers.op, Call::Restart(name));
}

/// `d` writes the log of the selected target to a file in the dump directory that
/// bears its name and the time.
pub proof fn law_dump_key(model: AppModel, name: Seq<char>, answers: Answers)
    requires
        at_rest(model),
        stands_on(model, name),
        model.dump_dir.len() > 0,
        model.dump_dir.last() != '/',
        name.len() == 0 || name[0] != '/',
    ensures
        ({
            let after = pressed(model, KeyCode::Char('d'), answers);
            let dest = model.dump_dir.push('/') + (name + "-"@ + answers.stamp + ".log"@);
            &&& after.logs == model.logs
            &&& model.attached ==> only_handed_over(
                model,
                after,
                OpModel::Dump { name, dest },
                "dumping "@ + name,
            )
            &&& !model.attached ==> only_asked(
                model,
                after,
                seq![Exchange::Request(Call::Dump(name, dest), answers.op[0])],
                told_as("dumped to "@ + dest, "dump "@ + name, answers.op[0]),
            )
        }),
{
    let dest = model.dump_dir.push('/') + (name + "-"@ + answers.stamp + ".log"@);
    law_selected_target_is_that_of_the_row(model, name);
    law_dumps_go_into_the_directory(model.dump_dir, name, answers.stamp);
    lemma_one_request(model, OpModel::Dump { name, dest }, answers.op, Call::Dump(name, dest));
}

/// Where no target is selected, the keys that act on the selected target do nothing.
pub proof fn law_no_target_no_action(model: AppModel, c: char, answers: Answers)
    requires
        at_rest(model),
        stands_on_none(model),
        c == 'S' || c == 's' || c == 'r' || c == 'd' || c == 'c' || c == 'D' || c == 'E' || c
            == 'b' || c == 'f',
    ensures
        pressed(model, KeyCode::Char(c), answers) == (AppModel {
            dirty: true,
            urgent: true,
            ..model
        }),
{
}

/// The names of the targets that are restarted together: those that are started by
/// themselves, whatever their status, and the others that are running.
pub open spec fn restarted_together(
    targets: Seq<TargetModel>,
    statuses: Map<Seq<char>, Status>,
) -> Seq<Seq<char>> {
    targets.filter(
        |t: TargetModel|
            t.autorun || (statuses.dom().contains(t.name) && statuses[t.name] == Status::Running),
    ).map_values(|t: TargetModel| t.name)
}

proof fn lemma_restart_names(
    targets: Seq<TargetModel>,
    statuses: Map<Seq<char>, Status>,
    n: nat,
)
    requires
        n <= targets.len(),
    ensures
        restart_names(targets, statuses, n) == restarted_together(
            targets.take(n as int),
            statuses,
        ),
    decreases n,
{
    reveal(Seq::filter);
    let some = targets.take(n as int);
    if n > 0 {
        lemma_restart_names(targets, statuses, (n - 1) as nat);
        assert(some.drop_last() =~= targets.take(n - 1));
        assert(some.last() == targets[n - 1]);
    }
    assert(restart_names(targets, statuses, n) =~= restarted_together(some, statuses));
}

/// A bulk restart covers every target that is started by itself, whatever its status,
/// and of the others exactly those that are running, in the order of the targets.
pub proof fn law_who_is_restarted(model: AppModel, i: int)
    requires
        0 <= i < model.targets.len(),
    ensures
        ({
            let names = restart_names(model.targets, model.statuses, model.targets.len());
            let target = model.targets[i];
            &&& target.autorun ==> names.contains(target.name)
            &&& model.statuses.dom().contains(target.name) && model.statuses[target.name]
                == Status::Running ==> names.contains(target.name)
            &&& names == restarted_together(model.targets, model.statuses)
            &&& names.len() <= model.targets.len()
        }),
{
    let n = model.targets.len();
    let names = restart_names(model.targets, model.statuses, n);
    lemma_restart_names(model.targets, model.statuses, n);
    assert(model.targets.take(n as int) =~= model.targets);
    let covered = |t: TargetModel|
        t.autorun || (model.statuses.dom().contains(t.name) && model.statuses[t.name]
            == Status::Running);
    let kept = model.targets.filter(covered);
    model.targets.lemma_filter_len(covered);
    assert(names =~= kept.map_values(|t: TargetModel| t.name));
    if covered(model.targets[i]) {
        model.targets.lemma_filter_contains(covered, i);
        let k = choose|k: int| 0 <= k < kept.len() && kept[k] == model.targets[i];
        assert(names[k] == model.targets[i].name);
    }
}

/// A target that is not started by itself and is not running is left alone by a bulk
/// restart, as long as no other target has its name.
pub proof fn law_who_is_not_restarted(model: AppModel, name: Seq<char>)
    requires
        forall|i: int|
            0 <= i < model.targets.len() && (#[trigger] model.targets[i]).name == name
                ==> !model.targets[i].autorun,
        !(model.statuses.dom().contains(name) && model.statuses[name] == Status::Running),
    ensures
        !restart_names(model.targets, model.statuses, model.targets.len()).contains(name),
{
    let n = model.targets.len();
    let names = restart_names(model.targets, model.statuses, n);
    lemma_restart_names(model.targets, model.statuses, n);
    assert(model.targets.take(n as int) =~= model.targets);
    let covered = |t: TargetModel|
        t.autorun || (model.statuses.dom().contains(t.name) && model.statuses[t.name]
            == Status::Running);
    let kept = model.targets.filter(covered);
    assert(names =~= kept.map_values(|t: TargetModel| t.name));
    if names.contains(name) {
        let k = choose|k: int| 0 <= k < names.len() && names[k] == name;
        assert(kept[k].name == name);
        model.targets.lemma_filter_pred(covered, k);
        assert(kept.contains(kept[k]));
        model.targets.lemma_filter_contains_rev(covered, kept[k]);
        let i = choose|i: int| 0 <= i < n && model.targets[i] == kept[k];
        assert(model.targets[i].name == name);
    }
}

/// The requests of a bulk restart with their outcomes: every target is stopped, in
/// order, and only then is every target started, in the same order.
pub open spec fn stops_and_starts(names: Seq<Seq<char>>, outcomes: Seq<Outcome>) -> Seq<Exchange> {
    Seq::new(
        2 * names.len(),
        |i: int|
            if i < names.len() {
                Exchange::Request(Call::Stop(names[i]), outcomes[i])
            } else {
                Exchange::Request(Call::Start(names[i - names.len()]), outcomes[i])
            },
    )
}

proof fn lemma_successes(outcomes: Seq<Outcome>)
    ensures
        successes(outcomes) == outcomes.filter(|o: Outcome| o is Ok).len(),
    decreases outcomes.len(),
{
    reveal(Seq::filter);
    if outcomes.len() > 0 {
        lemma_successes(outcomes.drop_last());
    }
}

/// `R` restarts together the targets that are started by themselves, whatever their
/// status, and the others that are running, with every one stopped before any is
/// started. The message counts how many could be started and how many could not.
pub proof fn law_restart_all_key(model: AppModel, answers: Answers)
    requires
        at_rest(model),
    ensures
        ({
            let names = restarted_together(model.targets, model.statuses);
            let after = pressed(model, KeyCode::Char('R'), answers);
            let ok = answers.op.skip(names.len() as int).filter(|o: Outcome| o is Ok).len();
            &&& model.attached ==> only_handed_over(
                model,
                after,
                OpModel::RestartAll { names },
                "restarting "@ + decimal_text(names.len()) + " target(s)"@,
            )
            &&& !model.attached ==> only_asked(
                model,
                after,
                stops_and_starts(names, answers.op),
                "restarted "@ + decimal_text(ok) + " target(s), "@ + decimal_text(
                    (names.len() - ok) as nat,
                ) + " error(s)"@,
            )
        }),
{
    let n = model.targets.len();
    let names = restart_names(model.targets, model.statuses, n);
    lemma_restart_names(model.targets, model.statuses, n);
    assert(model.targets.take(n as int) =~= model.targets);
    let op = OpModel::RestartAll { names };
    lemma_successes(answers.op.skip(names.len() as int));
    assert(exchanges(op, answers.op) =~= stops_and_starts(names, answers.op));
    assert(model.in_flight.insert(model.next_op_id, op_label(op)).remove(
        model.next_op_id,
    ) =~= model.in_flight.remove(model.next_op_id));
}

/// `R` empties the log of each target that it restarts, and leaves those of the others
/// as they are.
pub proof fn law_restart_all_clears_logs(model: AppModel, name: Seq<char>, answers: Answers)
    ensures
        at_rest(model) ==> {
            let after = pressed(model, KeyCode::Char('R'), answers);
            let covered = restarted_together(model.targets, model.statuses).contains(name);
            &&& after.logs.dom().contains(name) == model.logs.dom().contains(name)
            &&& model.logs.dom().contains(name) && !covered ==> after.logs[name]
                == model.logs[name]
            &&& model.logs.dom().contains(name) && covered ==> is_blank(after.logs[name])
        },
{
    if at_rest(model) {
        let n = model.targets.len();
        lemma_restart_names(model.targets, model.statuses, n);
        assert(model.targets.take(n as int) =~= model.targets);
        lemma_bulk_restart_logs(model.marked(), name);
    }
}

/// Whether a log buffer has no lines, and its view stands at the bottom.
pub open spec fn is_blank(log: LogModel) -> bool {
    log.lines.len() == 0 && log.parsed.len() == 0 && log.scroll == 0 && log.at_bottom
}

/// `c` empties the log of the selected target, here and with the manager, and leaves
/// the others alone. No match is left then, and the header says how it went.
pub proof fn law_clear_key(model: AppModel, name: Seq<char>, answers: Answers)
    requires
        at_rest(model),
        stands_on(model, name),
    ensures
        ({
            let after = pressed(model, KeyCode::Char('c'), answers);
            &&& after == AppModel {
                logs: after.logs,
                search_matches: Seq::empty(),
                search_match_idx: 0,
                asked: model.asked.push(Exchange::Request(Call::Clear(name), answers.clear)),
                status_msg: told_as(
                    "cleared "@ + name + " logs"@,
                    "clear "@ + name,
                    answers.clear,
                ),
                status_msg_until_tick: 2,
                dirty: true,
                urgent: true,
                ..model
            }
            &&& forall|other: Seq<char>|
                (#[trigger] after.logs.dom().contains(other)) == model.logs.dom().contains(other)
            &&& forall|other: Seq<char>|
                other != name && #[trigger] model.logs.dom().contains(other) ==> after.logs[other]
                    == model.logs[other]
            &&& model.logs.dom().contains(name) ==> is_blank(after.logs[name])
        }),
{
    law_selected_target_is_that_of_the_row(model, name);
}

/// `w` turns the wrapping of long log lines on and off, and says which.
pub proof fn law_wrap_key(model: AppModel, answers: Answers)
    requires
        at_rest(model),
    ensures
        pressed(model, KeyCode::Char('w'), answers) == (AppModel {
            wrap_logs: !model.wrap_logs,
            status_msg: if model.wrap_logs {
                "wrap off"@
            } else {
                "wrap on"@
            },
            status_msg_until_tick: 2,
            dirty: true,
            urgent: true,
            ..model
        }),
{
}

/// `z` lets the log fill the screen or takes it back, and says which. The mouse is the
/// terminal's own exactly while the log fills the screen.
pub proof fn law_zoom_key(model: AppModel, answers: Answers)
    requires
        at_rest(model),
    ensures
        ({
            let after = pressed(model, KeyCode::Char('z'), answers);
            &&& after.zoom_logs == !model.zoom_logs
            &&& after == AppModel {
                zoom_logs: !model.zoom_logs,
                effects: model.effects.push(EffectModel::CaptureMouse(!after.zoom_logs)),
                status_msg: if after.zoom_logs {
                    "zoom on (mouse off, select-to-copy enabled)"@
                } else {
                    "zoom off"@
                },
                status_msg_until_tick: 2,
                dirty: true,
                urgent: true,
                ..model
            }
        }),
{
}

/// `D` asks how the selected target would be launched, and shows it; where there is
/// nothing to show, the header says so.
pub proof fn law_describe_key(model: AppModel, name: Seq<char>, answers: Answers)
    requires
        at_rest(model),
        stands_on(model, name),
    ensures
        ({
            let after = pressed(model, KeyCode::Char('D'), answers);
            let asked = model.asked.push(Exchange::Description(name, answers.description));
            &&& answers.description.len() > 0 ==> after == AppModel {
                describe: Some(answers.description),
                asked,
                dirty: true,
                urgent: true,
                ..model
            }
            &&& answers.description.len() == 0 ==> after == AppModel {
                status_msg: "no description for "@ + name,
                status_msg_until_tick: 2,
                asked,
                dirty: true,
                urgent: true,
                ..model
            }
        }),
{
    law_selected_target_is_that_of_the_row(model, name);
}

/// `E` has the run file of the selected target opened in the editor; where it has none,
/// the header says so.
pub proof fn law_edit_key(model: AppModel, i: int, answers: Answers)
    requires
        at_rest(model),
        0 <= i < model.targets.len(),
        model.selected < model.rows.len(),
        model.rows[model.selected as int] is Target,
        model.rows[model.selected as int]->Target_target_idx == i,
    ensures
        ({
            let after = pressed(model, KeyCode::Char('E'), answers);
            let source = model.targets[i].source_file;
            &&& source.len() > 0 ==> after == AppModel {
                effects: model.effects.push(EffectModel::OpenEditor { source }),
                dirty: true,
                urgent: true,
                ..model
            }
            &&& source.len() == 0 ==> after == AppModel {
                status_msg: "no source file for this target"@,
                status_msg_until_tick: 2,
                dirty: true,
                urgent: true,
                ..model
            }
        }),
{
}

/// After the editor has left, the whole screen is painted anew, and the header says how
/// it went. Nothing else changes.
pub proof fn law_after_the_editor(model: AppModel, source: Seq<char>, outcome: Outcome)
    ensures
        model.edited(source, outcome) == (AppModel {
            force_full_redraw: true,
            dirty: true,
            urgent: true,
            status_msg: told_as("edited "@ + source, "editor"@, outcome),
            status_msg_until_tick: 2,
            ..model
        }),
{
}

/// Whether a character key does something where no overlay is open and no search goes
/// on.
pub open spec fn is_bound(c: char) -> bool {
    "QqR?/kjbflh rsSdcwzDE"@.contains(c)
}

/// The other keys do nothing.
pub proof fn law_other_keys_do_nothing(model: AppModel, key: KeyCode, answers: Answers)
    requires
        at_rest(model),
        match key {
            KeyCode::Char(c) => !is_bound(c),
            KeyCode::Esc | KeyCode::Backspace | KeyCode::Other => true,
            _ => false,
        },
    ensures
        pressed(model, key, answers) == (AppModel { dirty: true, urgent: true, ..model }),
{
    if let KeyCode::Char(c) = key {
        reveal_strlit("QqR?/kjbflh rsSdcwzDE");
        let all = "QqR?/kjbflh rsSdcwzDE"@;
        assert(all[0] == 'Q' && all[1] == 'q' && all[2] == 'R' && all[3] == '?' && all[4] == '/');
        assert(all[5] == 'k' && all[6] == 'j' && all[7] == 'b' && all[8] == 'f' && all[9] == 'l');
        assert(all[10] == 'h' && all[11] == ' ' && all[12] == 'r' && all[13] == 's');
        assert(all[14] == 'S' && all[15] == 'd' && all[16] == 'c' && all[17] == 'w');
        assert(all[18] == 'z' && all[19] == 'D' && all[20] == 'E');
    }
}

/// An operation has one outcome for each request that it makes, and a dump bears the time
/// at which it is made.
pub proof fn law_answers_fit_the_action(
    model: AppModel,
    name: Seq<char>,
    c: char,
    answers: Answers,
)
    requires
        at_rest(model),
        model.can_answer_event(
            EventModel::Key(KeyEvent { code: KeyCode::Char(c), control: false }),
            answers,
        ),
    ensures
        stands_on(model, name) && (c == 'S' || c == 's' || c == 'r' || c == 'd')
            ==> answers.op.len() == 1,
        stands_on(model, name) && c == 'd' ==> is_stamp(answers.stamp),
        c == 'R' ==> answers.op.len() == 2 * restarted_together(
            model.targets,
            model.statuses,
        ).len(),
{
    let n = model.targets.len();
    law_selected_target_is_that_of_the_row(model, name);
    lemma_restart_names(model.targets, model.statuses, n);
    assert(model.targets.take(n as int) =~= model.targets);
}

/// What an operation asks of the manager, how it is labelled while it runs, and how it is
/// reported.
pub proof fn law_operations(name: Seq<char>, dest: Seq<char>, outcomes: Seq<Outcome>)
    ensures
        plan(OpModel::Start { name }) == seq![Call::Start(name)],
        plan(OpModel::Stop { name }) == seq![Call::Stop(name)],
        plan(OpModel::Restart { name }) == seq![Call::Restart(name)],
        plan(OpModel::Dump { name, dest }) == seq![Call::Dump(name, dest)],
        op_label(OpModel::Start { name }) == "starting "@ + name,
        op_label(OpModel::Stop { name }) == "stopping "@ + name,
        op_label(OpModel::Restart { name }) == "restarting "@ + name,
        op_label(OpModel::Dump { name, dest }) == "dumping "@ + name,
        op_summary(OpModel::Start { name }, outcomes) == told_as(
            "started "@ + name,
            "start "@ + name,
            outcomes[0],
        ),
        op_summary(OpModel::Stop { name }, outcomes) == told_as(
            "stopped "@ + name,
            "stop "@ + name,
            outcomes[0],
        ),
        op_summary(OpModel::Restart { name }, outcomes) == told_as(
            "restarted "@ + name,
            "restart "@ + name,
            outcomes[0],
        ),
        op_summary(OpModel::Dump { name, dest }, outcomes) == told_as(
            "dumped to "@ + dest,
            "dump "@ + name,
            outcomes[0],
        ),
{
}

/// What a bulk restart asks of the manager, how it is labelled while it runs, and how it
/// is reported.
pub proof fn law_bulk_operation(names: Seq<Seq<char>>, outcomes: Seq<Outcome>)
    requires
        outcomes.len() == 2 * names.len(),
    ensures
        ({
            let op = OpModel::RestartAll { names };
            let ok = outcomes.skip(names.len() as int).filter(|o: Outcome| o is Ok).len();
            &&& exchanges(op, outcomes) == stops_and_starts(names, outcomes)
            &&& op_label(op) == "restarting "@ + decimal_text(names.len()) + " target(s)"@
            &&& op_summary(op, outcomes) == "restarted "@ + decimal_text(ok) + " target(s), "@
                + decimal_text((names.len() - ok) as nat) + " error(s)"@
            &&& ok <= names.len()
        }),
{
    let op = OpModel::RestartAll { names };
    let starts = outcomes.skip(names.len() as int);
    lemma_successes(starts);
    starts.lemma_filter_len(|o: Outcome| o is Ok);
    assert(exchanges(op, outcomes) =~= stops_and_starts(names, outcomes));
}

/// An operation is handed to the event loop where there is one, and run to its end
/// otherwise.
pub proof fn law_begun_operations(model: AppModel, op: OpModel, outcomes: Seq<Outcome>)
    ensures
        ({
            let after = model.op_spawned(op, outcomes);
            &&& after.logs == model.logs
            &&& model.attached ==> only_handed_over(model, after, op, op_label(op))
            &&& !model.attached ==> only_asked(
                model,
                after,
                exchanges(op, outcomes),
                op_summary(op, outcomes),
            )
            &&& exchanges(op, outcomes).len() == plan(op).len()
            &&& forall|i: int|
                0 <= i < plan(op).len() ==> #[trigger] exchanges(op, outcomes)[i]
                    == Exchange::Request(plan(op)[i], outcomes[i])
        }),
{
    assert(model.in_flight.insert(model.next_op_id, op_label(op)).remove(model.next_op_id)
        =~= model.in_flight.remove(model.next_op_id));
}

} // verus!
