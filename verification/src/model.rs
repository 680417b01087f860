//! What the application holds, and what each of its operations makes of it.

use vstd::prelude::*;

use crate::app::Continuation;
use crate::dump::{dump_path, is_stamp};
use crate::event::{EffectModel, EventModel, KeyEvent};
use crate::handle::{Call, Exchange, Outcome};
use crate::keymap::{bound_action, Action};
use crate::log_buffer::LogModel;
use crate::ops::{exchanges, op_label, op_summary, plan, report, OpModel};
use crate::rows::{computed_rows, selectable, RowModel};
use crate::target::{Status, TargetModel};
use crate::text::{contains_text, lowercase};

verus! {

/// The name of the virtual target that shows the collector's errors.
pub const OTEL_TARGET_NAME: &'static str = "otel-errors";

/// For how many ticks a message stays in the header.
pub const FLASH_TICKS: u8 = 2;

/// What the application holds.
pub struct AppModel {
    pub targets: Seq<TargetModel>,
    pub run_dir: Seq<char>,
    pub project_root: Seq<char>,
    pub dump_dir: Seq<char>,
    pub selected: nat,
    pub rows: Seq<RowModel>,
    pub row_names: Seq<Option<Seq<char>>>,
    pub folder_expanded: Map<Seq<char>, bool>,
    pub logs: Map<Seq<char>, LogModel>,
    pub statuses: Map<Seq<char>, Status>,
    pub status_msg: Seq<char>,
    pub status_msg_until_tick: u8,
    pub quitting: bool,
    pub stop_all: bool,
    pub wrap_logs: bool,
    pub zoom_logs: bool,
    pub help_visible: bool,
    pub describe: Option<Seq<char>>,
    pub last_height: u16,
    pub unread_otel_errors: nat,
    pub otel_blink_on: bool,
    pub otel_blinking: bool,
    pub dirty: bool,
    pub urgent: bool,
    pub search_mode: bool,
    pub search_query: Seq<char>,
    pub search_matches: Seq<usize>,
    pub search_match_idx: nat,
    pub force_full_redraw: bool,
    pub in_flight: Map<u64, Seq<char>>,
    pub next_op_id: u64,
    pub attached: bool,
    pub effects: Seq<EffectModel>,
    pub asked: Seq<Exchange>,
}

/// Whether a log line is a hit for a query: letter case does not count.
pub open spec fn line_matches(line: Seq<char>, query: Seq<char>) -> bool {
    contains_text(lowercase(line), lowercase(query))
}

/// The positions of the hits among the first `n` lines, in increasing order.
pub open spec fn hits(lines: Seq<Seq<char>>, query: Seq<char>, n: nat) -> Seq<usize>
    decreases n,
{
    if n == 0 || n > lines.len() {
        Seq::empty()
    } else {
        let before = hits(lines, query, (n - 1) as nat);
        if line_matches(lines[n - 1], query) {
            before.push((n - 1) as usize)
        } else {
            before
        }
    }
}

/// The positions after the first line is gone: that line's own position is
/// dropped, the others move up by one.
pub open spec fn shifted(positions: Seq<usize>) -> Seq<usize>
    decreases positions.len(),
{
    if positions.len() == 0 {
        Seq::empty()
    } else {
        let before = shifted(positions.drop_last());
        if positions.last() >= 1 {
            before.push((positions.last() - 1) as usize)
        } else {
            before
        }
    }
}

/// The position of the first row from `i` on that shows the target called `name`.
pub open spec fn row_of_target(
    rows: Seq<RowModel>,
    targets: Seq<TargetModel>,
    name: Seq<char>,
    i: nat,
) -> Option<nat>
    decreases rows.len() - i,
{
    if i >= rows.len() {
        None
    } else if shows_target(rows[i as int], targets, name) {
        Some(i)
    } else {
        row_of_target(rows, targets, name, i + 1)
    }
}

/// Whether a row shows the target called `name`.
pub open spec fn shows_target(row: RowModel, targets: Seq<TargetModel>, name: Seq<char>) -> bool {
    match row {
        RowModel::Target { target_idx, .. } => target_idx < targets.len()
            && targets[target_idx as int].name == name,
        _ => false,
    }
}

/// The name of the target that a row shows.
pub open spec fn shown_name(row: RowModel, targets: Seq<TargetModel>) -> Option<Seq<char>> {
    match row {
        RowModel::Target { target_idx, .. } => if target_idx < targets.len() {
            Some(targets[target_idx as int].name)
        } else {
            None
        },
        _ => None,
    }
}

/// The name of the target that each row shows.
pub open spec fn shown_names(
    rows: Seq<RowModel>,
    targets: Seq<TargetModel>,
) -> Seq<Option<Seq<char>>> {
    Seq::new(rows.len(), |i: int| shown_name(rows[i], targets))
}

/// The position of the first row from `i` on that can be selected.
pub open spec fn first_selectable(rows: Seq<RowModel>, i: nat) -> Option<nat>
    decreases rows.len() - i,
{
    if i >= rows.len() {
        None
    } else if selectable(rows[i as int]) {
        Some(i)
    } else {
        first_selectable(rows, i + 1)
    }
}

/// An empty log buffer for each of the first `n` targets.
pub open spec fn empty_logs(targets: Seq<TargetModel>, n: nat) -> Map<Seq<char>, LogModel>
    decreases n,
{
    if n == 0 || n > targets.len() {
        Map::empty()
    } else {
        empty_logs(targets, (n - 1) as nat).insert(targets[n - 1].name, LogModel::fresh())
    }
}

/// Where a walk over the rows from `cur` ends after `hops` rows that can be
/// selected, downwards or upwards. Rows that cannot be selected are passed over,
/// and the walk stops at the edge.
pub open spec fn walk(rows: Seq<RowModel>, cur: int, down: bool, hops: nat) -> int
    decreases
            if down {
                rows.len() - cur
            } else {
                cur + 1
            },
{
    let next = if down {
        cur + 1
    } else {
        cur - 1
    };
    if hops == 0 || next < 0 || next >= rows.len() {
        cur
    } else if selectable(rows[next]) {
        walk(rows, next, down, (hops - 1) as nat)
    } else {
        walk(rows, next, down, hops)
    }
}

/// The first row from `cur` on, downwards or upwards, that can be selected.
pub open spec fn nearest_selectable(rows: Seq<RowModel>, cur: int, down: bool) -> Option<int>
    decreases
            if down {
                rows.len() - cur
            } else {
                cur + 1
            },
{
    if cur < 0 || cur >= rows.len() {
        None
    } else if selectable(rows[cur]) {
        Some(cur)
    } else if down {
        nearest_selectable(rows, cur + 1, down)
    } else {
        nearest_selectable(rows, cur - 1, down)
    }
}

/// The row that the selection moves to from `cur`: so many rows on, and off a row
/// that cannot be selected, first in the same direction, then in the other one.
pub open spec fn moved_row(rows: Seq<RowModel>, cur: int, delta: int) -> int {
    let down = delta >= 0;
    let end = walk(
        rows,
        cur,
        down,
        (if down {
            delta
        } else {
            -delta
        }) as nat,
    );
    if selectable(rows[end]) {
        end
    } else {
        let ahead = nearest_selectable(
            rows,
            if down {
                end + 1
            } else {
                end - 1
            },
            down,
        );
        let behind = nearest_selectable(
            rows,
            if down {
                end - 1
            } else {
                end + 1
            },
            !down,
        );
        match (ahead, behind) {
            (Some(i), _) => i,
            (None, Some(i)) => i,
            (None, None) => end,
        }
    }
}

/// The position of the first header of the folder `group` from row `i` on.
pub open spec fn row_of_folder(rows: Seq<RowModel>, group: Seq<char>, i: nat) -> Option<nat>
    decreases rows.len() - i,
{
    if i >= rows.len() {
        None
    } else if is_header_of(rows[i as int], group) {
        Some(i)
    } else {
        row_of_folder(rows, group, i + 1)
    }
}

/// Whether a row is the header of the folder `group`.
pub open spec fn is_header_of(row: RowModel, group: Seq<char>) -> bool {
    match row {
        RowModel::Folder { group: g, .. } => g == group,
        _ => false,
    }
}

/// The names of those of the first `n` targets that a bulk restart covers: the
/// ones that are started by themselves, and the others if they are running.
pub open spec fn restart_names(
    targets: Seq<TargetModel>,
    statuses: Map<Seq<char>, Status>,
    n: nat,
) -> Seq<Seq<char>>
    decreases n,
{
    if n == 0 || n > targets.len() {
        Seq::empty()
    } else {
        let before = restart_names(targets, statuses, (n - 1) as nat);
        if is_restarted(targets[n - 1], statuses) {
            before.push(targets[n - 1].name)
        } else {
            before
        }
    }
}

/// Whether a bulk restart covers a target.
pub open spec fn is_restarted(target: TargetModel, statuses: Map<Seq<char>, Status>) -> bool {
    target.autorun || (statuses.contains_key(target.name) && statuses[target.name]
        == Status::Running)
}

/// The log buffers with those of the first `n` names emptied.
pub open spec fn emptied(
    logs: Map<Seq<char>, LogModel>,
    names: Seq<Seq<char>>,
    n: nat,
) -> Map<Seq<char>, LogModel>
    decreases n,
{
    if n == 0 || n > names.len() {
        logs
    } else {
        without_lines(emptied(logs, names, (n - 1) as nat), names[n - 1])
    }
}

/// The log buffers with that of one target emptied, if it has one.
pub open spec fn without_lines(
    logs: Map<Seq<char>, LogModel>,
    name: Seq<char>,
) -> Map<Seq<char>, LogModel> {
    if logs.contains_key(name) {
        logs.insert(name, LogModel::fresh())
    } else {
        logs
    }
}

/// Whether all log buffers are sound.
#[verifier::opaque]
pub open spec fn logs_wf(logs: Map<Seq<char>, LogModel>) -> bool {
    forall|name: Seq<char>| #[trigger] logs.contains_key(name) ==> logs[name].wf()
}

/// Sound log buffers stay sound with one more.
pub proof fn lemma_logs_insert(logs: Map<Seq<char>, LogModel>, name: Seq<char>, log: LogModel)
    requires
        logs_wf(logs),
        log.wf(),
    ensures
        logs_wf(logs.insert(name, log)),
{
    reveal(logs_wf);
    let more = logs.insert(name, log);
    assert forall|n: Seq<char>| #[trigger] more.contains_key(n) implies more[n].wf() by {
        assert(n == name || logs.contains_key(n));
    }
}

/// Any one of sound log buffers is sound.
pub proof fn lemma_logs_get(logs: Map<Seq<char>, LogModel>, name: Seq<char>)
    requires
        logs_wf(logs),
        logs.contains_key(name),
    ensures
        logs[name].wf(),
{
    reveal(logs_wf);
}

/// What the manager and the clock answer while an event is dealt with.
pub struct Answers {
    pub statuses: Map<Seq<char>, Status>,
    pub targets: Seq<TargetModel>,
    pub collector: Outcome,
    pub clear: Outcome,
    pub description: Seq<char>,
    pub op: Seq<Outcome>,
    pub stamp: Seq<char>,
}

/// How the event loop goes on.
pub open spec fn continuation(action: Action) -> Continuation {
    match action {
        Action::KillAll => Continuation { continue_loop: false, stop_all: true },
        Action::Detach => Continuation { continue_loop: false, stop_all: false },
        _ => Continuation { continue_loop: true, stop_all: false },
    }
}

/// How the event loop goes on after an event.
pub open spec fn event_continuation(model: AppModel, event: EventModel) -> Continuation {
    match event {
        EventModel::Key(key) => continuation(model.action_of(key)),
        _ => Continuation { continue_loop: true, stop_all: false },
    }
}

impl AppModel {
    /// The application as it starts, with the first repaint due at once.
    pub open spec fn initial(
        targets: Seq<TargetModel>,
        run_dir: Seq<char>,
        project_root: Seq<char>,
        statuses: Map<Seq<char>, Status>,
    ) -> AppModel {
        AppModel {
            targets,
            run_dir,
            project_root,
            dump_dir: "."@,
            selected: 0,
            rows: computed_rows(targets, Map::empty()),
            row_names: shown_names(computed_rows(targets, Map::empty()), targets),
            folder_expanded: Map::empty(),
            logs: empty_logs(targets, targets.len()),
            statuses,
            status_msg: Seq::empty(),
            status_msg_until_tick: 0,
            quitting: false,
            stop_all: false,
            wrap_logs: false,
            zoom_logs: false,
            help_visible: false,
            describe: None,
            last_height: 24,
            unread_otel_errors: 0,
            otel_blink_on: false,
            otel_blinking: false,
            dirty: true,
            urgent: true,
            search_mode: false,
            search_query: Seq::empty(),
            search_matches: Seq::empty(),
            search_match_idx: 0,
            force_full_redraw: false,
            in_flight: Map::empty(),
            next_op_id: 0,
            attached: false,
            effects: Seq::empty(),
            asked: seq![Exchange::Statuses(statuses)],
        }
    }

    /// What every operation keeps: the log buffers are sound, the selection is one
    /// of the rows, and the current match is one of the matches.
    pub open spec fn wf(self) -> bool {
        &&& logs_wf(self.logs)
        &&& self.rows.len() == 0 || self.selected < self.rows.len()
        &&& self.search_match_idx == 0 || self.search_match_idx < self.search_matches.len()
    }

    /// Whether the sidebar shows the targets and folders as they now are.
    pub open spec fn rows_current(self) -> bool {
        &&& self.rows == computed_rows(self.targets, self.folder_expanded)
        &&& self.row_names == shown_names(self.rows, self.targets)
    }

    /// The target that the selected row shows.
    pub open spec fn selected_target(self) -> Option<TargetModel> {
        if self.selected < self.rows.len() {
            match self.rows[self.selected as int] {
                RowModel::Target { target_idx, .. } => if target_idx < self.targets.len() {
                    Some(self.targets[target_idx as int])
                } else {
                    None
                },
                _ => None,
            }
        } else {
            None
        }
    }

    /// The name of the target that the selected row shows.
    pub open spec fn selected_name(self) -> Option<Seq<char>> {
        match self.selected_target() {
            Some(target) => Some(target.name),
            None => None,
        }
    }

    /// The name of the target that the selected row showed when the rows were last
    /// laid out.
    pub open spec fn remembered_name(self) -> Option<Seq<char>> {
        if self.selected < self.rows.len() && self.selected < self.row_names.len() {
            self.row_names[self.selected as int]
        } else {
            None
        }
    }

    /// Whether the row of the collector's errors is selected.
    pub open spec fn otel_selected(self) -> bool {
        self.selected_name() == Some(OTEL_TARGET_NAME@)
    }

    /// The log buffer of a target; a fresh one where there is none yet.
    pub open spec fn log_of(self, name: Seq<char>) -> LogModel {
        if self.logs.contains_key(name) {
            self.logs[name]
        } else {
            LogModel::fresh()
        }
    }

    /// With one more exchange with the manager.
    pub open spec fn told(self, exchange: Exchange) -> AppModel {
        AppModel { asked: self.asked.push(exchange), ..self }
    }

    /// With a repaint due at once.
    pub open spec fn marked(self) -> AppModel {
        AppModel { dirty: true, urgent: true, ..self }
    }

    /// With `msg` in the header.
    pub open spec fn flashed(self, msg: Seq<char>) -> AppModel {
        AppModel { status_msg: msg, status_msg_until_tick: FLASH_TICKS, ..self }
    }

    /// With every cell of the screen to be repainted.
    pub open spec fn full_redraw_marked(self) -> AppModel {
        AppModel { force_full_redraw: true, dirty: true, urgent: true, ..self }
    }

    /// With no search going on.
    pub open spec fn search_reset(self) -> AppModel {
        AppModel {
            search_mode: false,
            search_query: Seq::empty(),
            search_matches: Seq::empty(),
            search_match_idx: 0,
            ..self
        }
    }

    /// The hits for the query among the lines of the selected target.
    pub open spec fn current_hits(self) -> Seq<usize> {
        match self.selected_name() {
            Some(name) => if self.search_query.len() > 0 && self.logs.contains_key(name) {
                hits(self.logs[name].lines, self.search_query, self.logs[name].lines.len())
            } else {
                Seq::empty()
            },
            None => Seq::empty(),
        }
    }

    /// With the matches looked up anew.
    pub open spec fn matches_updated(self) -> AppModel {
        AppModel { search_matches: self.current_hits(), search_match_idx: 0, ..self }
    }

    /// How many rows of log the window is taken to show.
    pub open spec fn visible_rows(self) -> nat {
        if self.last_height > 5 {
            (self.last_height - 4) as nat
        } else {
            1
        }
    }

    /// With the log view moved to the current match.
    pub open spec fn jumped(self) -> AppModel {
        match self.selected_name() {
            Some(name) => if self.search_match_idx < self.search_matches.len()
                && self.logs.contains_key(name) {
                let line = self.search_matches[self.search_match_idx as int] as nat;
                AppModel {
                    logs: self.logs.insert(
                        name,
                        self.logs[name].centered(line, self.visible_rows()),
                    ),
                    ..self
                }
            } else {
                self
            },
            None => self,
        }
    }

    /// With the next match as the current one, the first after the last.
    pub open spec fn next_match(self) -> AppModel {
        if self.search_matches.len() == 0 {
            self
        } else {
            AppModel {
                search_match_idx: (self.search_match_idx + 1) % self.search_matches.len(),
                ..self
            }.jumped()
        }
    }

    /// With the log view of the selected target moved by `delta` lines.
    pub open spec fn scrolled(self, delta: int) -> AppModel {
        match self.selected_name() {
            Some(name) => AppModel {
                logs: self.logs.insert(name, self.log_of(name).scrolled(delta)),
                ..self
            },
            None => self,
        }
    }

    /// The position that the selection takes among new rows: the target that it
    /// stood on, if that is shown; otherwise its old position, or the last row, or
    /// the first row that can be selected.
    pub open spec fn reselected(self, rows: Seq<RowModel>) -> nat {
        let by_name = match self.remembered_name() {
            Some(name) => row_of_target(rows, self.targets, name, 0),
            None => None,
        };
        match by_name {
            Some(i) => i,
            None => {
                let kept = if self.selected < rows.len() {
                    self.selected
                } else if rows.len() > 0 {
                    (rows.len() - 1) as nat
                } else {
                    0
                };
                if kept < rows.len() && !selectable(rows[kept as int]) {
                    match first_selectable(rows, 0) {
                        Some(i) => i,
                        None => kept,
                    }
                } else {
                    kept
                }
            },
        }
    }

    /// With the sidebar laid out anew.
    pub open spec fn rows_rebuilt(self) -> AppModel {
        let rows = computed_rows(self.targets, self.folder_expanded);
        AppModel {
            rows,
            row_names: shown_names(rows, self.targets),
            selected: self.reselected(rows),
            ..self
        }
    }

    /// With the errors counted as seen, if their row is selected.
    pub open spec fn otel_seen_if_selected(self) -> AppModel {
        if self.otel_selected() {
            AppModel { unread_otel_errors: 0, otel_blink_on: false, ..self }
        } else {
            self
        }
    }

    /// With the blink timer armed, where an event loop is attached.
    pub open spec fn blink_armed(self) -> AppModel {
        if self.attached {
            AppModel { effects: self.effects.push(EffectModel::ArmBlink), ..self }
        } else {
            self
        }
    }

    /// With an operation entered as running.
    pub open spec fn op_entered(self, op: OpModel) -> AppModel {
        AppModel {
            in_flight: self.in_flight.insert(self.next_op_id, op_label(op)),
            next_op_id: if self.next_op_id == u64::MAX {
                0
            } else {
                (self.next_op_id + 1) as u64
            },
            dirty: true,
            urgent: true,
            ..self
        }
    }

    /// With an operation no longer running, and its message in the header.
    pub open spec fn op_left(self, id: u64, summary: Seq<char>) -> AppModel {
        AppModel { in_flight: self.in_flight.remove(id), ..self }.flashed(summary)
    }

    /// With an operation handed to the event loop, or, where none is attached, run
    /// to its end with these outcomes.
    pub open spec fn op_spawned(self, op: OpModel, outcomes: Seq<Outcome>) -> AppModel {
        let id = self.next_op_id;
        let entered = self.op_entered(op);
        if self.attached {
            AppModel { effects: entered.effects.push(EffectModel::RunOp { id, op }), ..entered }
        } else {
            AppModel { asked: entered.asked + exchanges(op, outcomes), ..entered }.op_left(
                id,
                op_summary(op, outcomes),
            )
        }
    }

    /// With the log buffer of each target filled up by these lines.
    pub open spec fn backfilled(self, lines: Seq<Seq<Seq<char>>>, n: nat) -> AppModel
        decreases n,
    {
        if n == 0 || n > self.targets.len() {
            self
        } else {
            let before = self.backfilled(lines, (n - 1) as nat);
            let name = self.targets[n - 1].name;
            AppModel {
                logs: before.logs.insert(name, before.log_of(name).pushed_all(lines[n - 1])),
                ..before
            }.told(Exchange::Lines(name, lines[n - 1]))
        }
    }

    /// The selected row.
    pub open spec fn selected_row(self) -> Option<RowModel> {
        if self.selected < self.rows.len() {
            Some(self.rows[self.selected as int])
        } else {
            None
        }
    }

    /// With the selection moved by `delta` rows. A move ends the search.
    pub open spec fn moved(self, delta: int) -> AppModel {
        if self.rows.len() == 0 {
            self
        } else {
            let row = moved_row(self.rows, self.selected as int, delta) as nat;
            if row == self.selected {
                self
            } else {
                let base = if self.search_mode {
                    self.search_reset()
                } else {
                    self
                };
                AppModel { selected: row, ..base }.otel_seen_if_selected()
            }
        }
    }

    /// With a folder opened or closed.
    pub open spec fn folder_set(self, group: Seq<char>, open: bool) -> AppModel {
        AppModel {
            folder_expanded: self.folder_expanded.insert(group, open),
            ..self
        }.rows_rebuilt()
    }

    /// With the selected folder opened.
    pub open spec fn folder_expanded_here(self) -> AppModel {
        match self.selected_row() {
            Some(RowModel::Folder { group, .. }) => self.folder_set(group, true),
            _ => self,
        }
    }

    /// With the selected folder closed, or the folder of the selected target, whose
    /// header then is selected.
    pub open spec fn folder_collapsed_here(self) -> AppModel {
        match self.selected_row() {
            Some(RowModel::Folder { group, .. }) => self.folder_set(group, false),
            Some(RowModel::Target { group, .. }) => if group.len() > 0 {
                let closed = self.folder_set(group, false);
                match row_of_folder(closed.rows, group, 0) {
                    Some(i) => AppModel { selected: i, ..closed },
                    None => closed,
                }
            } else {
                self
            },
            _ => self,
        }
    }

    /// With the selected folder opened if it was closed, and closed if it was open.
    pub open spec fn folder_toggled_here(self) -> AppModel {
        match self.selected_row() {
            Some(RowModel::Folder { group, expanded, .. }) => self.folder_set(group, !expanded),
            _ => self,
        }
    }

    /// The operation that writes the log of the target `name` to a file at the time
    /// `stamp`.
    pub open spec fn dump_op(self, name: Seq<char>, stamp: Seq<char>) -> OpModel {
        OpModel::Dump { name, dest: dump_path(self.dump_dir, name, stamp) }
    }

    /// The operation that an action begins.
    pub open spec fn op_for(self, action: Action, stamp: Seq<char>) -> Option<OpModel> {
        match (action, self.selected_name()) {
            (Action::RestartAll, _) => Some(
                OpModel::RestartAll {
                    names: restart_names(self.targets, self.statuses, self.targets.len()),
                },
            ),
            (Action::Start, Some(name)) => Some(OpModel::Start { name }),
            (Action::Stop, Some(name)) => Some(OpModel::Stop { name }),
            (Action::Restart, Some(name)) => Some(OpModel::Restart { name }),
            (Action::DumpLog, Some(name)) => Some(self.dump_op(name, stamp)),
            _ => None,
        }
    }

    /// Whether these can be the answers while an action is carried out: there is an
    /// outcome for each request of the operation that it begins, and a time in the
    /// name of a dump.
    pub open spec fn can_answer(self, action: Action, answers: Answers) -> bool {
        match self.op_for(action, answers.stamp) {
            Some(op) => {
                &&& answers.op.len() == plan(op).len()
                &&& action is DumpLog ==> is_stamp(answers.stamp)
            },
            None => true,
        }
    }

    /// With the operation of an action begun, if it has one.
    pub open spec fn op_begun(self, action: Action, answers: Answers) -> AppModel {
        match self.op_for(action, answers.stamp) {
            Some(op) => self.op_spawned(op, answers.op),
            None => self,
        }
    }

    /// With the log buffers of the targets that a bulk restart covers emptied.
    pub open spec fn restarted_logs_emptied(self) -> AppModel {
        let names = restart_names(self.targets, self.statuses, self.targets.len());
        AppModel { logs: emptied(self.logs, names, names.len()), ..self }
    }

    /// With the log of the selected target cleared. No match is left then.
    pub open spec fn log_cleared(self, outcome: Outcome) -> AppModel {
        match self.selected_name() {
            Some(name) => AppModel {
                logs: without_lines(self.logs, name),
                search_matches: Seq::empty(),
                search_match_idx: 0,
                ..self
            }.told(Exchange::Request(Call::Clear(name), outcome)).flashed(
                report("cleared "@ + name + " logs"@, "clear "@ + name, outcome),
            ),
            None => self,
        }
    }

    /// With a description of a target shown; a message where it is empty.
    pub open spec fn description_shown(self, name: Seq<char>, description: Seq<char>) -> AppModel {
        if description.len() == 0 {
            self.flashed("no description for "@ + name)
        } else {
            AppModel { describe: Some(description), ..self }
        }
    }

    /// With the description of the selected target shown; a message where it is
    /// empty.
    pub open spec fn described(self, description: Seq<char>) -> AppModel {
        match self.selected_name() {
            Some(name) => self.told(Exchange::Description(name, description)).description_shown(
                name,
                description,
            ),
            None => self,
        }
    }

    /// With the editor asked for on the run file of the selected target; a message
    /// where there is none.
    pub open spec fn edit_requested(self) -> AppModel {
        match self.selected_target() {
            Some(target) => if target.source_file.len() == 0 {
                self.flashed("no source file for this target"@)
            } else {
                AppModel {
                    effects: self.effects.push(
                        EffectModel::OpenEditor { source: target.source_file },
                    ),
                    ..self
                }
            },
            None => self,
        }
    }

    /// After the editor left: the screen is repainted, and a message says how it
    /// went.
    pub open spec fn edited(self, source: Seq<char>, outcome: Outcome) -> AppModel {
        self.full_redraw_marked().flashed(report("edited "@ + source, "editor"@, outcome))
    }

    /// With the query changed and the view moved to the first match.
    pub open spec fn query_set(self, query: Seq<char>) -> AppModel {
        AppModel { search_query: query, ..self }.matches_updated().jumped()
    }

    /// With the last character of the query gone.
    pub open spec fn query_erased(self) -> AppModel {
        self.query_set(
            if self.search_query.len() == 0 {
                self.search_query
            } else {
                self.search_query.drop_last()
            },
        )
    }

    /// With long log lines wrapped or not.
    pub open spec fn wrap_toggled(self) -> AppModel {
        AppModel { wrap_logs: !self.wrap_logs, ..self }.flashed(
            if self.wrap_logs {
                "wrap off"@
            } else {
                "wrap on"@
            },
        )
    }

    /// With the log filling the screen or not. The mouse is left to the terminal
    /// while it does.
    pub open spec fn zoom_toggled(self) -> AppModel {
        AppModel {
            zoom_logs: !self.zoom_logs,
            effects: self.effects.push(EffectModel::CaptureMouse(self.zoom_logs)),
            ..self
        }.flashed(
            if self.zoom_logs {
                "zoom off"@
            } else {
                "zoom on (mouse off, select-to-copy enabled)"@
            },
        )
    }

    /// After an action, with what was answered meanwhile.
    pub open spec fn after_action(self, action: Action, answers: Answers) -> AppModel {
        match action {
            Action::Ignore | Action::KillAll | Action::Detach => self,
            Action::OpenHelp => AppModel { help_visible: true, ..self },
            Action::CloseHelp => AppModel { help_visible: false, ..self },
            Action::CloseDescription => AppModel { describe: None, ..self },
            Action::OpenSearch => AppModel { search_mode: true, ..self.search_reset() },
            Action::EndSearch => self.search_reset(),
            Action::NextMatch => self.next_match(),
            Action::EraseFromQuery => self.query_erased(),
            Action::AddToQuery(c) => self.query_set(self.search_query.push(c)),
            Action::Move(delta) => self.moved(delta as int),
            Action::Scroll(delta) => self.scrolled(delta as int),
            Action::ExpandFolder => self.folder_expanded_here(),
            Action::CollapseFolder => self.folder_collapsed_here(),
            Action::ToggleFolder => self.folder_toggled_here(),
            Action::Start | Action::Stop | Action::Restart | Action::DumpLog => self.op_begun(
                action,
                answers,
            ),
            Action::RestartAll => self.restarted_logs_emptied().op_begun(action, answers),
            Action::ClearLog => self.log_cleared(answers.clear),
            Action::ToggleWrap => self.wrap_toggled(),
            Action::ToggleZoom => self.zoom_toggled(),
            Action::Describe => self.described(answers.description),
            Action::Edit => self.edit_requested(),
        }
    }

    /// What a key press asks for.
    pub open spec fn action_of(self, key: KeyEvent) -> Action {
        bound_action(self.help_visible, self.describe is Some, self.search_mode, key)
    }

    /// With one heartbeat less for the message in the header.
    pub open spec fn counted_down(self) -> AppModel {
        if self.status_msg_until_tick > 0 {
            AppModel {
                status_msg_until_tick: (self.status_msg_until_tick - 1) as u8,
                status_msg: if self.status_msg_until_tick == 1 {
                    Seq::empty()
                } else {
                    self.status_msg
                },
                ..self
            }.marked()
        } else {
            self
        }
    }

    /// After a heartbeat at which these statuses were read. A message runs out, and
    /// a repaint is due where anything changed.
    pub open spec fn ticked(self, statuses: Map<Seq<char>, Status>) -> AppModel {
        self.counted_down().statuses_read(statuses)
    }

    /// With these statuses, and a repaint due where they are new.
    pub open spec fn statuses_read(self, statuses: Map<Seq<char>, Status>) -> AppModel {
        if statuses == self.statuses {
            self
        } else {
            AppModel { statuses, ..self }.marked()
        }
    }

    /// After the manager read the state file again and then reported these statuses.
    pub open spec fn resynced(self, statuses: Map<Seq<char>, Status>) -> AppModel {
        self.told(Exchange::Request(Call::ReloadState, Ok(()))).told(
            Exchange::Statuses(statuses),
        ).statuses_read(statuses)
    }

    /// With the matches brought up to date after `line` came in at position `last`
    /// and pushed out the oldest line or not.
    pub open spec fn match_noted(self, line: Seq<char>, last: nat, pushed_out: bool) -> AppModel {
        let kept = if pushed_out {
            shifted(self.search_matches)
        } else {
            self.search_matches
        };
        AppModel {
            search_matches: if line_matches(line, self.search_query) {
                kept.push(last as usize)
            } else {
                kept
            },
            search_match_idx: if pushed_out && self.search_match_idx >= kept.len() {
                0
            } else {
                self.search_match_idx
            },
            ..self
        }
    }

    /// After a target wrote a line. It is kept; the screen only changes where the
    /// target is the selected one.
    pub open spec fn line_received(self, target: Seq<char>, line: Seq<char>) -> AppModel {
        let shown = self.selected_name() == Some(target);
        let log = self.log_of(target);
        let next = AppModel {
            logs: self.logs.insert(target, log.received(line)),
            dirty: self.dirty || shown,
            ..self
        };
        if shown && self.search_mode && self.search_query.len() > 0 {
            next.match_noted(
                line,
                (log.received(line).lines.len() - 1) as nat,
                log.dropped_by_push() > 0,
            )
        } else {
            next
        }
    }

    /// With other targets. A search ends where another one comes to be selected.
    pub open spec fn targets_taken(self, targets: Seq<TargetModel>) -> AppModel {
        let next = AppModel { targets, ..self }.rows_rebuilt();
        if self.search_mode && next.selected_name() != self.selected_name() {
            next.search_reset()
        } else {
            next
        }
    }

    /// After the run files were read again: the targets are those that the manager
    /// then has.
    pub open spec fn reloaded(self, targets: Seq<TargetModel>, collector: Outcome) -> AppModel {
        self.flashed(
            match collector {
                Ok(()) => "reloaded run files"@,
                Err(text) => "otel collector: "@ + text,
            },
        ).targets_taken(targets).marked()
    }

    /// After the collector reported an error. Errors that come in while their row
    /// is selected are seen already.
    pub open spec fn error_reported(self) -> AppModel {
        if self.otel_selected() {
            self
        } else {
            let counted = AppModel {
                unread_otel_errors: self.unread_otel_errors + 1,
                ..self
            }.marked();
            if self.otel_blinking {
                counted
            } else {
                AppModel { otel_blinking: true, otel_blink_on: true, ..counted }.blink_armed()
            }
        }
    }

    /// After the blink timer fired. It is armed again as long as there are unseen
    /// errors.
    pub open spec fn blinked(self) -> AppModel {
        let seen = AppModel { dirty: true, ..self };
        if self.unread_otel_errors > 0 && !self.otel_selected() {
            AppModel { otel_blink_on: !self.otel_blink_on, ..seen }.blink_armed()
        } else {
            AppModel { otel_blinking: false, otel_blink_on: false, ..seen }
        }
    }

    /// Whether these can be the answers while an event is dealt with.
    pub open spec fn can_answer_event(self, event: EventModel, answers: Answers) -> bool {
        match event {
            EventModel::Key(key) => self.can_answer(self.action_of(key), answers),
            _ => true,
        }
    }

    /// After an event, with what was answered meanwhile.
    pub open spec fn after_event(self, event: EventModel, answers: Answers) -> AppModel {
        match event {
            EventModel::Key(key) => self.marked().after_action(self.action_of(key), answers),
            EventModel::Resize(_, height) => AppModel { last_height: height, ..self }.marked(),
            EventModel::Tick => self.told(Exchange::Statuses(answers.statuses)).ticked(
                answers.statuses,
            ),
            EventModel::LogLine { target, line } => self.line_received(target, line),
            EventModel::FileChange(Some(targets)) => self.told(
                Exchange::Request(Call::UpdateTargets(targets), Ok(())),
            ).told(Exchange::Request(Call::EnsureOtelCollector, answers.collector)).told(
                Exchange::Targets(answers.targets),
            ).reloaded(answers.targets, answers.collector),
            EventModel::FileChange(None) => self,
            EventModel::StateFileChange => self.resynced(answers.statuses),
            EventModel::ScrollLog(delta) => AppModel { dirty: true, ..self.scrolled(delta) },
            EventModel::EditorDone => self.marked(),
            EventModel::OpDone { id, summary } => self.op_left(id, summary).marked(),
            EventModel::OtelError => self.error_reported(),
            EventModel::OtelBlink => self.blinked(),
        }
    }
}

} // verus!
