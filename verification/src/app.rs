//! The state of the application and the operations on it.

use std::collections::BTreeMap;
use std::sync::Arc;
use vstd::prelude::*;

use crate::event::{Effect, EffectModel};
use crate::handle::{Exchange, ManagerHandle, Outcome};
use crate::log_buffer::{LogBuffer, LogModel};
use crate::model::{
    empty_logs, first_selectable, hits, lemma_logs_get, lemma_logs_insert, logs_wf, row_of_target,
    shown_name, shown_names, shows_target, without_lines, AppModel, FLASH_TICKS, OTEL_TARGET_NAME,
};
use crate::names::NameMap;
use crate::ops::{label_of, op_ran, op_summary, plan, run_op, Op};
use crate::rows::{compute, is_selectable, Row};
use crate::session::Session;
use crate::spans::optional_text;
use crate::target::{RunTarget, Status};
use crate::text::{lemma_views_push, lowercase, same_text, str_contains, views};

verus! {

/// The application.
pub struct App<H: ManagerHandle> {
    pub targets: Vec<RunTarget>,
    pub manager: Session<H>,
    /// The directory of the run files.
    pub run_dir: String,
    pub project_root: String,
    /// The directory that log dumps are written to.
    pub dump_dir: String,
    /// The position of the selected row.
    pub selected: usize,
    pub rows: Vec<Row>,
    /// The name of the target that each row showed when the rows were laid out.
    pub row_names: Vec<Option<String>>,
    /// Which folders were opened or closed.
    pub folder_expanded: NameMap<bool>,
    pub logs: NameMap<LogBuffer>,
    pub statuses: NameMap<Status>,
    /// The message in the header, and for how many more ticks it stays.
    pub status_msg: String,
    pub status_msg_until_tick: u8,
    pub quitting: bool,
    pub stop_all: bool,
    pub wrap_logs: bool,
    pub zoom_logs: bool,
    pub help_visible: bool,
    pub describe: Option<String>,
    /// The height of the terminal.
    pub last_height: u16,
    /// How many errors the collector reported since its row was last selected.
    pub unread_otel_errors: usize,
    /// The phase of the blinking of that row.
    pub otel_blink_on: bool,
    /// Whether a blink timer is running.
    pub otel_blinking: bool,
    /// Whether anything that the user can see has changed since the last repaint.
    pub dirty: bool,
    /// Whether the repaint must not wait for the next frame.
    pub urgent: bool,
    pub search_mode: bool,
    pub search_query: String,
    /// The positions of the lines of the selected target that match the query.
    pub search_matches: Vec<usize>,
    /// The current match, by its position among the matches.
    pub search_match_idx: usize,
    /// Whether the next repaint must not build on what is on the screen.
    pub force_full_redraw: bool,
    /// The labels of the operations that are running, by their ids.
    pub in_flight: BTreeMap<u64, String>,
    pub next_op_id: u64,
    /// Whether an event loop carries out what is asked of it.
    pub attached: bool,
    /// What the event loop has still to do.
    pub effects: Vec<Effect>,
}

/// The labels of the running operations.
pub open spec fn labels(in_flight: Map<u64, String>) -> Map<u64, Seq<char>> {
    in_flight.map_values(|label: String| label@)
}

/// The names that rows show, as texts.
pub open spec fn name_texts(names: Seq<Option<String>>) -> Seq<Option<Seq<char>>> {
    Seq::new(names.len(), |i: int| optional_text(names[i]))
}

impl<H: ManagerHandle> View for App<H> {
    type V = AppModel;

    open spec fn view(&self) -> AppModel {
        AppModel {
            targets: views(self.targets@),
            run_dir: self.run_dir@,
            project_root: self.project_root@,
            dump_dir: self.dump_dir@,
            selected: self.selected as nat,
            rows: views(self.rows@),
            row_names: name_texts(self.row_names@),
            folder_expanded: self.folder_expanded@,
            logs: self.logs@,
            statuses: self.statuses@,
            status_msg: self.status_msg@,
            status_msg_until_tick: self.status_msg_until_tick,
            quitting: self.quitting,
            stop_all: self.stop_all,
            wrap_logs: self.wrap_logs,
            zoom_logs: self.zoom_logs,
            help_visible: self.help_visible,
            describe: optional_text(self.describe),
            last_height: self.last_height,
            unread_otel_errors: self.unread_otel_errors as nat,
            otel_blink_on: self.otel_blink_on,
            otel_blinking: self.otel_blinking,
            dirty: self.dirty,
            urgent: self.urgent,
            search_mode: self.search_mode,
            search_query: self.search_query@,
            search_matches: self.search_matches@,
            search_match_idx: self.search_match_idx as nat,
            force_full_redraw: self.force_full_redraw,
            in_flight: labels(self.in_flight@),
            next_op_id: self.next_op_id,
            attached: self.attached,
            effects: views(self.effects@),
            asked: self.manager@,
        }
    }
}

/// The lines of later targets do not count for earlier ones.
proof fn lemma_backfilled_prefix(
    model: AppModel,
    lines: Seq<Seq<Seq<char>>>,
    longer: Seq<Seq<Seq<char>>>,
    n: nat,
)
    requires
        n <= lines.len() <= longer.len(),
        forall|i: int| 0 <= i < lines.len() ==> longer[i] == #[trigger] lines[i],
    ensures
        model.backfilled(lines, n) == model.backfilled(longer, n),
    decreases n,
{
    if n > 0 && n <= model.targets.len() {
        lemma_backfilled_prefix(model, lines, longer, (n - 1) as nat);
        assert(longer[n - 1] == lines[n - 1]);
    }
}

fn find_selectable(rows: &Vec<Row>) -> (r: Option<usize>)
    ensures
        match r {
            Some(i) => i < rows@.len() && first_selectable(views(rows@), 0) == Some(i as nat),
            None => first_selectable(views(rows@), 0) is None,
        },
{
    let ghost models = views(rows@);
    let mut i: usize = 0;
    while i < rows.len()
        invariant
            i <= rows@.len(),
            models == views(rows@),
            first_selectable(models, i as nat) == first_selectable(models, 0),
        decreases rows@.len() - i,
    {
        assert(models[i as int] == rows@[i as int]@);
        if is_selectable(&rows[i]) {
            return Some(i);
        }
        i = i + 1;
    }
    None
}

/// The name of the target that each row shows.
fn name_rows(rows: &Vec<Row>, targets: &Vec<RunTarget>) -> (r: Vec<Option<String>>)
    ensures
        name_texts(r@) == shown_names(views(rows@), views(targets@)),
{
    let mut out: Vec<Option<String>> = Vec::new();
    let mut i: usize = 0;
    while i < rows.len()
        invariant
            i <= rows@.len(),
            out@.len() == i,
            forall|k: int|
                0 <= k < i ==> optional_text(#[trigger] out@[k]) == shown_name(
                    rows@[k]@,
                    views(targets@),
                ),
        decreases rows@.len() - i,
    {
        let name: Option<String> = match &rows[i] {
            Row::Target { target_idx, .. } => if *target_idx < targets.len() {
                assert(views(targets@)[*target_idx as int] == targets@[*target_idx as int]@);
                Some(targets[*target_idx].name.clone())
            } else {
                None
            },
            _ => None,
        };
        out.push(name);
        i = i + 1;
    }
    assert(name_texts(out@) =~= shown_names(views(rows@), views(targets@)));
    out
}

impl<H: ManagerHandle> App<H> {
    /// Sets up the application. The sidebar has its folders closed and its first
    /// row selected.
    pub fn new(
        targets: Vec<RunTarget>,
        manager: Arc<H>,
        run_dir: String,
        project_root: String,
    ) -> (r: Self)
        ensures
            exists|statuses: Map<Seq<char>, Status>|
                r@ == #[trigger] AppModel::initial(
                    views(targets@),
                    run_dir@,
                    project_root@,
                    statuses,
                ),
            r.manager.handle() == manager,
            r.manager.truthful(),
            r@.wf(),
    {
        let ghost models = views(targets@);
        let folder_expanded: NameMap<bool> = NameMap::new();
        let rows: Vec<Row> = compute(&targets, &folder_expanded);
        let row_names: Vec<Option<String>> = name_rows(&rows, &targets);
        let mut manager: Session<H> = Session::new(manager);
        let statuses: NameMap<Status> = manager.get_all_statuses();
        let mut logs: NameMap<LogBuffer> = NameMap::new();
        let mut i: usize = 0;
        while i < targets.len()
            invariant
                i <= targets@.len(),
                models == views(targets@),
                logs@ == empty_logs(models, i as nat),
                forall|name: Seq<char>| #[trigger]
                    logs@.contains_key(name) ==> logs@[name] == LogModel::fresh(),
            decreases targets@.len() - i,
        {
            assert(models[i as int] == targets@[i as int]@);
            logs.insert(targets[i].name.clone(), LogBuffer::default());
            i = i + 1;
        }
        let r: App<H> = App {
            targets,
            manager,
            run_dir,
            project_root,
            dump_dir: ".".to_owned(),
            selected: 0,
            rows,
            row_names,
            folder_expanded,
            logs,
            statuses,
            status_msg: String::new(),
            status_msg_until_tick: 0,
            quitting: false,
            stop_all: false,
            wrap_logs: false,
            zoom_logs: false,
            help_visible: false,
            describe: None,
            last_height: 24,
            unread_otel_errors: 0,
            otel_blink_on: false,
            otel_blinking: false,
            dirty: true,
            urgent: true,
            search_mode: false,
            search_query: String::new(),
            search_matches: Vec::new(),
            search_match_idx: 0,
            force_full_redraw: false,
            in_flight: BTreeMap::new(),
            next_op_id: 0,
            attached: false,
            effects: Vec::new(),
        };
        proof {
            assert(r@.in_flight =~= Map::<u64, Seq<char>>::empty());
            assert(r@.effects =~= Seq::<EffectModel>::empty());
            reveal(logs_wf);
            assert(LogModel::fresh().wf());
            assert(r@.asked =~= seq![Exchange::Statuses(statuses@)]);
            assert(r@ == AppModel::initial(models, run_dir@, project_root@, statuses@));
        }
        r
    }

    /// Tells the application that an event loop carries out what it asks for. From
    /// then on operations run in the background and the blink timer is armed.
    pub fn attach_event_sender(&mut self)
        ensures
            final(self)@ == (AppModel { attached: true, ..old(self)@ }),
            final(self).manager == old(self).manager,
    {
        self.attached = true;
    }

    /// Sets the directory that log dumps are written to.
    pub fn set_dump_dir(&mut self, dir: String)
        ensures
            final(self)@ == (AppModel { dump_dir: dir@, ..old(self)@ }),
            final(self).manager == old(self).manager,
    {
        self.dump_dir = dir;
    }

    /// Hands over what the event loop is asked to do, in order.
    pub fn take_effects(&mut self) -> (r: Vec<Effect>)
        ensures
            views(r@) == old(self)@.effects,
            final(self)@ == (AppModel { effects: Seq::empty(), ..old(self)@ }),
            final(self).manager == old(self).manager,
    {
        let mut out: Vec<Effect> = Vec::new();
        std::mem::swap(&mut out, &mut self.effects);
        assert(self@.effects =~= Seq::<EffectModel>::empty());
        out
    }

    /// Adds to what the event loop is asked to do.
    pub fn request(&mut self, effect: Effect)
        ensures
            final(self)@ == (AppModel {
                effects: old(self)@.effects.push(effect@),
                ..old(self)@
            }),
            final(self).manager == old(self).manager,
    {
        proof {
            lemma_views_push(self.effects@, effect);
        }
        self.effects.push(effect);
    }

    /// Enters an operation as running. Returns its id.
    fn enter_op(&mut self, op: &Op) -> (id: u64)
        ensures
            final(self)@ == old(self)@.op_entered(op@),
            id == old(self)@.next_op_id,
            final(self).manager == old(self).manager,
    {
        let id: u64 = self.next_op_id;
        let label: String = label_of(op);
        let ghost entered = self@.op_entered(op@);
        self.next_op_id = if id == u64::MAX {
            0
        } else {
            id + 1
        };
        self.in_flight.insert(id, label);
        self.dirty = true;
        self.urgent = true;
        assert(self@.in_flight =~= entered.in_flight);
        id
    }

    /// Begins an operation. With an event loop attached, it is handed over to run
    /// in the background; otherwise it is run at once.
    pub fn spawn_op(&mut self, op: Op)
        ensures
            exists|outcomes: Seq<Outcome>|
                outcomes.len() == plan(op@).len() && final(self)@ == #[trigger] old(
                    self,
                )@.op_spawned(op@, outcomes),
            final(self).manager.follows(old(self).manager),
    {
        let id: u64 = self.enter_op(&op);
        if self.attached {
            self.request(Effect::RunOp { id, op });
            let ghost none = Seq::new(plan(op@).len(), |i: int| Ok::<(), Seq<char>>(()));
            assert(self@ == old(self)@.op_spawned(op@, none));
        } else {
            let ghost entered = self@;
            let summary: String = run_op(&mut self.manager, &op);
            let ghost outcomes = choose|outcomes: Seq<Outcome>| #[trigger]
                op_ran(entered.asked, self@.asked, op@, outcomes) && summary@ == op_summary(
                    op@,
                    outcomes,
                );
            assert(op_ran(entered.asked, self@.asked, op@, outcomes));
            self.finish_op(id, summary.as_str());
            assert(self@ == old(self)@.op_spawned(op@, outcomes));
        }
    }

    /// Takes an operation off the list of those running and reports how it went.
    pub fn finish_op(&mut self, id: u64, summary: &str)
        ensures
            final(self)@ == old(self)@.op_left(id, summary@),
            final(self).manager == old(self).manager,
    {
        self.in_flight.remove(&id);
        assert(self@.in_flight =~= old(self)@.in_flight.remove(id));
        self.flash(summary);
    }

    /// Asks for every cell of the screen to be repainted.
    pub fn mark_full_redraw(&mut self)
        ensures
            final(self)@ == old(self)@.full_redraw_marked(),
            final(self).manager == old(self).manager,
    {
        self.force_full_redraw = true;
        self.dirty = true;
        self.urgent = true;
    }

    /// Whether every cell must be repainted; the question is then settled.
    pub fn take_full_redraw(&mut self) -> (r: bool)
        ensures
            r == old(self)@.force_full_redraw,
            final(self)@ == (AppModel { force_full_redraw: false, ..old(self)@ }),
            final(self).manager == old(self).manager,
    {
        let was: bool = self.force_full_redraw;
        self.force_full_redraw = false;
        was
    }

    /// Whether anything that the user can see has changed since the last
    /// [`App::clear_dirty`].
    pub fn is_dirty(&self) -> (r: bool)
        ensures
            r == self@.dirty,
    {
        self.dirty
    }

    /// Notes that the screen is up to date.
    pub fn clear_dirty(&mut self)
        ensures
            final(self)@ == (AppModel { dirty: false, ..old(self)@ }),
            final(self).manager == old(self).manager,
    {
        self.dirty = false;
    }

    /// Whether the repaint must not wait for the next frame; the question is then
    /// settled.
    pub fn take_urgent(&mut self) -> (r: bool)
        ensures
            r == old(self)@.urgent,
            final(self)@ == (AppModel { urgent: false, ..old(self)@ }),
            final(self).manager == old(self).manager,
    {
        let was: bool = self.urgent;
        self.urgent = false;
        was
    }

    /// Looks up the matches anew. The first of them becomes the current one.
    pub fn update_search_matches(&mut self)
        ensures
            final(self)@ == old(self)@.matches_updated(),
            final(self).manager == old(self).manager,
    {
        let found: Vec<usize> = self.find_matches();
        self.search_matches = found;
        self.search_match_idx = 0;
    }

    fn find_matches(&self) -> (r: Vec<usize>)
        ensures
            r@ == self@.current_hits(),
    {
        let mut found: Vec<usize> = Vec::new();
        if self.search_query.as_str().is_empty() {
            return found;
        }
        let name: String = match self.selected_target_name() {
            Some(name) => name,
            None => {
                return found;
            },
        };
        let buf: &LogBuffer = match self.logs.get(name.as_str()) {
            Some(buf) => buf,
            None => {
                return found;
            },
        };
        let query: String = self.search_query.as_str().to_lowercase();
        let mut i: usize = 0;
        while i < buf.lines.len()
            invariant
                i <= buf.lines@.len(),
                query@ == lowercase(self.search_query@),
                found@ == hits(views(buf.lines@), self.search_query@, i as nat),
            decreases buf.lines@.len() - i,
        {
            assert(views(buf.lines@)[i as int] == buf.lines@[i as int]@);
            if str_contains(buf.lines[i].as_str().to_lowercase().as_str(), query.as_str()) {
                found.push(i);
            }
            i = i + 1;
        }
        found
    }

    /// Makes the next match the current one, the first after the last, and moves
    /// the log view to it.
    pub fn next_search_match(&mut self)
        requires
            old(self)@.wf(),
        ensures
            final(self)@ == old(self)@.next_match(),
            final(self)@.wf(),
            final(self).manager == old(self).manager,
    {
        if self.search_matches.len() == 0 {
            return ;
        }
        self.search_match_idx = (self.search_match_idx + 1) % self.search_matches.len();
        self.jump_to_current_match();
    }

    /// The position of the line of the current match.
    pub(crate) fn current_match_line(&self) -> (r: Option<usize>)
        ensures
            match r {
                Some(line) => self@.search_match_idx < self@.search_matches.len() && line
                    == self@.search_matches[self@.search_match_idx as int],
                None => self@.search_match_idx >= self@.search_matches.len(),
            },
    {
        if self.search_match_idx < self.search_matches.len() {
            Some(self.search_matches[self.search_match_idx])
        } else {
            None
        }
    }

    /// Moves the log view of a target so that `line` stands about in the middle of
    /// a window of `rows` rows.
    fn center_log(&mut self, name: &str, line: usize, rows: usize)
        requires
            old(self)@.wf(),
        ensures
            final(self)@ == (AppModel {
                logs: if old(self)@.logs.contains_key(name@) {
                    old(self)@.logs.insert(
                        name@,
                        old(self)@.logs[name@].centered(line as nat, rows as nat),
                    )
                } else {
                    old(self)@.logs
                },
                ..old(self)@
            }),
            final(self)@.wf(),
            final(self).manager == old(self).manager,
    {
        let ghost logs = self@.logs;
        proof {
            if logs.contains_key(name@) {
                lemma_logs_get(logs, name@);
            }
        }
        match self.logs.get_mut(name) {
            Some(buf) => {
                buf.center_on(line, rows);
                proof {
                    lemma_logs_insert(logs, name@, buf@);
                }
            },
            None => {},
        }
    }

    /// Moves the log view so that the current match stands about in its middle.
    pub fn jump_to_current_match(&mut self)
        requires
            old(self)@.wf(),
        ensures
            final(self)@ == old(self)@.jumped(),
            final(self)@.wf(),
            final(self).manager == old(self).manager,
    {
        let height: usize = self.last_height as usize;
        let rows: usize = if height > 5 {
            height - 4
        } else {
            1
        };
        match (self.selected_target_name(), self.current_match_line()) {
            (Some(name), Some(line)) => self.center_log(name.as_str(), line, rows),
            _ => {},
        }
    }

    /// Fills the log buffers with the lines that the manager has kept.
    pub fn backfill_logs(&mut self)
        requires
            old(self)@.wf(),
        ensures
            exists|lines: Seq<Seq<Seq<char>>>|
                lines.len() == old(self)@.targets.len() && final(self)@ == #[trigger] old(
                    self,
                )@.backfilled(lines, old(self)@.targets.len()),
            final(self)@.wf(),
            final(self).manager.follows(old(self).manager),
    {
        let ghost before = self@;
        let ghost mut reported: Seq<Seq<Seq<char>>> = Seq::empty();
        let mut i: usize = 0;
        let n: usize = self.targets.len();
        assert(self@ == before.backfilled(reported, 0));
        while i < n
            invariant
                i <= n == before.targets.len(),
                self@.targets == before.targets,
                self.targets@.len() == n,
                self.manager.follows(old(self).manager),
                self@.wf(),
                reported.len() == i,
                self@ == before.backfilled(reported, i as nat),
            decreases n - i,
        {
            let ghost so_far = self@;
            let name: String = self.targets[i].name.clone();
            assert(before.targets[i as int] == self.targets@[i as int]@);
            let lines: Vec<String> = self.manager.get_log_lines(name.as_str());
            let ghost texts = views(lines@);
            self.ensure_log(name.as_str());
            self.push_lines(name.as_str(), lines);
            proof {
                let longer = reported.push(texts);
                lemma_backfilled_prefix(before, reported, longer, i as nat);
                reported = longer;
                assert(reported[i as int] == texts);
                assert(self@.logs =~= before.backfilled(reported, (i + 1) as nat).logs);
                assert(self@.asked =~= before.backfilled(reported, (i + 1) as nat).asked);
                assert(self@ == before.backfilled(reported, (i + 1) as nat));
            }
            i = i + 1;
        }
    }

    fn push_lines(&mut self, name: &str, lines: Vec<String>)
        requires
            old(self)@.wf(),
            old(self)@.logs.contains_key(name@),
        ensures
            final(self)@ == (AppModel {
                logs: old(self)@.logs.insert(
                    name@,
                    old(self)@.logs[name@].pushed_all(views(lines@)),
                ),
                ..old(self)@
            }),
            final(self)@.wf(),
            final(self).manager == old(self).manager,
    {
        let ghost logs = self@.logs;
        proof {
            lemma_logs_get(logs, name@);
        }
        match self.logs.get_mut(name) {
            Some(buf) => {
                let ghost all = views(lines@);
                let ghost start = buf@;
                let mut i: usize = 0;
                assert(all.take(0) =~= Seq::<Seq<char>>::empty());
                while i < lines.len()
                    invariant
                        i <= lines@.len(),
                        all == views(lines@),
                        buf@.wf(),
                        buf@ == start.pushed_all(all.take(i as int)),
                    decreases lines@.len() - i,
                {
                    assert(all[i as int] == lines@[i as int]@);
                    let dropped: usize = buf.push(lines[i].clone());
                    assert(all.take(i + 1).drop_last() =~= all.take(i as int));
                    assert(all.take(i + 1).last() == all[i as int]);
                    i = i + 1;
                }
                assert(all.take(i as int) =~= all);
                proof {
                    lemma_logs_insert(logs, name@, buf@);
                }
            },
            None => {},
        }
    }

    /// Lays out the sidebar anew. The selection stays on the same target if that is
    /// still shown.
    pub fn rebuild_rows(&mut self)
        ensures
            final(self)@ == old(self)@.rows_rebuilt(),
            old(self)@.wf() ==> final(self)@.wf(),
            final(self).manager == old(self).manager,
    {
        let rows: Vec<Row> = compute(&self.targets, &self.folder_expanded);
        let row_names: Vec<Option<String>> = name_rows(&rows, &self.targets);
        let selected: usize = self.reselect(&rows);
        self.rows = rows;
        self.row_names = row_names;
        self.selected = selected;
    }

    /// The name of the target that the selected row showed when the rows were last
    /// laid out.
    fn remembered_name(&self) -> (r: Option<String>)
        ensures
            optional_text(r) == self@.remembered_name(),
    {
        if self.selected < self.rows.len() && self.selected < self.row_names.len() {
            self.row_names[self.selected].clone()
        } else {
            None
        }
    }

    fn reselect(&self, rows: &Vec<Row>) -> (r: usize)
        ensures
            r == self@.reselected(views(rows@)),
            rows@.len() > 0 ==> r < rows@.len(),
    {
        let by_name: Option<usize> = match self.remembered_name() {
            Some(name) => self.find_target_row(rows, name.as_str()),
            None => None,
        };
        match by_name {
            Some(i) => i,
            None => {
                let kept: usize = if self.selected < rows.len() {
                    self.selected
                } else if rows.len() > 0 {
                    rows.len() - 1
                } else {
                    0
                };
                assert(kept < rows@.len() ==> views(rows@)[kept as int] == rows@[kept as int]@);
                if kept < rows.len() && !is_selectable(&rows[kept]) {
                    match find_selectable(rows) {
                        Some(i) => i,
                        None => kept,
                    }
                } else {
                    kept
                }
            },
        }
    }

    fn find_target_row(&self, rows: &Vec<Row>, name: &str) -> (r: Option<usize>)
        ensures
            match r {
                Some(i) => i < rows@.len() && row_of_target(
                    views(rows@),
                    self@.targets,
                    name@,
                    0,
                ) == Some(i as nat),
                None => row_of_target(views(rows@), self@.targets, name@, 0) is None,
            },
    {
        let ghost models = views(rows@);
        let mut i: usize = 0;
        while i < rows.len()
            invariant
                i <= rows@.len(),
                models == views(rows@),
                row_of_target(models, self@.targets, name@, i as nat) == row_of_target(
                    models,
                    self@.targets,
                    name@,
                    0,
                ),
            decreases rows@.len() - i,
        {
            assert(models[i as int] == rows@[i as int]@);
            if self.row_shows(&rows[i], name) {
                return Some(i);
            }
            i = i + 1;
        }
        None
    }

    fn row_shows(&self, row: &Row, name: &str) -> (r: bool)
        ensures
            r == shows_target(row@, self@.targets, name@),
    {
        match row {
            Row::Target { target_idx, .. } => {
                if *target_idx < self.targets.len() {
                    assert(self@.targets[*target_idx as int] == self.targets@[*target_idx as int]@);
                    same_text(self.targets[*target_idx].name.as_str(), name)
                } else {
                    false
                }
            },
            _ => false,
        }
    }

    /// Counts the errors as seen if their row is selected. The blink timer is left
    /// to run out.
    pub fn mark_otel_seen_if_selected(&mut self)
        ensures
            final(self)@ == old(self)@.otel_seen_if_selected(),
            final(self).manager == old(self).manager,
    {
        if self.is_otel_selected() {
            self.unread_otel_errors = 0;
            self.otel_blink_on = false;
        }
    }

    /// Arms the blink timer, where an event loop is attached.
    pub fn arm_otel_blink(&mut self)
        ensures
            final(self)@ == old(self)@.blink_armed(),
            final(self).manager == old(self).manager,
    {
        if self.attached {
            self.request(Effect::ArmBlink);
        }
    }

    /// The target that the selected row shows.
    pub fn selected_target(&self) -> (r: Option<&RunTarget>)
        ensures
            match r {
                Some(target) => self@.selected_target() == Some(target@),
                None => self@.selected_target() is None,
            },
    {
        if self.selected < self.rows.len() {
            assert(self@.rows[self.selected as int] == self.rows@[self.selected as int]@);
            match &self.rows[self.selected] {
                Row::Target { target_idx, .. } => {
                    if *target_idx < self.targets.len() {
                        let target: &RunTarget = &self.targets[*target_idx];
                        assert(self@.targets[*target_idx as int] == target@);
                        Some(target)
                    } else {
                        None
                    }
                },
                _ => None,
            }
        } else {
            None
        }
    }

    /// The name of the target that the selected row shows.
    pub fn selected_target_name(&self) -> (r: Option<String>)
        ensures
            optional_text(r) == self@.selected_name(),
    {
        match self.selected_target() {
            Some(target) => Some(target.name.clone()),
            None => None,
        }
    }

    /// Whether the row of the collector's errors is selected.
    pub fn is_otel_selected(&self) -> (r: bool)
        ensures
            r == self@.otel_selected(),
    {
        match self.selected_target() {
            Some(target) => same_text(target.name.as_str(), OTEL_TARGET_NAME),
            None => false,
        }
    }

    /// Shows a message in the header for the next two ticks.
    pub fn flash(&mut self, msg: &str)
        ensures
            final(self)@ == old(self)@.flashed(msg@),
            final(self).manager == old(self).manager,
    {
        self.status_msg = msg.to_owned();
        self.status_msg_until_tick = FLASH_TICKS;
    }

    /// Ends the search.
    pub fn reset_search(&mut self)
        ensures
            final(self)@ == old(self)@.search_reset(),
            final(self).manager == old(self).manager,
    {
        self.search_mode = false;
        self.search_query.clear();
        self.search_matches.clear();
        self.search_match_idx = 0;
    }

    /// Moves the log view of the selected target by `delta` lines, towards older
    /// lines where `delta` is negative.
    pub fn scroll_log(&mut self, delta: i32)
        requires
            old(self)@.wf(),
        ensures
            final(self)@ == old(self)@.scrolled(delta as int),
            final(self)@.wf(),
            final(self).manager == old(self).manager,
    {
        let name: String = match self.selected_target_name() {
            Some(name) => name,
            None => {
                return ;
            },
        };
        self.ensure_log(name.as_str());
        let ghost logs = self@.logs;
        proof {
            lemma_logs_get(logs, name@);
        }
        match self.logs.get_mut(name.as_str()) {
            Some(buf) => {
                buf.scroll_by(delta);
                proof {
                    lemma_logs_insert(logs, name@, buf@);
                }
            },
            None => {},
        }
        assert(self@.logs =~= old(self)@.scrolled(delta as int).logs);
    }

    /// Empties the log buffer of a target, if there is one.
    pub(crate) fn empty_log(&mut self, name: &str)
        requires
            old(self)@.wf(),
        ensures
            final(self)@ == (AppModel {
                logs: without_lines(old(self)@.logs, name@),
                ..old(self)@
            }),
            final(self)@.wf(),
            final(self).manager == old(self).manager,
    {
        proof {
            lemma_logs_insert(self@.logs, name@, LogModel::fresh());
        }
        if self.logs.get(name).is_some() {
            self.logs.insert(name.to_owned(), LogBuffer::default());
        }
    }

    /// Gives a target a log buffer if it has none.
    pub(crate) fn ensure_log(&mut self, name: &str)
        requires
            old(self)@.wf(),
        ensures
            final(self)@ == (AppModel {
                logs: old(self)@.logs.insert(name@, old(self)@.log_of(name@)),
                ..old(self)@
            }),
            final(self)@.wf(),
            final(self).manager == old(self).manager,
    {
        if self.logs.get(name).is_none() {
            self.logs.insert(name.to_owned(), LogBuffer::default());
        }
        proof {
            if old(self)@.logs.contains_key(name@) {
                lemma_logs_get(old(self)@.logs, name@);
            }
            lemma_logs_insert(old(self)@.logs, name@, old(self)@.log_of(name@));
            assert(self@.logs =~= old(self)@.logs.insert(name@, old(self)@.log_of(name@)));
        }
    }
}

/// How the event loop goes on after an event.
#[derive(Clone, Copy, Debug, PartialEq, Eq, Structural)]
pub struct Continuation {
    pub continue_loop: bool,
    /// Whether all targets are to be stopped on the way out.
    pub stop_all: bool,
}

impl Continuation {
    /// Go on.
    pub fn cont() -> (r: Self)
        ensures
            r == (Continuation { continue_loop: true, stop_all: false }),
    {
        Continuation { continue_loop: true, stop_all: false }
    }

    /// Leave, with all targets running on.
    pub fn detach() -> (r: Self)
        ensures
            r == (Continuation { continue_loop: false, stop_all: false }),
    {
        Continuation { continue_loop: false, stop_all: false }
    }

    /// Leave, and stop all targets.
    pub fn kill_all() -> (r: Self)
        ensures
            r == (Continuation { continue_loop: false, stop_all: true }),
    {
        Continuation { continue_loop: false, stop_all: true }
    }
}

} // verus!
