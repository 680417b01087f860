//! What each event does.

use vstd::prelude::*;

use crate::app::{App, Continuation};
use crate::event::{AppEvent, EventModel, KeyEvent};
use crate::handle::{outcome, Exchange, ManagerHandle};
use crate::input::{handle_key, no_answers};
use crate::model::{
    continuation, event_continuation, lemma_logs_get, lemma_logs_insert, shifted, Answers, AppModel,
};
use crate::names::NameMap;
use crate::ops::concat;
use crate::spans::optional_text;
use crate::target::{RunTarget, Status};
use crate::text::{same_text, str_contains, views};

verus! {

/// Takes the first line out of the positions.
fn shift(positions: &Vec<usize>) -> (r: Vec<usize>)
    ensures
        r@ == shifted(positions@),
{
    let mut out: Vec<usize> = Vec::new();
    let mut i: usize = 0;
    assert(positions@.take(0) =~= Seq::<usize>::empty());
    while i < positions.len()
        invariant
            i <= positions@.len(),
            out@ == shifted(positions@.take(i as int)),
        decreases positions@.len() - i,
    {
        let position: usize = positions[i];
        assert(positions@.take(i + 1).drop_last() =~= positions@.take(i as int));
        assert(positions@.take(i + 1).last() == position);
        if position >= 1 {
            out.push(position - 1);
        }
        i = i + 1;
    }
    assert(positions@.take(i as int) =~= positions@);
    out
}

impl<H: ManagerHandle> App<H> {
    /// Asks for a repaint at once.
    fn mark(&mut self)
        ensures
            final(self)@ == old(self)@.marked(),
            final(self).manager == old(self).manager,
    {
        self.dirty = true;
        self.urgent = true;
    }

    /// Takes over the statuses, and asks for a repaint where they are new.
    fn read_statuses(&mut self, statuses: NameMap<Status>)
        ensures
            final(self)@ == old(self)@.statuses_read(statuses@),
            final(self).manager == old(self).manager,
    {
        if !statuses.same(&self.statuses) {
            self.statuses = statuses;
            self.mark();
        }
    }

    /// Lets the message in the header run out.
    fn count_down(&mut self)
        ensures
            final(self)@ == old(self)@.counted_down(),
            final(self).manager == old(self).manager,
    {
        if self.status_msg_until_tick > 0 {
            self.status_msg_until_tick = self.status_msg_until_tick - 1;
            if self.status_msg_until_tick == 0 {
                self.status_msg.clear();
            }
            self.mark();
        }
    }

    /// Reads the statuses, and lets the message in the header run out.
    fn tick(&mut self)
        ensures
            exists|statuses: Map<Seq<char>, Status>|
                final(self)@ == #[trigger] old(self)@.told(Exchange::Statuses(statuses)).ticked(
                    statuses,
                ),
            final(self).manager.follows(old(self).manager),
    {
        let statuses: NameMap<Status> = self.manager.get_all_statuses();
        let ghost read = statuses@;
        self.count_down();
        self.read_statuses(statuses);
        assert(self@ == old(self)@.told(Exchange::Statuses(read)).ticked(read));
    }

    /// The matches, and which of them is the current one, after `line` came in at
    /// position `last`.
    fn noted(&self, line: &str, last: usize, pushed_out: bool) -> (r: (Vec<usize>, usize))
        ensures
            r.0@ == self@.match_noted(line@, last as nat, pushed_out).search_matches,
            r.1 == self@.match_noted(line@, last as nat, pushed_out).search_match_idx,
    {
        let mut kept: Vec<usize> = if pushed_out {
            shift(&self.search_matches)
        } else {
            self.search_matches.clone()
        };
        let idx: usize = if pushed_out && self.search_match_idx >= kept.len() {
            0
        } else {
            self.search_match_idx
        };
        let query: String = self.search_query.as_str().to_lowercase();
        if str_contains(line.to_lowercase().as_str(), query.as_str()) {
            kept.push(last);
        }
        (kept, idx)
    }

    /// Brings the matches up to date after `line` came in at position `last`.
    fn note_match(&mut self, line: &str, last: usize, pushed_out: bool)
        requires
            old(self)@.wf(),
        ensures
            final(self)@ == old(self)@.match_noted(line@, last as nat, pushed_out),
            final(self)@.wf(),
            final(self).manager == old(self).manager,
    {
        let (matches, idx): (Vec<usize>, usize) = self.noted(line, last, pushed_out);
        self.search_matches = matches;
        self.search_match_idx = idx;
    }

    /// Keeps a line that a target wrote. Returns its position, and whether it
    /// pushed out the oldest line.
    fn keep_line(&mut self, target: &str, line: String) -> (r: (usize, bool))
        requires
            old(self)@.wf(),
        ensures
            final(self)@ == (AppModel {
                logs: old(self)@.logs.insert(target@, old(self)@.log_of(target@).received(line@)),
                ..old(self)@
            }),
            final(self)@.wf(),
            final(self).manager == old(self).manager,
            r.0 == old(self)@.log_of(target@).received(line@).lines.len() - 1,
            r.1 == (old(self)@.log_of(target@).dropped_by_push() > 0),
    {
        self.ensure_log(target);
        let r: (usize, bool) = self.put_line(target, line);
        assert(self@.logs =~= old(self)@.logs.insert(
            target@,
            old(self)@.log_of(target@).received(line@),
        ));
        r
    }

    /// Adds a line to the log buffer of a target.
    fn put_line(&mut self, target: &str, line: String) -> (r: (usize, bool))
        requires
            old(self)@.wf(),
            old(self)@.logs.contains_key(target@),
        ensures
            final(self)@ == (AppModel {
                logs: old(self)@.logs.insert(target@, old(self)@.logs[target@].received(line@)),
                ..old(self)@
            }),
            final(self)@.wf(),
            final(self).manager == old(self).manager,
            r.0 == old(self)@.logs[target@].received(line@).lines.len() - 1,
            r.1 == (old(self)@.logs[target@].dropped_by_push() > 0),
    {
        let mut last: usize = 0;
        let mut pushed_out: bool = false;
        let ghost logs = self@.logs;
        proof {
            lemma_logs_get(logs, target@);
        }
        match self.logs.get_mut(target) {
            Some(buf) => {
                let dropped: usize = buf.receive(line);
                pushed_out = dropped > 0;
                last = buf.lines.len() - 1;
                proof {
                    lemma_logs_insert(logs, target@, buf@);
                }
            },
            None => {},
        }
        (last, pushed_out)
    }

    /// Takes in a line that a target wrote.
    fn receive_line(&mut self, target: String, line: String)
        requires
            old(self)@.wf(),
        ensures
            final(self)@ == old(self)@.line_received(target@, line@),
            final(self)@.wf(),
            final(self).manager == old(self).manager,
    {
        let shown: bool = match self.selected_target() {
            Some(t) => same_text(t.name.as_str(), target.as_str()),
            None => false,
        };
        if shown {
            self.dirty = true;
        }
        let text: String = line.clone();
        let (last, pushed_out): (usize, bool) = self.keep_line(target.as_str(), line);
        if shown && self.search_mode && !self.search_query.as_str().is_empty() {
            self.note_match(text.as_str(), last, pushed_out);
        }
    }

    /// Hands the targets of the run files to the manager and takes over those that
    /// it then has, virtual ones among them.
    fn reload(&mut self, targets: Vec<RunTarget>)
        requires
            old(self)@.wf(),
        ensures
            exists|a: Answers|
                final(self)@ == #[trigger] old(self)@.after_event(
                    EventModel::FileChange(Some(views(targets@))),
                    a,
                ),
            final(self)@.wf(),
            final(self).manager.follows(old(self).manager),
    {
        let ghost event = EventModel::FileChange(Some(views(targets@)));
        self.manager.update_targets(targets);
        let result: Result<(), String> = self.manager.ensure_otel_collector();
        let ghost collector = outcome(result);
        let known: Vec<RunTarget> = self.manager.get_targets();
        let ghost a = Answers { targets: views(known@), collector, ..no_answers() };
        self.adopt(known, result);
        assert(self@ == old(self)@.after_event(event, a));
    }

    /// Takes over the targets that the manager has after a reload.
    fn adopt(&mut self, targets: Vec<RunTarget>, collector: Result<(), String>)
        requires
            old(self)@.wf(),
        ensures
            final(self)@ == old(self)@.reloaded(views(targets@), outcome(collector)),
            final(self)@.wf(),
            final(self).manager == old(self).manager,
    {
        match collector {
            Ok(()) => self.flash("reloaded run files"),
            Err(text) => {
                let msg: String = concat("otel collector: ", text.as_str());
                self.flash(msg.as_str());
            },
        }
        self.take_targets(targets);
        self.mark();
    }

    /// Lays out the sidebar for other targets. A search ends where another one comes
    /// to be selected.
    fn take_targets(&mut self, targets: Vec<RunTarget>)
        requires
            old(self)@.wf(),
        ensures
            final(self)@ == old(self)@.targets_taken(views(targets@)),
            final(self)@.wf(),
            final(self).manager == old(self).manager,
    {
        let before: Option<String> = self.selected_target_name();
        self.targets = targets;
        self.rebuild_rows();
        if self.search_mode && !self.is_selected(&before) {
            self.reset_search();
        }
    }

    /// Whether the selected row shows the target of that name, or none where there
    /// is no name.
    fn is_selected(&self, name: &Option<String>) -> (r: bool)
        ensures
            r == (self@.selected_name() == optional_text(*name)),
    {
        match (self.selected_target(), name) {
            (Some(target), Some(name)) => same_text(target.name.as_str(), name.as_str()),
            (None, None) => true,
            _ => false,
        }
    }

    /// Counts an error of the collector as unseen, unless its row is selected, and
    /// sets that row blinking.
    fn report_error(&mut self)
        requires
            old(self)@.unread_otel_errors < usize::MAX || old(self)@.otel_selected(),
        ensures
            final(self)@ == old(self)@.error_reported(),
            old(self)@.wf() ==> final(self)@.wf(),
            final(self).manager == old(self).manager,
    {
        if !self.is_otel_selected() {
            self.unread_otel_errors = self.unread_otel_errors + 1;
            self.mark();
            if !self.otel_blinking {
                self.otel_blinking = true;
                self.otel_blink_on = true;
                self.arm_otel_blink();
            }
        }
    }

    /// Turns the phase of the blinking, or lets it end.
    fn blink(&mut self)
        ensures
            final(self)@ == old(self)@.blinked(),
            old(self)@.wf() ==> final(self)@.wf(),
            final(self).manager == old(self).manager,
    {
        let unseen: bool = self.unread_otel_errors > 0 && !self.is_otel_selected();
        self.otel_blink_on = unseen && !self.otel_blink_on;
        self.otel_blinking = unseen && self.otel_blinking;
        self.dirty = true;
        if unseen {
            self.arm_otel_blink();
        }
    }

    /// Takes over the statuses after another process rewrote the state file.
    fn resync(&mut self)
        ensures
            exists|statuses: Map<Seq<char>, Status>|
                final(self)@ == #[trigger] old(self)@.resynced(statuses),
            final(self).manager.follows(old(self).manager),
    {
        self.manager.reload_state_from_disk();
        let statuses: NameMap<Status> = self.manager.get_all_statuses();
        let ghost read = statuses@;
        self.read_statuses(statuses);
        assert(self@ == old(self)@.resynced(read));
    }

    /// Takes in the new height of the terminal.
    fn resize(&mut self, height: u16)
        ensures
            final(self)@ == (AppModel { last_height: height, ..old(self)@ }).marked(),
            final(self).manager == old(self).manager,
    {
        self.last_height = height;
        self.mark();
    }

    /// Moves the log view. The repaint can wait for the next frame.
    fn turn_wheel(&mut self, delta: i32)
        requires
            old(self)@.wf(),
        ensures
            final(self)@ == (AppModel { dirty: true, ..old(self)@.scrolled(delta as int) }),
            final(self)@.wf(),
            final(self).manager == old(self).manager,
    {
        self.scroll_log(delta);
        self.dirty = true;
    }

    /// Reports how a background operation went.
    fn report_op(&mut self, id: u64, summary: &str)
        ensures
            final(self)@ == old(self)@.op_left(id, summary@).marked(),
            final(self).manager == old(self).manager,
    {
        self.finish_op(id, summary);
        self.mark();
    }

    /// Deals with an event that asks nothing of the manager.
    fn handle_alone(&mut self, ev: AppEvent)
        requires
            old(self)@.wf(),
            ev@ is OtelError ==> old(self)@.unread_otel_errors < usize::MAX || old(
                self,
            )@.otel_selected(),
            !(ev@ is Key || ev@ is Tick || ev@ is StateFileChange || ev@ matches
                EventModel::FileChange(Some(_))),
        ensures
            final(self)@ == old(self)@.after_event(ev@, no_answers()),
            final(self)@.wf(),
            final(self).manager == old(self).manager,
    {
        match ev {
            AppEvent::Resize(_, height) => self.resize(height),
            AppEvent::LogLine { target, line } => self.receive_line(target, line),
            AppEvent::ScrollLog(delta) => self.turn_wheel(delta),
            AppEvent::EditorDone(_) => self.mark(),
            AppEvent::OpDone { id, summary } => self.report_op(id, summary.as_str()),
            AppEvent::OtelError => self.report_error(),
            AppEvent::OtelBlink => self.blink(),
            _ => {},
        }
    }

    /// Deals with a key.
    fn press(&mut self, k: KeyEvent) -> (r: Continuation)
        requires
            old(self)@.wf(),
        ensures
            exists|a: Answers|
                old(self)@.can_answer(old(self)@.action_of(k), a) && final(self)@
                    == #[trigger] old(self)@.after_event(EventModel::Key(k), a),
            r == continuation(old(self)@.action_of(k)),
            final(self)@.wf(),
            final(self).manager.follows(old(self).manager),
    {
        let ghost before = self@;
        self.mark();
        let r: Continuation = handle_key(self, k);
        proof {
            let action = before.action_of(k);
            let a = choose|a: Answers|
                before.marked().can_answer(action, a) && self@
                    == #[trigger] before.marked().after_action(action, a);
            assert(before.can_answer(action, a));
            assert(self@ == before.after_event(EventModel::Key(k), a));
        }
        r
    }

    /// Deals with a heartbeat.
    fn beat(&mut self)
        requires
            old(self)@.wf(),
        ensures
            exists|a: Answers|
                final(self)@ == #[trigger] old(self)@.after_event(EventModel::Tick, a),
            final(self)@.wf(),
            final(self).manager.follows(old(self).manager),
    {
        self.tick();
        proof {
            let statuses = choose|statuses: Map<Seq<char>, Status>|
                self@ == #[trigger] old(self)@.told(Exchange::Statuses(statuses)).ticked(statuses);
            let a = Answers { statuses, ..no_answers() };
            assert(self@ == old(self)@.after_event(EventModel::Tick, a));
        }
    }

    /// Deals with a change of the state files.
    fn look_again(&mut self)
        requires
            old(self)@.wf(),
        ensures
            exists|a: Answers|
                final(self)@ == #[trigger] old(self)@.after_event(EventModel::StateFileChange, a),
            final(self)@.wf(),
            final(self).manager.follows(old(self).manager),
    {
        self.resync();
        proof {
            let statuses = choose|statuses: Map<Seq<char>, Status>|
                self@ == #[trigger] old(self)@.resynced(statuses);
            let a = Answers { statuses, ..no_answers() };
            assert(self@ == old(self)@.after_event(EventModel::StateFileChange, a));
        }
    }

    /// Deals with an event.
    pub fn handle(&mut self, ev: AppEvent) -> (r: Continuation)
        requires
            old(self)@.wf(),
            ev@ is OtelError ==> old(self)@.unread_otel_errors < usize::MAX || old(
                self,
            )@.otel_selected(),
        ensures
            exists|a: Answers|
                old(self)@.can_answer_event(ev@, a) && final(self)@ == #[trigger] old(
                    self,
                )@.after_event(ev@, a),
            r == event_continuation(old(self)@, ev@),
            final(self)@.wf(),
            final(self).manager.follows(old(self).manager),
    {
        match ev {
            AppEvent::Key(k) => {
                return self.press(k);
            },
            AppEvent::Tick => self.beat(),
            AppEvent::StateFileChange => self.look_again(),
            AppEvent::FileChange(Some(targets)) => self.reload(targets),
            _ => self.handle_alone(ev),
        }
        Continuation::cont()
    }
}

} // verus!
