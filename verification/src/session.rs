//! The exchange with the process manager.

use std::sync::Arc;
use vstd::prelude::*;

use crate::handle::{outcome, Call, Exchange, ManagerHandle};
use crate::names::NameMap;
use crate::target::{RunTarget, Status};
use crate::text::views;

verus! {

/// The only way to the process manager. Its view is the list of all that was asked
/// of the manager through it, in order, with the answers.
pub struct Session<H: ManagerHandle> {
    manager: Arc<H>,
    asked: Ghost<Seq<Exchange>>,
}

impl<H: ManagerHandle> View for Session<H> {
    type V = Seq<Exchange>;

    closed spec fn view(&self) -> Seq<Exchange> {
        self.asked@
    }
}

impl<H: ManagerHandle> Session<H> {
    /// The manager.
    pub closed spec fn handle(self) -> Arc<H> {
        self.manager
    }

    /// Whether the manager gave the answers that are on the list.
    pub open spec fn truthful(self) -> bool {
        forall|i: int| 0 <= i < self@.len() ==> self.handle().replied(#[trigger] self@[i])
    }

    /// Whether this is the session `before` after more was asked.
    pub open spec fn follows(self, before: Self) -> bool {
        &&& self.handle() == before.handle()
        &&& before.truthful() ==> self.truthful()
    }

    /// A session in which nothing has been asked yet.
    pub fn new(manager: Arc<H>) -> (r: Self)
        ensures
            r@ == Seq::<Exchange>::empty(),
            r.handle() == manager,
            r.truthful(),
    {
        Session { manager, asked: Ghost(Seq::empty()) }
    }

    fn note(&mut self, exchange: Ghost<Exchange>)
        requires
            old(self).handle().replied(exchange@),
        ensures
            final(self)@ == old(self)@.push(exchange@),
            final(self).follows(*old(self)),
    {
        self.asked = Ghost(self.asked@.push(exchange@));
        proof {
            if old(self).truthful() {
                assert forall|i: int| 0 <= i < self@.len() implies self.handle().replied(
                    #[trigger] self@[i],
                ) by {
                    if i < old(self)@.len() {
                        assert(self@[i] == old(self)@[i]);
                    }
                }
            }
        }
    }

    /// Asks for the statuses of all processes.
    pub fn get_all_statuses(&mut self) -> (r: NameMap<Status>)
        ensures
            final(self)@ == old(self)@.push(Exchange::Statuses(r@)),
            final(self).follows(*old(self)),
    {
        let r: NameMap<Status> = self.manager.get_all_statuses();
        self.note(Ghost(Exchange::Statuses(r@)));
        r
    }

    /// Asks for the targets that the manager has.
    pub fn get_targets(&mut self) -> (r: Vec<RunTarget>)
        ensures
            final(self)@ == old(self)@.push(Exchange::Targets(views(r@))),
            final(self).follows(*old(self)),
    {
        let r: Vec<RunTarget> = self.manager.get_targets();
        self.note(Ghost(Exchange::Targets(views(r@))));
        r
    }

    /// Asks for the log lines that are kept of a target.
    pub fn get_log_lines(&mut self, name: &str) -> (r: Vec<String>)
        ensures
            final(self)@ == old(self)@.push(Exchange::Lines(name@, views(r@))),
            final(self).follows(*old(self)),
    {
        let r: Vec<String> = self.manager.get_log_lines(name);
        self.note(Ghost(Exchange::Lines(name@, views(r@))));
        r
    }

    /// Asks how a target would be launched.
    pub fn describe(&mut self, name: &str) -> (r: String)
        ensures
            final(self)@ == old(self)@.push(Exchange::Description(name@, r@)),
            final(self).follows(*old(self)),
    {
        let r: String = self.manager.describe(name);
        self.note(Ghost(Exchange::Description(name@, r@)));
        r
    }

    /// Has a target started.
    pub fn start(&mut self, name: &str) -> (r: Result<(), String>)
        ensures
            final(self)@ == old(self)@.push(Exchange::Request(Call::Start(name@), outcome(r))),
            final(self).follows(*old(self)),
    {
        let r: Result<(), String> = self.manager.start(name);
        self.note(Ghost(Exchange::Request(Call::Start(name@), outcome(r))));
        r
    }

    /// Has a target stopped.
    pub fn stop(&mut self, name: &str) -> (r: Result<(), String>)
        ensures
            final(self)@ == old(self)@.push(Exchange::Request(Call::Stop(name@), outcome(r))),
            final(self).follows(*old(self)),
    {
        let r: Result<(), String> = self.manager.stop(name);
        self.note(Ghost(Exchange::Request(Call::Stop(name@), outcome(r))));
        r
    }

    /// Has a target restarted.
    pub fn restart(&mut self, name: &str) -> (r: Result<(), String>)
        ensures
            final(self)@ == old(self)@.push(Exchange::Request(Call::Restart(name@), outcome(r))),
            final(self).follows(*old(self)),
    {
        let r: Result<(), String> = self.manager.restart(name);
        self.note(Ghost(Exchange::Request(Call::Restart(name@), outcome(r))));
        r
    }

    /// Has the log of a target written to a file.
    pub fn dump_log(&mut self, name: &str, dest: &str) -> (r: Result<(), String>)
        ensures
            final(self)@ == old(self)@.push(
                Exchange::Request(Call::Dump(name@, dest@), outcome(r)),
            ),
            final(self).follows(*old(self)),
    {
        let r: Result<(), String> = self.manager.dump_log(name, dest);
        self.note(Ghost(Exchange::Request(Call::Dump(name@, dest@), outcome(r))));
        r
    }

    /// Has the log of a target cleared.
    pub fn clear_log(&mut self, name: &str) -> (r: Result<(), String>)
        ensures
            final(self)@ == old(self)@.push(Exchange::Request(Call::Clear(name@), outcome(r))),
            final(self).follows(*old(self)),
    {
        let r: Result<(), String> = self.manager.clear_log(name);
        self.note(Ghost(Exchange::Request(Call::Clear(name@), outcome(r))));
        r
    }

    /// Has the collector started if a target asks for it.
    pub fn ensure_otel_collector(&mut self) -> (r: Result<(), String>)
        ensures
            final(self)@ == old(self)@.push(
                Exchange::Request(Call::EnsureOtelCollector, outcome(r)),
            ),
            final(self).follows(*old(self)),
    {
        let r: Result<(), String> = self.manager.ensure_otel_collector();
        self.note(Ghost(Exchange::Request(Call::EnsureOtelCollector, outcome(r))));
        r
    }

    /// Hands over the targets of the run files.
    pub fn update_targets(&mut self, targets: Vec<RunTarget>)
        ensures
            final(self)@ == old(self)@.push(
                Exchange::Request(Call::UpdateTargets(views(targets@)), Ok(())),
            ),
            final(self).follows(*old(self)),
    {
        self.manager.update_targets(targets);
        self.note(Ghost(Exchange::Request(Call::UpdateTargets(views(targets@)), Ok(()))));
    }

    /// Has the state file read again.
    pub fn reload_state_from_disk(&mut self)
        ensures
            final(self)@ == old(self)@.push(Exchange::Request(Call::ReloadState, Ok(()))),
            final(self).follows(*old(self)),
    {
        self.manager.reload_state_from_disk();
        self.note(Ghost(Exchange::Request(Call::ReloadState, Ok(()))));
    }
}

} // verus!
