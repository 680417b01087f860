//! The process manager, as the application sees it.

use vstd::prelude::*;

use crate::names::NameMap;
use crate::target::{RunTarget, Status, TargetModel};
use crate::text::views;

verus! {

/// A request to the manager that answers with success or an error text.
pub enum Call {
    Start(Seq<char>),
    Stop(Seq<char>),
    Restart(Seq<char>),
    Dump(Seq<char>, Seq<char>),
    Clear(Seq<char>),
    StopAll,
    UpdateTargets(Seq<TargetModel>),
    EnsureOtelCollector,
    ReloadState,
}

/// How a request went: success, or an error text.
pub type Outcome = Result<(), Seq<char>>;

/// The outcome that a result stands for.
pub open spec fn outcome(result: Result<(), String>) -> Outcome {
    match result {
        Ok(()) => Ok(()),
        Err(text) => Err(text@),
    }
}

/// A request to the manager, and what it answered.
pub enum Exchange {
    /// A request that answers with success or an error text. One without a result
    /// succeeds.
    Request(Call, Outcome),
    /// The statuses of all processes.
    Statuses(Map<Seq<char>, Status>),
    /// The targets that the manager has.
    Targets(Seq<TargetModel>),
    /// The log lines that are kept of a target.
    Lines(Seq<char>, Seq<Seq<char>>),
    /// How a target would be launched.
    Description(Seq<char>, Seq<char>),
}

/// The process manager. By its spec function an implementation can say which answers
/// its methods give; one that does not leaves every answer open.
pub trait ManagerHandle: Send + Sync + 'static {
    /// Whether the manager may have given this answer to this request.
    open spec fn replied(&self, exchange: Exchange) -> bool {
        true
    }

    fn get_all_statuses(&self) -> (r: NameMap<Status>)
        ensures
            self.replied(Exchange::Statuses(r@)),
    ;

    fn get_targets(&self) -> (r: Vec<RunTarget>)
        ensures
            self.replied(Exchange::Targets(views(r@))),
    ;

    fn get_log_lines(&self, name: &str) -> (r: Vec<String>)
        ensures
            self.replied(Exchange::Lines(name@, views(r@))),
    ;

    fn start(&self, name: &str) -> (r: Result<(), String>)
        ensures
            self.replied(Exchange::Request(Call::Start(name@), outcome(r))),
    ;

    fn stop(&self, name: &str) -> (r: Result<(), String>)
        ensures
            self.replied(Exchange::Request(Call::Stop(name@), outcome(r))),
    ;

    fn restart(&self, name: &str) -> (r: Result<(), String>)
        ensures
            self.replied(Exchange::Request(Call::Restart(name@), outcome(r))),
    ;

    fn dump_log(&self, name: &str, dest: &str) -> (r: Result<(), String>)
        ensures
            self.replied(Exchange::Request(Call::Dump(name@, dest@), outcome(r))),
    ;

    fn clear_log(&self, name: &str) -> (r: Result<(), String>)
        ensures
            self.replied(Exchange::Request(Call::Clear(name@), outcome(r))),
    ;

    fn stop_all(&self) -> (r: Result<(), String>)
        ensures
            self.replied(Exchange::Request(Call::StopAll, outcome(r))),
    ;

    fn update_targets(&self, targets: Vec<RunTarget>)
        ensures
            self.replied(Exchange::Request(Call::UpdateTargets(views(targets@)), Ok(()))),
    ;

    /// How the target would be launched, for people to read. Empty where the
    /// manager knows no details.
    fn describe(&self, name: &str) -> (r: String)
        ensures
            self.replied(Exchange::Description(name@, r@)),
    ;

    /// Starts the collector if a target asks for it, and registers its virtual
    /// target.
    fn ensure_otel_collector(&self) -> (r: Result<(), String>)
        ensures
            self.replied(Exchange::Request(Call::EnsureOtelCollector, outcome(r))),
    ;

    fn log_file_path(&self, name: &str) -> Option<String>;

    /// Where the state file stands on disk.
    fn state_file_path(&self) -> String;

    /// Reads the state file again and sees to it that each known process has a
    /// log tailer.
    fn reload_state_from_disk(&self)
        ensures
            self.replied(Exchange::Request(Call::ReloadState, Ok(()))),
    ;

    /// The socket on which the collector announces errors. Without one there is
    /// nothing to subscribe to.
    fn otel_notify_socket(&self) -> (r: Option<String>)
        default_ensures
            r is None,
    {
        None
    }
}

} // verus!
