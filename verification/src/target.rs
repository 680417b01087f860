//! Run targets and their process statuses.

use vstd::prelude::*;

verus! {

/// What the process manager reports of a target's process.
#[derive(Clone, Copy, Debug, PartialEq, Eq, Structural)]
pub enum Status {
    Running,
    Stopped,
    Failed,
    Unknown,
}

impl View for Status {
    type V = Status;

    open spec fn view(&self) -> Status {
        *self
    }
}

/// One entry of the run directory, or a virtual one that the manager added.
#[derive(Clone, Debug)]
pub struct RunTarget {
    pub name: String,
    /// The folder that the target is listed in; empty for a top-level target.
    pub group: String,
    pub command: String,
    /// The run file that defines the target; empty where there is none.
    pub source_file: String,
    /// Whether bulk operations start the target.
    pub autorun: bool,
    /// Set for entries that the manager added and no run file defines.
    pub is_virtual: bool,
}

/// What a [`RunTarget`] holds.
pub struct TargetModel {
    pub name: Seq<char>,
    pub group: Seq<char>,
    pub command: Seq<char>,
    pub source_file: Seq<char>,
    pub autorun: bool,
    pub is_virtual: bool,
}

impl View for RunTarget {
    type V = TargetModel;

    open spec fn view(&self) -> TargetModel {
        TargetModel {
            name: self.name@,
            group: self.group@,
            command: self.command@,
            source_file: self.source_file@,
            autorun: self.autorun,
            is_virtual: self.is_virtual,
        }
    }
}

impl Default for RunTarget {
    /// A nameless top-level target that bulk operations start.
    fn default() -> (r: Self)
        ensures
            r@ == (TargetModel {
                name: Seq::empty(),
                group: Seq::empty(),
                command: Seq::empty(),
                source_file: Seq::empty(),
                autorun: true,
                is_virtual: false,
            }),
    {
        RunTarget {
            name: String::new(),
            group: String::new(),
            command: String::new(),
            source_file: String::new(),
            autorun: true,
            is_virtual: false,
        }
    }
}

} // verus!
