//! What the event loop hands to the application, and what it is asked to do.

use vstd::prelude::*;

use crate::ops::{Op, OpModel};
use crate::target::{RunTarget, TargetModel};
use crate::text::views;

verus! {

/// A key on the keyboard, as far as the application tells keys apart.
#[derive(Clone, Copy, Debug, PartialEq, Eq, Structural)]
pub enum KeyCode {
    Char(char),
    Enter,
    Esc,
    Backspace,
    Tab,
    Up,
    Down,
    Left,
    Right,
    PageUp,
    PageDown,
    /// Any other key.
    Other,
}

/// A key press.
#[derive(Clone, Copy, Debug, PartialEq, Eq, Structural)]
pub struct KeyEvent {
    pub code: KeyCode,
    /// Whether the control key was held.
    pub control: bool,
}

/// An event for the application.
#[derive(Debug)]
pub enum AppEvent {
    Key(KeyEvent),
    /// The terminal's new width and height.
    Resize(u16, u16),
    /// The one-second heartbeat.
    Tick,
    /// A new log line of a target.
    LogLine { target: String, line: String },
    /// The run directory changed. Carries the targets that its files now define,
    /// with environment variables expanded, or nothing if they cannot be loaded.
    FileChange(Option<Vec<RunTarget>>),
    /// The state file was rewritten by another process.
    StateFileChange,
    /// The mouse wheel was turned (positive: down, negative: up).
    ScrollLog(i32),
    /// The external editor exited.
    EditorDone(Result<(), String>),
    /// A background operation finished.
    OpDone { id: u64, summary: String },
    /// The collector reported an error.
    OtelError,
    /// The blink timer of the `otel-errors` row fired.
    OtelBlink,
}

/// What an [`AppEvent`] holds.
pub enum EventModel {
    Key(KeyEvent),
    Resize(u16, u16),
    Tick,
    LogLine { target: Seq<char>, line: Seq<char> },
    FileChange(Option<Seq<TargetModel>>),
    StateFileChange,
    ScrollLog(int),
    EditorDone,
    OpDone { id: u64, summary: Seq<char> },
    OtelError,
    OtelBlink,
}

impl View for AppEvent {
    type V = EventModel;

    open spec fn view(&self) -> EventModel {
        match *self {
            AppEvent::Key(key) => EventModel::Key(key),
            AppEvent::Resize(width, height) => EventModel::Resize(width, height),
            AppEvent::Tick => EventModel::Tick,
            AppEvent::LogLine { target, line } => EventModel::LogLine {
                target: target@,
                line: line@,
            },
            AppEvent::FileChange(Some(targets)) => EventModel::FileChange(Some(views(targets@))),
            AppEvent::FileChange(None) => EventModel::FileChange(None),
            AppEvent::StateFileChange => EventModel::StateFileChange,
            AppEvent::ScrollLog(delta) => EventModel::ScrollLog(delta as int),
            AppEvent::EditorDone(_) => EventModel::EditorDone,
            AppEvent::OpDone { id, summary } => EventModel::OpDone { id, summary: summary@ },
            AppEvent::OtelError => EventModel::OtelError,
            AppEvent::OtelBlink => EventModel::OtelBlink,
        }
    }
}

/// What the application asks the event loop to do.
#[derive(Debug)]
pub enum Effect {
    /// Run an operation in the background and report [`AppEvent::OpDone`] with
    /// this id.
    RunOp { id: u64, op: Op },
    /// Report [`AppEvent::OtelBlink`] after half a blink period.
    ArmBlink,
    /// Open a file in the user's editor and report how it went.
    OpenEditor { source: String },
    /// Turn the terminal's mouse reports on or off.
    CaptureMouse(bool),
}

/// What an [`Effect`] holds.
pub enum EffectModel {
    RunOp { id: u64, op: OpModel },
    ArmBlink,
    OpenEditor { source: Seq<char> },
    CaptureMouse(bool),
}

impl View for Effect {
    type V = EffectModel;

    open spec fn view(&self) -> EffectModel {
        match *self {
            Effect::RunOp { id, op } => EffectModel::RunOp { id, op: op@ },
            Effect::ArmBlink => EffectModel::ArmBlink,
            Effect::OpenEditor { source } => EffectModel::OpenEditor { source: source@ },
            Effect::CaptureMouse(on) => EffectModel::CaptureMouse(on),
        }
    }
}

} // verus!
