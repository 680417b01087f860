//! What the models hold of the values that they stand for.

use vstd::prelude::*;

use crate::app::App;
use crate::editor::Command;
use crate::event::{AppEvent, Effect, EffectModel, EventModel};
use crate::handle::ManagerHandle;
use crate::log_buffer::LogBuffer;
use crate::ops::{Op, OpModel};
use crate::rows::{Row, RowModel};
use crate::screen::{Draw, DrawModel, Panes};
use crate::spans::{Line, Paint, PaintModel, Piece, PieceModel, TextStyle};
use crate::target::RunTarget;

verus! {

/// The model of a target holds its fields.
pub proof fn law_target_model(target: RunTarget)
    ensures
        target@.name == target.name@,
        target@.group == target.group@,
        target@.command == target.command@,
        target@.source_file == target.source_file@,
        target@.autorun == target.autorun,
        target@.is_virtual == target.is_virtual,
{
}

/// The model of a row holds its fields.
pub proof fn law_row_model(row: Row)
    ensures
        match row {
            Row::Folder { group, expanded, count } => row@ == (RowModel::Folder {
                group: group@,
                expanded,
                count: count as nat,
            }),
            Row::Target { target_idx, group } => row@ == (RowModel::Target {
                target_idx: target_idx as nat,
                group: group@,
            }),
            Row::Separator { label } => row@ == (RowModel::Separator { label: label@ }),
        },
{
}

/// The model of a log buffer holds its lines, from the oldest to the newest, and where
/// its view stands.
pub proof fn law_log_model(buf: LogBuffer)
    ensures
        buf@.lines.len() == buf.lines@.len(),
        buf@.parsed.len() == buf.parsed@.len(),
        forall|i: int| 0 <= i < buf.lines@.len() ==> #[trigger] buf@.lines[i] == buf.lines@[i]@,
        forall|i: int|
            0 <= i < buf.parsed@.len() ==> #[trigger] buf@.parsed[i] == buf.parsed@[i]@,
        buf@.scroll == buf.scroll,
        buf@.at_bottom == buf.at_bottom,
{
}

/// The model of an event holds what the event carries, but for how the editor went.
pub proof fn law_event_model(event: AppEvent)
    ensures
        match event {
            AppEvent::Key(key) => event@ == EventModel::Key(key),
            AppEvent::Resize(width, height) => event@ == EventModel::Resize(width, height),
            AppEvent::Tick => event@ == EventModel::Tick,
            AppEvent::LogLine { target, line } => event@ == (EventModel::LogLine {
                target: target@,
                line: line@,
            }),
            AppEvent::FileChange(None) => event@ == EventModel::FileChange(None),
            AppEvent::FileChange(Some(targets)) => {
                &&& event@ is FileChange
                &&& event@->FileChange_0 is Some
                &&& event@->FileChange_0->Some_0.len() == targets@.len()
                &&& forall|i: int|
                    0 <= i < targets@.len() ==> #[trigger] event@->FileChange_0->Some_0[i]
                        == targets@[i]@
            },
            AppEvent::StateFileChange => event@ == EventModel::StateFileChange,
            AppEvent::ScrollLog(delta) => event@ == EventModel::ScrollLog(delta as int),
            AppEvent::EditorDone(_) => event@ == EventModel::EditorDone,
            AppEvent::OpDone { id, summary } => event@ == (EventModel::OpDone {
                id,
                summary: summary@,
            }),
            AppEvent::OtelError => event@ == EventModel::OtelError,
            AppEvent::OtelBlink => event@ == EventModel::OtelBlink,
        },
{
}

/// The model of an operation holds its targets.
pub proof fn law_op_model(op: Op)
    ensures
        match op {
            Op::Start { name } => op@ == (OpModel::Start { name: name@ }),
            Op::Stop { name } => op@ == (OpModel::Stop { name: name@ }),
            Op::Restart { name } => op@ == (OpModel::Restart { name: name@ }),
            Op::RestartAll { names } => {
                &&& op@ is RestartAll
                &&& op@->names.len() == names@.len()
                &&& forall|i: int| 0 <= i < names@.len() ==> #[trigger] op@->names[i] == names@[i]@
            },
            Op::Dump { name, dest } => op@ == (OpModel::Dump { name: name@, dest: dest@ }),
        },
{
}

/// The model of what the event loop is asked to do holds what it is asked for.
pub proof fn law_effect_model(effect: Effect)
    ensures
        match effect {
            Effect::RunOp { id, op } => effect@ == (EffectModel::RunOp { id, op: op@ }),
            Effect::ArmBlink => effect@ == EffectModel::ArmBlink,
            Effect::OpenEditor { source } => effect@ == (EffectModel::OpenEditor {
                source: source@,
            }),
            Effect::CaptureMouse(on) => effect@ == EffectModel::CaptureMouse(on),
        },
{
}

/// The model of a style holds its colours and modifiers.
pub proof fn law_style_model(style: TextStyle)
    ensures
        style@.fg is Some == style.fg is Some,
        style.fg matches Some(name) ==> style@.fg == Some(name@),
        style@.bg is Some == style.bg is Some,
        style.bg matches Some(name) ==> style@.bg == Some(name@),
        style@.underline is Some == style.underline is Some,
        style.underline matches Some(name) ==> style@.underline == Some(name@),
        style@.added == style.added,
        style@.removed == style.removed,
{
}

/// The model of a line holds its pieces, each with its text and its paint.
pub proof fn law_line_model(line: Line, k: int)
    requires
        0 <= k < line.pieces@.len(),
    ensures
        line@.len() == line.pieces@.len(),
        match line.pieces@[k] {
            Piece::Icon(status) => line@[k] == PieceModel::Icon(status),
            Piece::Text { text, paint } => {
                &&& line@[k] is Text
                &&& line@[k]->text == text@
                &&& match paint {
                    Paint::Raw => line@[k]->paint == PaintModel::Raw,
                    Paint::Tone(tone) => line@[k]->paint == PaintModel::Tone(tone),
                    Paint::Ansi(style) => line@[k]->paint == PaintModel::Ansi(style@),
                }
            },
        },
{
}

/// The model of a step of painting holds where and what is painted.
pub proof fn law_draw_model(step: Draw)
    ensures
        match step {
            Draw::Clear { area } => step@ == (DrawModel::Clear { area }),
            Draw::Border { area, title } => {
                &&& title is None ==> step@ == (DrawModel::Border { area, title: None })
                &&& title matches Some(text) ==> step@ == (DrawModel::Border {
                    area,
                    title: Some(text@),
                })
            },
            Draw::Text { area, lines, tone, wrap } => {
                &&& step@ is Text
                &&& step@->Text_area == area
                &&& step@->tone == tone
                &&& step@->wrap == wrap
                &&& step@->lines.len() == lines@.len()
                &&& forall|i: int|
                    0 <= i < lines@.len() ==> #[trigger] step@->lines[i] == lines@[i]@
            },
        },
{
}

/// The model of the panes holds their areas, and that of a command its words.
pub proof fn law_panes_model(panes: Panes, command: Command)
    ensures
        panes@.screen == panes.screen@,
        panes@.body == panes.body@,
        panes@.sidebar == panes.sidebar@,
        panes@.log == panes.log@,
        command@.program == command.program@,
        command@.args.len() == command.args@.len(),
        forall|i: int|
            0 <= i < command.args@.len() ==> #[trigger] command@.args[i] == command.args@[i]@,
{
}

/// The model of the application holds its fields, and what was asked of the manager.
pub proof fn law_app_model<H: ManagerHandle>(app: App<H>)
    ensures
        app@.targets.len() == app.targets@.len(),
        forall|i: int|
            0 <= i < app.targets@.len() ==> #[trigger] app@.targets[i] == app.targets@[i]@,
        app@.run_dir == app.run_dir@,
        app@.project_root == app.project_root@,
        app@.dump_dir == app.dump_dir@,
        app@.selected == app.selected,
        app@.rows.len() == app.rows@.len(),
        forall|i: int| 0 <= i < app.rows@.len() ==> #[trigger] app@.rows[i] == app.rows@[i]@,
        app@.folder_expanded == app.folder_expanded@,
        app@.logs == app.logs@,
        app@.statuses == app.statuses@,
        app@.status_msg == app.status_msg@,
        app@.status_msg_until_tick == app.status_msg_until_tick,
        app@.quitting == app.quitting,
        app@.stop_all == app.stop_all,
        app@.wrap_logs == app.wrap_logs,
        app@.zoom_logs == app.zoom_logs,
        app@.help_visible == app.help_visible,
        app@.describe is Some == app.describe is Some,
        app.describe matches Some(text) ==> app@.describe == Some(text@),
        app@.last_height == app.last_height,
        app@.unread_otel_errors == app.unread_otel_errors,
        app@.otel_blink_on == app.otel_blink_on,
        app@.otel_blinking == app.otel_blinking,
        app@.dirty == app.dirty,
        app@.urgent == app.urgent,
        app@.search_mode == app.search_mode,
        app@.search_query == app.search_query@,
        app@.search_matches == app.search_matches@,
        app@.search_match_idx == app.search_match_idx,
        app@.force_full_redraw == app.force_full_redraw,
        app@.in_flight.dom() =~= app.in_flight@.dom(),
        forall|id: u64| #[trigger]
            app.in_flight@.dom().contains(id) ==> app@.in_flight[id] == app.in_flight@[id]@,
        app@.next_op_id == app.next_op_id,
        app@.attached == app.attached,
        app@.effects.len() == app.effects@.len(),
        forall|i: int|
            0 <= i < app.effects@.len() ==> #[trigger] app@.effects[i] == app.effects@[i]@,
        app@.asked == app.manager@,
{
}

} // verus!
