//! What is on the screen.

use vstd::prelude::*;

use crate::area::{
    divided, inner_area, law_inside_lies_within, overlay_area, Area, Axis, Size,
};
use crate::highlight::highlighted;
use crate::model::{AppModel, OTEL_TARGET_NAME};
use crate::rows::RowModel;
use crate::spans::{
    optional_text, plain_line, raw_piece, toned_piece, Line, PieceModel, Tone,
};
use crate::target::{Status, TargetModel};
use crate::text::{decimal_text, joined, lines_from, padded, views};

verus! {

/// The width of the sidebar, its border included.
pub const SIDEBAR_WIDTH: u16 = 30;

/// A step of painting the screen.
#[derive(Debug)]
pub enum Draw {
    /// Blanks out an area.
    Clear { area: Area },
    /// Paints a border along the edge of an area, with a title in it or not.
    Border { area: Area, title: Option<String> },
    /// Writes lines into an area, in the style of a role or in none, with long
    /// lines wrapped or cut off.
    Text { area: Area, lines: Vec<Line>, tone: Option<Tone>, wrap: bool },
}

/// What a [`Draw`] holds.
pub enum DrawModel {
    Clear { area: Area },
    Border { area: Area, title: Option<Seq<char>> },
    Text { area: Area, lines: Seq<Seq<PieceModel>>, tone: Option<Tone>, wrap: bool },
}

impl View for Draw {
    type V = DrawModel;

    open spec fn view(&self) -> DrawModel {
        match *self {
            Draw::Clear { area } => DrawModel::Clear { area },
            Draw::Border { area, title } => DrawModel::Border { area, title: optional_text(title) },
            Draw::Text { area, lines, tone, wrap } => DrawModel::Text {
                area,
                lines: views(lines@),
                tone,
                wrap,
            },
        }
    }
}

/// The areas that the screen is divided into.
#[derive(Debug)]
pub struct Panes {
    /// Header, body and, where operations are running, footer.
    pub screen: Vec<Area>,
    /// Sidebar and log pane; nothing while the log fills the screen.
    pub body: Vec<Area>,
    /// The rows and the key hints; nothing while the log fills the screen.
    pub sidebar: Vec<Area>,
    /// The title, unless the log fills the screen, the log and, while a search
    /// goes on, the search bar.
    pub log: Vec<Area>,
}

/// What [`Panes`] hold.
pub struct PanesModel {
    pub screen: Seq<Area>,
    pub body: Seq<Area>,
    pub sidebar: Seq<Area>,
    pub log: Seq<Area>,
}

impl View for Panes {
    type V = PanesModel;

    open spec fn view(&self) -> PanesModel {
        PanesModel {
            screen: self.screen@,
            body: self.body@,
            sidebar: self.sidebar@,
            log: self.log@,
        }
    }
}

/// Whether operations are running.
pub open spec fn busy(model: AppModel) -> bool {
    !model.in_flight.is_empty()
}

/// The sizes of header, body and footer.
pub open spec fn screen_sizes(footer: bool) -> Seq<Size> {
    if footer {
        seq![Size::Length(1), Size::Min(0), Size::Length(1)]
    } else {
        seq![Size::Length(1), Size::Min(0)]
    }
}

/// The sizes of sidebar and log pane.
pub open spec fn body_sizes() -> Seq<Size> {
    seq![Size::Length(SIDEBAR_WIDTH), Size::Min(20)]
}

/// The sizes of the rows and the key hints.
pub open spec fn sidebar_sizes() -> Seq<Size> {
    seq![Size::Min(1), Size::Length(5)]
}

/// The sizes of title, log and search bar.
pub open spec fn log_sizes(zoom: bool, search: bool) -> Seq<Size> {
    match (zoom, search) {
        (false, false) => seq![Size::Length(1), Size::Min(1)],
        (false, true) => seq![Size::Length(1), Size::Min(1), Size::Length(1)],
        (true, false) => seq![Size::Min(1)],
        (true, true) => seq![Size::Min(1), Size::Length(1)],
    }
}

impl PanesModel {
    /// The area that title, log and search bar share.
    pub open spec fn log_room(self, zoom: bool) -> Area {
        if zoom {
            self.screen[1]
        } else {
            inner_area(self.body[1])
        }
    }

    /// The position of the log itself among the areas of its pane.
    pub open spec fn log_index(self, zoom: bool) -> int {
        if zoom {
            0
        } else {
            1
        }
    }

    /// The height of the log itself.
    pub open spec fn log_height(self, zoom: bool) -> nat {
        self.log[self.log_index(zoom)].height as nat
    }

    /// Whether there is an area for everything that is drawn.
    pub open spec fn fits(self, model: AppModel) -> bool {
        &&& self.screen.len() == screen_sizes(busy(model)).len()
        &&& self.screen[1].wf()
        &&& !model.zoom_logs ==> self.body.len() == 2 && self.sidebar.len() == 2
        &&& self.log.len() == log_sizes(model.zoom_logs, model.search_mode).len()
    }
}

/// Whether the screen may be divided into these areas.
pub open spec fn laid_out(model: AppModel, area: Area, panes: PanesModel) -> bool {
    &&& divided(area, Axis::Vertical, screen_sizes(busy(model)), panes.screen)
    &&& !model.zoom_logs ==> {
        &&& divided(panes.screen[1], Axis::Horizontal, body_sizes(), panes.body)
        &&& divided(inner_area(panes.body[0]), Axis::Vertical, sidebar_sizes(), panes.sidebar)
    }
    &&& divided(
        panes.log_room(model.zoom_logs),
        Axis::Vertical,
        log_sizes(model.zoom_logs, model.search_mode),
        panes.log,
    )
}

/// Whether each of the areas lies within the whole.
pub open spec fn all_within(areas: Seq<Area>, whole: Area) -> bool {
    forall|i: int| 0 <= i < areas.len() ==> (#[trigger] areas[i]).lies_in(whole)
}

proof fn lemma_parts_lie_within(area: Area, axis: Axis, sizes: Seq<Size>, parts: Seq<Area>)
    requires
        area.wf(),
        divided(area, axis, sizes, parts),
    ensures
        all_within(parts, area),
{
}

proof fn lemma_within_goes_on(areas: Seq<Area>, middle: Area, whole: Area)
    requires
        all_within(areas, middle),
        middle.lies_in(whole),
    ensures
        all_within(areas, whole),
{
}

/// Everything is laid out on the screen: no area reaches over its edge.
pub proof fn law_panes_lie_on_the_screen(model: AppModel, area: Area, panes: PanesModel)
    requires
        area.wf(),
        laid_out(model, area, panes),
    ensures
        all_within(panes.screen, area),
        !model.zoom_logs ==> all_within(panes.body, area) && all_within(panes.sidebar, area),
        all_within(panes.log, area),
{
    lemma_parts_lie_within(area, Axis::Vertical, screen_sizes(busy(model)), panes.screen);
    let main = panes.screen[1];
    assert(main.lies_in(area));
    if !model.zoom_logs {
        lemma_parts_lie_within(main, Axis::Horizontal, body_sizes(), panes.body);
        lemma_within_goes_on(panes.body, main, area);
        let left = panes.body[0];
        let right = panes.body[1];
        assert(left.lies_in(area) && right.lies_in(area));
        law_inside_lies_within(left);
        law_inside_lies_within(right);
        lemma_parts_lie_within(inner_area(left), Axis::Vertical, sidebar_sizes(), panes.sidebar);
        lemma_within_goes_on(panes.sidebar, inner_area(left), area);
    }
    let room = panes.log_room(model.zoom_logs);
    assert(room.lies_in(area));
    lemma_parts_lie_within(
        room,
        Axis::Vertical,
        log_sizes(model.zoom_logs, model.search_mode),
        panes.log,
    );
    lemma_within_goes_on(panes.log, room, area);
}

/// Whether `ids` lists the ids in increasing order, each of them once.
pub open spec fn lists_in_order(ids: Seq<u64>, all: Set<u64>) -> bool {
    &&& forall|i: int, j: int| 0 <= i < j < ids.len() ==> ids[i] < ids[j]
    &&& ids.to_set() == all
}

/// The ids in increasing order.
pub open spec fn in_order(all: Set<u64>) -> Seq<u64> {
    choose|ids: Seq<u64>| lists_in_order(ids, all)
}

proof fn lemma_order_is_unique_up_to(a: Seq<u64>, b: Seq<u64>, all: Set<u64>, n: int)
    requires
        lists_in_order(a, all),
        lists_in_order(b, all),
        0 <= n <= a.len(),
        n <= b.len(),
    ensures
        forall|i: int| 0 <= i < n ==> a[i] == b[i],
    decreases n,
{
    if n > 0 {
        lemma_order_is_unique_up_to(a, b, all, n - 1);
        let i = n - 1;
        assert(a.to_set().contains(a[i]));
        assert(b.to_set().contains(b[i]));
        let p = choose|p: int| 0 <= p < b.len() && b[p] == a[i];
        let q = choose|q: int| 0 <= q < a.len() && a[q] == b[i];
        assert(b.to_set().contains(a[i]));
        assert(a.to_set().contains(b[i]));
        assert(p < i ==> a[p] == b[p]);
        assert(q < i ==> a[q] == b[q]);
    }
}

/// There is only one way to list ids in increasing order.
pub proof fn lemma_order_is_unique(a: Seq<u64>, b: Seq<u64>, all: Set<u64>)
    requires
        lists_in_order(a, all),
        lists_in_order(b, all),
    ensures
        a == b,
{
    if a.len() < b.len() {
        lemma_order_is_unique_up_to(a, b, all, a.len() as int);
        assert(b.to_set().contains(b[a.len() as int]));
        assert(a.to_set().contains(b[a.len() as int]));
        let q = choose|q: int| 0 <= q < a.len() && a[q] == b[a.len() as int];
        assert(b[q] < b[a.len() as int]);
    } else if b.len() < a.len() {
        lemma_order_is_unique_up_to(a, b, all, b.len() as int);
        assert(a.to_set().contains(a[b.len() as int]));
        assert(b.to_set().contains(a[b.len() as int]));
        let p = choose|p: int| 0 <= p < b.len() && b[p] == a[b.len() as int];
        assert(a[p] < a[b.len() as int]);
    } else {
        lemma_order_is_unique_up_to(a, b, all, a.len() as int);
    }
    assert(a =~= b);
}

/// The labels of the running operations in the order of their ids.
pub open spec fn labels_in_order(in_flight: Map<u64, Seq<char>>) -> Seq<Seq<char>> {
    in_order(in_flight.dom()).map_values(|id: u64| in_flight[id])
}

/// The footer: what is being done.
pub open spec fn footer_text(model: AppModel) -> Seq<char> {
    " Working: "@ + joined(labels_in_order(model.in_flight), "  ·  "@) + " "@
}

/// The header: the selected target, and the current message or a hint.
pub open spec fn header_line(model: AppModel) -> Seq<PieceModel> {
    let title = match model.selected_target() {
        Some(target) => " tukituki — "@ + target.name + " "@,
        None => " tukituki "@,
    };
    let msg = if model.status_msg.len() == 0 {
        " ? help  q detach  Q stop all & exit "@
    } else {
        " "@ + model.status_msg + " "@
    };
    seq![toned_piece(title, Tone::Header), raw_piece(" "@), toned_piece(msg, Tone::HeaderHint)]
}

/// Whether the row of a target shows a count of unseen errors.
pub open spec fn has_badge(model: AppModel, target: TargetModel) -> bool {
    target.name == OTEL_TARGET_NAME@ && model.unread_otel_errors > 0
}

/// The name of a target as its row shows it, with the count of unseen errors.
pub open spec fn row_name(model: AppModel, target: TargetModel) -> Seq<char> {
    if has_badge(model, target) {
        target.name + " ("@ + decimal_text(model.unread_otel_errors) + ")"@
    } else {
        target.name
    }
}

/// The role in which the row of a target is shown.
pub open spec fn row_tone(model: AppModel, target: TargetModel, is_sel: bool) -> Tone {
    if is_sel {
        Tone::SelectedItem
    } else if has_badge(model, target) {
        if model.otel_blink_on {
            Tone::OtelAlert
        } else {
            Tone::OtelAlertOff
        }
    } else {
        Tone::Item
    }
}

/// What is known of the process of a target.
pub open spec fn status_of(model: AppModel, name: Seq<char>) -> Status {
    if model.statuses.contains_key(name) {
        model.statuses[name]
    } else {
        Status::Unknown
    }
}

/// A row of the sidebar as it is shown.
pub open spec fn row_line(model: AppModel, row: RowModel, is_sel: bool) -> Seq<PieceModel> {
    match row {
        RowModel::Folder { group, expanded, count } => {
            let arrow = if expanded {
                "▼"@
            } else {
                "▶"@
            };
            let tone = if is_sel {
                Tone::SelectedItem
            } else {
                Tone::FolderItem
            };
            let text = arrow + " "@ + group + " ("@ + decimal_text(count) + ")"@;
            seq![toned_piece(padded((SIDEBAR_WIDTH - 2) as nat, text), tone)]
        },
        RowModel::Target { target_idx, group } => if target_idx < model.targets.len() {
            let target = model.targets[target_idx as int];
            let indent = if group.len() == 0 {
                ""@
            } else {
                "  "@
            };
            let text = indent + row_name(model, target) + " "@;
            seq![
                raw_piece(" "@),
                PieceModel::Icon(status_of(model, target.name)),
                raw_piece(" "@),
                toned_piece(
                    padded((SIDEBAR_WIDTH - 4) as nat, text),
                    row_tone(model, target, is_sel),
                ),
            ]
        } else {
            plain_line(""@)
        },
        RowModel::Separator { label } => {
            let tone = if is_sel {
                Tone::SelectedItem
            } else {
                Tone::KeyHint
            };
            seq![toned_piece(padded((SIDEBAR_WIDTH - 2) as nat, "  "@ + label), tone)]
        },
    }
}

/// The rows of the sidebar as they are shown.
pub open spec fn row_lines(model: AppModel) -> Seq<Seq<PieceModel>> {
    Seq::new(
        model.rows.len(),
        |i: int| row_line(model, model.rows[i], i == model.selected),
    )
}

/// The key hints below the rows.
pub open spec fn hint_texts() -> Seq<Seq<char>> {
    seq![
        " r restart  s stop"@,
        " S start    d dump"@,
        " c clear    e edit"@,
        " q detach   Q exit"@,
        " ? help"@,
    ]
}

/// The texts as unstyled lines.
pub open spec fn plain_lines(texts: Seq<Seq<char>>) -> Seq<Seq<PieceModel>> {
    texts.map_values(|text: Seq<char>| plain_line(text))
}

/// The position of the line of the current match.
pub open spec fn current_line(model: AppModel) -> Option<nat> {
    if model.search_match_idx < model.search_matches.len() {
        Some(model.search_matches[model.search_match_idx as int] as nat)
    } else {
        None
    }
}

/// The styled lines from `from` up to `to` with the hits in them marked.
pub open spec fn marked_lines(
    lines: Seq<Seq<PieceModel>>,
    query: Seq<char>,
    current: Option<nat>,
    from: nat,
    to: nat,
) -> Seq<Seq<PieceModel>> {
    Seq::new(
        (to - from) as nat,
        |k: int| highlighted(lines[from + k], query, current == Some((from + k) as nat)),
    )
}

/// The log lines that a window of `rows` rows shows: a blank one where there is no
/// log. While a search goes on, the hits in them are marked.
pub open spec fn log_lines(model: AppModel, rows: nat) -> Seq<Seq<PieceModel>> {
    match model.selected_name() {
        None => seq![plain_line(""@)],
        Some(name) => if model.logs.contains_key(name) {
            let log = model.logs[name];
            if model.search_mode && model.search_query.len() > 0 {
                marked_lines(
                    log.parsed,
                    model.search_query,
                    current_line(model),
                    log.view_start(rows),
                    log.view_end(),
                )
            } else {
                log.parsed.subrange(log.view_start(rows) as int, log.view_end() as int)
            }
        } else {
            seq![plain_line(""@)]
        },
    }
}

/// The title of the log pane.
pub open spec fn log_title(model: AppModel) -> Seq<char> {
    match model.selected_target() {
        Some(target) => " "@ + target.name + " "@,
        None => " (no target selected) "@,
    }
}

/// Which match is the current one, and how many there are.
pub open spec fn match_count(model: AppModel) -> Seq<char> {
    if model.search_matches.len() == 0 {
        if model.search_query.len() == 0 {
            "0"@
        } else {
            "no matches"@
        }
    } else {
        decimal_text(model.search_match_idx + 1) + "/"@ + decimal_text(model.search_matches.len())
    }
}

/// The search bar.
pub open spec fn search_text(model: AppModel) -> Seq<char> {
    " /"@ + model.search_query + "  ["@ + match_count(model) + "]  (Enter=next, Esc=close) "@
}

/// The help.
pub open spec fn help_texts() -> Seq<Seq<char>> {
    seq![
        ""@,
        " Navigation:"@,
        "   ↑/↓ or j/k     move selection"@,
        "   Tab            cycle to next row"@,
        "   →/l            expand folder"@,
        "   ←/h            collapse folder"@,
        "   Enter / Space  toggle folder"@,
        ""@,
        " Process actions:"@,
        "   S              start selected"@,
        "   s              stop selected"@,
        "   r              restart selected"@,
        "   R              restart all (clears logs)"@,
        "   d              dump logs to file"@,
        "   c              clear logs"@,
        "   E              edit run file in $EDITOR"@,
        "   D              describe launch"@,
        ""@,
        " Log viewer:"@,
        "   PgUp / b       scroll up"@,
        "   PgDn / f       scroll down"@,
        "   w              toggle line wrap"@,
        "   z              zoom (full-width logs)"@,
        "   /              search logs (Enter cycles next, Esc closes)"@,
        ""@,
        " Exit:"@,
        "   q              detach (leave procs running)"@,
        "   Q / Ctrl+C     stop all + exit"@,
        ""@,
        " Press ? or Esc to dismiss."@,
    ]
}

/// A single line in an area.
pub open spec fn line_drawn(area: Area, line: Seq<PieceModel>, tone: Option<Tone>) -> DrawModel {
    DrawModel::Text { area, lines: seq![line], tone, wrap: false }
}

/// The sidebar.
pub open spec fn sidebar_drawn(model: AppModel, panes: PanesModel) -> Seq<DrawModel> {
    seq![
        DrawModel::Border { area: panes.body[0], title: None },
        DrawModel::Text {
            area: panes.sidebar[0],
            lines: row_lines(model),
            tone: Some(Tone::Item),
            wrap: false,
        },
        DrawModel::Text {
            area: panes.sidebar[1],
            lines: plain_lines(hint_texts()),
            tone: Some(Tone::KeyHint),
            wrap: false,
        },
    ]
}

/// The border and the title of the log pane, which are left out while the log
/// fills the screen.
pub open spec fn log_frame_drawn(model: AppModel, panes: PanesModel) -> Seq<DrawModel> {
    if model.zoom_logs {
        Seq::empty()
    } else {
        seq![
            DrawModel::Border { area: panes.body[1], title: None },
            line_drawn(panes.log[0], seq![toned_piece(log_title(model), Tone::PanelTitle)], None),
        ]
    }
}

/// The search bar, which is there while a search goes on.
pub open spec fn search_drawn(model: AppModel, panes: PanesModel) -> Seq<DrawModel> {
    if model.search_mode {
        seq![
            line_drawn(
                panes.log[panes.log_index(model.zoom_logs) + 1],
                seq![toned_piece(search_text(model), Tone::SearchBar)],
                None,
            ),
        ]
    } else {
        Seq::empty()
    }
}

/// The log pane with these log lines.
pub open spec fn log_drawn(
    model: AppModel,
    panes: PanesModel,
    lines: Seq<Seq<PieceModel>>,
) -> Seq<DrawModel> {
    log_frame_drawn(model, panes).push(
        DrawModel::Text {
            area: panes.log[panes.log_index(model.zoom_logs)],
            lines,
            tone: None,
            wrap: model.wrap_logs,
        },
    ) + search_drawn(model, panes)
}

/// A framed text over the middle of an area.
pub open spec fn overlay_drawn(
    area: Area,
    title: Seq<char>,
    lines: Seq<Seq<PieceModel>>,
) -> Seq<DrawModel> {
    let over = overlay_area(area);
    seq![
        DrawModel::Clear { area: over },
        DrawModel::Border { area: over, title: Some(" "@ + title + " "@) },
        DrawModel::Text {
            area: inner_area(over),
            lines,
            tone: Some(Tone::OverlayText),
            wrap: false,
        },
    ]
}

/// The header and what stands below it.
pub open spec fn base_drawn(
    model: AppModel,
    panes: PanesModel,
    lines: Seq<Seq<PieceModel>>,
) -> Seq<DrawModel> {
    let header = seq![line_drawn(panes.screen[0], header_line(model), Some(Tone::Header))];
    if model.zoom_logs {
        header + log_drawn(model, panes, lines)
    } else {
        header + sidebar_drawn(model, panes) + log_drawn(model, panes, lines)
    }
}

/// The footer, which is there while operations are running.
pub open spec fn footer_drawn(model: AppModel, panes: PanesModel) -> Seq<DrawModel> {
    if busy(model) {
        seq![
            line_drawn(
                panes.screen[2],
                seq![toned_piece(footer_text(model), Tone::FooterBusy)],
                Some(Tone::FooterBusy),
            ),
        ]
    } else {
        Seq::empty()
    }
}

/// The overlays that are open.
pub open spec fn overlays_drawn(model: AppModel, panes: PanesModel) -> Seq<DrawModel> {
    let help = if model.help_visible {
        overlay_drawn(panes.screen[1], "Help"@, plain_lines(help_texts()))
    } else {
        Seq::empty()
    };
    match model.describe {
        Some(text) => help + overlay_drawn(
            panes.screen[1],
            "Describe"@,
            plain_lines(lines_from(text, 0)),
        ),
        None => help,
    }
}

/// Everything on the screen, in the order in which it is painted.
pub open spec fn drawn(
    model: AppModel,
    panes: PanesModel,
    lines: Seq<Seq<PieceModel>>,
) -> Seq<DrawModel> {
    base_drawn(model, panes, lines) + footer_drawn(model, panes) + overlays_drawn(model, panes)
}

} // verus!
