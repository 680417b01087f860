//! Turns the state of the application into what is on the screen.

use std::collections::BTreeMap;
use vstd::prelude::*;
use vstd::std_specs::btree::increasing_seq;
use vstd::std_specs::cmp::OrdSpec;
use vstd::std_specs::iter::IteratorSpec;

use crate::app::{labels, App};
use crate::area::{divide, inside_border, overlay, Area, Axis, Size};
use crate::handle::ManagerHandle;
use crate::highlight::highlight_styled;
use crate::log_buffer::LogBuffer;
use crate::model::{lemma_logs_get, AppModel, OTEL_TARGET_NAME};
use crate::ops::concat;
use crate::rows::{Row, RowModel};
use crate::screen::{
    all_within, base_drawn, body_sizes, busy, current_line, drawn, footer_drawn, footer_text,
    header_line, help_texts, hint_texts, in_order, labels_in_order, laid_out,
    law_panes_lie_on_the_screen, lemma_order_is_unique, line_drawn, lists_in_order, log_drawn,
    log_frame_drawn, log_lines, log_sizes, marked_lines, match_count, overlay_drawn,
    overlays_drawn, plain_lines, row_line, row_lines, screen_sizes, search_drawn, sidebar_drawn,
    sidebar_sizes, Draw, DrawModel, Panes, PanesModel, SIDEBAR_WIDTH,
};
use crate::spans::{plain_line, toned_piece, Line, Piece, Tone};
use crate::target::{RunTarget, Status};
use crate::text::{
    decimal, joined, lemma_views_push, lines_from, lines_of, pad_to, same_text, views,
};

verus! {

proof fn lemma_increasing_ids(ids: Seq<u64>)
    requires
        increasing_seq(ids),
    ensures
        forall|i: int, j: int| 0 <= i < j < ids.len() ==> ids[i] < ids[j],
{
    broadcast use {
        vstd::laws_cmp::group_laws_cmp,
        vstd::std_specs::btree::axiom_increasing_seq_meaning,
    };

    assert forall|i: int, j: int| 0 <= i < j < ids.len() implies ids[i] < ids[j] by {
        assert(ids[i].cmp_spec(&ids[j]) is Less);
    }
}

/// The labels of the running operations in the order of their ids.
fn ordered_labels(in_flight: &BTreeMap<u64, String>) -> (r: Vec<String>)
    ensures
        views(r@) == labels_in_order(labels(in_flight@)),
{
    let mut out: Vec<String> = Vec::new();
    let ghost all = labels(in_flight@);
    let values = in_flight.values();
    let ghost ids = choose|ids: Seq<u64>|
        {
            &&& increasing_seq(ids)
            &&& ids.to_set() == in_flight@.dom()
            &&& ids.no_duplicates()
            &&& IteratorSpec::remaining(&values) == ids.map(|i: int, k: u64| &in_flight@[k])
        };
    proof {
        lemma_increasing_ids(ids);
        assert(all.dom() =~= in_flight@.dom());
        assert(lists_in_order(ids, all.dom()));
        lemma_order_is_unique(ids, in_order(all.dom()), all.dom());
    }
    for label in it: values
        invariant
            all == labels(in_flight@),
            it.seq() == ids.map(|i: int, k: u64| &in_flight@[k]),
            ids.to_set() == in_flight@.dom(),
            views(out@) == ids.take(it.index() as int).map_values(|id: u64| all[id]),
    {
        let text: String = label.clone();
        proof {
            lemma_views_push(out@, text);
        }
        out.push(text);
    }
    proof {
        assert(ids.take(ids.len() as int) =~= ids);
    }
    out
}

/// Puts the texts together, with `between` between two neighbours.
fn join_texts(parts: &Vec<String>, between: &str) -> (r: String)
    ensures
        r@ == joined(views(parts@), between@),
{
    let ghost all = views(parts@);
    let mut out: String = String::new();
    let mut i: usize = 0;
    assert(all.take(0) =~= Seq::<Seq<char>>::empty());
    while i < parts.len()
        invariant
            i <= parts@.len(),
            all == views(parts@),
            out@ == joined(all.take(i as int), between@),
        decreases parts@.len() - i,
    {
        assert(all[i as int] == parts@[i as int]@);
        if i > 0 {
            out.append(between);
        }
        out.append(parts[i].as_str());
        assert(all.take(i + 1).drop_last() =~= all.take(i as int));
        assert(all.take(i + 1).last() == all[i as int]);
        assert(i == 0 ==> out@ =~= all[0]);
        i = i + 1;
    }
    assert(all.take(i as int) =~= all);
    out
}

/// A line of one piece in the style of a role.
fn toned_line(text: String, tone: Tone) -> (r: Line)
    ensures
        r@ == seq![toned_piece(text@, tone)],
{
    let mut line: Line = Line::empty();
    line.push_toned(text, tone);
    assert(line@ =~= seq![toned_piece(text@, tone)]);
    line
}

/// A step that writes a single line.
fn draw_line(area: Area, line: Line, tone: Option<Tone>) -> (r: Draw)
    ensures
        r@ == line_drawn(area, line@, tone),
{
    let mut lines: Vec<Line> = Vec::new();
    proof {
        lemma_views_push(lines@, line);
    }
    lines.push(line);
    assert(views(lines@) =~= seq![line@]);
    Draw::Text { area, lines, tone, wrap: false }
}

fn put(steps: &mut Vec<Draw>, step: Draw)
    ensures
        views(final(steps)@) == views(old(steps)@).push(step@),
{
    proof {
        lemma_views_push(steps@, step);
    }
    steps.push(step);
}

fn put_all(steps: &mut Vec<Draw>, more: Vec<Draw>)
    ensures
        views(final(steps)@) == views(old(steps)@) + views(more@),
{
    let mut rest: Vec<Draw> = more;
    steps.append(&mut rest);
    assert(views(steps@) =~= views(old(steps)@) + views(more@));
}

/// The texts as unstyled lines.
fn plain_texts(texts: &Vec<&str>) -> (r: Vec<Line>)
    ensures
        views(r@) == plain_lines(views(texts@)),
{
    let ghost all = plain_lines(views(texts@));
    let mut out: Vec<Line> = Vec::new();
    let mut i: usize = 0;
    while i < texts.len()
        invariant
            i <= texts@.len(),
            all == plain_lines(views(texts@)),
            views(out@) == all.take(i as int),
        decreases texts@.len() - i,
    {
        let line: Line = Line::plain(texts[i]);
        proof {
            lemma_views_push(out@, line);
        }
        out.push(line);
        i = i + 1;
        assert(all.take(i as int) =~= all.take(i - 1).push(all[i - 1]));
    }
    assert(all.take(i as int) =~= all);
    out
}

/// The lines of a text, unstyled.
fn text_lines(text: &str) -> (r: Vec<Line>)
    ensures
        views(r@) == plain_lines(lines_from(text@, 0)),
{
    let texts: Vec<String> = lines_of(text);
    let ghost all = plain_lines(views(texts@));
    let mut out: Vec<Line> = Vec::new();
    let mut i: usize = 0;
    while i < texts.len()
        invariant
            i <= texts@.len(),
            all == plain_lines(views(texts@)),
            views(out@) == all.take(i as int),
        decreases texts@.len() - i,
    {
        let line: Line = Line::plain(texts[i].as_str());
        proof {
            lemma_views_push(out@, line);
        }
        out.push(line);
        i = i + 1;
        assert(all.take(i as int) =~= all.take(i - 1).push(all[i - 1]));
    }
    assert(all.take(i as int) =~= all);
    out
}

fn render_footer<H: ManagerHandle>(area: Area, app: &App<H>) -> (r: Draw)
    ensures
        r@ == line_drawn(
            area,
            seq![toned_piece(footer_text(app@), Tone::FooterBusy)],
            Some(Tone::FooterBusy),
        ),
{
    let running: Vec<String> = ordered_labels(&app.in_flight);
    let all: String = join_texts(&running, "  ·  ");
    let mut text: String = concat(" Working: ", all.as_str());
    text.append(" ");
    draw_line(area, toned_line(text, Tone::FooterBusy), Some(Tone::FooterBusy))
}

fn render_header<H: ManagerHandle>(area: Area, app: &App<H>) -> (r: Draw)
    ensures
        r@ == line_drawn(area, header_line(app@), Some(Tone::Header)),
{
    let title: String = match app.selected_target() {
        Some(target) => {
            let mut title: String = concat(" tukituki — ", target.name.as_str());
            title.append(" ");
            title
        },
        None => " tukituki ".to_owned(),
    };
    let msg: String = if app.status_msg.as_str().is_empty() {
        " ? help  q detach  Q stop all & exit ".to_owned()
    } else {
        let mut msg: String = concat(" ", app.status_msg.as_str());
        msg.append(" ");
        msg
    };
    let mut line: Line = Line::empty();
    line.push_toned(title, Tone::Header);
    line.push_raw(" ".to_owned());
    line.push_toned(msg, Tone::HeaderHint);
    assert(line@ =~= header_line(app@));
    draw_line(area, line, Some(Tone::Header))
}

/// The header of a folder.
fn folder_line(group: &str, expanded: bool, count: usize, is_sel: bool) -> (r: Line)
    ensures
        forall|model: AppModel|
            r@ == #[trigger] row_line(
                model,
                RowModel::Folder { group: group@, expanded, count: count as nat },
                is_sel,
            ),
{
    let mut text: String = (if expanded {
        "▼"
    } else {
        "▶"
    }).to_owned();
    text.append(" ");
    text.append(group);
    text.append(" (");
    text.append(decimal(count).as_str());
    text.append(")");
    let tone: Tone = if is_sel {
        Tone::SelectedItem
    } else {
        Tone::FolderItem
    };
    toned_line(pad_to(SIDEBAR_WIDTH as usize - 2, text.as_str()), tone)
}

/// The divider above the virtual targets.
fn separator_line(label: &str, is_sel: bool) -> (r: Line)
    ensures
        forall|model: AppModel|
            r@ == #[trigger] row_line(model, RowModel::Separator { label: label@ }, is_sel),
{
    let text: String = concat("  ", label);
    let tone: Tone = if is_sel {
        Tone::SelectedItem
    } else {
        Tone::KeyHint
    };
    toned_line(pad_to(SIDEBAR_WIDTH as usize - 2, text.as_str()), tone)
}

/// The row of a target.
fn target_line<H: ManagerHandle>(
    target_idx: usize,
    group: &str,
    app: &App<H>,
    is_sel: bool,
) -> (r: Line)
    ensures
        r@ == row_line(
            app@,
            RowModel::Target { target_idx: target_idx as nat, group: group@ },
            is_sel,
        ),
{
    if target_idx >= app.targets.len() {
        return Line::plain("");
    }
    let target: &RunTarget = &app.targets[target_idx];
    assert(app@.targets[target_idx as int] == target@);
    let status: Status = match app.statuses.get(target.name.as_str()) {
        Some(status) => *status,
        None => Status::Unknown,
    };
    let badge: bool = same_text(target.name.as_str(), OTEL_TARGET_NAME) && app.unread_otel_errors
        > 0;
    let tone: Tone = if is_sel {
        Tone::SelectedItem
    } else if badge {
        if app.otel_blink_on {
            Tone::OtelAlert
        } else {
            Tone::OtelAlertOff
        }
    } else {
        Tone::Item
    };
    let mut text: String = (if group.is_empty() {
        ""
    } else {
        "  "
    }).to_owned();
    let mut name: String = target.name.clone();
    if badge {
        name.append(" (");
        name.append(decimal(app.unread_otel_errors).as_str());
        name.append(")");
    }
    text.append(name.as_str());
    text.append(" ");
    let mut line: Line = Line::empty();
    line.push_raw(" ".to_owned());
    line.push(Piece::Icon(status));
    line.push_raw(" ".to_owned());
    line.push_toned(pad_to(SIDEBAR_WIDTH as usize - 4, text.as_str()), tone);
    assert(line@ =~= row_line(
        app@,
        RowModel::Target { target_idx: target_idx as nat, group: group@ },
        is_sel,
    ));
    line
}

fn render_row<H: ManagerHandle>(row: &Row, app: &App<H>, is_sel: bool) -> (r: Line)
    ensures
        r@ == row_line(app@, row@, is_sel),
{
    match row {
        Row::Folder { group, expanded, count } => folder_line(
            group.as_str(),
            *expanded,
            *count,
            is_sel,
        ),
        Row::Target { target_idx, group } => target_line(*target_idx, group.as_str(), app, is_sel),
        Row::Separator { label } => separator_line(label.as_str(), is_sel),
    }
}

fn render_rows<H: ManagerHandle>(app: &App<H>) -> (r: Vec<Line>)
    ensures
        views(r@) == row_lines(app@),
{
    let ghost all = row_lines(app@);
    let mut out: Vec<Line> = Vec::new();
    let mut i: usize = 0;
    while i < app.rows.len()
        invariant
            i <= app.rows@.len(),
            all == row_lines(app@),
            views(out@) == all.take(i as int),
        decreases app.rows@.len() - i,
    {
        assert(app@.rows[i as int] == app.rows@[i as int]@);
        let line: Line = render_row(&app.rows[i], app, i == app.selected);
        proof {
            lemma_views_push(out@, line);
        }
        out.push(line);
        i = i + 1;
        assert(all.take(i as int) =~= all.take(i - 1).push(all[i - 1]));
    }
    assert(all.take(i as int) =~= all);
    out
}

fn render_sidebar<H: ManagerHandle>(panes: &Panes, app: &App<H>) -> (r: Vec<Draw>)
    requires
        panes.body@.len() == 2,
        panes.sidebar@.len() == 2,
    ensures
        views(r@) == sidebar_drawn(app@, panes@),
{
    let hints: Vec<&str> = vec![
        " r restart  s stop",
        " S start    d dump",
        " c clear    e edit",
        " q detach   Q exit",
        " ? help",
    ];
    assert(views(hints@) =~= hint_texts());
    let mut steps: Vec<Draw> = Vec::new();
    put(&mut steps, Draw::Border { area: panes.body[0], title: None });
    put(
        &mut steps,
        Draw::Text {
            area: panes.sidebar[0],
            lines: render_rows(app),
            tone: Some(Tone::Item),
            wrap: false,
        },
    );
    put(
        &mut steps,
        Draw::Text {
            area: panes.sidebar[1],
            lines: plain_texts(&hints),
            tone: Some(Tone::KeyHint),
            wrap: false,
        },
    );
    assert(views(steps@) =~= sidebar_drawn(app@, panes@));
    steps
}

/// The border and the title of the log pane.
fn log_frame<H: ManagerHandle>(panes: &Panes, app: &App<H>) -> (r: Vec<Draw>)
    requires
        panes@.fits(app@),
    ensures
        views(r@) == log_frame_drawn(app@, panes@),
{
    let mut steps: Vec<Draw> = Vec::new();
    if !app.zoom_logs {
        let title: String = match app.selected_target() {
            Some(target) => {
                let mut title: String = concat(" ", target.name.as_str());
                title.append(" ");
                title
            },
            None => " (no target selected) ".to_owned(),
        };
        put(&mut steps, Draw::Border { area: panes.body[1], title: None });
        put(&mut steps, draw_line(panes.log[0], toned_line(title, Tone::PanelTitle), None));
    }
    assert(views(steps@) =~= log_frame_drawn(app@, panes@));
    steps
}

/// Which match is the current one, and how many there are.
fn count_text<H: ManagerHandle>(app: &App<H>) -> (r: String)
    requires
        app@.wf(),
    ensures
        r@ == match_count(app@),
{
    if app.search_matches.len() == 0 {
        (if app.search_query.as_str().is_empty() {
            "0"
        } else {
            "no matches"
        }).to_owned()
    } else {
        let mut count: String = decimal(app.search_match_idx + 1);
        count.append("/");
        count.append(decimal(app.search_matches.len()).as_str());
        count
    }
}

/// The search bar.
fn search_bar<H: ManagerHandle>(panes: &Panes, app: &App<H>) -> (r: Vec<Draw>)
    requires
        panes@.fits(app@),
        app@.wf(),
    ensures
        views(r@) == search_drawn(app@, panes@),
{
    let mut steps: Vec<Draw> = Vec::new();
    if app.search_mode {
        let mut text: String = concat(" /", app.search_query.as_str());
        text.append("  [");
        text.append(count_text(app).as_str());
        text.append("]  (Enter=next, Esc=close) ");
        let i: usize = if app.zoom_logs {
            1
        } else {
            2
        };
        put(&mut steps, draw_line(panes.log[i], toned_line(text, Tone::SearchBar), None));
    }
    assert(views(steps@) =~= search_drawn(app@, panes@));
    steps
}

fn render_log_pane<H: ManagerHandle>(panes: &Panes, app: &App<H>, lines: Vec<Line>) -> (r: Vec<
    Draw,
>)
    requires
        panes@.fits(app@),
        app@.wf(),
    ensures
        views(r@) == log_drawn(app@, panes@, views(lines@)),
{
    let mut steps: Vec<Draw> = log_frame(panes, app);
    let i: usize = if app.zoom_logs {
        0
    } else {
        1
    };
    put(
        &mut steps,
        Draw::Text { area: panes.log[i], lines, tone: None, wrap: app.wrap_logs },
    );
    put_all(&mut steps, search_bar(panes, app));
    steps
}

/// A framed text over the middle of an area.
fn render_text_overlay_lines(area: Area, title: &str, lines: Vec<Line>) -> (r: Vec<Draw>)
    requires
        area.wf(),
    ensures
        views(r@) == overlay_drawn(area, title@, views(lines@)),
{
    let over: Area = overlay(area);
    let mut text: String = concat(" ", title);
    text.append(" ");
    let mut steps: Vec<Draw> = Vec::new();
    put(&mut steps, Draw::Clear { area: over });
    put(&mut steps, Draw::Border { area: over, title: Some(text) });
    put(
        &mut steps,
        Draw::Text {
            area: inside_border(over),
            lines,
            tone: Some(Tone::OverlayText),
            wrap: false,
        },
    );
    assert(views(steps@) =~= overlay_drawn(area, title@, views(lines@)));
    steps
}

fn render_text_overlay(area: Area, title: &str, body: &str) -> (r: Vec<Draw>)
    requires
        area.wf(),
    ensures
        views(r@) == overlay_drawn(area, title@, plain_lines(lines_from(body@, 0))),
{
    render_text_overlay_lines(area, title, text_lines(body))
}

fn render_help_overlay(area: Area) -> (r: Vec<Draw>)
    requires
        area.wf(),
    ensures
        views(r@) == overlay_drawn(area, "Help"@, plain_lines(help_texts())),
{
    let body: Vec<&str> = vec![
        "",
        " Navigation:",
        "   ↑/↓ or j/k     move selection",
        "   Tab            cycle to next row",
        "   →/l            expand folder",
        "   ←/h            collapse folder",
        "   Enter / Space  toggle folder",
        "",
        " Process actions:",
        "   S              start selected",
        "   s              stop selected",
        "   r              restart selected",
        "   R              restart all (clears logs)",
        "   d              dump logs to file",
        "   c              clear logs",
        "   E              edit run file in $EDITOR",
        "   D              describe launch",
        "",
        " Log viewer:",
        "   PgUp / b       scroll up",
        "   PgDn / f       scroll down",
        "   w              toggle line wrap",
        "   z              zoom (full-width logs)",
        "   /              search logs (Enter cycles next, Esc closes)",
        "",
        " Exit:",
        "   q              detach (leave procs running)",
        "   Q / Ctrl+C     stop all + exit",
        "",
        " Press ? or Esc to dismiss.",
    ];
    assert(views(body@) =~= help_texts());
    render_text_overlay_lines(area, "Help", plain_texts(&body))
}

/// The lines of a log from `from` up to `to` in their styles, with the hits marked.
fn mark_lines<H: ManagerHandle>(app: &App<H>, buf: &LogBuffer, from: usize, to: usize) -> (r: Vec<
    Line,
>)
    requires
        from <= to <= buf.parsed@.len(),
    ensures
        views(r@) == marked_lines(
            buf@.parsed,
            app@.search_query,
            current_line(app@),
            from as nat,
            to as nat,
        ),
{
    let ghost all = marked_lines(
        buf@.parsed,
        app@.search_query,
        current_line(app@),
        from as nat,
        to as nat,
    );
    let current: Option<usize> = app.current_match_line();
    let mut out: Vec<Line> = Vec::new();
    let mut i: usize = from;
    assert(views(out@) =~= all.take(0));
    while i < to
        invariant
            from <= i <= to <= buf.parsed@.len(),
            all == marked_lines(
                buf@.parsed,
                app@.search_query,
                current_line(app@),
                from as nat,
                to as nat,
            ),
            current_line(app@) == (match current {
                Some(line) => Some(line as nat),
                None => None,
            }),
            views(out@) == all.take(i - from),
        decreases to - i,
    {
        let is_current: bool = match current {
            Some(line) => line == i,
            None => false,
        };
        assert(buf@.parsed[i as int] == buf.parsed@[i as int]@);
        let line: Line = highlight_styled(&buf.parsed[i], app.search_query.as_str(), is_current);
        proof {
            lemma_views_push(out@, line);
            assert(all[i - from] == line@);
        }
        out.push(line);
        i = i + 1;
        assert(all.take(i - from) =~= all.take(i - from - 1).push(all[i - from - 1]));
    }
    assert(all.take(i - from) =~= all);
    out
}

/// The lines of a log from `from` up to `to` in their styles.
fn copy_lines(buf: &LogBuffer, from: usize, to: usize) -> (r: Vec<Line>)
    requires
        from <= to <= buf.parsed@.len(),
    ensures
        views(r@) == buf@.parsed.subrange(from as int, to as int),
{
    let mut out: Vec<Line> = Vec::new();
    let mut i: usize = from;
    assert(views(out@) =~= buf@.parsed.subrange(from as int, from as int));
    while i < to
        invariant
            from <= i <= to <= buf.parsed@.len(),
            views(out@) == buf@.parsed.subrange(from as int, i as int),
        decreases to - i,
    {
        let line: Line = buf.parsed[i].copied();
        proof {
            lemma_views_push(out@, line);
        }
        out.push(line);
        i = i + 1;
        assert(buf@.parsed.subrange(from as int, i as int) =~= buf@.parsed.subrange(
            from as int,
            i - 1,
        ).push(buf@.parsed[i - 1]));
    }
    out
}

/// A text of one blank line.
fn blank_line() -> (r: Vec<Line>)
    ensures
        views(r@) == seq![plain_line(""@)],
{
    let mut lines: Vec<Line> = Vec::new();
    lines.push(Line::plain(""));
    assert(views(lines@) =~= seq![plain_line(""@)]);
    lines
}

/// The log lines that a window of `rows` rows shows.
pub fn visible_lines<H: ManagerHandle>(app: &App<H>, rows: usize) -> (r: Vec<Line>)
    requires
        app@.wf(),
    ensures
        views(r@) == log_lines(app@, rows as nat),
{
    let name: String = match app.selected_target_name() {
        Some(name) => name,
        None => {
            return blank_line();
        },
    };
    match app.logs.get(name.as_str()) {
        Some(buf) => {
            proof {
                lemma_logs_get(app@.logs, name@);
            }
            let end: usize = buf.lines.len() - buf.scroll;
            let start: usize = end.saturating_sub(
                if rows == 0 {
                    1
                } else {
                    rows
                },
            );
            if app.search_mode && !app.search_query.as_str().is_empty() {
                mark_lines(app, buf, start, end)
            } else {
                copy_lines(buf, start, end)
            }
        },
        None => blank_line(),
    }
}

/// Divides the screen.
pub fn lay_out<H: ManagerHandle>(area: Area, app: &App<H>) -> (r: Panes)
    requires
        area.wf(),
    ensures
        laid_out(app@, area, r@),
        r@.fits(app@),
        all_within(r@.screen, area),
        !app@.zoom_logs ==> all_within(r@.body, area) && all_within(r@.sidebar, area),
        all_within(r@.log, area),
{
    let footer: bool = !app.in_flight.is_empty();
    assert(app@.in_flight.dom() =~= app.in_flight@.dom());
    let mut sizes: Vec<Size> = vec![Size::Length(1), Size::Min(0)];
    if footer {
        sizes.push(Size::Length(1));
    }
    assert(sizes@ =~= screen_sizes(busy(app@)));
    let screen: Vec<Area> = divide(area, Axis::Vertical, &sizes);
    assert(screen@[1].wf());
    let (body, sidebar): (Vec<Area>, Vec<Area>) = if app.zoom_logs {
        (Vec::new(), Vec::new())
    } else {
        let sizes: Vec<Size> = vec![Size::Length(SIDEBAR_WIDTH), Size::Min(20)];
        assert(sizes@ =~= body_sizes());
        let body: Vec<Area> = divide(screen[1], Axis::Horizontal, &sizes);
        let sizes: Vec<Size> = vec![Size::Min(1), Size::Length(5)];
        assert(sizes@ =~= sidebar_sizes());
        let sidebar: Vec<Area> = divide(inside_border(body[0]), Axis::Vertical, &sizes);
        (body, sidebar)
    };
    let room: Area = if app.zoom_logs {
        screen[1]
    } else {
        inside_border(body[1])
    };
    let mut sizes: Vec<Size> = Vec::new();
    if !app.zoom_logs {
        sizes.push(Size::Length(1));
    }
    sizes.push(Size::Min(1));
    if app.search_mode {
        sizes.push(Size::Length(1));
    }
    assert(sizes@ =~= log_sizes(app@.zoom_logs, app@.search_mode));
    let log: Vec<Area> = divide(room, Axis::Vertical, &sizes);
    let panes: Panes = Panes { screen, body, sidebar, log };
    proof {
        law_panes_lie_on_the_screen(app@, area, panes@);
    }
    panes
}

/// The overlays that are open.
fn render_overlays<H: ManagerHandle>(panes: &Panes, app: &App<H>) -> (r: Vec<Draw>)
    requires
        panes@.fits(app@),
    ensures
        views(r@) == overlays_drawn(app@, panes@),
{
    let mut steps: Vec<Draw> = Vec::new();
    assert(views(steps@) =~= Seq::<DrawModel>::empty());
    if app.help_visible {
        steps = render_help_overlay(panes.screen[1]);
    }
    match &app.describe {
        Some(text) => put_all(
            &mut steps,
            render_text_overlay(panes.screen[1], "Describe", text.as_str()),
        ),
        None => {},
    }
    steps
}

/// Draws the screen, divided in this way and with these log lines.
pub fn draw<H: ManagerHandle>(app: &App<H>, panes: &Panes, lines: Vec<Line>) -> (r: Vec<Draw>)
    requires
        app@.wf(),
        panes@.fits(app@),
    ensures
        views(r@) == drawn(app@, panes@, views(lines@)),
{
    let ghost shown = views(lines@);
    let mut steps: Vec<Draw> = Vec::new();
    put(&mut steps, render_header(panes.screen[0], app));
    assert(views(steps@) =~= seq![
        line_drawn(panes@.screen[0], header_line(app@), Some(Tone::Header)),
    ]);
    if !app.zoom_logs {
        put_all(&mut steps, render_sidebar(panes, app));
    }
    put_all(&mut steps, render_log_pane(panes, app, lines));
    assert(views(steps@) == base_drawn(app@, panes@, shown));
    assert(app@.in_flight.dom() =~= app.in_flight@.dom());
    if !app.in_flight.is_empty() {
        put(&mut steps, render_footer(panes.screen[2], app));
    }
    assert(views(steps@) =~= base_drawn(app@, panes@, shown) + footer_drawn(app@, panes@));
    put_all(&mut steps, render_overlays(panes, app));
    steps
}

/// Draws the screen.
pub fn render<H: ManagerHandle>(area: Area, app: &App<H>) -> (r: Vec<Draw>)
    requires
        area.wf(),
        app@.wf(),
    ensures
        exists|panes: PanesModel| #[trigger]
            laid_out(app@, area, panes) && views(r@) == drawn(
                app@,
                panes,
                log_lines(app@, panes.log_height(app@.zoom_logs)),
            ),
{
    let panes: Panes = lay_out(area, app);
    assert(laid_out(app@, area, panes@));
    let i: usize = if app.zoom_logs {
        0
    } else {
        1
    };
    let lines: Vec<Line> = visible_lines(app, panes.log[i].height as usize);
    draw(app, &panes, lines)
}

} // verus!
