//! What stands where on the screen.

use vstd::prelude::*;

use crate::area::{inner_area, may_divide, overlay_area, Area, Axis, Size};
use crate::feed_laws::{holds, law_hits_hold_the_query};
use crate::highlight::{
    form_of_part, highlighted, hit_ranges, in_ranges, is_occurrence, is_taken,
    law_highlighting_marks_the_hits, law_hits_are_leftmost, law_marked_text_is_a_hit,
    lemma_as_many_paints, paints, pieces_text,
};
use crate::key_laws::{law_selected_target_is_that_of_the_row, stands_on, stands_on_none};
use crate::model::{lemma_logs_get, AppModel};
use crate::rows::RowModel;
use crate::screen::{
    base_drawn, busy, drawn, footer_drawn, footer_text, header_line, help_texts, hint_texts,
    in_order, labels_in_order, laid_out, lemma_order_is_unique, lists_in_order, log_lines,
    overlay_drawn, plain_lines, row_lines, search_text, DrawModel, PanesModel,
};
use crate::spans::{PaintModel, PieceModel, Tone};
use crate::target::Status;
use crate::text::{decimal_text, joined, lines_from, lowercase, padded};
use crate::text_laws::{law_columns_have_their_width, law_text_without_line_feeds};

verus! {

/// A piece of text in the style of a role.
pub open spec fn toned(text: Seq<char>, tone: Tone) -> PieceModel {
    PieceModel::Text { text, paint: PaintModel::Tone(tone) }
}

/// A blank without a style of its own.
pub open spec fn blank() -> PieceModel {
    PieceModel::Text { text: " "@, paint: PaintModel::Raw }
}

/// Whether a piece shows a text in a column of so many characters, in the style of a
/// role.
pub open spec fn is_column(piece: PieceModel, width: int, text: Seq<char>, tone: Tone) -> bool {
    &&& piece is Text
    &&& piece->paint == PaintModel::Tone(tone)
    &&& piece->text.len() == width
    &&& forall|p: int|
        0 <= p < width ==> #[trigger] piece->text[p] == (if p < text.len() {
            text[p]
        } else {
            ' '
        })
}

/// The row of a target shows the icon of exactly the status that is known of its
/// process, and the icon for an unknown one only where none is known. Its name follows,
/// two columns further in where it stands in a folder, and the row of the collector's
/// errors has the number of those that were not seen behind its name. The selected row
/// looks selected, and the row of unseen errors blinks.
pub proof fn law_row_of_a_target(model: AppModel, k: int, i: int)
    requires
        0 <= k < model.rows.len(),
        0 <= i < model.targets.len(),
        model.rows[k] is Target,
        model.rows[k]->Target_target_idx == i,
    ensures
        ({
            let name = model.targets[i].name;
            let line = row_lines(model)[k];
            let alert = name == "otel-errors"@ && model.unread_otel_errors > 0;
            let indent = if model.rows[k]->Target_group.len() > 0 {
                "  "@
            } else {
                ""@
            };
            let label = if alert {
                indent + (name + " ("@ + decimal_text(model.unread_otel_errors) + ")"@)
            } else {
                indent + name
            };
            let tone = if k == model.selected {
                Tone::SelectedItem
            } else if alert && model.otel_blink_on {
                Tone::OtelAlert
            } else if alert {
                Tone::OtelAlertOff
            } else {
                Tone::Item
            };
            &&& row_lines(model).len() == model.rows.len()
            &&& line.len() == 4
            &&& line[0] == blank()
            &&& model.statuses.dom().contains(name) ==> line[1] == PieceModel::Icon(
                model.statuses[name],
            )
            &&& !model.statuses.dom().contains(name) ==> line[1] == PieceModel::Icon(
                Status::Unknown,
            )
            &&& line[2] == blank()
            &&& is_column(line[3], 26, label, tone)
        }),
{
    reveal_strlit(" ");
    let name = model.targets[i].name;
    let alert = name == "otel-errors"@ && model.unread_otel_errors > 0;
    let indent = if model.rows[k]->Target_group.len() > 0 {
        "  "@
    } else {
        ""@
    };
    let label = if alert {
        indent + (name + " ("@ + decimal_text(model.unread_otel_errors) + ")"@)
    } else {
        indent + name
    };
    law_columns_have_their_width(26, label + " "@);
    let text = row_lines(model)[k][3]->text;
    assert(text == padded(26, label + " "@));
    assert forall|p: int| 0 <= p < 26 implies #[trigger] text[p] == (if p < label.len() {
        label[p]
    } else {
        ' '
    }) by {
        if p == label.len() {
            assert((label + " "@)[p] == " "@[0]);
        }
    }
}

/// The header of a folder shows whether it is open, its name and how many targets it
/// has; the divider shows its label.
pub proof fn law_other_rows(model: AppModel, k: int)
    requires
        0 <= k < model.rows.len(),
    ensures
        row_lines(model).len() == model.rows.len(),
        match model.rows[k] {
            RowModel::Folder { group, expanded, count } => {
                &&& row_lines(model)[k].len() == 1
                &&& is_column(
                    row_lines(model)[k][0],
                    28,
                    (if expanded {
                        "▼"@
                    } else {
                        "▶"@
                    }) + " "@ + group + " ("@ + decimal_text(count) + ")"@,
                    if k == model.selected {
                        Tone::SelectedItem
                    } else {
                        Tone::FolderItem
                    },
                )
            },
            RowModel::Separator { label } => {
                &&& row_lines(model)[k].len() == 1
                &&& is_column(
                    row_lines(model)[k][0],
                    28,
                    "  "@ + label,
                    if k == model.selected {
                        Tone::SelectedItem
                    } else {
                        Tone::KeyHint
                    },
                )
            },
            RowModel::Target { .. } => true,
        },
{
    match model.rows[k] {
        RowModel::Folder { group, expanded, count } => {
            law_columns_have_their_width(
                28,
                (if expanded {
                    "▼"@
                } else {
                    "▶"@
                }) + " "@ + group + " ("@ + decimal_text(count) + ")"@,
            );
        },
        RowModel::Separator { label } => {
            law_columns_have_their_width(28, "  "@ + label);
        },
        RowModel::Target { .. } => {},
    }
}

/// The header names the application and the selected target, if there is one, and shows
/// the current message, or a hint where there is none.
pub proof fn law_header(model: AppModel, name: Seq<char>)
    requires
        stands_on(model, name) || stands_on_none(model),
    ensures
        header_line(model) == seq![
            toned(
                if stands_on_none(model) {
                    " tukituki "@
                } else {
                    " tukituki — "@ + name + " "@
                },
                Tone::Header,
            ),
            blank(),
            toned(
                if model.status_msg.len() == 0 {
                    " ? help  q detach  Q stop all & exit "@
                } else {
                    " "@ + model.status_msg + " "@
                },
                Tone::HeaderHint,
            ),
        ],
{
    law_selected_target_is_that_of_the_row(model, name);
}

/// The search bar shows the query, the number of the current match and how many there
/// are.
pub proof fn law_search_bar(model: AppModel)
    ensures
        ({
            let n = model.search_matches.len();
            let count = if n > 0 {
                decimal_text(model.search_match_idx + 1) + "/"@ + decimal_text(n)
            } else if model.search_query.len() > 0 {
                "no matches"@
            } else {
                "0"@
            };
            search_text(model) == " /"@ + model.search_query + "  ["@ + count
                + "]  (Enter=next, Esc=close) "@
        }),
{
}

/// The footer shows the labels of the operations that are running, in the order in which
/// they were begun.
pub proof fn law_footer_text(model: AppModel, ids: Seq<u64>)
    requires
        forall|j: int, k: int| 0 <= j < k < ids.len() ==> #[trigger] ids[j] < #[trigger] ids[k],
        forall|id: u64| #[trigger] model.in_flight.dom().contains(id) <==> ids.contains(id),
    ensures
        footer_text(model) == " Working: "@ + joined(
            ids.map_values(|id: u64| model.in_flight[id]),
            "  ·  "@,
        ) + " "@,
{
    assert(ids.to_set() =~= model.in_flight.dom());
    assert(lists_in_order(ids, model.in_flight.dom()));
    lemma_order_is_unique(ids, in_order(model.in_flight.dom()), model.in_flight.dom());
    assert(labels_in_order(model.in_flight) =~= ids.map_values(|id: u64| model.in_flight[id]));
}

/// A step that writes one line.
pub open spec fn writes(area: Area, pieces: Seq<PieceModel>, tone: Option<Tone>) -> DrawModel {
    DrawModel::Text { area, lines: seq![pieces], tone, wrap: false }
}

/// Where the log comes among the steps that paint the screen: after the header, and the
/// sidebar and the frame of the log where these are shown.
pub open spec fn log_step(model: AppModel) -> int {
    if model.zoom_logs {
        1
    } else {
        6
    }
}

/// Where what is painted over the log pane comes: the footer first.
pub open spec fn footer_step(model: AppModel) -> int {
    if model.search_mode {
        log_step(model) + 2
    } else {
        log_step(model) + 1
    }
}

/// Where the overlays come.
pub open spec fn overlay_step(model: AppModel) -> int {
    if model.in_flight.dom() =~= Set::empty() {
        footer_step(model)
    } else {
        footer_step(model) + 1
    }
}

proof fn lemma_busy(model: AppModel)
    ensures
        busy(model) <==> !(model.in_flight.dom() =~= Set::<u64>::empty()),
{
    if model.in_flight.is_empty() {
        assert(model.in_flight.dom() =~= Set::<u64>::empty());
    } else if model.in_flight.dom() =~= Set::<u64>::empty() {
        assert(model.in_flight =~= Map::<u64, Seq<char>>::empty());
        assert(model.in_flight.is_empty());
    }
}

/// The header stands at the top, and below it the sidebar, with the rows, the key hints
/// and a border, unless the log fills the screen.
pub proof fn law_header_and_sidebar_are_drawn(
    model: AppModel,
    panes: PanesModel,
    lines: Seq<Seq<PieceModel>>,
)
    ensures
        ({
            let steps = drawn(model, panes, lines);
            &&& steps.len() > 1
            &&& steps[0] == writes(panes.screen[0], header_line(model), Some(Tone::Header))
            &&& !model.zoom_logs ==> {
                &&& steps.len() > 6
                &&& steps[1] == DrawModel::Border { area: panes.body[0], title: None }
                &&& steps[2] == DrawModel::Text {
                    area: panes.sidebar[0],
                    lines: row_lines(model),
                    tone: Some(Tone::Item),
                    wrap: false,
                }
                &&& steps[3] == DrawModel::Text {
                    area: panes.sidebar[1],
                    lines: plain_lines(hint_texts()),
                    tone: Some(Tone::KeyHint),
                    wrap: false,
                }
            }
        }),
{
}

/// The log pane shows the log lines, wrapped or not as the user has it, below the name
/// of the selected target and within a border, unless the log fills the screen; and the
/// search bar below the log while a search goes on.
pub proof fn law_log_pane_is_drawn(
    model: AppModel,
    panes: PanesModel,
    lines: Seq<Seq<PieceModel>>,
    name: Seq<char>,
)
    requires
        stands_on(model, name) || stands_on_none(model),
    ensures
        ({
            let steps = drawn(model, panes, lines);
            let at = log_step(model);
            let title = if stands_on_none(model) {
                " (no target selected) "@
            } else {
                " "@ + name + " "@
            };
            &&& !model.zoom_logs ==> {
                &&& steps[4] == DrawModel::Border { area: panes.body[1], title: None }
                &&& steps[5] == writes(
                    panes.log[0],
                    seq![toned(title, Tone::PanelTitle)],
                    None,
                )
            }
            &&& steps.len() > at
            &&& steps[at] == DrawModel::Text {
                area: if model.zoom_logs {
                    panes.log[0]
                } else {
                    panes.log[1]
                },
                lines,
                tone: None,
                wrap: model.wrap_logs,
            }
            &&& model.search_mode ==> steps.len() > at + 1 && steps[at + 1] == writes(
                if model.zoom_logs {
                    panes.log[1]
                } else {
                    panes.log[2]
                },
                seq![toned(search_text(model), Tone::SearchBar)],
                None,
            )
        }),
{
    law_selected_target_is_that_of_the_row(model, name);
}

/// A framed text over the middle of the body of the screen, which is blanked out there.
pub open spec fn is_overlay(
    steps: Seq<DrawModel>,
    at: int,
    over: Area,
    title: Seq<char>,
    lines: Seq<Seq<PieceModel>>,
) -> bool {
    &&& steps.len() >= at + 3
    &&& steps[at] == DrawModel::Clear { area: over }
    &&& steps[at + 1] == DrawModel::Border { area: over, title: Some(" "@ + title + " "@) }
    &&& steps[at + 2] == DrawModel::Text {
        area: inner_area(over),
        lines,
        tone: Some(Tone::OverlayText),
        wrap: false,
    }
}

/// The footer is drawn while operations are running, then the help, if it is open, and a
/// description, if one is shown, over everything else. Nothing else is drawn.
pub proof fn law_footer_and_overlays_are_drawn(
    model: AppModel,
    panes: PanesModel,
    lines: Seq<Seq<PieceModel>>,
)
    ensures
        ({
            let steps = drawn(model, panes, lines);
            let over = overlay_area(panes.screen[1]);
            let at = overlay_step(model);
            let help: int = if model.help_visible {
                3
            } else {
                0
            };
            let description: int = if model.describe is Some {
                3
            } else {
                0
            };
            &&& steps.len() == at + help + description
            &&& at > footer_step(model) ==> steps[footer_step(model)] == writes(
                panes.screen[2],
                seq![toned(footer_text(model), Tone::FooterBusy)],
                Some(Tone::FooterBusy),
            )
            &&& model.help_visible ==> is_overlay(
                steps,
                at,
                over,
                "Help"@,
                plain_lines(help_texts()),
            )
            &&& model.describe matches Some(text) ==> is_overlay(
                steps,
                at + help,
                over,
                "Describe"@,
                plain_lines(lines_from(text, 0)),
            )
        }),
{
    lemma_busy(model);
    let over = overlay_area(panes.screen[1]);
    let steps = drawn(model, panes, lines);
    let at = overlay_step(model);
    let help = if model.help_visible {
        overlay_drawn(panes.screen[1], "Help"@, plain_lines(help_texts()))
    } else {
        Seq::empty()
    };
    let before = base_drawn(model, panes, lines) + footer_drawn(
        model,
        panes,
    );
    assert(before.len() == at);
    if model.help_visible {
        assert(steps[at] == help[0]);
        assert(steps[at + 1] == help[1]);
        assert(steps[at + 2] == help[2]);
    }
    if let Some(text) = model.describe {
        let more = overlay_drawn(panes.screen[1], "Describe"@, plain_lines(lines_from(text, 0)));
        let from = at + help.len();
        assert(steps =~= before + (help + more));
        assert(steps[from] == more[0]);
        assert(steps[from + 1] == more[1]);
        assert(steps[from + 2] == more[2]);
    }
}

/// An overlay is four columns narrower and two rows lower than its area, but no narrower
/// than twenty columns and no lower than five rows, and stands in its middle where there
/// is room.
pub proof fn law_place_of_an_overlay(area: Area)
    requires
        area.wf(),
    ensures
        ({
            let over = overlay_area(area);
            &&& area.width >= 24 ==> over.width == area.width - 4 && over.x == area.x + 2
            &&& area.width < 24 ==> over.width == 20
            &&& 20 <= area.width < 24 ==> over.x == area.x + (area.width - 20) / 2
            &&& area.width < 20 ==> over.x == area.x
            &&& area.height >= 7 ==> over.height == area.height - 2 && over.y == area.y + 1
            &&& area.height < 7 ==> over.height == 5
            &&& 5 <= area.height < 7 ==> over.y == area.y + (area.height - 5) / 2
            &&& area.height < 5 ==> over.y == area.y
        }),
{
}

/// The screen is divided into a header of one row, the body and, while operations are
/// running, a footer of one row; the body into a sidebar of thirty columns and a log pane
/// of at least twenty; the sidebar into the rows and five rows of key hints; the log pane
/// into a title of one row, the log and, while a search goes on, the search bar. While
/// the log fills the screen there is no sidebar and no title.
pub proof fn law_how_the_screen_is_divided(model: AppModel, area: Area, panes: PanesModel)
    requires
        laid_out(model, area, panes),
    ensures
        ({
            let idle = model.in_flight.dom() =~= Set::empty();
            let title = if model.zoom_logs {
                Seq::empty()
            } else {
                seq![Size::Length(1)]
            };
            let bar = if model.search_mode {
                seq![Size::Length(1)]
            } else {
                Seq::empty()
            };
            let footer = if idle {
                Seq::empty()
            } else {
                seq![Size::Length(1)]
            };
            &&& may_divide(
                area,
                Axis::Vertical,
                seq![Size::Length(1), Size::Min(0)] + footer,
                panes.screen,
            )
            &&& !model.zoom_logs ==> {
                &&& may_divide(
                    panes.screen[1],
                    Axis::Horizontal,
                    seq![Size::Length(30), Size::Min(20)],
                    panes.body,
                )
                &&& may_divide(
                    inner_area(panes.body[0]),
                    Axis::Vertical,
                    seq![Size::Min(1), Size::Length(5)],
                    panes.sidebar,
                )
            }
            &&& may_divide(
                if model.zoom_logs {
                    panes.screen[1]
                } else {
                    inner_area(panes.body[1])
                },
                Axis::Vertical,
                title + seq![Size::Min(1)] + bar,
                panes.log,
            )
            &&& panes.log_height(model.zoom_logs) == (if model.zoom_logs {
                panes.log[0].height
            } else {
                panes.log[1].height
            })
        }),
{
    lemma_busy(model);
    let one = seq![Size::Length(1)];
    let none = Seq::<Size>::empty();
    let two = seq![Size::Length(1), Size::Min(0)];
    assert(two + one =~= seq![Size::Length(1), Size::Min(0), Size::Length(1)]);
    assert(two + none =~= two);
    let log = seq![Size::Min(1)];
    assert(one + log + one =~= seq![Size::Length(1), Size::Min(1), Size::Length(1)]);
    assert(one + log + none =~= seq![Size::Length(1), Size::Min(1)]);
    assert(none + log + one =~= seq![Size::Min(1), Size::Length(1)]);
    assert(none + log + none =~= log);
}

/// The log window shows the newest lines that are not hidden below it, as many as it has
/// rows, from the oldest to the newest; and a blank line where there is no log.
pub proof fn law_log_window(model: AppModel, name: Seq<char>, rows: nat, k: int)
    requires
        model.wf(),
        stands_on(model, name),
        model.logs.dom().contains(name),
        0 <= k < log_lines(model, rows).len(),
    ensures
        ({
            let log = model.logs[name];
            let shown = log_lines(model, rows);
            let end = log.lines.len() - log.scroll;
            let line = end - shown.len() + k;
            let current = model.search_match_idx < model.search_matches.len()
                && model.search_matches[model.search_match_idx as int] == line;
            &&& 0 <= line < end
            &&& shown.len() == end || shown.len() == rows || (rows == 0 && shown.len() == 1)
            &&& shown.len() <= end
            &&& shown.len() <= rows || shown.len() == 1
            &&& !model.search_mode || model.search_query.len() == 0 ==> shown[k]
                == log.parsed[line]
            &&& model.search_mode && model.search_query.len() > 0 ==> shown[k] == highlighted(
                log.parsed[line],
                model.search_query,
                current,
            )
        }),
{
    law_selected_target_is_that_of_the_row(model, name);
    lemma_logs_get(model.logs, name);
}

/// The log window is not left empty where there are lines to show, and shows a blank line
/// where there is no log.
pub proof fn law_log_window_is_filled(model: AppModel, name: Seq<char>, rows: nat)
    requires
        model.wf(),
        stands_on(model, name) || stands_on_none(model),
    ensures
        ({
            let shown = log_lines(model, rows);
            let has_log = !stands_on_none(model) && model.logs.dom().contains(name);
            &&& !has_log ==> shown.len() == 1 && shown[0].len() == 0
            &&& has_log ==> {
                let end = model.logs[name].lines.len() - model.logs[name].scroll;
                let most: int = if rows > 0 {
                    rows as int
                } else {
                    1
                };
                shown.len() == (if end <= most {
                    end
                } else {
                    most
                })
            }
        }),
{
    law_selected_target_is_that_of_the_row(model, name);
    reveal_strlit("");
    law_text_without_line_feeds(""@);
    if !stands_on_none(model) && model.logs.contains_key(name) {
        lemma_logs_get(model.logs, name);
    }
}

/// Whether the characters from `from` up to `to` have the lower-case form of the query
/// where they stand.
pub open spec fn reads_as(text: Seq<char>, query: Seq<char>, from: int, to: int) -> bool {
    let start = lowercase(text.take(from)).len();
    let end = lowercase(text.take(to)).len();
    &&& 0 <= from < to <= text.len()
    &&& start <= end <= lowercase(text).len()
    &&& lowercase(text).subrange(start as int, end as int) == lowercase(query)
}

/// Whether a character has the tone of a hit.
pub open spec fn is_marked(line: Seq<PieceModel>, at: int, current: bool) -> bool {
    paints(line)[at] == PaintModel::Tone(
        if current {
            Tone::SearchCurrentMatch
        } else {
            Tone::SearchMatch
        },
    )
}

/// Marking the hits in a line leaves its text as it is. Each place where the query begins
/// is marked. What is marked is a part of an occurrence of the query that is marked as a
/// whole, and everything else keeps its style. The hits on the line of the current match
/// have a tone of their own.
pub proof fn law_marks(line: Seq<PieceModel>, query: Seq<char>, current: bool, at: int)
    requires
        query.len() > 0,
        lowercase(query).len() > 0,
        0 <= at < pieces_text(line).len(),
    ensures
        ({
            let text = pieces_text(line);
            let after = highlighted(line, query, current);
            &&& pieces_text(after) == text
            &&& paints(after).len() == text.len()
            &&& forall|to: int| #[trigger] reads_as(text, query, at, to) ==> is_marked(
                after,
                at,
                current,
            )
            &&& paints(after)[at] == paints(line)[at] || exists|from: int, to: int|
                from <= at < to && #[trigger] reads_as(text, query, from, to) && forall|p: int|
                    from <= p < to ==> #[trigger] is_marked(after, p, current)
        }),
{
    let text = pieces_text(line);
    let after = highlighted(line, query, current);
    let ranges = hit_ranges(text, query);
    law_highlighting_marks_the_hits(line, query, current);
    law_hits_are_leftmost(text, query);
    assert forall|to: int| #[trigger] reads_as(text, query, at, to) implies is_marked(
        after,
        at,
        current,
    ) by {
        assert(is_occurrence(text, query, at, to));
        assert(is_taken(ranges, at, to));
        assert(in_ranges(ranges, at));
    }
    if in_ranges(ranges, at) {
        let k = choose|k: int|
            0 <= k < ranges.len() && (#[trigger] ranges[k]).0 <= at < ranges[k].1;
        let from = ranges[k].0;
        let to = ranges[k].1;
        assert(is_occurrence(text, query, from, to));
        assert(form_of_part(text, from, to).len() > 0);
        assert(reads_as(text, query, from, to));
        assert forall|p: int| from <= p < to implies #[trigger] is_marked(after, p, current) by {
            assert(in_ranges(ranges, p));
        }
    }
}

/// Marks stand on lines that are hits, and a text that does not hold the query has none.
pub proof fn law_no_marks_without_a_hit(line: Seq<PieceModel>, query: Seq<char>, current: bool)
    requires
        query.len() > 0,
        !holds(pieces_text(line), query),
    ensures
        paints(highlighted(line, query, current)) == paints(line),
{
    let text = pieces_text(line);
    let ranges = hit_ranges(text, query);
    law_hits_hold_the_query(text, query);
    law_highlighting_marks_the_hits(line, query, current);
    law_hits_are_leftmost(text, query);
    if ranges.len() > 0 {
        law_marked_text_is_a_hit(text, query, ranges[0].0, ranges[0].1);
    }
    lemma_as_many_paints(line);
    assert(paints(highlighted(line, query, current)) =~= paints(line));
}

/// The key hints name the keys that act on targets and those that leave, and the help
/// names all keys.
pub proof fn law_hints_and_help()
    ensures
        hint_texts() == seq![
            " r restart  s stop"@,
            " S start    d dump"@,
            " c clear    e edit"@,
            " q detach   Q exit"@,
            " ? help"@,
        ],
        help_texts() == seq![
            ""@,
            " Navigation:"@,
            "   ↑/↓ or j/k     move selection"@,
            "   Tab            cycle to next row"@,
            "   →/l            expand folder"@,
            "   ←/h            collapse folder"@,
            "   Enter / Space  toggle folder"@,
            ""@,
            " Process actions:"@,
            "   S              start selected"@,
            "   s              stop selected"@,
            "   r              restart selected"@,
            "   R              restart all (clears logs)"@,
            "   d              dump logs to file"@,
            "   c              clear logs"@,
            "   E              edit run file in $EDITOR"@,
            "   D              describe launch"@,
            ""@,
            " Log viewer:"@,
            "   PgUp / b       scroll up"@,
            "   PgDn / f       scroll down"@,
            "   w              toggle line wrap"@,
            "   z              zoom (full-width logs)"@,
            "   /              search logs (Enter cycles next, Esc closes)"@,
            ""@,
            " Exit:"@,
            "   q              detach (leave procs running)"@,
            "   Q / Ctrl+C     stop all + exit"@,
            ""@,
            " Press ? or Esc to dismiss."@,
        ],
{
}

/// An empty query marks nothing.
pub proof fn law_empty_query_marks_nothing(line: Seq<PieceModel>, current: bool)
    ensures
        highlighted(line, Seq::empty(), current) == line,
{
}

} // verus!
