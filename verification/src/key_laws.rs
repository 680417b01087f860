//! What each key does, told by what the user sees of it.

use vstd::prelude::*;

use crate::event::{EffectModel, EventModel, KeyCode, KeyEvent};
use crate::log_buffer::LogModel;
use crate::model::{event_continuation, lemma_logs_get, moved_row, Answers, AppModel};
use crate::row_laws::{
    law_closing_from_inside_selects_the_header, law_down_goes_to_the_nearest_row,
    law_folder_stays_selected, law_moves_end_on_selectable_rows, law_up_goes_to_the_nearest_row,
};
use crate::rows::{computed_rows, RowModel};
use crate::sidebar_laws::law_nothing_else_is_listed;

verus! {

/// Whether the selected row is that of the target called `name`.
pub open spec fn stands_on(model: AppModel, name: Seq<char>) -> bool {
    &&& model.selected < model.rows.len()
    &&& model.rows[model.selected as int] is Target
    &&& model.rows[model.selected as int]->Target_target_idx < model.targets.len()
    &&& model.targets[model.rows[model.selected as int]->Target_target_idx as int].name == name
}

/// Whether the selected row is that of no target.
pub open spec fn stands_on_none(model: AppModel) -> bool {
    ||| model.selected >= model.rows.len()
    ||| !(model.rows[model.selected as int] is Target)
    ||| model.rows[model.selected as int]->Target_target_idx >= model.targets.len()
}

/// Whether no overlay is open and no search goes on.
pub open spec fn at_rest(model: AppModel) -> bool {
    !model.help_visible && model.describe is None && !model.search_mode
}

/// Whether a search goes on and no overlay is open.
pub open spec fn searching(model: AppModel) -> bool {
    !model.help_visible && model.describe is None && model.search_mode
}

/// The application after a key press.
pub open spec fn pressed(model: AppModel, code: KeyCode, answers: Answers) -> AppModel {
    model.after_event(EventModel::Key(KeyEvent { code, control: false }), answers)
}

/// Whether the log buffers are as before but for that of one target.
pub open spec fn others_kept(
    before: Map<Seq<char>, LogModel>,
    after: Map<Seq<char>, LogModel>,
    name: Seq<char>,
) -> bool {
    forall|other: Seq<char>|
        other != name ==> {
            &&& (#[trigger] after.dom().contains(other)) == before.dom().contains(other)
            &&& before.dom().contains(other) ==> after[other] == before[other]
        }
}

/// The lines that are kept of a target.
pub open spec fn lines_of(model: AppModel, name: Seq<char>) -> Seq<Seq<char>> {
    if model.logs.dom().contains(name) {
        model.logs[name].lines
    } else {
        Seq::empty()
    }
}

/// How many lines of a target are hidden below its view.
pub open spec fn hidden_below(model: AppModel, name: Seq<char>) -> nat {
    if model.logs.dom().contains(name) {
        model.logs[name].scroll
    } else {
        0
    }
}

/// The selected target is found through the selected row.
pub proof fn law_selected_target_is_that_of_the_row(model: AppModel, name: Seq<char>)
    ensures
        stands_on(model, name) <==> model.selected_name() == Some(name),
        stands_on_none(model) <==> model.selected_name() is None,
{
}

/// `Q` and control with `c` leave and have all targets stopped, `q` leaves them
/// running; while a search goes on, control with `c` alone leaves. No other key
/// leaves.
pub proof fn law_keys_that_leave(model: AppModel, key: KeyEvent)
    ensures
        ({
            let next = event_continuation(model, EventModel::Key(key));
            let kills = (key.code == KeyCode::Char('c') && key.control) || (!searching(model)
                && key.code == KeyCode::Char('Q'));
            let detaches = !searching(model) && key.code == KeyCode::Char('q');
            &&& next.continue_loop == !(kills || detaches)
            &&& next.stop_all == kills
        }),
{
}

/// A key that leaves changes nothing else.
pub proof fn law_leaving_changes_nothing(model: AppModel, key: KeyEvent, answers: Answers)
    requires
        !event_continuation(model, EventModel::Key(key)).continue_loop,
    ensures
        model.after_event(EventModel::Key(key), answers) == (AppModel {
            dirty: true,
            urgent: true,
            ..model
        }),
{
}

/// `?` opens the help. While it is open, `?` and Escape close it, and no other key
/// does anything to what is on the screen.
pub proof fn law_help_key(model: AppModel, key: KeyEvent, answers: Answers)
    requires
        model.help_visible || (at_rest(model) && key.code == KeyCode::Char('?')),
    ensures
        model.after_event(EventModel::Key(key), answers) == (AppModel {
            help_visible: if model.help_visible {
                key.code != KeyCode::Char('?') && key.code != KeyCode::Esc
            } else {
                true
            },
            dirty: true,
            urgent: true,
            ..model
        }),
{
}

/// While a description is shown, `D` and Escape take it away, and no other key does
/// anything to what is on the screen.
pub proof fn law_description_keys(model: AppModel, key: KeyEvent, answers: Answers)
    requires
        !model.help_visible,
        model.describe is Some,
    ensures
        model.after_event(EventModel::Key(key), answers) == (AppModel {
            describe: if key.code == KeyCode::Char('D') || key.code == KeyCode::Esc {
                None
            } else {
                model.describe
            },
            dirty: true,
            urgent: true,
            ..model
        }),
{
}

/// `/` begins a search with an empty query.
pub proof fn law_slash_begins_a_search(model: AppModel, answers: Answers)
    requires
        at_rest(model),
    ensures
        pressed(model, KeyCode::Char('/'), answers) == (AppModel {
            search_mode: true,
            search_query: Seq::empty(),
            search_matches: Seq::empty(),
            search_match_idx: 0,
            dirty: true,
            urgent: true,
            ..model
        }),
{
}

/// Escape ends a search, with nothing of it left.
pub proof fn law_escape_ends_a_search(model: AppModel, answers: Answers)
    requires
        searching(model),
    ensures
        pressed(model, KeyCode::Esc, answers) == (AppModel {
            search_mode: false,
            search_query: Seq::empty(),
            search_matches: Seq::empty(),
            search_match_idx: 0,
            dirty: true,
            urgent: true,
            ..model
        }),
{
}

/// Whether nothing but the query, its matches and the log view differs.
pub open spec fn only_search_differs(model: AppModel, after: AppModel) -> bool {
    after == AppModel {
        search_query: after.search_query,
        search_matches: after.search_matches,
        search_match_idx: after.search_match_idx,
        logs: after.logs,
        dirty: true,
        urgent: true,
        ..model
    }
}

/// While a search goes on, a character is added to the query, Backspace takes the last
/// one away, and either way the first match is the current one. Nothing changes but
/// the search and where the log stands.
pub proof fn law_typing_changes_the_query(model: AppModel, c: char, answers: Answers)
    requires
        searching(model),
    ensures
        c != '/' ==> {
            let after = pressed(model, KeyCode::Char(c), answers);
            &&& after.search_query == model.search_query.push(c)
            &&& after.search_match_idx == 0
            &&& only_search_differs(model, after)
        },
        ({
            let after = pressed(model, KeyCode::Backspace, answers);
            &&& model.search_query.len() > 0 ==> after.search_query
                == model.search_query.subrange(0, model.search_query.len() - 1)
            &&& model.search_query.len() == 0 ==> after.search_query == model.search_query
            &&& after.search_match_idx == 0
            &&& only_search_differs(model, after)
        }),
{
    if model.search_query.len() > 0 {
        assert(model.search_query.drop_last() =~= model.search_query.subrange(
            0,
            model.search_query.len() - 1,
        ));
    }
}

/// Enter and `/` go on to the next match, and from the last one to the first. The
/// query and its matches stay.
pub proof fn law_enter_goes_on_to_the_next_match(
    model: AppModel,
    code: KeyCode,
    answers: Answers,
)
    requires
        searching(model),
        model.wf(),
        code == KeyCode::Enter || code == KeyCode::Char('/'),
    ensures
        ({
            let after = pressed(model, code, answers);
            let n = model.search_matches.len();
            &&& n > 0 && model.search_match_idx + 1 < n ==> after.search_match_idx
                == model.search_match_idx + 1
            &&& n > 0 && model.search_match_idx + 1 >= n ==> after.search_match_idx == 0
            &&& n == 0 ==> after == AppModel { dirty: true, urgent: true, ..model }
            &&& after.search_query == model.search_query
            &&& after.search_matches == model.search_matches
            &&& only_search_differs(model, after)
        }),
{
    let n = model.search_matches.len();
    let next = model.search_match_idx + 1;
    if n > 0 {
        if next < n {
            vstd::arithmetic::div_mod::lemma_small_mod(next, n);
        } else {
            assert(next == n);
            vstd::arithmetic::div_mod::lemma_mod_self_0(n as int);
        }
    }
}

/// While a search goes on, keys other than characters, Enter, Backspace and Escape do
/// nothing.
pub proof fn law_search_swallows_other_keys(model: AppModel, key: KeyEvent, answers: Answers)
    requires
        searching(model),
        !(key.code is Char),
        key.code != KeyCode::Enter,
        key.code != KeyCode::Backspace,
        key.code != KeyCode::Esc,
    ensures
        model.after_event(EventModel::Key(key), answers) == (AppModel {
            dirty: true,
            urgent: true,
            ..model
        }),
{
}

/// A key moves the log view to the current match: it stands in the window with as
/// many lines below it as above, where there are that many newer lines; otherwise the
/// newest line is in view. The lines themselves stay.
pub open spec fn is_centred(log: LogModel, before: LogModel, line: nat, height: u16) -> bool {
    let rows: int = if height >= 5 {
        height - 4
    } else {
        1
    };
    let below = log.lines.len() - log.scroll - 1 - line;
    &&& log.lines == before.lines
    &&& log.parsed == before.parsed
    &&& 0 <= below <= rows / 2
    &&& below < rows / 2 ==> log.scroll == 0
    &&& log.at_bottom == (log.scroll == 0)
}

/// Typing and going on to the next match bring the current match into view, and leave
/// the logs of other targets alone. Where there is no match, no log moves.
pub proof fn law_search_brings_its_match_into_view(
    model: AppModel,
    name: Seq<char>,
    code: KeyCode,
    answers: Answers,
)
    requires
        searching(model),
        stands_on(model, name),
        model.logs.dom().contains(name),
        code == KeyCode::Enter || code == KeyCode::Backspace || code is Char,
    ensures
        ({
            let after = pressed(model, code, answers);
            &&& others_kept(model.logs, after.logs, name)
            &&& after.logs.dom().contains(name)
            &&& after.search_matches.len() == 0 ==> after.logs == model.logs
            &&& after.search_match_idx < after.search_matches.len()
                && after.search_matches[after.search_match_idx as int]
                < model.logs[name].lines.len() ==> is_centred(
                after.logs[name],
                model.logs[name],
                after.search_matches[after.search_match_idx as int] as nat,
                model.last_height,
            )
        }),
{
}

/// Whether the rows strictly between two positions are all dividers.
pub open spec fn only_dividers_between(rows: Seq<RowModel>, a: int, b: int) -> bool {
    forall|i: int| a < i < b && 0 <= i < rows.len() ==> #[trigger] rows[i] is Separator
}

/// Whether the selection has moved to another row, and nothing else has changed but
/// what comes with that: errors that are now before the user count as seen.
pub open spec fn only_selection_differs(model: AppModel, after: AppModel) -> bool {
    &&& after == AppModel {
        selected: after.selected,
        unread_otel_errors: after.unread_otel_errors,
        otel_blink_on: after.otel_blink_on,
        dirty: true,
        urgent: true,
        ..model
    }
    &&& after.selected != model.selected && stands_on(after, "otel-errors"@)
        ==> after.unread_otel_errors == 0 && !after.otel_blink_on
    &&& after.selected == model.selected || !stands_on(after, "otel-errors"@)
        ==> after.unread_otel_errors == model.unread_otel_errors && after.otel_blink_on
        == model.otel_blink_on
}

/// Down, Tab and `j` select the next row below that is no divider, and leave the
/// selection where there is none.
pub proof fn law_down_keys(model: AppModel, code: KeyCode, answers: Answers)
    requires
        at_rest(model),
        code == KeyCode::Down || code == KeyCode::Tab || code == KeyCode::Char('j'),
        model.selected < model.rows.len(),
        !(model.rows[model.selected as int] is Separator),
    ensures
        ({
            let after = pressed(model, code, answers);
            &&& only_selection_differs(model, after)
            &&& after.selected == model.selected ==> only_dividers_between(
                model.rows,
                model.selected as int,
                model.rows.len() as int,
            )
            &&& after.selected != model.selected ==> {
                &&& model.selected < after.selected < model.rows.len()
                &&& !(model.rows[after.selected as int] is Separator)
                &&& only_dividers_between(
                    model.rows,
                    model.selected as int,
                    after.selected as int,
                )
            }
        }),
{
    law_down_goes_to_the_nearest_row(model.rows, model.selected as int);
    lemma_moves(model, 1);
}

/// Up and `k` select the next row above that is no divider, and leave the selection
/// where there is none.
pub proof fn law_up_keys(model: AppModel, code: KeyCode, answers: Answers)
    requires
        at_rest(model),
        code == KeyCode::Up || code == KeyCode::Char('k'),
        model.selected < model.rows.len(),
        !(model.rows[model.selected as int] is Separator),
    ensures
        ({
            let after = pressed(model, code, answers);
            &&& only_selection_differs(model, after)
            &&& after.selected == model.selected ==> only_dividers_between(
                model.rows,
                -1,
                model.selected as int,
            )
            &&& after.selected != model.selected ==> {
                &&& after.selected < model.selected
                &&& !(model.rows[after.selected as int] is Separator)
                &&& only_dividers_between(
                    model.rows,
                    after.selected as int,
                    model.selected as int,
                )
            }
        }),
{
    law_up_goes_to_the_nearest_row(model.rows, model.selected as int);
    lemma_moves(model, -1);
}

proof fn lemma_moves(model: AppModel, delta: int)
    requires
        at_rest(model),
        model.selected < model.rows.len(),
        0 <= moved_row(model.rows, model.selected as int, delta),
    ensures
        only_selection_differs(model, model.marked().moved(delta)),
        model.moved(delta).selected == moved_row(model.rows, model.selected as int, delta),
        model.moved(delta).rows == model.rows,
        model.marked().moved(delta) == (AppModel {
            dirty: true,
            urgent: true,
            ..model.moved(delta)
        }),
{
    let after = AppModel { dirty: true, urgent: true, ..model.moved(delta) };
    law_selected_target_is_that_of_the_row(after, "otel-errors"@);
}

/// From a divider too, a move ends on a row that is none, if there is one.
pub proof fn law_moves_leave_dividers(
    model: AppModel,
    code: KeyCode,
    answers: Answers,
    some: int,
)
    requires
        at_rest(model),
        code == KeyCode::Up || code == KeyCode::Down || code == KeyCode::Tab || code
            == KeyCode::Char('j') || code == KeyCode::Char('k'),
        model.selected < model.rows.len(),
        0 <= some < model.rows.len(),
        !(model.rows[some] is Separator),
    ensures
        pressed(model, code, answers).selected < model.rows.len(),
        !(model.rows[pressed(model, code, answers).selected as int] is Separator),
{
    let delta: int = if code == KeyCode::Up || code == KeyCode::Char('k') {
        -1
    } else {
        1
    };
    law_moves_end_on_selectable_rows(model.rows, model.selected as int, delta, some);
    lemma_moves(model, delta);
}

/// Whether the log view of one target has moved to where so many lines are hidden
/// below it, and nothing else has changed.
pub open spec fn only_view_differs(
    model: AppModel,
    after: AppModel,
    name: Seq<char>,
    hidden: int,
) -> bool {
    &&& after == AppModel { logs: after.logs, dirty: after.dirty, urgent: after.urgent, ..model }
    &&& others_kept(model.logs, after.logs, name)
    &&& after.logs.dom().contains(name)
    &&& after.logs[name].lines == lines_of(model, name)
    &&& model.logs.dom().contains(name) ==> after.logs[name].parsed == model.logs[name].parsed
    &&& after.logs[name].scroll == hidden
    &&& after.logs[name].at_bottom == (hidden == 0)
}

/// Page up and `b` move the view of the selected target ten lines towards older lines,
/// as far as there are any; page down and `f` move it ten lines towards newer ones, as
/// far as there are any.
pub proof fn law_page_keys(model: AppModel, name: Seq<char>, answers: Answers)
    requires
        at_rest(model),
        model.wf(),
        stands_on(model, name),
    ensures
        ({
            let total = lines_of(model, name).len() as int;
            let hidden = hidden_below(model, name) as int;
            let older = if hidden + 10 <= total {
                hidden + 10
            } else {
                total
            };
            let newer = if hidden >= 10 {
                hidden - 10
            } else {
                0
            };
            &&& only_view_differs(model, pressed(model, KeyCode::PageUp, answers), name, older)
            &&& only_view_differs(model, pressed(model, KeyCode::Char('b'), answers), name, older)
            &&& only_view_differs(model, pressed(model, KeyCode::PageDown, answers), name, newer)
            &&& only_view_differs(model, pressed(model, KeyCode::Char('f'), answers), name, newer)
        }),
{
    if model.logs.contains_key(name) {
        lemma_logs_get(model.logs, name);
    }
}

/// Whether a folder was opened or closed, and nothing else has changed but the rows
/// that follow from it and which of them is selected.
pub open spec fn only_folder_differs(
    model: AppModel,
    after: AppModel,
    group: Seq<char>,
    open: bool,
) -> bool {
    &&& after == AppModel {
        folder_expanded: model.folder_expanded.insert(group, open),
        rows: computed_rows(model.targets, model.folder_expanded.insert(group, open)),
        row_names: after.row_names,
        selected: after.selected,
        dirty: true,
        urgent: true,
        ..model
    }
}

/// With the header of a folder selected, Right and `l` open the folder, Left and `h`
/// close it, and Enter and the space bar do what it needs. The header stays selected.
pub proof fn law_folder_keys(model: AppModel, group: Seq<char>, answers: Answers)
    requires
        at_rest(model),
        model.rows_current(),
        model.selected < model.rows.len(),
        model.rows[model.selected as int] is Folder,
        model.rows[model.selected as int]->Folder_group == group,
    ensures
        ({
            let open = model.folder_expanded.dom().contains(group) && model.folder_expanded[group];
            let right = pressed(model, KeyCode::Right, answers);
            let left = pressed(model, KeyCode::Left, answers);
            let enter = pressed(model, KeyCode::Enter, answers);
            &&& only_folder_differs(model, right, group, true)
            &&& only_folder_differs(model, left, group, false)
            &&& only_folder_differs(model, enter, group, !open)
            &&& right.selected == model.selected
            &&& left.selected == model.selected
            &&& enter.selected == model.selected
            &&& pressed(model, KeyCode::Char('l'), answers) == right
            &&& pressed(model, KeyCode::Char('h'), answers) == left
            &&& pressed(model, KeyCode::Char(' '), answers) == enter
        }),
{
    let open = model.folder_expanded.dom().contains(group) && model.folder_expanded[group];
    law_nothing_else_is_listed(model.targets, model.folder_expanded, model.selected as int);
    assert(model.rows[model.selected as int]->Folder_expanded == open);
    law_folder_stays_selected(model.marked(), group, true);
    law_folder_stays_selected(model.marked(), group, false);
}

/// With the row of a target selected that stands in a folder, Left and `h` close the
/// folder and select its header. The other folder keys do nothing there, and none of
/// them does anything on a top-level target.
pub proof fn law_folder_keys_on_a_target(
    model: AppModel,
    group: Seq<char>,
    header: int,
    answers: Answers,
)
    requires
        at_rest(model),
        model.rows_current(),
        model.selected < model.rows.len(),
        model.rows[model.selected as int] is Target,
        model.rows[model.selected as int]->Target_group == group,
        group.len() > 0 ==> 0 <= header < model.rows.len() && model.rows[header] is Folder
            && model.rows[header]->Folder_group == group,
    ensures
        ({
            let same = AppModel { dirty: true, urgent: true, ..model };
            let left = pressed(model, KeyCode::Left, answers);
            &&& pressed(model, KeyCode::Right, answers) == same
            &&& pressed(model, KeyCode::Char('l'), answers) == same
            &&& pressed(model, KeyCode::Enter, answers) == same
            &&& pressed(model, KeyCode::Char(' '), answers) == same
            &&& pressed(model, KeyCode::Char('h'), answers) == left
            &&& group.len() == 0 ==> left == same
            &&& group.len() > 0 ==> {
                &&& only_folder_differs(model, left, group, false)
                &&& left.selected < left.rows.len()
                &&& left.rows[left.selected as int] is Folder
                &&& left.rows[left.selected as int]->Folder_group == group
            }
        }),
{
    if group.len() > 0 {
        law_closing_from_inside_selects_the_header(model.marked(), group, header);
    }
}

/// The control key makes no difference but for `c`.
pub proof fn law_control_key(model: AppModel, code: KeyCode, answers: Answers)
    requires
        code != KeyCode::Char('c'),
    ensures
        model.after_event(EventModel::Key(KeyEvent { code, control: true }), answers) == pressed(
            model,
            code,
            answers,
        ),
{
    let with = KeyEvent { code, control: true };
    let without = KeyEvent { code, control: false };
    assert(model.action_of(with) == model.action_of(without));
}

/// A move goes to the row that so many single moves lead to. Where the row is another
/// one, a search ends, and nothing else has changed but what comes with that.
pub proof fn law_moves(model: AppModel, delta: int)
    requires
        model.selected < model.rows.len(),
        !(model.rows[model.selected as int] is Separator),
    ensures
        ({
            let after = model.moved(delta);
            let row = moved_row(model.rows, model.selected as int, delta);
            let seen = row != model.selected && stands_on(after, "otel-errors"@);
            let ends = row != model.selected && model.search_mode;
            &&& 0 <= row < model.rows.len()
            &&& after == AppModel {
                selected: row as nat,
                unread_otel_errors: if seen {
                    0
                } else {
                    model.unread_otel_errors
                },
                otel_blink_on: if seen {
                    false
                } else {
                    model.otel_blink_on
                },
                search_mode: model.search_mode && !ends,
                search_query: if ends {
                    Seq::empty()
                } else {
                    model.search_query
                },
                search_matches: if ends {
                    Seq::empty()
                } else {
                    model.search_matches
                },
                search_match_idx: if ends {
                    0
                } else {
                    model.search_match_idx
                },
                ..model
            }
        }),
{
    law_moves_end_on_selectable_rows(
        model.rows,
        model.selected as int,
        delta,
        model.selected as int,
    );
    law_selected_target_is_that_of_the_row(model.moved(delta), "otel-errors"@);
}

/// Where no target is selected, or it has no log, a search moves no log.
pub proof fn law_search_without_a_log(
    model: AppModel,
    name: Seq<char>,
    code: KeyCode,
    answers: Answers,
)
    requires
        searching(model),
        stands_on_none(model) || (stands_on(model, name) && !model.logs.dom().contains(name)),
    ensures
        pressed(model, code, answers).logs == model.logs,
{
    law_selected_target_is_that_of_the_row(model, name);
}

/// Where there are no rows, a move does nothing.
pub proof fn law_nothing_to_move_over(model: AppModel, delta: int)
    requires
        model.rows.len() == 0,
    ensures
        model.moved(delta) == model,
{
}

/// The target of the selected row is the one at its position among the targets, and the
/// row of the collector's errors is that of the target of that name.
pub proof fn law_selected_target(model: AppModel)
    ensures
        stands_on_none(model) ==> model.selected_target() is None,
        !stands_on_none(model) ==> model.selected_target() == Some(
            model.targets[model.rows[model.selected as int]->Target_target_idx as int],
        ),
        model.otel_selected() == stands_on(model, "otel-errors"@),
{
}

/// What the single steps change: a message stays for two heartbeats; a full repaint is due
/// at once; an ended search leaves nothing behind; an operation that has ended is no
/// longer listed; and the blink timer is armed where there is an event loop.
pub proof fn law_single_steps(model: AppModel, msg: Seq<char>, id: u64)
    ensures
        model.flashed(msg) == (AppModel { status_msg: msg, status_msg_until_tick: 2, ..model }),
        model.full_redraw_marked() == (AppModel {
            force_full_redraw: true,
            dirty: true,
            urgent: true,
            ..model
        }),
        model.search_reset() == (AppModel {
            search_mode: false,
            search_query: Seq::empty(),
            search_matches: Seq::empty(),
            search_match_idx: 0,
            ..model
        }),
        model.op_left(id, msg) == (AppModel {
            in_flight: model.in_flight.remove(id),
            status_msg: msg,
            status_msg_until_tick: 2,
            ..model
        }),
        model.attached ==> model.blink_armed() == (AppModel {
            effects: model.effects.push(EffectModel::ArmBlink),
            ..model
        }),
        !model.attached ==> model.blink_armed() == model,
{
}

} // verus!
