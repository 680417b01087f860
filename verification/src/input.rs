//! What the keys do.

use vstd::prelude::*;

use crate::app::{App, Continuation};
use crate::dump::{dump_destination, utc_now, STAMP_PATTERN};
use crate::event::{Effect, KeyEvent};
use crate::handle::{outcome, ManagerHandle, Outcome};
use crate::keymap::{action_for, Action};
use crate::model::{
    continuation, emptied, moved_row, nearest_selectable, restart_names,
    row_of_folder, walk, Answers, AppModel,
};
use crate::ops::{concat, plan, report_text, Op};
use crate::rows::{is_selectable, Row, RowModel};
use crate::target::{RunTarget, Status};
use crate::text::{lemma_views_push, same_text, views};

verus! {

/// Whether an action asks anything of the manager.
pub open spec fn asks(action: Action) -> bool {
    match action {
        Action::Start
        | Action::Stop
        | Action::Restart
        | Action::RestartAll
        | Action::DumpLog
        | Action::ClearLog
        | Action::Describe => true,
        _ => false,
    }
}

/// Whether an action concerns the search.
pub open spec fn concerns_search(action: Action) -> bool {
    match action {
        Action::OpenSearch
        | Action::EndSearch
        | Action::NextMatch
        | Action::EraseFromQuery
        | Action::AddToQuery(_) => true,
        _ => false,
    }
}

/// The answers where nothing was asked.
pub open spec fn no_answers() -> Answers {
    Answers {
        statuses: Map::empty(),
        targets: Seq::empty(),
        collector: Ok(()),
        clear: Ok(()),
        description: Seq::empty(),
        op: Seq::empty(),
        stamp: Seq::empty(),
    }
}

fn walk_rows(rows: &Vec<Row>, start: usize, down: bool, hops: usize) -> (r: usize)
    requires
        start < rows@.len(),
    ensures
        r == walk(views(rows@), start as int, down, hops as nat),
        r < rows@.len(),
{
    let ghost models = views(rows@);
    let n: usize = rows.len();
    let mut cur: usize = start;
    let mut left: usize = hops;
    while left > 0 && ((down && cur + 1 < n) || (!down && cur > 0))
        invariant
            models == views(rows@),
            cur < n == rows@.len(),
            walk(models, cur as int, down, left as nat) == walk(
                models,
                start as int,
                down,
                hops as nat,
            ),
        decreases
                if down {
                    rows@.len() - cur
                } else {
                    cur + 1
                },
    {
        let next: usize = if down {
            cur + 1
        } else {
            cur - 1
        };
        assert(models[next as int] == rows@[next as int]@);
        if is_selectable(&rows[next]) {
            left = left - 1;
        }
        cur = next;
    }
    cur
}

fn scan_down(rows: &Vec<Row>, start: usize) -> (r: Option<usize>)
    ensures
        match r {
            Some(i) => i < rows@.len() && nearest_selectable(views(rows@), start as int, true)
                == Some(i as int),
            None => nearest_selectable(views(rows@), start as int, true) is None,
        },
{
    let ghost models = views(rows@);
    let mut cur: usize = start;
    while cur < rows.len()
        invariant
            models == views(rows@),
            nearest_selectable(models, cur as int, true) == nearest_selectable(
                models,
                start as int,
                true,
            ),
        decreases rows@.len() - cur,
    {
        assert(models[cur as int] == rows@[cur as int]@);
        if is_selectable(&rows[cur]) {
            return Some(cur);
        }
        cur = cur + 1;
    }
    None
}

/// Looks upwards from the row before `above`.
fn scan_up(rows: &Vec<Row>, above: usize) -> (r: Option<usize>)
    requires
        above <= rows@.len(),
    ensures
        match r {
            Some(i) => i < rows@.len() && nearest_selectable(views(rows@), above - 1, false)
                == Some(i as int),
            None => nearest_selectable(views(rows@), above - 1, false) is None,
        },
{
    let ghost models = views(rows@);
    let mut cur: usize = above;
    while cur > 0
        invariant
            models == views(rows@),
            cur <= rows@.len(),
            nearest_selectable(models, cur - 1, false) == nearest_selectable(
                models,
                above - 1,
                false,
            ),
        decreases cur,
    {
        assert(models[cur - 1] == rows@[cur - 1]@);
        if is_selectable(&rows[cur - 1]) {
            return Some(cur - 1);
        }
        cur = cur - 1;
    }
    None
}

/// Finds the row that the selection moves to.
fn find_moved_row(rows: &Vec<Row>, start: usize, delta: i32) -> (r: usize)
    requires
        start < rows@.len(),
    ensures
        r == moved_row(views(rows@), start as int, delta as int),
        r < rows@.len(),
{
    let n: usize = rows.len();
    let down: bool = delta >= 0;
    let hops: usize = if down {
        delta as usize
    } else {
        (0 - delta as i64) as usize
    };
    let end: usize = walk_rows(rows, start, down, hops);
    assert(views(rows@)[end as int] == rows@[end as int]@);
    if is_selectable(&rows[end]) {
        return end;
    }
    assert(end < n);
    let below: Option<usize> = scan_down(rows, end + 1);
    let above: Option<usize> = scan_up(rows, end);
    let (ahead, behind): (Option<usize>, Option<usize>) = if down {
        (below, above)
    } else {
        (above, below)
    };
    match (ahead, behind) {
        (Some(i), _) => i,
        (None, Some(i)) => i,
        (None, None) => end,
    }
}

/// Moves the selection by `delta` rows.
pub fn move_selection<H: ManagerHandle>(app: &mut App<H>, delta: i32)
    requires
        old(app)@.wf(),
    ensures
        final(app)@ == old(app)@.moved(delta as int),
        final(app)@.wf(),
        final(app).manager == old(app).manager,
{
    if app.rows.len() == 0 {
        return ;
    }
    let row: usize = find_moved_row(&app.rows, app.selected, delta);
    if row != app.selected {
        if app.search_mode {
            app.reset_search();
        }
        app.selected = row;
        app.mark_otel_seen_if_selected();
    }
}

/// The folder that the selected row is the header of, and whether it is open.
fn selected_folder<H: ManagerHandle>(app: &App<H>) -> (r: Option<(String, bool)>)
    ensures
        match r {
            Some((group, expanded)) => app@.selected_row() matches Some(
                RowModel::Folder { group: g, expanded: e, .. },
            ) && g == group@ && e == expanded,
            None => !(app@.selected_row() matches Some(RowModel::Folder { .. })),
        },
{
    if app.selected < app.rows.len() {
        assert(app@.rows[app.selected as int] == app.rows@[app.selected as int]@);
        match &app.rows[app.selected] {
            Row::Folder { group, expanded, .. } => Some((group.clone(), *expanded)),
            _ => None,
        }
    } else {
        None
    }
}

/// Opens or closes a folder.
fn set_folder<H: ManagerHandle>(app: &mut App<H>, group: String, open: bool)
    ensures
        final(app)@ == old(app)@.folder_set(group@, open),
        old(app)@.wf() ==> final(app)@.wf(),
        final(app).manager == old(app).manager,
{
    app.folder_expanded.insert(group, open);
    app.rebuild_rows();
}

/// Opens the selected folder.
pub fn expand_folder<H: ManagerHandle>(app: &mut App<H>)
    ensures
        final(app)@ == old(app)@.folder_expanded_here(),
        old(app)@.wf() ==> final(app)@.wf(),
        final(app).manager == old(app).manager,
{
    match selected_folder(app) {
        Some((group, _)) => set_folder(app, group, true),
        None => {},
    }
}

/// Opens the selected folder if it is closed, and closes it if it is open.
pub fn toggle_folder<H: ManagerHandle>(app: &mut App<H>)
    ensures
        final(app)@ == old(app)@.folder_toggled_here(),
        old(app)@.wf() ==> final(app)@.wf(),
        final(app).manager == old(app).manager,
{
    match selected_folder(app) {
        Some((group, expanded)) => set_folder(app, group, !expanded),
        None => {},
    }
}

fn find_folder_row(rows: &Vec<Row>, group: &str) -> (r: Option<usize>)
    ensures
        match r {
            Some(i) => i < rows@.len() && row_of_folder(views(rows@), group@, 0) == Some(i as nat),
            None => row_of_folder(views(rows@), group@, 0) is None,
        },
{
    let ghost models = views(rows@);
    let mut i: usize = 0;
    while i < rows.len()
        invariant
            i <= rows@.len(),
            models == views(rows@),
            row_of_folder(models, group@, i as nat) == row_of_folder(models, group@, 0),
        decreases rows@.len() - i,
    {
        assert(models[i as int] == rows@[i as int]@);
        match &rows[i] {
            Row::Folder { group: g, .. } => {
                if same_text(g.as_str(), group) {
                    return Some(i);
                }
            },
            _ => {},
        }
        i = i + 1;
    }
    None
}

/// The folder that the selected target is listed in.
fn folder_of_selected_target<H: ManagerHandle>(app: &App<H>) -> (r: Option<String>)
    ensures
        match r {
            Some(group) => app@.selected_row() matches Some(RowModel::Target { group: g, .. }) && g
                == group@ && g.len() > 0,
            None => app@.selected_row() matches Some(RowModel::Target { group: g, .. }) ==> g.len()
                == 0,
        },
{
    if app.selected < app.rows.len() {
        assert(app@.rows[app.selected as int] == app.rows@[app.selected as int]@);
        match &app.rows[app.selected] {
            Row::Target { group, .. } => {
                if group.as_str().is_empty() {
                    None
                } else {
                    Some(group.clone())
                }
            },
            _ => None,
        }
    } else {
        None
    }
}

/// Closes the selected folder, or the folder of the selected target, whose header
/// is then selected.
pub fn collapse_folder<H: ManagerHandle>(app: &mut App<H>)
    ensures
        final(app)@ == old(app)@.folder_collapsed_here(),
        old(app)@.wf() ==> final(app)@.wf(),
        final(app).manager == old(app).manager,
{
    match selected_folder(app) {
        Some((group, _)) => set_folder(app, group, false),
        None => {
            match folder_of_selected_target(app) {
                Some(group) => {
                    set_folder(app, group.clone(), false);
                    match find_folder_row(&app.rows, group.as_str()) {
                        Some(i) => {
                            app.selected = i;
                        },
                        None => {},
                    }
                },
                None => {},
            }
        },
    }
}

/// Starts the selected target.
pub fn action_start<H: ManagerHandle>(app: &mut App<H>)
    requires
        old(app)@.wf(),
    ensures
        exists|a: Answers|
            old(app)@.can_answer(Action::Start, a) && final(app)@ == #[trigger] old(
                app,
            )@.op_begun(Action::Start, a),
        final(app)@.wf(),
        final(app).manager.follows(old(app).manager),
{
    match app.selected_target_name() {
        Some(name) => begin(app, Op::Start { name }, Ghost(Action::Start)),
        None => {
            assert(app@ == app@.op_begun(Action::Start, no_answers()));
        },
    }
}

/// Stops the selected target.
pub fn action_stop<H: ManagerHandle>(app: &mut App<H>)
    requires
        old(app)@.wf(),
    ensures
        exists|a: Answers|
            old(app)@.can_answer(Action::Stop, a) && final(app)@ == #[trigger] old(
                app,
            )@.op_begun(Action::Stop, a),
        final(app)@.wf(),
        final(app).manager.follows(old(app).manager),
{
    match app.selected_target_name() {
        Some(name) => begin(app, Op::Stop { name }, Ghost(Action::Stop)),
        None => {
            assert(app@ == app@.op_begun(Action::Stop, no_answers()));
        },
    }
}

/// Restarts the selected target.
pub fn action_restart<H: ManagerHandle>(app: &mut App<H>)
    requires
        old(app)@.wf(),
    ensures
        exists|a: Answers|
            old(app)@.can_answer(Action::Restart, a) && final(app)@ == #[trigger] old(
                app,
            )@.op_begun(Action::Restart, a),
        final(app)@.wf(),
        final(app).manager.follows(old(app).manager),
{
    match app.selected_target_name() {
        Some(name) => begin(app, Op::Restart { name }, Ghost(Action::Restart)),
        None => {
            assert(app@ == app@.op_begun(Action::Restart, no_answers()));
        },
    }
}

/// Begins the operation `op` of an action.
fn begin<H: ManagerHandle>(app: &mut App<H>, op: Op, action: Ghost<Action>)
    requires
        old(app)@.wf(),
        old(app)@.op_for(action@, Seq::empty()) == Some(op@),
        !(action@ is DumpLog),
    ensures
        exists|a: Answers|
            old(app)@.can_answer(action@, a) && final(app)@ == #[trigger] old(app)@.op_begun(
                action@,
                a,
            ),
        final(app)@.wf(),
        final(app).manager.follows(old(app).manager),
{
    app.spawn_op(op);
    proof {
        let outcomes = choose|outcomes: Seq<Outcome>|
            outcomes.len() == plan(op@).len() && app@ == #[trigger] old(app)@.op_spawned(
                op@,
                outcomes,
            );
        let a = Answers { op: outcomes, ..no_answers() };
        assert(app@ == old(app)@.op_begun(action@, a));
    }
}

/// Writes the log of the selected target to a file.
pub fn action_dump<H: ManagerHandle>(app: &mut App<H>)
    requires
        old(app)@.wf(),
    ensures
        exists|a: Answers|
            old(app)@.can_answer(Action::DumpLog, a) && final(app)@ == #[trigger] old(
                app,
            )@.op_begun(Action::DumpLog, a),
        final(app)@.wf(),
        final(app).manager.follows(old(app).manager),
{
    match app.selected_target_name() {
        Some(name) => {
            let stamp: String = utc_now(STAMP_PATTERN);
            let ghost op = app@.dump_op(name@, stamp@);
            dump_at(app, name, stamp.as_str());
            proof {
                let outcomes = choose|outcomes: Seq<Outcome>|
                    outcomes.len() == plan(op).len() && app@ == #[trigger] old(app)@.op_spawned(
                        op,
                        outcomes,
                    );
                let a = Answers { op: outcomes, stamp: stamp@, ..no_answers() };
                assert(app@ == old(app)@.op_begun(Action::DumpLog, a));
            }
        },
        None => {
            assert(app@ == app@.op_begun(Action::DumpLog, no_answers()));
        },
    }
}

/// Writes the log of the target `name` to a file that bears the time `stamp` in its
/// name.
pub fn dump_at<H: ManagerHandle>(app: &mut App<H>, name: String, stamp: &str)
    requires
        old(app)@.wf(),
    ensures
        exists|outcomes: Seq<Outcome>|
            outcomes.len() == plan(old(app)@.dump_op(name@, stamp@)).len() && final(app)@
                == #[trigger] old(app)@.op_spawned(old(app)@.dump_op(name@, stamp@), outcomes),
        final(app)@.wf(),
        final(app).manager.follows(old(app).manager),
{
    let dest: String = dump_destination(app.dump_dir.as_str(), name.as_str(), stamp);
    app.spawn_op(Op::Dump { name, dest });
}

/// The names of the targets that a bulk restart covers.
fn names_to_restart<H: ManagerHandle>(app: &App<H>) -> (r: Vec<String>)
    ensures
        views(r@) == restart_names(app@.targets, app@.statuses, app@.targets.len()),
{
    let mut names: Vec<String> = Vec::new();
    let mut i: usize = 0;
    assert(views(names@) =~= restart_names(app@.targets, app@.statuses, 0));
    while i < app.targets.len()
        invariant
            i <= app.targets@.len(),
            views(names@) == restart_names(app@.targets, app@.statuses, i as nat),
        decreases app.targets@.len() - i,
    {
        let t: &RunTarget = &app.targets[i];
        assert(app@.targets[i as int] == t@);
        let running: bool = match app.statuses.get(t.name.as_str()) {
            Some(status) => *status == Status::Running,
            None => false,
        };
        if t.autorun || running {
            let name: String = t.name.clone();
            proof {
                lemma_views_push(names@, name);
            }
            names.push(name);
        }
        i = i + 1;
    }
    names
}

/// Empties the log buffers of the named targets.
fn empty_logs_of<H: ManagerHandle>(app: &mut App<H>, names: &Vec<String>)
    requires
        old(app)@.wf(),
    ensures
        final(app)@ == (AppModel {
            logs: emptied(old(app)@.logs, views(names@), names@.len()),
            ..old(app)@
        }),
        final(app)@.wf(),
        final(app).manager == old(app).manager,
{
    let ghost before = app@;
    let ghost texts = views(names@);
    let mut i: usize = 0;
    while i < names.len()
        invariant
            i <= names@.len(),
            texts == views(names@),
            app@ == (AppModel { logs: emptied(before.logs, texts, i as nat), ..before }),
            app@.wf(),
            app.manager == old(app).manager,
        decreases names@.len() - i,
    {
        assert(texts[i as int] == names@[i as int]@);
        app.empty_log(names[i].as_str());
        i = i + 1;
    }
}

/// Restarts all targets that bulk operations cover, with their logs emptied.
pub fn action_restart_all<H: ManagerHandle>(app: &mut App<H>)
    requires
        old(app)@.wf(),
    ensures
        exists|a: Answers|
            old(app)@.can_answer(Action::RestartAll, a) && final(app)@ == #[trigger] old(
                app,
            )@.restarted_logs_emptied().op_begun(Action::RestartAll, a),
        final(app)@.wf(),
        final(app).manager.follows(old(app).manager),
{
    let names: Vec<String> = names_to_restart(app);
    empty_logs_of(app, &names);
    let ghost cleared = app@;
    begin(app, Op::RestartAll { names }, Ghost(Action::RestartAll));
    proof {
        let a = choose|a: Answers|
            cleared.can_answer(Action::RestartAll, a) && app@ == #[trigger] cleared.op_begun(
                Action::RestartAll,
                a,
            );
        assert(old(app)@.can_answer(Action::RestartAll, a));
        assert(app@ == old(app)@.restarted_logs_emptied().op_begun(Action::RestartAll, a));
    }
}

/// Clears the log of the selected target.
pub fn action_clear<H: ManagerHandle>(app: &mut App<H>)
    requires
        old(app)@.wf(),
    ensures
        exists|outcome: Outcome| final(app)@ == #[trigger] old(app)@.log_cleared(outcome),
        final(app)@.wf(),
        final(app).manager.follows(old(app).manager),
{
    match app.selected_target_name() {
        Some(name) => {
            app.empty_log(name.as_str());
            app.search_matches.clear();
            app.search_match_idx = 0;
            let result: Result<(), String> = app.manager.clear_log(name.as_str());
            let ghost reply = outcome(result);
            let mut done: String = concat("cleared ", name.as_str());
            done.append(" logs");
            let msg: String = report_text(done, concat("clear ", name.as_str()), result);
            app.flash(msg.as_str());
            assert(app@ == old(app)@.log_cleared(reply));
        },
        None => {
            assert(app@ == app@.log_cleared(Ok(())));
        },
    }
}

/// Shows a description of a target, or says that it is missing.
fn show_description<H: ManagerHandle>(app: &mut App<H>, name: &str, body: String)
    ensures
        final(app)@ == old(app)@.description_shown(name@, body@),
        old(app)@.wf() ==> final(app)@.wf(),
        final(app).manager == old(app).manager,
{
    if body.as_str().is_empty() {
        let msg: String = concat("no description for ", name);
        app.flash(msg.as_str());
    } else {
        app.describe = Some(body);
    }
}

/// Shows how the selected target is launched.
pub fn action_describe<H: ManagerHandle>(app: &mut App<H>)
    requires
        old(app)@.wf(),
    ensures
        exists|description: Seq<char>|
            final(app)@ == #[trigger] old(app)@.described(description),
        final(app)@.wf(),
        final(app).manager.follows(old(app).manager),
{
    match app.selected_target_name() {
        Some(name) => {
            let body: String = app.manager.describe(name.as_str());
            let ghost description = body@;
            show_description(app, name.as_str(), body);
            assert(app@ == old(app)@.described(description));
        },
        None => {
            assert(app@ == app@.described(Seq::empty()));
        },
    }
}

/// Asks for the run file of the selected target to be opened in the editor.
pub fn action_edit<H: ManagerHandle>(app: &mut App<H>)
    ensures
        final(app)@ == old(app)@.edit_requested(),
        old(app)@.wf() ==> final(app)@.wf(),
        final(app).manager == old(app).manager,
{
    let source: String = match app.selected_target() {
        Some(target) => target.source_file.clone(),
        None => {
            return ;
        },
    };
    if source.as_str().is_empty() {
        app.flash("no source file for this target");
    } else {
        app.request(Effect::OpenEditor { source });
    }
}

/// Takes the screen back after the editor left, and says how it went.
pub fn editor_left<H: ManagerHandle>(app: &mut App<H>, source: &str, result: Result<(), String>)
    ensures
        final(app)@ == old(app)@.edited(source@, outcome(result)),
        old(app)@.wf() ==> final(app)@.wf(),
        final(app).manager == old(app).manager,
{
    app.mark_full_redraw();
    let msg: String = report_text(concat("edited ", source), "editor".to_owned(), result);
    app.flash(msg.as_str());
}

/// Looks for the query and moves the view to the first match.
fn search_again<H: ManagerHandle>(app: &mut App<H>)
    requires
        old(app)@.wf(),
    ensures
        final(app)@ == old(app)@.matches_updated().jumped(),
        final(app)@.wf(),
        final(app).manager == old(app).manager,
{
    app.update_search_matches();
    if app.search_matches.len() > 0 {
        app.jump_to_current_match();
    }
}

/// Takes the last character off the query.
fn erase_from_query<H: ManagerHandle>(app: &mut App<H>)
    requires
        old(app)@.wf(),
    ensures
        final(app)@ == old(app)@.query_erased(),
        final(app)@.wf(),
        final(app).manager == old(app).manager,
{
    let erased: Option<char> = app.search_query.pop();
    search_again(app);
}

/// Puts a character at the end of the query.
fn add_to_query<H: ManagerHandle>(app: &mut App<H>, c: char)
    requires
        old(app)@.wf(),
    ensures
        final(app)@ == old(app)@.query_set(old(app)@.search_query.push(c)),
        final(app)@.wf(),
        final(app).manager == old(app).manager,
{
    app.search_query.push(c);
    search_again(app);
}

/// Does what an action asks for that concerns the search.
fn act_on_search<H: ManagerHandle>(app: &mut App<H>, action: Action)
    requires
        old(app)@.wf(),
        !asks(action),
        concerns_search(action),
    ensures
        final(app)@ == old(app)@.after_action(action, no_answers()),
        final(app)@.wf(),
        final(app).manager == old(app).manager,
{
    match action {
        Action::OpenSearch => {
            app.reset_search();
            app.search_mode = true;
        },
        Action::EndSearch => app.reset_search(),
        Action::NextMatch => app.next_search_match(),
        Action::EraseFromQuery => erase_from_query(app),
        Action::AddToQuery(c) => add_to_query(app, c),
        _ => {},
    }
}

/// Does what an action asks for that concerns the application alone.
fn act_alone<H: ManagerHandle>(app: &mut App<H>, action: Action)
    requires
        old(app)@.wf(),
        !asks(action),
    ensures
        final(app)@ == old(app)@.after_action(action, no_answers()),
        final(app)@.wf(),
        final(app).manager == old(app).manager,
{
    match action {
        Action::OpenHelp => {
            app.help_visible = true;
        },
        Action::CloseHelp => {
            app.help_visible = false;
        },
        Action::CloseDescription => {
            app.describe = None;
        },
        Action::Move(delta) => move_selection(app, delta),
        Action::Scroll(delta) => app.scroll_log(delta),
        Action::ExpandFolder => expand_folder(app),
        Action::CollapseFolder => collapse_folder(app),
        Action::ToggleFolder => toggle_folder(app),
        Action::ToggleWrap => toggle_wrap(app),
        Action::ToggleZoom => toggle_zoom(app),
        Action::Edit => action_edit(app),
        Action::Ignore | Action::KillAll | Action::Detach => {},
        _ => act_on_search(app, action),
    }
}

/// Wraps long log lines, or no longer.
fn toggle_wrap<H: ManagerHandle>(app: &mut App<H>)
    ensures
        final(app)@ == old(app)@.wrap_toggled(),
        old(app)@.wf() ==> final(app)@.wf(),
        final(app).manager == old(app).manager,
{
    app.wrap_logs = !app.wrap_logs;
    if app.wrap_logs {
        app.flash("wrap on");
    } else {
        app.flash("wrap off");
    }
}

/// Lets the log fill the screen, or no longer. Meanwhile the mouse is the
/// terminal's, so that text can be selected with it.
fn toggle_zoom<H: ManagerHandle>(app: &mut App<H>)
    ensures
        final(app)@ == old(app)@.zoom_toggled(),
        old(app)@.wf() ==> final(app)@.wf(),
        final(app).manager == old(app).manager,
{
    app.zoom_logs = !app.zoom_logs;
    app.request(Effect::CaptureMouse(!app.zoom_logs));
    if app.zoom_logs {
        app.flash("zoom on (mouse off, select-to-copy enabled)");
    } else {
        app.flash("zoom off");
    }
}

/// Does what a key press asks for.
pub fn handle_key<H: ManagerHandle>(app: &mut App<H>, k: KeyEvent) -> (r: Continuation)
    requires
        old(app)@.wf(),
    ensures
        exists|a: Answers|
            old(app)@.can_answer(old(app)@.action_of(k), a) && final(app)@ == #[trigger] old(
                app,
            )@.after_action(old(app)@.action_of(k), a),
        r == continuation(old(app)@.action_of(k)),
        final(app)@.wf(),
        final(app).manager.follows(old(app).manager),
{
    let action: Action = action_for(app.help_visible, app.describe.is_some(), app.search_mode, k);
    assert(action == app@.action_of(k));
    if is_asking(action) {
        act_with_manager(app, action);
    } else {
        act_alone(app, action);
        assert(old(app)@.can_answer(action, no_answers()));
    }
    match action {
        Action::KillAll => Continuation::kill_all(),
        Action::Detach => Continuation::detach(),
        _ => Continuation::cont(),
    }
}

fn is_asking(action: Action) -> (r: bool)
    ensures
        r == asks(action),
{
    match action {
        Action::Start
        | Action::Stop
        | Action::Restart
        | Action::RestartAll
        | Action::DumpLog
        | Action::ClearLog
        | Action::Describe => true,
        _ => false,
    }
}

/// Does what an action asks for that asks something of the manager.
fn act_with_manager<H: ManagerHandle>(app: &mut App<H>, action: Action)
    requires
        old(app)@.wf(),
        asks(action),
    ensures
        exists|a: Answers|
            old(app)@.can_answer(action, a) && final(app)@ == #[trigger] old(app)@.after_action(
                action,
                a,
            ),
        final(app)@.wf(),
        final(app).manager.follows(old(app).manager),
{
    match action {
        Action::ClearLog => {
            action_clear(app);
            proof {
                let reply = choose|reply: Outcome| app@ == #[trigger] old(app)@.log_cleared(reply);
                let a = Answers { clear: reply, ..no_answers() };
                assert(app@ == old(app)@.after_action(action, a));
            }
        },
        Action::Describe => {
            action_describe(app);
            proof {
                let text = choose|text: Seq<char>| app@ == #[trigger] old(app)@.described(text);
                let a = Answers { description: text, ..no_answers() };
                assert(app@ == old(app)@.after_action(action, a));
            }
        },
        Action::RestartAll => {
            action_restart_all(app);
            proof {
                let a = choose|a: Answers|
                    old(app)@.can_answer(action, a) && app@ == #[trigger] old(
                        app,
                    )@.restarted_logs_emptied().op_begun(action, a);
                assert(app@ == old(app)@.after_action(action, a));
            }
        },
        _ => act_on_selected(app, action),
    }
}

/// Begins what an action asks for that begins an operation on the selected target.
fn act_on_selected<H: ManagerHandle>(app: &mut App<H>, action: Action)
    requires
        old(app)@.wf(),
        action is Start || action is Stop || action is Restart || action is DumpLog,
    ensures
        exists|a: Answers|
            old(app)@.can_answer(action, a) && final(app)@ == #[trigger] old(app)@.after_action(
                action,
                a,
            ),
        final(app)@.wf(),
        final(app).manager.follows(old(app).manager),
{
    match action {
        Action::Start => action_start(app),
        Action::Stop => action_stop(app),
        Action::Restart => action_restart(app),
        _ => action_dump(app),
    }
    proof {
        let a = choose|a: Answers|
            old(app)@.can_answer(action, a) && app@ == #[trigger] old(app)@.op_begun(action, a);
        assert(app@ == old(app)@.after_action(action, a));
    }
}

} // verus!
