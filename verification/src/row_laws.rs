//! What holds of the sidebar and its selection over several operations.

use vstd::prelude::*;

use crate::event::EventModel;
use crate::model::{
    first_selectable, is_header_of, moved_row, nearest_selectable, row_of_folder, row_of_target,
    shown_name, shows_target, walk, Answers, AppModel,
};
use crate::rows::{
    all_folder_rows, collector_rows, computed_rows, folder_rows, folders, in_folder, is_expanded,
    member_rows, selectable, top_rows, virtual_rows, RowModel,
};
use crate::target::TargetModel;

verus! {

proof fn lemma_walk_stays_within(rows: Seq<RowModel>, cur: int, down: bool, hops: nat)
    requires
        0 <= cur < rows.len(),
    ensures
        0 <= walk(rows, cur, down, hops) < rows.len(),
    decreases
            if down {
                rows.len() - cur
            } else {
                cur + 1
            },
{
    let next = if down {
        cur + 1
    } else {
        cur - 1
    };
    if hops > 0 && 0 <= next < rows.len() {
        if selectable(rows[next]) {
            lemma_walk_stays_within(rows, next, down, (hops - 1) as nat);
        } else {
            lemma_walk_stays_within(rows, next, down, hops);
        }
    }
}

proof fn lemma_nearest_is_selectable(rows: Seq<RowModel>, cur: int, down: bool)
    ensures
        match nearest_selectable(rows, cur, down) {
            Some(i) => {
                &&& 0 <= i < rows.len()
                &&& selectable(rows[i])
                &&& down ==> i >= cur
                &&& !down ==> i <= cur
            },
            None => forall|i: int|
                0 <= i < rows.len() && (if down {
                    i >= cur
                } else {
                    i <= cur
                }) && 0 <= cur < rows.len() ==> !selectable(#[trigger] rows[i]),
        },
    decreases
            if down {
                rows.len() - cur
            } else {
                cur + 1
            },
{
    if 0 <= cur < rows.len() && !selectable(rows[cur]) {
        if down {
            lemma_nearest_is_selectable(rows, cur + 1, down);
        } else {
            lemma_nearest_is_selectable(rows, cur - 1, down);
        }
    }
}

/// A move stays within the rows, and ends on a row that can be selected wherever
/// there is one.
pub proof fn law_moves_end_on_selectable_rows(rows: Seq<RowModel>, cur: int, delta: int, some: int)
    requires
        0 <= cur < rows.len(),
        0 <= some < rows.len(),
        selectable(rows[some]),
    ensures
        0 <= moved_row(rows, cur, delta) < rows.len(),
        selectable(rows[moved_row(rows, cur, delta)]),
{
    let down = delta >= 0;
    let hops = (if down {
        delta
    } else {
        -delta
    }) as nat;
    lemma_walk_stays_within(rows, cur, down, hops);
    let end = walk(rows, cur, down, hops);
    lemma_nearest_is_selectable(rows, end + 1, true);
    lemma_nearest_is_selectable(rows, end - 1, false);
}

/// The selection does not wrap around: from the last row a move down goes nowhere,
/// and from the first row a move up.
pub proof fn law_moves_stop_at_the_edges(rows: Seq<RowModel>, delta: int)
    requires
        rows.len() > 0,
    ensures
        delta >= 0 && selectable(rows.last()) ==> moved_row(rows, rows.len() - 1, delta)
            == rows.len() - 1,
        delta < 0 && selectable(rows[0]) ==> moved_row(rows, 0, delta) == 0,
{
}

proof fn lemma_walk_over_gap(rows: Seq<RowModel>, cur: int, to: int, down: bool)
    requires
        0 <= cur < rows.len(),
        0 <= to < rows.len(),
        selectable(rows[to]),
        down ==> cur < to && forall|i: int| cur < i < to ==> !selectable(#[trigger] rows[i]),
        !down ==> to < cur && forall|i: int| to < i < cur ==> !selectable(#[trigger] rows[i]),
    ensures
        walk(rows, cur, down, 1) == to,
    decreases
            if down {
                to - cur
            } else {
                cur - to
            },
{
    let next = if down {
        cur + 1
    } else {
        cur - 1
    };
    if next == to {
        assert(walk(rows, next, down, 0) == next);
    } else {
        lemma_walk_over_gap(rows, next, to, down);
    }
}

/// One row down is the next row that can be selected, with dividers passed over, and
/// one row up leads back.
pub proof fn law_up_undoes_down(rows: Seq<RowModel>, cur: int, next: int)
    requires
        0 <= cur < next < rows.len(),
        selectable(rows[cur]),
        selectable(rows[next]),
        forall|i: int| cur < i < next ==> !selectable(#[trigger] rows[i]),
    ensures
        moved_row(rows, cur, 1) == next,
        moved_row(rows, next, -1) == cur,
{
    lemma_walk_over_gap(rows, cur, next, true);
    lemma_walk_over_gap(rows, next, cur, false);
}

/// Whether no row from `from` up to `to` can be selected.
pub open spec fn none_selectable(rows: Seq<RowModel>, from: int, to: int) -> bool {
    forall|i: int| from <= i < to && 0 <= i < rows.len() ==> !selectable(#[trigger] rows[i])
}

proof fn lemma_walk_to_the_edge(rows: Seq<RowModel>, cur: int, down: bool)
    requires
        0 <= cur < rows.len(),
        down ==> none_selectable(rows, cur + 1, rows.len() as int),
        !down ==> none_selectable(rows, 0, cur),
    ensures
        walk(rows, cur, down, 1) == (if down {
            rows.len() - 1
        } else {
            0
        }),
    decreases
            if down {
                rows.len() - cur
            } else {
                cur + 1
            },
{
    if down && cur + 1 < rows.len() {
        lemma_walk_to_the_edge(rows, cur + 1, down);
    } else if !down && cur > 0 {
        lemma_walk_to_the_edge(rows, cur - 1, down);
    }
}

proof fn lemma_back_over_gap(rows: Seq<RowModel>, from: int, cur: int, down: bool)
    requires
        0 <= cur < rows.len(),
        0 <= from < rows.len(),
        selectable(rows[cur]),
        down ==> from <= cur && none_selectable(rows, from, cur),
        !down ==> cur <= from && none_selectable(rows, cur + 1, from + 1),
    ensures
        nearest_selectable(rows, from, down) == Some(cur),
    decreases
            if down {
                cur - from
            } else {
                from - cur
            },
{
    if from != cur {
        lemma_back_over_gap(
            rows,
            if down {
                from + 1
            } else {
                from - 1
            },
            cur,
            down,
        );
    }
}

/// One row down goes to the nearest row below that can be selected, and nowhere where
/// there is none.
pub proof fn law_down_goes_to_the_nearest_row(rows: Seq<RowModel>, cur: int)
    requires
        0 <= cur < rows.len(),
        selectable(rows[cur]),
    ensures
        none_selectable(rows, cur + 1, rows.len() as int) ==> moved_row(rows, cur, 1) == cur,
        !none_selectable(rows, cur + 1, rows.len() as int) ==> {
            &&& cur < moved_row(rows, cur, 1) < rows.len()
            &&& selectable(rows[moved_row(rows, cur, 1)])
            &&& none_selectable(rows, cur + 1, moved_row(rows, cur, 1))
        },
{
    if none_selectable(rows, cur + 1, rows.len() as int) {
        let end = rows.len() - 1;
        lemma_walk_to_the_edge(rows, cur, true);
        if end > cur {
            assert(!selectable(rows[end]));
            lemma_back_over_gap(rows, end - 1, cur, false);
        }
    } else {
        lemma_nearest_is_first(rows, cur + 1, true);
        let next = nearest_selectable(rows, cur + 1, true)->Some_0;
        lemma_walk_over_gap(rows, cur, next, true);
    }
}

/// One row up goes to the nearest row above that can be selected, and nowhere where
/// there is none.
pub proof fn law_up_goes_to_the_nearest_row(rows: Seq<RowModel>, cur: int)
    requires
        0 <= cur < rows.len(),
        selectable(rows[cur]),
    ensures
        none_selectable(rows, 0, cur) ==> moved_row(rows, cur, -1) == cur,
        !none_selectable(rows, 0, cur) ==> {
            &&& 0 <= moved_row(rows, cur, -1) < cur
            &&& selectable(rows[moved_row(rows, cur, -1)])
            &&& none_selectable(rows, moved_row(rows, cur, -1) + 1, cur)
        },
{
    if none_selectable(rows, 0, cur) {
        lemma_walk_to_the_edge(rows, cur, false);
        if cur > 0 {
            assert(!selectable(rows[0]));
            lemma_back_over_gap(rows, 1, cur, true);
        }
    } else {
        lemma_nearest_is_first(rows, cur - 1, false);
        let next = nearest_selectable(rows, cur - 1, false)->Some_0;
        lemma_walk_over_gap(rows, cur, next, false);
    }
}

proof fn lemma_nearest_is_first(rows: Seq<RowModel>, cur: int, down: bool)
    requires
        0 <= cur < rows.len(),
    ensures
        match nearest_selectable(rows, cur, down) {
            Some(i) => {
                &&& 0 <= i < rows.len()
                &&& selectable(rows[i])
                &&& down ==> cur <= i && none_selectable(rows, cur, i)
                &&& !down ==> i <= cur && none_selectable(rows, i + 1, cur + 1)
            },
            None => {
                &&& down ==> none_selectable(rows, cur, rows.len() as int)
                &&& !down ==> none_selectable(rows, 0, cur + 1)
            },
        },
    decreases
            if down {
                rows.len() - cur
            } else {
                cur + 1
            },
{
    if !selectable(rows[cur]) {
        if down && cur + 1 < rows.len() {
            lemma_nearest_is_first(rows, cur + 1, down);
        } else if !down && cur > 0 {
            lemma_nearest_is_first(rows, cur - 1, down);
        }
    }
}

pub proof fn lemma_row_of_target(
    rows: Seq<RowModel>,
    targets: Seq<TargetModel>,
    name: Seq<char>,
    i: nat,
)
    ensures
        match row_of_target(rows, targets, name, i) {
            Some(k) => {
                &&& i <= k < rows.len()
                &&& shows_target(rows[k as int], targets, name)
                &&& forall|j: int| i <= j < k ==> !shows_target(#[trigger] rows[j], targets, name)
            },
            None => forall|k: int|
                i <= k < rows.len() ==> !shows_target(#[trigger] rows[k], targets, name),
        },
    decreases rows.len() - i,
{
    if i < rows.len() && !shows_target(rows[i as int], targets, name) {
        lemma_row_of_target(rows, targets, name, i + 1);
    }
}

/// The name that is remembered of the selected row is that of the target it shows.
proof fn lemma_selected_name_is_remembered(model: AppModel)
    requires
        model.rows_current(),
    ensures
        model.remembered_name() == model.selected_name(),
{
    if model.selected < model.rows.len() {
        let row = model.rows[model.selected as int];
        assert(model.row_names[model.selected as int] == shown_name(row, model.targets));
    }
}

/// The selection stays on its target when the sidebar is laid out anew, whatever has
/// become of the targets and folders meanwhile, as long as that target is still shown.
pub proof fn law_selection_keeps_its_target(
    model: AppModel,
    targets: Seq<TargetModel>,
    folder_expanded: Map<Seq<char>, bool>,
    name: Seq<char>,
    row: int,
)
    requires
        model.rows_current(),
        model.selected_name() == Some(name),
        0 <= row < computed_rows(targets, folder_expanded).len(),
        shows_target(computed_rows(targets, folder_expanded)[row], targets, name),
    ensures
        (AppModel { targets, folder_expanded, ..model }).rows_rebuilt().selected_name() == Some(
            name,
        ),
{
    lemma_selected_name_is_remembered(model);
    lemma_row_of_target(computed_rows(targets, folder_expanded), targets, name, 0);
}

/// Reading the run files again leaves the selection on its target, wherever that now
/// stands, as long as it is still shown. A search in its log goes on.
pub proof fn law_reload_keeps_the_selected_target(
    model: AppModel,
    loaded: Seq<TargetModel>,
    answers: Answers,
    name: Seq<char>,
    row: int,
)
    requires
        model.rows_current(),
        model.selected_name() == Some(name),
        0 <= row < computed_rows(answers.targets, model.folder_expanded).len(),
        shows_target(
            computed_rows(answers.targets, model.folder_expanded)[row],
            answers.targets,
            name,
        ),
    ensures
        ({
            let after = model.after_event(EventModel::FileChange(Some(loaded)), answers);
            &&& after.selected_name() == Some(name)
            &&& after.search_mode == model.search_mode
            &&& after.search_query == model.search_query
            &&& after.search_matches == model.search_matches
            &&& after.search_match_idx == model.search_match_idx
        }),
{
    lemma_selected_name_is_remembered(model);
    lemma_row_of_target(
        computed_rows(answers.targets, model.folder_expanded),
        answers.targets,
        name,
        0,
    );
}

pub proof fn lemma_first_selectable(rows: Seq<RowModel>, i: nat)
    ensures
        match first_selectable(rows, i) {
            Some(k) => {
                &&& i <= k < rows.len()
                &&& selectable(rows[k as int])
                &&& forall|j: int| i <= j < k ==> !selectable(#[trigger] rows[j])
            },
            None => forall|k: int| i <= k < rows.len() ==> !selectable(#[trigger] rows[k]),
        },
    decreases rows.len() - i,
{
    if i < rows.len() && !selectable(rows[i as int]) {
        lemma_first_selectable(rows, i + 1);
    }
}

/// The sidebar laid out anew has one of its rows selected, and never a divider where
/// there is another row.
pub proof fn law_rebuilding_selects_a_row(model: AppModel, some: int)
    requires
        0 <= some < model.rows_rebuilt().rows.len(),
        selectable(model.rows_rebuilt().rows[some]),
    ensures
        model.rows_rebuilt().selected < model.rows_rebuilt().rows.len(),
        selectable(model.rows_rebuilt().rows[model.rows_rebuilt().selected as int]),
{
    let rows = model.rows_rebuilt().rows;
    if let Some(name) = model.remembered_name() {
        lemma_row_of_target(rows, model.targets, name, 0);
    }
    lemma_first_selectable(rows, 0);
}

proof fn lemma_members_are_targets(targets: Seq<TargetModel>, group: Seq<char>, n: nat)
    ensures
        forall|i: int|
            0 <= i < member_rows(targets, group, n).len() ==> #[trigger] member_rows(
                targets,
                group,
                n,
            )[i] is Target,
    decreases n,
{
    if 0 < n <= targets.len() {
        lemma_members_are_targets(targets, group, (n - 1) as nat);
    }
}

proof fn lemma_same_folders(
    targets: Seq<TargetModel>,
    a: Map<Seq<char>, bool>,
    b: Map<Seq<char>, bool>,
    groups: Seq<Seq<char>>,
    n: nat,
)
    requires
        n <= groups.len(),
        forall|i: int|
            0 <= i < n ==> is_expanded(a, #[trigger] groups[i]) == is_expanded(b, groups[i]),
    ensures
        all_folder_rows(targets, a, groups, n) == all_folder_rows(targets, b, groups, n),
    decreases n,
{
    if n > 0 {
        lemma_same_folders(targets, a, b, groups, (n - 1) as nat);
        assert(is_expanded(a, groups[n - 1]) == is_expanded(b, groups[n - 1]));
    }
}

/// The sidebar depends on which folders are open, not on how they came to be so.
pub proof fn law_rows_depend_on_open_folders_alone(
    targets: Seq<TargetModel>,
    a: Map<Seq<char>, bool>,
    b: Map<Seq<char>, bool>,
)
    requires
        forall|group: Seq<char>| #[trigger] is_expanded(a, group) == is_expanded(b, group),
    ensures
        computed_rows(targets, a) == computed_rows(targets, b),
{
    let groups = folders(targets, targets.len());
    lemma_same_folders(targets, a, b, groups, groups.len());
}

proof fn lemma_folders_are_distinct(targets: Seq<TargetModel>, n: nat)
    ensures
        forall|i: int, j: int|
            0 <= i < j < folders(targets, n).len() ==> folders(targets, n)[i] != folders(
                targets,
                n,
            )[j],
    decreases n,
{
    if 0 < n <= targets.len() {
        lemma_folders_are_distinct(targets, (n - 1) as nat);
        let before = folders(targets, (n - 1) as nat);
        let target = targets[n - 1];
        if in_folder(target, target.group) && !before.contains(target.group) {
            assert forall|i: int| 0 <= i < before.len() implies before[i] != target.group by {
                assert(before.contains(before[i]));
            }
        }
    }
}

/// Where the header of folder `k` stands among the rows of the folders.
spec fn header_at(
    targets: Seq<TargetModel>,
    open: Map<Seq<char>, bool>,
    groups: Seq<Seq<char>>,
    k: nat,
) -> int {
    all_folder_rows(targets, open, groups, k).len() as int
}

proof fn lemma_folder_rows_grow(
    targets: Seq<TargetModel>,
    open: Map<Seq<char>, bool>,
    groups: Seq<Seq<char>>,
    k: nat,
    n: nat,
)
    requires
        k < n <= groups.len(),
    ensures
        header_at(targets, open, groups, k) < all_folder_rows(targets, open, groups, n).len(),
        all_folder_rows(targets, open, groups, n)[header_at(targets, open, groups, k)]
            == folder_rows(targets, open, groups[k as int])[0],
    decreases n,
{
    let before = all_folder_rows(targets, open, groups, (n - 1) as nat);
    let last = folder_rows(targets, open, groups[n - 1]);
    assert(all_folder_rows(targets, open, groups, n) == before + last);
    if k + 1 < n {
        lemma_folder_rows_grow(targets, open, groups, k, (n - 1) as nat);
    }
}

/// A header in the sidebar is that of one of the folders, and stands after the rows
/// of the folders before it.
proof fn lemma_header_position(
    targets: Seq<TargetModel>,
    open: Map<Seq<char>, bool>,
    groups: Seq<Seq<char>>,
    n: nat,
    i: int,
) -> (k: nat)
    requires
        n <= groups.len(),
        0 <= i < all_folder_rows(targets, open, groups, n).len(),
        all_folder_rows(targets, open, groups, n)[i] is Folder,
    ensures
        k < n,
        i == header_at(targets, open, groups, k),
        all_folder_rows(targets, open, groups, n)[i]
            == folder_rows(targets, open, groups[k as int])[0],
    decreases n,
{
    let before = all_folder_rows(targets, open, groups, (n - 1) as nat);
    let last = folder_rows(targets, open, groups[n - 1]);
    assert(all_folder_rows(targets, open, groups, n) == before + last);
    if i < before.len() {
        lemma_header_position(targets, open, groups, (n - 1) as nat, i)
    } else {
        lemma_members_are_targets(targets, groups[n - 1], targets.len());
        let members = member_rows(targets, groups[n - 1], targets.len());
        if i > before.len() {
            assert(last[i - before.len()] == members[i - before.len() - 1]);
        }
        (n - 1) as nat
    }
}

proof fn lemma_tops_are_targets(targets: Seq<TargetModel>, n: nat)
    ensures
        forall|i: int|
            0 <= i < top_rows(targets, n).len() ==> #[trigger] top_rows(targets, n)[i] is Target,
        forall|i: int|
            0 <= i < virtual_rows(targets, n).len() ==> #[trigger] virtual_rows(
                targets,
                n,
            )[i] is Target,
    decreases n,
{
    if 0 < n <= targets.len() {
        lemma_tops_are_targets(targets, (n - 1) as nat);
    }
}

/// Opening or closing a folder leaves its header where it stands.
pub proof fn law_header_stays_in_place(
    targets: Seq<TargetModel>,
    open: Map<Seq<char>, bool>,
    group: Seq<char>,
    to: bool,
    i: int,
)
    requires
        0 <= i < computed_rows(targets, open).len(),
        is_header_of(computed_rows(targets, open)[i], group),
    ensures
        i < computed_rows(targets, open.insert(group, to)).len(),
        computed_rows(targets, open.insert(group, to))[i] == (RowModel::Folder {
            group,
            expanded: to,
            count: member_rows(targets, group, targets.len()).len(),
        }),
        computed_rows(targets, open)[i] == (RowModel::Folder {
            group,
            expanded: is_expanded(open, group),
            count: member_rows(targets, group, targets.len()).len(),
        }),
{
    let groups = folders(targets, targets.len());
    let n = groups.len();
    let tops = top_rows(targets, targets.len());
    let rows = all_folder_rows(targets, open, groups, n);
    lemma_tops_are_targets(targets, targets.len());
    let all = computed_rows(targets, open);
    assert(all =~= tops + rows + collector_rows(targets));
    if i < tops.len() {
        assert(all[i] == tops[i]);
    } else if i >= tops.len() + rows.len() {
        let c = i - tops.len() - rows.len();
        assert(all[i] == collector_rows(targets)[c]);
        if c > 0 {
            assert(collector_rows(targets)[c] == virtual_rows(targets, targets.len())[c - 1]);
        }
    } else {
        let j = i - tops.len();
        assert(all[i] == rows[j]);
        let k = lemma_header_position(targets, open, groups, n, j);
        assert(groups[k as int] == group);
        lemma_folders_are_distinct(targets, targets.len());
        let changed = open.insert(group, to);
        assert forall|m: int| 0 <= m < k implies is_expanded(open, #[trigger] groups[m])
            == is_expanded(changed, groups[m]) by {
            assert(groups[m] != groups[k as int]);
        }
        lemma_same_folders(targets, open, changed, groups, k);
        lemma_folder_rows_grow(targets, changed, groups, k, n);
        let new_rows = all_folder_rows(targets, changed, groups, n);
        assert(computed_rows(targets, changed) =~= tops + new_rows + collector_rows(targets));
        assert(computed_rows(targets, changed)[i] == new_rows[j]);
    }
}

/// Opening or closing a selected folder changes nothing but that: its header stays
/// selected.
pub proof fn law_folder_stays_selected(model: AppModel, group: Seq<char>, open: bool)
    requires
        model.rows_current(),
        model.selected_row() matches Some(row) && is_header_of(row, group),
    ensures
        model.folder_set(group, open).rows_current(),
        model.folder_set(group, open).selected == model.selected,
        model.folder_set(group, open).selected_row() matches Some(row) && is_header_of(row, group),
        model.folder_set(group, open).selected_row() matches Some(
            RowModel::Folder { expanded, .. },
        ) && expanded == open,
{
    law_header_stays_in_place(
        model.targets,
        model.folder_expanded,
        group,
        open,
        model.selected as int,
    );
}

/// Toggling a folder twice leaves the sidebar and the selection as they were.
pub proof fn law_toggling_twice_changes_nothing(model: AppModel, group: Seq<char>)
    requires
        model.rows_current(),
        model.selected_row() matches Some(row) && is_header_of(row, group),
    ensures
        model.folder_toggled_here().folder_toggled_here().rows == model.rows,
        model.folder_toggled_here().folder_toggled_here().selected == model.selected,
{
    let was = is_expanded(model.folder_expanded, group);
    law_header_stays_in_place(
        model.targets,
        model.folder_expanded,
        group,
        !was,
        model.selected as int,
    );
    law_folder_stays_selected(model, group, !was);
    let once = model.folder_toggled_here();
    assert(once == model.folder_set(group, !was));
    law_folder_stays_selected(once, group, was);
    let twice = once.folder_toggled_here();
    assert(twice == once.folder_set(group, was));
    assert forall|g: Seq<char>| #[trigger] is_expanded(twice.folder_expanded, g) == is_expanded(
        model.folder_expanded,
        g,
    ) by {}
    law_rows_depend_on_open_folders_alone(
        model.targets,
        twice.folder_expanded,
        model.folder_expanded,
    );
}

/// Closing an opened folder leaves the sidebar and the selection as they were before
/// it was opened.
pub proof fn law_closing_undoes_opening(model: AppModel, group: Seq<char>)
    requires
        model.rows_current(),
        model.selected_row() matches Some(row) && is_header_of(row, group),
        !is_expanded(model.folder_expanded, group),
    ensures
        model.folder_expanded_here().folder_collapsed_here().rows == model.rows,
        model.folder_expanded_here().folder_collapsed_here().selected == model.selected,
{
    law_header_stays_in_place(
        model.targets,
        model.folder_expanded,
        group,
        true,
        model.selected as int,
    );
    law_toggling_twice_changes_nothing(model, group);
    law_folder_stays_selected(model, group, true);
    assert(model.folder_expanded_here() == model.folder_toggled_here());
}

proof fn lemma_row_of_folder(rows: Seq<RowModel>, group: Seq<char>, i: nat)
    ensures
        match row_of_folder(rows, group, i) {
            Some(k) => i <= k < rows.len() && is_header_of(rows[k as int], group),
            None => forall|k: int| i <= k < rows.len() ==> !is_header_of(#[trigger] rows[k], group),
        },
    decreases rows.len() - i,
{
    if i < rows.len() && !is_header_of(rows[i as int], group) {
        lemma_row_of_folder(rows, group, i + 1);
    }
}

/// Closing the folder of a selected target selects the header of that folder.
pub proof fn law_closing_from_inside_selects_the_header(
    model: AppModel,
    group: Seq<char>,
    header: int,
)
    requires
        model.rows_current(),
        model.selected_row() matches Some(RowModel::Target { group: g, .. }) && g == group,
        group.len() > 0,
        0 <= header < model.rows.len(),
        is_header_of(model.rows[header], group),
    ensures
        model.folder_collapsed_here().selected_row() matches Some(row) && is_header_of(row, group),
        !is_expanded(model.folder_collapsed_here().folder_expanded, group),
{
    law_header_stays_in_place(
        model.targets,
        model.folder_expanded,
        group,
        false,
        header,
    );
    let closed = model.folder_set(group, false);
    assert(is_header_of(closed.rows[header], group));
    lemma_row_of_folder(closed.rows, group, 0);
}

proof fn lemma_virtual_rows_show(targets: Seq<TargetModel>, n: nat, i: int)
    requires
        0 <= i < n <= targets.len(),
        targets[i].is_virtual,
    ensures
        exists|k: int|
            0 <= k < virtual_rows(targets, n).len() && #[trigger] virtual_rows(targets, n)[k] == (
            RowModel::Target { target_idx: i as nat, group: Seq::empty() }),
    decreases n,
{
    let rows = virtual_rows(targets, n);
    if i == n - 1 {
        assert(rows.last() == RowModel::Target { target_idx: i as nat, group: Seq::empty() });
    } else {
        lemma_virtual_rows_show(targets, (n - 1) as nat, i);
        let before = virtual_rows(targets, (n - 1) as nat);
        let k = choose|k: int|
            0 <= k < before.len() && #[trigger] before[k] == (RowModel::Target {
                target_idx: i as nat,
                group: Seq::empty(),
            });
        assert(rows[k] == before[k]);
    }
}

/// The virtual targets are always listed, whichever folders are open.
pub proof fn law_virtual_targets_are_listed(
    targets: Seq<TargetModel>,
    open: Map<Seq<char>, bool>,
    i: int,
)
    requires
        0 <= i < targets.len(),
        targets[i].is_virtual,
    ensures
        exists|k: int|
            0 <= k < computed_rows(targets, open).len() && #[trigger] computed_rows(
                targets,
                open,
            )[k] == (RowModel::Target { target_idx: i as nat, group: Seq::empty() }),
{
    lemma_virtual_rows_show(targets, targets.len(), i);
    let row = RowModel::Target { target_idx: i as nat, group: Seq::empty() };
    let virtuals = virtual_rows(targets, targets.len());
    let k = choose|k: int| 0 <= k < virtuals.len() && #[trigger] virtuals[k] == row;
    let all = computed_rows(targets, open);
    let below = collector_rows(targets);
    assert(below[k + 1] == virtuals[k]);
    assert(all[all.len() - below.len() + k + 1] == below[k + 1]);
}

proof fn lemma_walks_add_up(rows: Seq<RowModel>, cur: int, down: bool, hops: nat)
    requires
        0 <= cur < rows.len(),
    ensures
        walk(rows, cur, down, hops + 1) == walk(rows, walk(rows, cur, down, hops), down, 1),
    decreases
            if down {
                rows.len() - cur
            } else {
                cur + 1
            },
{
    let next = if down {
        cur + 1
    } else {
        cur - 1
    };
    if 0 <= next < rows.len() && hops > 0 {
        if selectable(rows[next]) {
            lemma_walks_add_up(rows, next, down, (hops - 1) as nat);
        } else {
            lemma_walks_add_up(rows, next, down, hops);
        }
    }
}

proof fn lemma_walk_stops_at_the_edge(rows: Seq<RowModel>, cur: int, down: bool, hops: nat)
    requires
        0 <= cur < rows.len(),
        hops > 0 || selectable(rows[cur]),
        !selectable(rows[walk(rows, cur, down, hops)]),
    ensures
        walk(rows, cur, down, hops) == (if down {
            rows.len() - 1
        } else {
            0
        }),
    decreases
            if down {
                rows.len() - cur
            } else {
                cur + 1
            },
{
    let next = if down {
        cur + 1
    } else {
        cur - 1
    };
    if 0 <= next < rows.len() && hops > 0 {
        if selectable(rows[next]) {
            lemma_walk_stops_at_the_edge(rows, next, down, (hops - 1) as nat);
        } else {
            lemma_walk_stops_at_the_edge(rows, next, down, hops);
        }
    }
}

proof fn lemma_move_from_a_parked_walk(rows: Seq<RowModel>, cur: int, down: bool, hops: nat)
    requires
        0 <= cur < rows.len(),
        selectable(rows[cur]),
        hops > 0,
        !selectable(rows[walk(rows, cur, down, hops)]),
    ensures
        ({
            let by: int = if down {
                hops as int
            } else {
                -hops
            };
            let one: int = if down {
                1
            } else {
                -1
            };
            let m = moved_row(rows, cur, by);
            moved_row(rows, cur, by + one) == m && moved_row(rows, m, one) == m
        }),
{
    let end = walk(rows, cur, down, hops);
    lemma_walk_stays_within(rows, cur, down, hops);
    lemma_walk_stops_at_the_edge(rows, cur, down, hops);
    lemma_walks_add_up(rows, cur, down, hops);
    if down {
        assert(end > 0);
        lemma_nearest_is_first(rows, end - 1, false);
        let m = nearest_selectable(rows, end - 1, false)->Some_0;
        assert(moved_row(rows, cur, hops as int) == m);
        assert(none_selectable(rows, m + 1, rows.len() as int));
        law_down_goes_to_the_nearest_row(rows, m);
    } else {
        assert(end == 0 && rows.len() > 1);
        lemma_nearest_is_first(rows, 1, true);
        let m = nearest_selectable(rows, 1, true)->Some_0;
        assert(moved_row(rows, cur, -hops) == m);
        assert(none_selectable(rows, 0, m));
        law_up_goes_to_the_nearest_row(rows, m);
    }
}

/// A move by several rows is as many moves by one row, one after the other.
pub proof fn law_moves_add_up(rows: Seq<RowModel>, cur: int, n: nat)
    requires
        0 <= cur < rows.len(),
        !(rows[cur] is Separator),
    ensures
        moved_row(rows, cur, 0) == cur,
        moved_row(rows, cur, (n + 1) as int) == moved_row(rows, moved_row(rows, cur, n as int), 1),
        moved_row(rows, cur, -(n + 1)) == moved_row(rows, moved_row(rows, cur, -n), -1),
{
    lemma_walks_add_up(rows, cur, true, n);
    lemma_walks_add_up(rows, cur, false, n);
    if n > 0 {
        if !selectable(rows[walk(rows, cur, true, n)]) {
            lemma_move_from_a_parked_walk(rows, cur, true, n);
        }
        if !selectable(rows[walk(rows, cur, false, n)]) {
            lemma_move_from_a_parked_walk(rows, cur, false, n);
        }
    }
}

} // verus!
