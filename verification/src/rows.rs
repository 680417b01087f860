//! The rows of the sidebar.

use vstd::prelude::*;

use crate::names::NameMap;
use crate::target::{RunTarget, TargetModel};
use crate::text::{lemma_views_push, same_text, views};

verus! {

/// The label of the divider above the virtual targets.
pub const SEPARATOR_LABEL: &'static str = "─ collectors ─";

/// A row of the sidebar.
#[derive(Clone, Debug)]
pub enum Row {
    /// The header of a folder, with the number of targets in it.
    Folder { group: String, expanded: bool, count: usize },
    /// A target, by its position among the targets, and the folder that it is
    /// listed in (empty at top level).
    Target { target_idx: usize, group: String },
    /// A divider, which cannot be selected.
    Separator { label: String },
}

/// What a [`Row`] holds.
pub enum RowModel {
    Folder { group: Seq<char>, expanded: bool, count: nat },
    Target { target_idx: nat, group: Seq<char> },
    Separator { label: Seq<char> },
}

impl View for Row {
    type V = RowModel;

    open spec fn view(&self) -> RowModel {
        match *self {
            Row::Folder { group, expanded, count } => RowModel::Folder {
                group: group@,
                expanded,
                count: count as nat,
            },
            Row::Target { target_idx, group } => RowModel::Target {
                target_idx: target_idx as nat,
                group: group@,
            },
            Row::Separator { label } => RowModel::Separator { label: label@ },
        }
    }
}

/// Whether a row can be selected.
pub open spec fn selectable(row: RowModel) -> bool {
    !(row is Separator)
}

/// Whether a row can be selected: every row but a divider.
pub fn is_selectable(row: &Row) -> (r: bool)
    ensures
        r == selectable(row@),
{
    match row {
        Row::Separator { .. } => false,
        _ => true,
    }
}

/// Whether a target is listed at top level.
pub open spec fn at_top_level(target: TargetModel) -> bool {
    !target.is_virtual && target.group.len() == 0
}

/// Whether a target is listed in the folder `group`.
pub open spec fn in_folder(target: TargetModel, group: Seq<char>) -> bool {
    !target.is_virtual && target.group.len() > 0 && target.group == group
}

/// The rows of the top-level targets among the first `n`.
pub open spec fn top_rows(targets: Seq<TargetModel>, n: nat) -> Seq<RowModel>
    decreases n,
{
    if n == 0 || n > targets.len() {
        Seq::empty()
    } else {
        let before = top_rows(targets, (n - 1) as nat);
        if at_top_level(targets[n - 1]) {
            before.push(RowModel::Target { target_idx: (n - 1) as nat, group: Seq::empty() })
        } else {
            before
        }
    }
}

/// The rows of the targets in the folder `group` among the first `n`.
pub open spec fn member_rows(targets: Seq<TargetModel>, group: Seq<char>, n: nat) -> Seq<RowModel>
    decreases n,
{
    if n == 0 || n > targets.len() {
        Seq::empty()
    } else {
        let before = member_rows(targets, group, (n - 1) as nat);
        if in_folder(targets[n - 1], group) {
            before.push(RowModel::Target { target_idx: (n - 1) as nat, group })
        } else {
            before
        }
    }
}

/// The rows of the virtual targets among the first `n`.
pub open spec fn virtual_rows(targets: Seq<TargetModel>, n: nat) -> Seq<RowModel>
    decreases n,
{
    if n == 0 || n > targets.len() {
        Seq::empty()
    } else {
        let before = virtual_rows(targets, (n - 1) as nat);
        if targets[n - 1].is_virtual {
            before.push(RowModel::Target { target_idx: (n - 1) as nat, group: Seq::empty() })
        } else {
            before
        }
    }
}

/// The folders of the first `n` targets, in the order in which they first occur.
pub open spec fn folders(targets: Seq<TargetModel>, n: nat) -> Seq<Seq<char>>
    decreases n,
{
    if n == 0 || n > targets.len() {
        Seq::empty()
    } else {
        let before = folders(targets, (n - 1) as nat);
        let target = targets[n - 1];
        if in_folder(target, target.group) && !before.contains(target.group) {
            before.push(target.group)
        } else {
            before
        }
    }
}

/// Whether the folder `group` is open. A folder starts closed.
pub open spec fn is_expanded(folder_expanded: Map<Seq<char>, bool>, group: Seq<char>) -> bool {
    folder_expanded.contains_key(group) && folder_expanded[group]
}

/// The header of the folder `group`, followed by its targets if it is open.
pub open spec fn folder_rows(
    targets: Seq<TargetModel>,
    folder_expanded: Map<Seq<char>, bool>,
    group: Seq<char>,
) -> Seq<RowModel> {
    let members = member_rows(targets, group, targets.len());
    let expanded = is_expanded(folder_expanded, group);
    let header = RowModel::Folder { group, expanded, count: members.len() };
    if expanded {
        seq![header] + members
    } else {
        seq![header]
    }
}

/// The rows of the first `n` folders of `groups`.
pub open spec fn all_folder_rows(
    targets: Seq<TargetModel>,
    folder_expanded: Map<Seq<char>, bool>,
    groups: Seq<Seq<char>>,
    n: nat,
) -> Seq<RowModel>
    decreases n,
{
    if n == 0 || n > groups.len() {
        Seq::empty()
    } else {
        all_folder_rows(targets, folder_expanded, groups, (n - 1) as nat) + folder_rows(
            targets,
            folder_expanded,
            groups[n - 1],
        )
    }
}

/// The virtual targets below a divider; nothing where there are none.
pub open spec fn collector_rows(targets: Seq<TargetModel>) -> Seq<RowModel> {
    let members = virtual_rows(targets, targets.len());
    if members.len() > 0 {
        seq![RowModel::Separator { label: SEPARATOR_LABEL@ }] + members
    } else {
        Seq::empty()
    }
}

/// The sidebar: the top-level targets, the folders, the virtual targets.
pub open spec fn computed_rows(
    targets: Seq<TargetModel>,
    folder_expanded: Map<Seq<char>, bool>,
) -> Seq<RowModel> {
    let groups = folders(targets, targets.len());
    top_rows(targets, targets.len()) + all_folder_rows(
        targets,
        folder_expanded,
        groups,
        groups.len(),
    ) + collector_rows(targets)
}

fn contains_name(names: &Vec<String>, name: &str) -> (r: bool)
    ensures
        r == views(names@).contains(name@),
{
    let mut i: usize = 0;
    while i < names.len()
        invariant
            i <= names@.len(),
            forall|j: int| 0 <= j < i ==> views(names@)[j] != name@,
        decreases names@.len() - i,
    {
        if same_text(names[i].as_str(), name) {
            assert(views(names@)[i as int] == name@);
            return true;
        }
        i = i + 1;
    }
    false
}

/// The targets of a folder, as rows.
fn folder_members(targets: &Vec<RunTarget>, group: &str) -> (r: Vec<Row>)
    ensures
        views(r@) == member_rows(views(targets@), group@, targets@.len()),
{
    let mut out: Vec<Row> = Vec::new();
    let mut i: usize = 0;
    assert(views(out@) =~= member_rows(views(targets@), group@, 0));
    while i < targets.len()
        invariant
            i <= targets@.len(),
            views(out@) == member_rows(views(targets@), group@, i as nat),
        decreases targets@.len() - i,
    {
        let t: &RunTarget = &targets[i];
        assert(views(targets@)[i as int] == t@);
        if !t.is_virtual && !t.group.as_str().is_empty() && same_text(t.group.as_str(), group) {
            let row: Row = Row::Target { target_idx: i, group: t.group.clone() };
            proof {
                lemma_views_push(out@, row);
            }
            out.push(row);
        }
        i = i + 1;
    }
    out
}

fn append_rows(rows: &mut Vec<Row>, more: Vec<Row>)
    ensures
        views(final(rows)@) == views(old(rows)@) + views(more@),
{
    let mut more: Vec<Row> = more;
    let ghost added = more@;
    rows.append(&mut more);
    assert(views(rows@) =~= views(old(rows)@) + views(added));
}

/// Lays out the sidebar.
pub fn compute(targets: &Vec<RunTarget>, folder_expanded: &NameMap<bool>) -> (r: Vec<Row>)
    ensures
        views(r@) == computed_rows(views(targets@), folder_expanded@),
{
    let ghost models = views(targets@);
    let mut rows: Vec<Row> = Vec::new();
    let mut groups: Vec<String> = Vec::new();
    let mut virtuals: Vec<Row> = Vec::new();
    let mut i: usize = 0;
    assert(views(rows@) =~= top_rows(models, 0));
    assert(views(groups@) =~= folders(models, 0));
    assert(views(virtuals@) =~= virtual_rows(models, 0));
    while i < targets.len()
        invariant
            models == views(targets@),
            i <= targets@.len(),
            views(rows@) == top_rows(models, i as nat),
            views(groups@) == folders(models, i as nat),
            views(virtuals@) == virtual_rows(models, i as nat),
        decreases targets@.len() - i,
    {
        let t: &RunTarget = &targets[i];
        assert(models[i as int] == t@);
        if t.is_virtual {
            let row: Row = Row::Target { target_idx: i, group: String::new() };
            proof {
                lemma_views_push(virtuals@, row);
            }
            virtuals.push(row);
        } else if t.group.as_str().is_empty() {
            let row: Row = Row::Target { target_idx: i, group: String::new() };
            proof {
                lemma_views_push(rows@, row);
            }
            rows.push(row);
        } else if !contains_name(&groups, t.group.as_str()) {
            let group: String = t.group.clone();
            proof {
                lemma_views_push(groups@, group);
            }
            groups.push(group);
        }
        i = i + 1;
    }
    let ghost top = views(rows@);
    let ghost names = views(groups@);
    let mut k: usize = 0;
    assert(top =~= top + all_folder_rows(models, folder_expanded@, names, 0));
    while k < groups.len()
        invariant
            models == views(targets@),
            names == views(groups@),
            k <= groups@.len(),
            views(rows@) == top + all_folder_rows(models, folder_expanded@, names, k as nat),
        decreases groups@.len() - k,
    {
        let group: &String = &groups[k];
        assert(names[k as int] == group@);
        let members: Vec<Row> = folder_members(targets, group.as_str());
        let expanded: bool = match folder_expanded.get(group.as_str()) {
            Some(open) => *open,
            None => false,
        };
        let ghost before = views(rows@);
        let header: Row = Row::Folder { group: group.clone(), expanded, count: members.len() };
        proof {
            lemma_views_push(rows@, header);
        }
        rows.push(header);
        if expanded {
            append_rows(&mut rows, members);
        }
        assert(views(rows@) =~= before + folder_rows(models, folder_expanded@, group@));
        k = k + 1;
        assert(views(rows@) =~= top + all_folder_rows(models, folder_expanded@, names, k as nat));
    }
    let ghost before = views(rows@);
    if virtuals.len() > 0 {
        let divider: Row = Row::Separator { label: SEPARATOR_LABEL.to_owned() };
        proof {
            lemma_views_push(rows@, divider);
        }
        rows.push(divider);
        append_rows(&mut rows, virtuals);
    }
    assert(views(rows@) =~= before + collector_rows(models));
    rows
}

} // verus!
