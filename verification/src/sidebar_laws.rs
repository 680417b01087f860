//! What the sidebar lists, and in which order.

use vstd::prelude::*;

use crate::rows::{
    all_folder_rows, collector_rows, computed_rows, folder_rows, folders, member_rows, top_rows,
    virtual_rows, RowModel,
};
use crate::target::TargetModel;

verus! {

/// How many targets belong to the folder `group`.
pub open spec fn folder_size(targets: Seq<TargetModel>, group: Seq<char>) -> nat {
    targets.filter(|t: TargetModel| !t.is_virtual && t.group == group).len()
}

/// Whether the user has the folder `group` open.
pub open spec fn left_open(open: Map<Seq<char>, bool>, group: Seq<char>) -> bool {
    open.dom().contains(group) && open[group] == true
}

/// The part of the sidebar that a row belongs to: the top-level targets, the folders,
/// the divider, the virtual targets.
pub open spec fn rank(targets: Seq<TargetModel>, row: RowModel) -> int {
    match row {
        RowModel::Target { target_idx, group } => if targets[target_idx as int].is_virtual {
            3
        } else if group.len() == 0 {
            0
        } else {
            1
        },
        RowModel::Folder { .. } => 1,
        RowModel::Separator { .. } => 2,
    }
}

/// Whether the folder `a` is met before the folder `b` when the targets are gone
/// through in order.
pub open spec fn met_before(targets: Seq<TargetModel>, a: Seq<char>, b: Seq<char>) -> bool {
    exists|i: int| {
        &&& 0 <= i < targets.len()
        &&& !(#[trigger] targets[i]).is_virtual && targets[i].group == a
        &&& forall|j: int|
            0 <= j <= i && !(#[trigger] targets[j]).is_virtual ==> targets[j].group != b
    }
}

/// The folder that a row belongs to.
pub open spec fn folder_of(row: RowModel) -> Seq<char> {
    match row {
        RowModel::Folder { group, .. } => group,
        RowModel::Target { group, .. } => group,
        RowModel::Separator { label } => label,
    }
}

/// Whether one row stands above another: by their parts of the sidebar; the folders
/// in the order in which the targets mention them, each header above its targets; and
/// the targets in the order in which they are given.
pub open spec fn stands_above(targets: Seq<TargetModel>, a: RowModel, b: RowModel) -> bool {
    if rank(targets, a) != rank(targets, b) {
        rank(targets, a) < rank(targets, b)
    } else if rank(targets, a) == 1 && folder_of(a) != folder_of(b) {
        met_before(targets, folder_of(a), folder_of(b))
    } else {
        match (a, b) {
            (RowModel::Folder { .. }, RowModel::Target { .. }) => true,
            (RowModel::Target { target_idx: i, .. }, RowModel::Target { target_idx: j, .. }) => i
                < j,
            _ => false,
        }
    }
}

/// Whether a row may stand in the sidebar.
pub open spec fn is_right(
    targets: Seq<TargetModel>,
    open: Map<Seq<char>, bool>,
    row: RowModel,
) -> bool {
    match row {
        RowModel::Target { target_idx, group } => {
            &&& target_idx < targets.len()
            &&& targets[target_idx as int].is_virtual ==> group.len() == 0
            &&& !targets[target_idx as int].is_virtual ==> {
                &&& group == targets[target_idx as int].group
                &&& group.len() > 0 ==> left_open(open, group)
            }
        },
        RowModel::Folder { group, expanded, count } => {
            &&& group.len() > 0
            &&& expanded == left_open(open, group)
            &&& count == folder_size(targets, group)
            &&& count > 0
        },
        RowModel::Separator { label } => {
            &&& label == "─ collectors ─"@
            &&& exists|i: int| 0 <= i < targets.len() && (#[trigger] targets[i]).is_virtual
        },
    }
}

/// Whether all of these rows are right and stand in order.
spec fn in_place(
    targets: Seq<TargetModel>,
    open: Map<Seq<char>, bool>,
    rows: Seq<RowModel>,
) -> bool {
    &&& forall|k: int| 0 <= k < rows.len() ==> is_right(targets, open, #[trigger] rows[k])
    &&& forall|j: int, k: int|
        0 <= j < k < rows.len() ==> stands_above(targets, #[trigger] rows[j], #[trigger] rows[k])
}

proof fn lemma_top_rows(targets: Seq<TargetModel>, open: Map<Seq<char>, bool>, n: nat)
    requires
        n <= targets.len(),
    ensures
        in_place(targets, open, top_rows(targets, n)),
        forall|k: int|
            0 <= k < top_rows(targets, n).len() ==> rank(
                targets,
                #[trigger] top_rows(targets, n)[k],
            ) == 0 && top_rows(targets, n)[k] is Target
                && top_rows(targets, n)[k]->Target_target_idx < n,
        forall|i: int|
            0 <= i < n && !(#[trigger] targets[i]).is_virtual && targets[i].group.len() == 0
                ==> top_rows(targets, n).contains(
                RowModel::Target { target_idx: i as nat, group: targets[i].group },
            ),
    decreases n,
{
    if n > 0 {
        let m = (n - 1) as nat;
        lemma_top_rows(targets, open, m);
        let before = top_rows(targets, m);
        let rows = top_rows(targets, n);
        assert forall|i: int|
            0 <= i < n && !(#[trigger] targets[i]).is_virtual && targets[i].group.len()
                == 0 implies rows.contains(
            RowModel::Target { target_idx: i as nat, group: targets[i].group },
        ) by {
            let row = RowModel::Target { target_idx: i as nat, group: targets[i].group };
            if i < m {
                let k = choose|k: int| 0 <= k < before.len() && before[k] == row;
                assert(rows[k] == row);
            } else {
                assert(targets[i].group =~= Seq::<char>::empty());
                assert(rows.last() == row);
            }
        }
    }
}

proof fn lemma_virtual_rows(targets: Seq<TargetModel>, open: Map<Seq<char>, bool>, n: nat)
    requires
        n <= targets.len(),
    ensures
        in_place(targets, open, virtual_rows(targets, n)),
        forall|k: int|
            0 <= k < virtual_rows(targets, n).len() ==> rank(
                targets,
                #[trigger] virtual_rows(targets, n)[k],
            ) == 3 && virtual_rows(targets, n)[k] is Target
                && virtual_rows(targets, n)[k]->Target_target_idx < n,
        forall|i: int|
            0 <= i < n && (#[trigger] targets[i]).is_virtual ==> virtual_rows(targets, n).contains(
                RowModel::Target { target_idx: i as nat, group: Seq::empty() },
            ),
    decreases n,
{
    if n > 0 {
        let m = (n - 1) as nat;
        lemma_virtual_rows(targets, open, m);
        let before = virtual_rows(targets, m);
        let rows = virtual_rows(targets, n);
        assert forall|i: int|
            0 <= i < n && (#[trigger] targets[i]).is_virtual implies rows.contains(
            RowModel::Target { target_idx: i as nat, group: Seq::empty() },
        ) by {
            let row = RowModel::Target { target_idx: i as nat, group: Seq::empty() };
            if i < m {
                let k = choose|k: int| 0 <= k < before.len() && before[k] == row;
                assert(rows[k] == row);
            } else {
                assert(rows.last() == row);
            }
        }
    }
}

proof fn lemma_member_rows(
    targets: Seq<TargetModel>,
    open: Map<Seq<char>, bool>,
    group: Seq<char>,
    n: nat,
)
    requires
        n <= targets.len(),
        group.len() > 0,
    ensures
        left_open(open, group) ==> in_place(targets, open, member_rows(targets, group, n)),
        forall|k: int|
            0 <= k < member_rows(targets, group, n).len() ==> rank(
                targets,
                #[trigger] member_rows(targets, group, n)[k],
            ) == 1 && folder_of(member_rows(targets, group, n)[k]) == group && member_rows(
                targets,
                group,
                n,
            )[k] is Target && member_rows(targets, group, n)[k]->Target_target_idx < n,
        forall|i: int|
            0 <= i < n && !(#[trigger] targets[i]).is_virtual && targets[i].group == group
                ==> member_rows(targets, group, n).contains(
                RowModel::Target { target_idx: i as nat, group },
            ),
        member_rows(targets, group, n).len() == targets.take(n as int).filter(
            |t: TargetModel| !t.is_virtual && t.group == group,
        ).len(),
    decreases n,
{
    reveal(Seq::filter);
    let belongs = |t: TargetModel| !t.is_virtual && t.group == group;
    if n > 0 {
        let m = (n - 1) as nat;
        lemma_member_rows(targets, open, group, m);
        assert(targets.take(n as int).drop_last() =~= targets.take(m as int));
        assert(targets.take(n as int).last() == targets[n - 1]);
        let before = member_rows(targets, group, m);
        let rows = member_rows(targets, group, n);
        assert forall|i: int|
            0 <= i < n && !(#[trigger] targets[i]).is_virtual && targets[i].group
                == group implies rows.contains(
            RowModel::Target { target_idx: i as nat, group },
        ) by {
            let row = RowModel::Target { target_idx: i as nat, group };
            if i < m {
                let k = choose|k: int| 0 <= k < before.len() && before[k] == row;
                assert(rows[k] == row);
            } else {
                assert(rows.last() == row);
            }
        }
    } else {
        assert(targets.take(0).filter(belongs).len() == 0);
    }
}

/// The folders are those of the targets, in the order in which they are met.
proof fn lemma_folders(targets: Seq<TargetModel>, n: nat)
    requires
        n <= targets.len(),
    ensures
        forall|k: int|
            0 <= k < folders(targets, n).len() ==> (#[trigger] folders(targets, n)[k]).len() > 0
                && exists|i: int|
                0 <= i < n && !(#[trigger] targets[i]).is_virtual && targets[i].group == folders(
                    targets,
                    n,
                )[k],
        forall|i: int|
            0 <= i < n && !(#[trigger] targets[i]).is_virtual && targets[i].group.len() > 0
                ==> folders(targets, n).contains(targets[i].group),
        forall|j: int, k: int|
            0 <= j < k < folders(targets, n).len() ==> met_before(
                targets,
                #[trigger] folders(targets, n)[j],
                #[trigger] folders(targets, n)[k],
            ) && folders(targets, n)[j] != folders(targets, n)[k],
    decreases n,
{
    if n > 0 {
        let m = (n - 1) as nat;
        lemma_folders(targets, m);
        let before = folders(targets, m);
        let all = folders(targets, n);
        let last = targets[n - 1];
        assert forall|k: int| 0 <= k < all.len() implies (#[trigger] all[k]).len() > 0 && exists|
            i: int,
        |
            0 <= i < n && !(#[trigger] targets[i]).is_virtual && targets[i].group == all[k] by {
            if k < before.len() {
                assert(all[k] == before[k]);
                let i = choose|i: int|
                    0 <= i < m && !(#[trigger] targets[i]).is_virtual && targets[i].group
                        == before[k];
                assert(targets[i].group == all[k]);
            } else {
                assert(targets[n - 1].group == all[k]);
            }
        }
        assert forall|i: int|
            0 <= i < n && !(#[trigger] targets[i]).is_virtual && targets[i].group.len()
                > 0 implies all.contains(targets[i].group) by {
            if before.contains(targets[i].group) {
                let k = choose|k: int| 0 <= k < before.len() && before[k] == targets[i].group;
                assert(all[k] == targets[i].group);
            } else {
                assert(i == m);
                assert(all.last() == targets[i].group);
            }
        }
        assert forall|j: int, k: int| 0 <= j < k < all.len() implies met_before(
            targets,
            #[trigger] all[j],
            #[trigger] all[k],
        ) && all[j] != all[k] by {
            assert(all[j] == before[j]);
            if k < before.len() {
                assert(all[k] == before[k]);
            } else {
                let i = choose|i: int|
                    0 <= i < m && !(#[trigger] targets[i]).is_virtual && targets[i].group
                        == before[j];
                assert(all[k] == last.group);
                assert forall|p: int|
                    0 <= p <= i && !(#[trigger] targets[p]).is_virtual implies targets[p].group
                    != last.group by {
                    if targets[p].group == last.group {
                        assert(before.contains(targets[p].group));
                    }
                }
                assert(targets[i].group == all[j]);
                assert(before.contains(all[j]));
            }
        }
    }
}

proof fn lemma_folder_rows(
    targets: Seq<TargetModel>,
    open: Map<Seq<char>, bool>,
    group: Seq<char>,
    some: int,
)
    requires
        group.len() > 0,
        0 <= some < targets.len(),
        !targets[some].is_virtual,
        targets[some].group == group,
    ensures
        in_place(targets, open, folder_rows(targets, open, group)),
        forall|k: int|
            0 <= k < folder_rows(targets, open, group).len() ==> rank(
                targets,
                #[trigger] folder_rows(targets, open, group)[k],
            ) == 1 && folder_of(folder_rows(targets, open, group)[k]) == group,
        folder_rows(targets, open, group)[0] == (RowModel::Folder {
            group,
            expanded: left_open(open, group),
            count: folder_size(targets, group),
        }),
        folder_rows(targets, open, group).len() > 0,
        left_open(open, group) ==> forall|i: int|
            0 <= i < targets.len() && !(#[trigger] targets[i]).is_virtual && targets[i].group
                == group ==> folder_rows(targets, open, group).contains(
                RowModel::Target { target_idx: i as nat, group },
            ),
{
    lemma_member_rows(targets, open, group, targets.len());
    assert(targets.take(targets.len() as int) =~= targets);
    let members = member_rows(targets, group, targets.len());
    let rows = folder_rows(targets, open, group);
    assert(members.contains(RowModel::Target { target_idx: some as nat, group }));
    assert(members.len() == folder_size(targets, group));
    if left_open(open, group) {
        assert forall|k: int| 1 <= k < rows.len() implies #[trigger] rows[k] == members[k - 1] by {}
        assert forall|i: int|
            0 <= i < targets.len() && !(#[trigger] targets[i]).is_virtual && targets[i].group
                == group implies rows.contains(
            RowModel::Target { target_idx: i as nat, group },
        ) by {
            let row = RowModel::Target { target_idx: i as nat, group };
            assert(members.contains(row));
            let k = choose|k: int| 0 <= k < members.len() && members[k] == row;
            assert(rows[k + 1] == row);
        }
    }
}

/// Rows that all stand above others go before them.
proof fn lemma_put_together(
    targets: Seq<TargetModel>,
    open: Map<Seq<char>, bool>,
    a: Seq<RowModel>,
    b: Seq<RowModel>,
)
    requires
        in_place(targets, open, a),
        in_place(targets, open, b),
        forall|j: int, k: int|
            0 <= j < a.len() && 0 <= k < b.len() ==> stands_above(
                targets,
                #[trigger] a[j],
                #[trigger] b[k],
            ),
    ensures
        in_place(targets, open, a + b),
{
    let rows = a + b;
    assert forall|j: int, k: int| 0 <= j < k < rows.len() implies stands_above(
        targets,
        #[trigger] rows[j],
        #[trigger] rows[k],
    ) by {
        if j >= a.len() {
            assert(rows[j] == b[j - a.len()]);
        }
        if k >= a.len() {
            assert(rows[k] == b[k - a.len()]);
        }
    }
}

/// What stands in one of two parts stands in both together.
proof fn lemma_contained(a: Seq<RowModel>, b: Seq<RowModel>, row: RowModel)
    requires
        a.contains(row) || b.contains(row),
    ensures
        (a + b).contains(row),
{
    if a.contains(row) {
        let k = choose|k: int| 0 <= k < a.len() && a[k] == row;
        assert((a + b)[k] == row);
    } else {
        let k = choose|k: int| 0 <= k < b.len() && b[k] == row;
        assert((a + b)[a.len() + k] == row);
    }
}

proof fn lemma_all_folder_rows(targets: Seq<TargetModel>, open: Map<Seq<char>, bool>, n: nat)
    requires
        n <= folders(targets, targets.len()).len(),
    ensures
        ({
            let groups = folders(targets, targets.len());
            let rows = all_folder_rows(targets, open, groups, n);
            &&& in_place(targets, open, rows)
            &&& forall|k: int|
                0 <= k < rows.len() ==> rank(targets, #[trigger] rows[k]) == 1 && exists|m: int|
                    0 <= m < n && #[trigger] groups[m] == folder_of(rows[k])
            &&& forall|m: int| #![trigger groups[m]]
                0 <= m < n ==> {
                    &&& rows.contains(
                        RowModel::Folder {
                            group: groups[m],
                            expanded: left_open(open, groups[m]),
                            count: folder_size(targets, groups[m]),
                        },
                    )
                    &&& left_open(open, groups[m]) ==> forall|i: int|
                        0 <= i < targets.len() && !(#[trigger] targets[i]).is_virtual
                            && targets[i].group == groups[m] ==> rows.contains(
                            RowModel::Target { target_idx: i as nat, group: groups[m] },
                        )
                }
        }),
    decreases n,
{
    let groups = folders(targets, targets.len());
    lemma_folders(targets, targets.len());
    if n > 0 {
        let m = (n - 1) as nat;
        lemma_all_folder_rows(targets, open, m);
        let before = all_folder_rows(targets, open, groups, m);
        let group = groups[n - 1];
        let last = folder_rows(targets, open, group);
        let some = choose|i: int|
            0 <= i < targets.len() && !(#[trigger] targets[i]).is_virtual && targets[i].group
                == group;
        lemma_folder_rows(targets, open, group, some);
        assert forall|j: int, k: int| 0 <= j < before.len() && 0 <= k < last.len() implies
            stands_above(targets, #[trigger] before[j], #[trigger] last[k]) by {
            let p = choose|p: int| 0 <= p < m && #[trigger] groups[p] == folder_of(before[j]);
            assert(met_before(targets, groups[p], groups[n - 1]));
        }
        lemma_put_together(targets, open, before, last);
        let rows = all_folder_rows(targets, open, groups, n);
        assert(rows == before + last);
        assert forall|k: int| 0 <= k < rows.len() implies rank(targets, #[trigger] rows[k]) == 1
            && exists|p: int| 0 <= p < n && #[trigger] groups[p] == folder_of(rows[k]) by {
            if k < before.len() {
                assert(rows[k] == before[k]);
                let p = choose|p: int| 0 <= p < m && #[trigger] groups[p] == folder_of(before[k]);
                assert(groups[p] == folder_of(rows[k]));
            } else {
                assert(rows[k] == last[k - before.len()]);
                assert(groups[n - 1] == folder_of(rows[k]));
            }
        }
        assert forall|p: int| #![trigger groups[p]] 0 <= p < n implies {
            &&& rows.contains(
                RowModel::Folder {
                    group: groups[p],
                    expanded: left_open(open, groups[p]),
                    count: folder_size(targets, groups[p]),
                },
            )
            &&& left_open(open, groups[p]) ==> forall|i: int|
                0 <= i < targets.len() && !(#[trigger] targets[i]).is_virtual && targets[i].group
                    == groups[p] ==> rows.contains(
                    RowModel::Target { target_idx: i as nat, group: groups[p] },
                )
        } by {
            let header = RowModel::Folder {
                group: groups[p],
                expanded: left_open(open, groups[p]),
                count: folder_size(targets, groups[p]),
            };
            if p == n - 1 {
                assert(last[0] == header);
                assert(last.contains(header));
            }
            lemma_contained(before, last, header);
            if left_open(open, groups[p]) {
                assert forall|i: int|
                    0 <= i < targets.len() && !(#[trigger] targets[i]).is_virtual
                        && targets[i].group == groups[p] implies rows.contains(
                    RowModel::Target { target_idx: i as nat, group: groups[p] },
                ) by {
                    lemma_contained(
                        before,
                        last,
                        RowModel::Target { target_idx: i as nat, group: groups[p] },
                    );
                }
            }
        }
    }
}

proof fn lemma_collector_rows(targets: Seq<TargetModel>, open: Map<Seq<char>, bool>)
    ensures
        in_place(targets, open, collector_rows(targets)),
        forall|k: int|
            0 <= k < collector_rows(targets).len() ==> rank(
                targets,
                #[trigger] collector_rows(targets)[k],
            ) >= 2,
        forall|i: int|
            0 <= i < targets.len() && (#[trigger] targets[i]).is_virtual ==> collector_rows(
                targets,
            ).contains(RowModel::Target { target_idx: i as nat, group: Seq::empty() })
                && collector_rows(targets)[0] == (RowModel::Separator {
                label: "─ collectors ─"@,
            }),
{
    lemma_virtual_rows(targets, open, targets.len());
    let members = virtual_rows(targets, targets.len());
    let rows = collector_rows(targets);
    if members.len() > 0 {
        assert(is_right(targets, open, members[0]));
        assert(targets[members[0]->Target_target_idx as int].is_virtual);
        assert forall|k: int| 1 <= k < rows.len() implies #[trigger] rows[k] == members[k - 1] by {}
    }
    assert forall|i: int| 0 <= i < targets.len() && (#[trigger] targets[i]).is_virtual implies
        rows.contains(RowModel::Target { target_idx: i as nat, group: Seq::empty() }) && rows[0]
        == (RowModel::Separator { label: "─ collectors ─"@ }) by {
        let row = RowModel::Target { target_idx: i as nat, group: Seq::empty() };
        assert(members.contains(row));
        let k = choose|k: int| 0 <= k < members.len() && members[k] == row;
        assert(rows[k + 1] == row);
    }
}

proof fn lemma_sidebar(targets: Seq<TargetModel>, open: Map<Seq<char>, bool>)
    ensures
        in_place(targets, open, computed_rows(targets, open)),
{
    let n = targets.len();
    let groups = folders(targets, n);
    let tops = top_rows(targets, n);
    let middle = all_folder_rows(targets, open, groups, groups.len());
    let below = collector_rows(targets);
    lemma_top_rows(targets, open, n);
    lemma_all_folder_rows(targets, open, groups.len());
    lemma_collector_rows(targets, open);
    assert forall|j: int, k: int| 0 <= j < tops.len() && 0 <= k < middle.len() implies
        stands_above(targets, #[trigger] tops[j], #[trigger] middle[k]) by {
        assert(rank(targets, tops[j]) == 0);
        assert(rank(targets, middle[k]) == 1);
    }
    lemma_put_together(targets, open, tops, middle);
    let upper = tops + middle;
    assert forall|j: int, k: int| 0 <= j < upper.len() && 0 <= k < below.len() implies
        stands_above(targets, #[trigger] upper[j], #[trigger] below[k]) by {
        if j < tops.len() {
            assert(upper[j] == tops[j]);
        } else {
            assert(upper[j] == middle[j - tops.len()]);
        }
        assert(rank(targets, below[k]) >= 2);
    }
    lemma_put_together(targets, open, upper, below);
}

/// Every target has its row in the sidebar, whatever its other fields: a target
/// without a folder always, a target of a folder while the folder is open, and a
/// virtual target always. Every folder has its header, which counts all targets of
/// the folder and says whether it is open, and above the virtual targets there is a
/// divider.
pub proof fn law_every_target_is_listed(
    targets: Seq<TargetModel>,
    open: Map<Seq<char>, bool>,
    i: int,
)
    requires
        0 <= i < targets.len(),
    ensures
        ({
            let rows = computed_rows(targets, open);
            let target = targets[i];
            &&& target.is_virtual ==> rows.contains(
                RowModel::Target { target_idx: i as nat, group: Seq::empty() },
            )
            &&& target.is_virtual ==> rows.contains(
                RowModel::Separator { label: "─ collectors ─"@ },
            )
            &&& !target.is_virtual && target.group.len() == 0 ==> rows.contains(
                RowModel::Target { target_idx: i as nat, group: target.group },
            )
            &&& !target.is_virtual && target.group.len() > 0 ==> rows.contains(
                RowModel::Folder {
                    group: target.group,
                    expanded: open.dom().contains(target.group) && open[target.group],
                    count: targets.filter(
                        |t: TargetModel| !t.is_virtual && t.group == target.group,
                    ).len(),
                },
            )
            &&& !target.is_virtual && target.group.len() > 0 && open.dom().contains(target.group)
                && open[target.group] ==> rows.contains(
                RowModel::Target { target_idx: i as nat, group: target.group },
            )
        }),
{
    let n = targets.len();
    let groups = folders(targets, n);
    let tops = top_rows(targets, n);
    let middle = all_folder_rows(targets, open, groups, groups.len());
    let below = collector_rows(targets);
    let target = targets[i];
    lemma_top_rows(targets, open, n);
    lemma_folders(targets, n);
    lemma_all_folder_rows(targets, open, groups.len());
    lemma_collector_rows(targets, open);
    let upper = tops + middle;
    if target.is_virtual {
        let divider = RowModel::Separator { label: "─ collectors ─"@ };
        assert(below[0] == divider);
        lemma_contained(upper, below, divider);
        lemma_contained(
            upper,
            below,
            RowModel::Target { target_idx: i as nat, group: Seq::empty() },
        );
    } else {
        let row = RowModel::Target { target_idx: i as nat, group: target.group };
        if target.group.len() == 0 {
            lemma_contained(tops, middle, row);
            lemma_contained(upper, below, row);
        } else {
            let header = RowModel::Folder {
                group: target.group,
                expanded: left_open(open, target.group),
                count: folder_size(targets, target.group),
            };
            let m = choose|m: int| 0 <= m < groups.len() && groups[m] == target.group;
            assert(groups[m] == target.group);
            assert(middle.contains(header));
            lemma_contained(tops, middle, header);
            lemma_contained(upper, below, header);
            if left_open(open, target.group) {
                assert(middle.contains(row));
                lemma_contained(tops, middle, row);
                lemma_contained(upper, below, row);
            }
        }
    }
}

/// The sidebar lists nothing else: a row of a target is that of a target that is to
/// be listed there, a header is that of a folder with targets in it, and the divider
/// is there for virtual targets only.
pub proof fn law_nothing_else_is_listed(
    targets: Seq<TargetModel>,
    open: Map<Seq<char>, bool>,
    k: int,
)
    requires
        0 <= k < computed_rows(targets, open).len(),
    ensures
        is_right(targets, open, computed_rows(targets, open)[k]),
{
    lemma_sidebar(targets, open);
}

/// The rows of the sidebar stand in order: the top-level targets, the folders, each
/// header with its targets below it, the divider, the virtual targets. No row is
/// there twice.
pub proof fn law_rows_stand_in_order(
    targets: Seq<TargetModel>,
    open: Map<Seq<char>, bool>,
    j: int,
    k: int,
)
    requires
        0 <= j < k < computed_rows(targets, open).len(),
    ensures
        stands_above(targets, computed_rows(targets, open)[j], computed_rows(targets, open)[k]),
{
    lemma_sidebar(targets, open);
}

} // verus!
