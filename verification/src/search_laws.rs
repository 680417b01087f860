//! What holds of the search over several operations.

use vstd::prelude::*;

use crate::event::{EventModel, KeyEvent};
use crate::keymap::Action;
use crate::log_buffer::LogModel;
use crate::log_laws::law_centered_line_is_in_view;
use crate::model::{hits, lemma_logs_get, line_matches, shifted, Answers, AppModel};
use crate::target::TargetModel;
use crate::text::lowercase;

verus! {

/// Letter case does not count, neither in the line nor in the query.
pub proof fn law_search_ignores_letter_case(
    line: Seq<char>,
    other_line: Seq<char>,
    query: Seq<char>,
    other_query: Seq<char>,
)
    requires
        lowercase(line) == lowercase(other_line),
        lowercase(query) == lowercase(other_query),
    ensures
        line_matches(line, query) == line_matches(other_line, other_query),
{
}

/// The matches are the positions of the lines that hold the query, all of them, in
/// increasing order.
pub proof fn law_hits_are_the_matching_lines(lines: Seq<Seq<char>>, query: Seq<char>, n: nat)
    requires
        n <= lines.len() <= usize::MAX,
    ensures
        forall|k: int| 0 <= k < hits(lines, query, n).len() ==> {
            &&& (#[trigger] hits(lines, query, n)[k]) < n
            &&& line_matches(lines[hits(lines, query, n)[k] as int], query)
        },
        forall|j: int, k: int|
            0 <= j < k < hits(lines, query, n).len() ==> hits(lines, query, n)[j] < hits(
                lines,
                query,
                n,
            )[k],
        forall|i: int|
            0 <= i < n && line_matches(#[trigger] lines[i], query) ==> hits(
                lines,
                query,
                n,
            ).contains(i as usize),
    decreases n,
{
    if n > 0 {
        let m = (n - 1) as nat;
        let before = hits(lines, query, m);
        law_hits_are_the_matching_lines(lines, query, m);
        let all = hits(lines, query, n);
        assert forall|i: int| 0 <= i < n && line_matches(#[trigger] lines[i], query) implies all
            .contains(i as usize) by {
            if i < m {
                assert(before.contains(i as usize));
                let k = choose|k: int| 0 <= k < before.len() && before[k] == i as usize;
                assert(all[k] == i as usize);
            } else {
                assert(all.last() == i as usize);
            }
        }
    }
}

proof fn lemma_hits_prefix(
    lines: Seq<Seq<char>>,
    longer: Seq<Seq<char>>,
    query: Seq<char>,
    n: nat,
)
    requires
        n <= lines.len() <= longer.len(),
        forall|i: int| 0 <= i < n ==> lines[i] == #[trigger] longer[i],
    ensures
        hits(lines, query, n) == hits(longer, query, n),
    decreases n,
{
    if n > 0 {
        lemma_hits_prefix(lines, longer, query, (n - 1) as nat);
        assert(lines[n - 1] == longer[n - 1]);
    }
}

proof fn lemma_hits_without_first(lines: Seq<Seq<char>>, query: Seq<char>, n: nat)
    requires
        0 < n <= lines.len() <= usize::MAX,
    ensures
        hits(lines.skip(1), query, (n - 1) as nat) == shifted(hits(lines, query, n)),
    decreases n,
{
    let rest = lines.skip(1);
    let all = hits(lines, query, n);
    if n == 1 {
        assert(hits(lines, query, 0) =~= Seq::<usize>::empty());
        if line_matches(lines[0], query) {
            assert(all =~= seq![0usize]);
            assert(all.drop_last() =~= Seq::<usize>::empty());
            reveal_with_fuel(shifted, 2);
        } else {
            assert(all =~= Seq::<usize>::empty());
        }
        assert(shifted(all) =~= Seq::<usize>::empty());
        assert(hits(rest, query, 0) =~= Seq::<usize>::empty());
    } else {
        lemma_hits_without_first(lines, query, (n - 1) as nat);
        assert(rest[n - 2] == lines[n - 1]);
        let before = hits(lines, query, (n - 1) as nat);
        if line_matches(lines[n - 1], query) {
            assert(all.drop_last() =~= before);
            assert(all.last() == (n - 1) as usize);
        }
    }
}

/// Bringing the matches up to date line by line comes to the same as looking them up
/// anew: if they were right before a line of the selected target came in, they are
/// right after it, whether the ring was full or not.
pub proof fn law_matches_stay_up_to_date(model: AppModel, target: Seq<char>, line: Seq<char>)
    requires
        model.wf(),
        model.search_mode,
        model.search_query.len() > 0,
        model.search_matches == model.current_hits(),
    ensures
        model.line_received(target, line).search_matches == model.line_received(
            target,
            line,
        ).current_hits(),
{
    let after = model.line_received(target, line);
    assert(after.selected_name() == model.selected_name());
    if model.selected_name() == Some(target) {
        let log = model.log_of(target);
        let query = model.search_query;
        if model.logs.contains_key(target) {
            lemma_logs_get(model.logs, target);
        } else {
            assert(model.current_hits() =~= hits(log.lines, query, log.lines.len()));
        }
        let full = log.lines.push(line);
        let n = log.lines.len();
        lemma_hits_prefix(log.lines, full, query, n);
        if log.dropped_by_push() > 0 {
            lemma_hits_without_first(full, query, full.len());
            let kept = log.received(line).lines;
            assert(kept =~= full.skip(1));
            assert(hits(full, query, full.len()) == (if line_matches(line, query) {
                hits(full, query, n).push(n as usize)
            } else {
                hits(full, query, n)
            }));
            if line_matches(line, query) {
                assert(hits(full, query, full.len()).drop_last() =~= hits(full, query, n));
            }
        } else {
            assert(log.received(line).lines =~= full);
        }
    } else {
        if let Some(name) = model.selected_name() {
            assert(after.logs.contains_key(name) == model.logs.contains_key(name));
        }
    }
}

/// Whether the matches are those that a fresh search would find.
pub open spec fn matches_right(model: AppModel) -> bool {
    model.search_mode ==> model.search_matches == model.current_hits()
}

proof fn lemma_same_hits(a: AppModel, b: AppModel)
    requires
        a.selected_name() == b.selected_name(),
        a.search_query == b.search_query,
        a.selected_name() matches Some(name) ==> a.log_of(name).lines == b.log_of(name).lines,
    ensures
        a.current_hits() == b.current_hits(),
{
    if let Some(name) = a.selected_name() {
        let lines = a.log_of(name).lines;
        let query = a.search_query;
        assert(hits(LogModel::fresh().lines, query, 0) =~= Seq::<usize>::empty());
        assert(query.len() > 0 ==> a.current_hits() == hits(lines, query, lines.len()));
        assert(query.len() > 0 ==> b.current_hits() == hits(lines, query, lines.len()));
    }
}

proof fn lemma_jump_keeps_hits(model: AppModel)
    ensures
        model.jumped().current_hits() == model.current_hits(),
        model.jumped().search_matches == model.search_matches,
        model.jumped().search_mode == model.search_mode,
{
    let after = model.jumped();
    if let Some(name) = model.selected_name() {
        assert(after.log_of(name).lines == model.log_of(name).lines);
    }
    lemma_same_hits(after, model);
}

proof fn lemma_search_begins_by_key_only(model: AppModel, action: Action, answers: Answers)
    requires
        !model.search_mode,
        !(action is OpenSearch),
    ensures
        !model.after_action(action, answers).search_mode,
{
}

proof fn lemma_search_keys(model: AppModel, key: KeyEvent)
    requires
        model.search_mode,
    ensures
        match model.action_of(key) {
            Action::CloseHelp
            | Action::CloseDescription
            | Action::KillAll
            | Action::Detach
            | Action::Ignore
            | Action::EndSearch
            | Action::NextMatch
            | Action::EraseFromQuery
            | Action::AddToQuery(_) => true,
            _ => false,
        },
{
}

proof fn lemma_new_query_is_looked_up(model: AppModel, query: Seq<char>)
    ensures
        matches_right(model.query_set(query)),
{
    lemma_jump_keeps_hits(AppModel { search_query: query, ..model }.matches_updated());
}

proof fn lemma_next_match_keeps_matches_right(model: AppModel)
    requires
        matches_right(model),
    ensures
        matches_right(model.next_match()),
{
    if model.search_matches.len() > 0 {
        let n = model.search_matches.len();
        let on = AppModel { search_match_idx: (model.search_match_idx + 1) % n, ..model };
        lemma_same_hits(on, model);
        lemma_jump_keeps_hits(on);
    }
}

proof fn lemma_actions_keep_matches_right(model: AppModel, key: KeyEvent, answers: Answers)
    requires
        matches_right(model),
    ensures
        matches_right(model.after_action(model.action_of(key), answers)),
{
    let action = model.action_of(key);
    if model.search_mode {
        lemma_search_keys(model, key);
        match action {
            Action::AddToQuery(c) => {
                lemma_new_query_is_looked_up(model, model.search_query.push(c));
            },
            Action::EraseFromQuery => {
                lemma_new_query_is_looked_up(
                    model,
                    if model.search_query.len() == 0 {
                        model.search_query
                    } else {
                        model.search_query.drop_last()
                    },
                );
            },
            Action::NextMatch => {
                lemma_next_match_keeps_matches_right(model);
            },
            Action::CloseHelp => {
                lemma_same_hits(model, AppModel { help_visible: false, ..model });
            },
            Action::CloseDescription => {
                lemma_same_hits(model, AppModel { describe: None, ..model });
            },
            _ => {},
        }
    } else if !(action is OpenSearch) {
        lemma_search_begins_by_key_only(model, action, answers);
    }
}

proof fn lemma_scroll_keeps_matches_right(model: AppModel, delta: int)
    requires
        matches_right(model),
    ensures
        matches_right(AppModel { dirty: true, ..model.scrolled(delta) }),
{
    let after = AppModel { dirty: true, ..model.scrolled(delta) };
    if let Some(name) = model.selected_name() {
        assert(after.log_of(name).lines == model.log_of(name).lines);
    }
    lemma_same_hits(after, model);
}

proof fn lemma_lines_keep_matches_right(model: AppModel, target: Seq<char>, line: Seq<char>)
    requires
        model.wf(),
        matches_right(model),
    ensures
        matches_right(model.line_received(target, line)),
{
    if model.search_mode {
        if model.search_query.len() > 0 {
            law_matches_stay_up_to_date(model, target, line);
        } else {
            assert(model.line_received(target, line).search_query == model.search_query);
        }
    }
}

proof fn lemma_other_events_leave_the_search(
    model: AppModel,
    event: EventModel,
    answers: Answers,
)
    requires
        !(event is Key || event is LogLine || event is ScrollLog),
        !(event matches EventModel::FileChange(Some(_))),
    ensures
        ({
            let after = model.after_event(event, answers);
            &&& after.rows == model.rows
            &&& after.selected == model.selected
            &&& after.targets == model.targets
            &&& after.logs == model.logs
            &&& after.search_mode == model.search_mode
            &&& after.search_query == model.search_query
            &&& after.search_matches == model.search_matches
        }),
{
}

proof fn lemma_reload_keeps_matches_right(
    model: AppModel,
    loaded: Seq<TargetModel>,
    answers: Answers,
)
    requires
        matches_right(model),
    ensures
        matches_right(model.after_event(EventModel::FileChange(Some(loaded)), answers)),
{
    let after = model.after_event(EventModel::FileChange(Some(loaded)), answers);
    if after.search_mode {
        assert(after.logs == model.logs);
        lemma_same_hits(after, model);
    }
}

/// While a search goes on, its matches are those that a fresh search would find,
/// after every event.
pub proof fn law_matches_are_right(model: AppModel, event: EventModel, answers: Answers)
    requires
        model.wf(),
        matches_right(model),
    ensures
        matches_right(model.after_event(event, answers)),
{
    match event {
        EventModel::Key(key) => {
            lemma_same_hits(model.marked(), model);
            lemma_actions_keep_matches_right(model.marked(), key, answers);
        },
        EventModel::LogLine { target, line } => {
            lemma_lines_keep_matches_right(model, target, line);
        },
        EventModel::ScrollLog(delta) => {
            lemma_scroll_keeps_matches_right(model, delta);
        },
        EventModel::FileChange(Some(loaded)) => {
            lemma_reload_keeps_matches_right(model, loaded, answers);
        },
        _ => {
            lemma_other_events_leave_the_search(model, event, answers);
            lemma_same_hits(model.after_event(event, answers), model);
        },
    }
}

/// The model after going on to the next match so many times.
pub open spec fn after_next_matches(model: AppModel, times: nat) -> AppModel
    decreases times,
{
    if times == 0 {
        model
    } else {
        after_next_matches(model, (times - 1) as nat).next_match()
    }
}

/// Whether match `i` becomes the current one before the round is over.
pub open spec fn is_reached(model: AppModel, i: nat) -> bool {
    exists|times: nat|
        times < model.search_matches.len() && #[trigger] after_next_matches(
            model,
            times,
        ).search_match_idx == i
}

proof fn lemma_next_match(model: AppModel)
    requires
        model.search_matches.len() > 0,
    ensures
        model.next_match().search_matches == model.search_matches,
        model.next_match().search_match_idx == (model.search_match_idx + 1)
            % model.search_matches.len(),
{
}

proof fn lemma_next_matches(model: AppModel, times: nat)
    requires
        model.search_match_idx < model.search_matches.len(),
    ensures
        after_next_matches(model, times).search_matches == model.search_matches,
        after_next_matches(model, times).search_match_idx == (model.search_match_idx + times)
            % model.search_matches.len(),
    decreases times,
{
    let n = model.search_matches.len();
    if times == 0 {
        assert(model.search_match_idx % n == model.search_match_idx) by (nonlinear_arith)
            requires
                model.search_match_idx < n,
        ;
    } else {
        let before = (times - 1) as nat;
        lemma_next_matches(model, before);
        lemma_next_match(after_next_matches(model, before));
        let sum = model.search_match_idx + before;
        vstd::arithmetic::div_mod::lemma_add_mod_noop(sum as int, 1, n as int);
        vstd::arithmetic::div_mod::lemma_add_mod_noop((sum % n) as int, 1, n as int);
        vstd::arithmetic::div_mod::lemma_mod_twice(sum as int, n as int);
    }
}

/// Going on to the next match visits every match in turn and then begins again with
/// the first: after as many steps as there are matches, the current one is the same.
pub proof fn law_next_match_goes_round(model: AppModel)
    requires
        model.search_match_idx < model.search_matches.len(),
    ensures
        after_next_matches(model, model.search_matches.len()).search_match_idx
            == model.search_match_idx,
        forall|i: nat| i < model.search_matches.len() ==> #[trigger] is_reached(model, i),
{
    let n = model.search_matches.len();
    let at = model.search_match_idx;
    lemma_next_matches(model, n);
    vstd::arithmetic::div_mod::lemma_mod_add_multiples_vanish(at as int, n as int);
    vstd::arithmetic::div_mod::lemma_small_mod(at, n);
    assert forall|i: nat| i < n implies #[trigger] is_reached(model, i) by {
        let times: nat = if i >= at {
            (i - at) as nat
        } else {
            (n - at + i) as nat
        };
        lemma_next_matches(model, times);
        vstd::arithmetic::div_mod::lemma_small_mod(i, n);
        vstd::arithmetic::div_mod::lemma_mod_add_multiples_vanish(i as int, n as int);
        assert(after_next_matches(model, times).search_match_idx == i);
    }
}

/// The line of the current match is moved into view.
pub proof fn law_current_match_is_in_view(model: AppModel, name: Seq<char>)
    requires
        model.wf(),
        model.selected_name() == Some(name),
        model.logs.contains_key(name),
        model.search_match_idx < model.search_matches.len(),
        model.search_matches[model.search_match_idx as int] < model.logs[name].lines.len(),
    ensures
        ({
            let line = model.search_matches[model.search_match_idx as int];
            let log = model.jumped().logs[name];
            log.view_start(model.visible_rows()) <= line < log.view_end()
        }),
{
    lemma_logs_get(model.logs, name);
    law_centered_line_is_in_view(
        model.logs[name],
        model.search_matches[model.search_match_idx as int] as nat,
        model.visible_rows(),
    );
}

/// Nothing is found for an empty query, and the search bar counts no match.
pub proof fn law_empty_query_finds_nothing(model: AppModel)
    requires
        model.search_query.len() == 0,
    ensures
        model.matches_updated().search_matches.len() == 0,
{
}

/// Matches belong to the selected target: a move to another row ends the search.
pub proof fn law_moving_on_ends_the_search(model: AppModel, delta: int)
    requires
        model.moved(delta).selected != model.selected,
    ensures
        !model.moved(delta).search_mode,
        model.search_mode ==> model.moved(delta).search_query.len() == 0 && model.moved(
            delta,
        ).search_matches.len() == 0,
{
}

} // verus!
