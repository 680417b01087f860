//! The marks on search hits.

use vstd::prelude::*;

use crate::model::line_matches;
use crate::spans::{plain_line, raw_piece, Line, Paint, PaintModel, Piece, PieceModel, Tone};
use crate::text::{
    chars_of, count_chars, lemma_views_push, lowercase, occurs_at, same_text, str_contains,
    text_between, views,
};

verus! {

/// The text of the pieces of a line.
pub open spec fn pieces_text(pieces: Seq<PieceModel>) -> Seq<char>
    decreases pieces.len(),
{
    if pieces.len() == 0 {
        Seq::empty()
    } else {
        let before = pieces_text(pieces.drop_last());
        match pieces.last() {
            PieceModel::Text { text, .. } => before + text,
            PieceModel::Icon(_) => before,
        }
    }
}

/// The paint of each character of a line.
pub open spec fn paints(pieces: Seq<PieceModel>) -> Seq<PaintModel>
    decreases pieces.len(),
{
    if pieces.len() == 0 {
        Seq::empty()
    } else {
        let before = paints(pieces.drop_last());
        match pieces.last() {
            PieceModel::Text { text, paint } => before + Seq::new(text.len(), |i: int| paint),
            PieceModel::Icon(_) => before,
        }
    }
}

/// The first position from `k` on at which `form` stands in `row`.
pub open spec fn first_fit(row: Seq<Seq<char>>, form: Seq<char>, k: nat) -> Option<nat>
    decreases row.len() - k,
{
    if k >= row.len() {
        None
    } else if row[k as int] == form {
        Some(k)
    } else {
        first_fit(row, form, k + 1)
    }
}

/// The hits from position `i` on, each from its first character up to the one
/// behind it: the leftmost one, then the leftmost one behind that, and so on. Entry
/// `k` of row `i` is the lower-case form of the `k + 1` characters from position `i`
/// on; a hit is the fewest characters whose lower-case form is `form`.
pub open spec fn hits_from(forms: Seq<Seq<Seq<char>>>, form: Seq<char>, i: nat) -> Seq<(int, int)>
    decreases
            (if i <= forms.len() {
                forms.len() - i
            } else {
                0
            }),
{
    if i >= forms.len() {
        Seq::empty()
    } else {
        match first_fit(forms[i as int], form, 0) {
            Some(k) => seq![(i as int, (i + k + 1) as int)] + hits_from(forms, form, i + k + 1),
            None => hits_from(forms, form, i + 1),
        }
    }
}

/// Where the lower-case forms of the characters of `text` from position `i` on begin in
/// the lower-case form of `text`: behind those of the characters before them.
pub open spec fn form_edge(text: Seq<char>, i: int) -> nat {
    lowercase(text.take(i)).len()
}

/// The lower-case form that the characters of `text` from `from` up to `to` have where
/// they stand: their part of the lower-case form of `text`.
pub open spec fn form_of_part(text: Seq<char>, from: int, to: int) -> Seq<char> {
    let start = form_edge(text, from);
    let end = form_edge(text, to);
    if start <= end <= lowercase(text).len() {
        lowercase(text).subrange(start as int, end as int)
    } else {
        Seq::empty()
    }
}

/// The lower-case forms of the parts of `text` that begin at position `i` and have
/// `most` characters at most, the shortest part first.
pub open spec fn forms_at(text: Seq<char>, i: int, most: nat) -> Seq<Seq<char>> {
    Seq::new(
        if most <= text.len() - i {
            most
        } else {
            (text.len() - i) as nat
        },
        |k: int| form_of_part(text, i, i + k + 1),
    )
}

/// The lower-case forms of the parts of `text` that have `most` characters at most,
/// by their first position.
pub open spec fn forms_of(text: Seq<char>, most: nat) -> Seq<Seq<Seq<char>>> {
    Seq::new(text.len(), |i: int| forms_at(text, i, most))
}

/// Whether the characters of `text` from `from` up to `to` are an occurrence of
/// `query`: letter case does not count.
pub open spec fn is_occurrence(text: Seq<char>, query: Seq<char>, from: int, to: int) -> bool {
    &&& 0 <= from < to <= text.len()
    &&& form_of_part(text, from, to) == lowercase(query)
}

/// The occurrences of `query` in `text` that are marked.
pub open spec fn hit_ranges(text: Seq<char>, query: Seq<char>) -> Seq<(int, int)> {
    hits_from(forms_of(text, text.len()), lowercase(query), 0)
}

/// Whether each range ends before the next one begins.
pub open spec fn ordered(ranges: Seq<(int, int)>) -> bool {
    &&& forall|k: int| 0 <= k < ranges.len() ==> (#[trigger] ranges[k]).0 < ranges[k].1
    &&& forall|j: int, k: int|
        0 <= j < k < ranges.len() ==> (#[trigger] ranges[j]).1 <= (#[trigger] ranges[k]).0
}

/// Whether a position lies in one of the ranges.
pub open spec fn in_ranges(ranges: Seq<(int, int)>, at: int) -> bool {
    exists|k: int| 0 <= k < ranges.len() && (#[trigger] ranges[k]).0 <= at < ranges[k].1
}

/// Whether position `at` lies in one of the ranges from `k` on, and where that is
/// next otherwise.
pub open spec fn place(ranges: Seq<(int, int)>, at: int, k: nat) -> (bool, Option<int>)
    decreases ranges.len() - k,
{
    if k >= ranges.len() {
        (false, None)
    } else if at < ranges[k as int].0 {
        (false, Some(ranges[k as int].0))
    } else if at < ranges[k as int].1 {
        (true, Some(ranges[k as int].1))
    } else {
        place(ranges, at, k + 1)
    }
}

/// How many characters from position `at` on stand together, out of `n`.
pub open spec fn run_len(ranges: Seq<(int, int)>, at: int, n: nat) -> nat {
    match place(ranges, at, 0).1 {
        Some(edge) => if at < edge < at + n {
            (edge - at) as nat
        } else {
            n
        },
        None => n,
    }
}

/// A text that stands at position `at` of its line, cut where a range begins or ends:
/// what lies in a range has the tone of a hit, the rest its own paint.
pub open spec fn cut(
    text: Seq<char>,
    paint: PaintModel,
    at: int,
    ranges: Seq<(int, int)>,
    tone: Tone,
) -> Seq<PieceModel>
    decreases text.len(),
{
    if text.len() == 0 {
        Seq::empty()
    } else {
        let n = run_len(ranges, at, text.len());
        let first = PieceModel::Text {
            text: text.take(n as int),
            paint: if place(ranges, at, 0).0 {
                PaintModel::Tone(tone)
            } else {
                paint
            },
        };
        seq![first] + cut(text.skip(n as int), paint, at + n, ranges, tone)
    }
}

/// A piece that stands at position `at` of its line, cut as its text is.
pub open spec fn cut_piece(
    piece: PieceModel,
    at: int,
    ranges: Seq<(int, int)>,
    tone: Tone,
) -> Seq<PieceModel> {
    match piece {
        PieceModel::Text { text, paint } => cut(text, paint, at, ranges, tone),
        PieceModel::Icon(_) => seq![piece],
    }
}

/// The pieces of a line with the ranges marked.
pub open spec fn marked(pieces: Seq<PieceModel>, ranges: Seq<(int, int)>, tone: Tone) -> Seq<
    PieceModel,
>
    decreases pieces.len(),
{
    if pieces.len() == 0 {
        Seq::empty()
    } else {
        let before = pieces.drop_last();
        marked(before, ranges, tone) + cut_piece(
            pieces.last(),
            pieces_text(before).len() as int,
            ranges,
            tone,
        )
    }
}

/// The tone of a hit.
pub open spec fn hit_tone(is_current: bool) -> Tone {
    if is_current {
        Tone::SearchCurrentMatch
    } else {
        Tone::SearchMatch
    }
}

/// A line with the occurrences of the query in its text marked. An empty query marks
/// nothing.
pub open spec fn highlighted(
    pieces: Seq<PieceModel>,
    query: Seq<char>,
    is_current: bool,
) -> Seq<PieceModel> {
    if query.len() == 0 {
        pieces
    } else {
        marked(pieces, hit_ranges(pieces_text(pieces), query), hit_tone(is_current))
    }
}

proof fn lemma_pieces_add(a: Seq<PieceModel>, b: Seq<PieceModel>)
    ensures
        pieces_text(a + b) == pieces_text(a) + pieces_text(b),
        paints(a + b) == paints(a) + paints(b),
    decreases b.len(),
{
    if b.len() == 0 {
        assert(a + b =~= a);
        assert(paints(a + b) =~= paints(a) + paints(b));
        assert(pieces_text(a + b) =~= pieces_text(a) + pieces_text(b));
    } else {
        lemma_pieces_add(a, b.drop_last());
        assert((a + b).drop_last() =~= a + b.drop_last());
        assert((a + b).last() == b.last());
        assert(paints(a + b) =~= paints(a) + paints(b));
        assert(pieces_text(a + b) =~= pieces_text(a) + pieces_text(b));
    }
}

proof fn lemma_one_piece(text: Seq<char>, paint: PaintModel)
    ensures
        pieces_text(seq![PieceModel::Text { text, paint }]) == text,
        paints(seq![PieceModel::Text { text, paint }]) == Seq::new(text.len(), |i: int| paint),
{
    let piece = PieceModel::Text { text, paint };
    let pieces = seq![piece];
    assert(pieces.drop_last() =~= Seq::<PieceModel>::empty());
    reveal_with_fuel(pieces_text, 2);
    reveal_with_fuel(paints, 2);
    assert(pieces_text(pieces) =~= text);
    assert(paints(pieces) =~= Seq::new(text.len(), |i: int| paint));
}

proof fn lemma_no_text(icon: PieceModel)
    requires
        icon is Icon,
    ensures
        pieces_text(seq![icon]) == Seq::<char>::empty(),
        paints(seq![icon]) == Seq::<PaintModel>::empty(),
{
    assert(seq![icon].drop_last() =~= Seq::<PieceModel>::empty());
    reveal_with_fuel(pieces_text, 2);
    reveal_with_fuel(paints, 2);
}

pub proof fn lemma_as_many_paints(pieces: Seq<PieceModel>)
    ensures
        paints(pieces).len() == pieces_text(pieces).len(),
    decreases pieces.len(),
{
    if pieces.len() > 0 {
        lemma_as_many_paints(pieces.drop_last());
    }
}

proof fn lemma_run_len(ranges: Seq<(int, int)>, at: int, n: nat)
    requires
        n > 0,
    ensures
        0 < run_len(ranges, at, n) <= n,
{
}

proof fn lemma_edge_is_ahead(ranges: Seq<(int, int)>, at: int, k: nat)
    ensures
        place(ranges, at, k).1 matches Some(edge) ==> at < edge,
    decreases ranges.len() - k,
{
    if k < ranges.len() {
        lemma_edge_is_ahead(ranges, at, k + 1);
    }
}

/// Up to the next edge, all positions lie in a range or none does.
proof fn lemma_place(ranges: Seq<(int, int)>, at: int, p: int, k: nat)
    requires
        ordered(ranges),
        at <= p,
        forall|j: int| 0 <= j < k && j < ranges.len() ==> (#[trigger] ranges[j]).1 <= at,
        place(ranges, at, k).1 matches Some(edge) ==> p < edge,
    ensures
        in_ranges(ranges, p) == place(ranges, at, k).0,
    decreases ranges.len() - k,
{
    if k < ranges.len() {
        let range = ranges[k as int];
        if at < range.0 {
            if in_ranges(ranges, p) {
                let j = choose|j: int|
                    0 <= j < ranges.len() && (#[trigger] ranges[j]).0 <= p < ranges[j].1;
                assert(ranges[j].0 <= p < ranges[j].1);
                if j > k {
                    assert(ranges[k as int].1 <= ranges[j].0);
                }
            }
        } else if at < range.1 {
            assert(ranges[k as int].0 <= p < ranges[k as int].1);
        } else {
            lemma_place(ranges, at, p, k + 1);
        }
    }
}

proof fn lemma_cut_keeps_the_text(
    text: Seq<char>,
    paint: PaintModel,
    at: int,
    ranges: Seq<(int, int)>,
    tone: Tone,
)
    ensures
        pieces_text(cut(text, paint, at, ranges, tone)) == text,
    decreases text.len(),
{
    if text.len() > 0 {
        let n = run_len(ranges, at, text.len());
        lemma_run_len(ranges, at, text.len());
        let pieces = cut(text, paint, at, ranges, tone);
        let rest = cut(text.skip(n as int), paint, at + n, ranges, tone);
        let first_paint = if place(ranges, at, 0).0 {
            PaintModel::Tone(tone)
        } else {
            paint
        };
        let first = PieceModel::Text { text: text.take(n as int), paint: first_paint };
        lemma_cut_keeps_the_text(text.skip(n as int), paint, at + n, ranges, tone);
        lemma_one_piece(text.take(n as int), first_paint);
        lemma_pieces_add(seq![first], rest);
        assert(pieces == seq![first] + rest);
        assert(pieces_text(pieces) =~= text);
    }
}

proof fn lemma_cut_paints(
    text: Seq<char>,
    paint: PaintModel,
    at: int,
    ranges: Seq<(int, int)>,
    tone: Tone,
)
    requires
        ordered(ranges),
    ensures
        paints(cut(text, paint, at, ranges, tone)) == Seq::new(
            text.len(),
            |i: int|
                if in_ranges(ranges, at + i) {
                    PaintModel::Tone(tone)
                } else {
                    paint
                },
        ),
    decreases text.len(),
{
    let whole = Seq::new(
        text.len(),
        |i: int|
            if in_ranges(ranges, at + i) {
                PaintModel::Tone(tone)
            } else {
                paint
            },
    );
    let pieces = cut(text, paint, at, ranges, tone);
    if text.len() > 0 {
        let n = run_len(ranges, at, text.len());
        lemma_run_len(ranges, at, text.len());
        let rest = cut(text.skip(n as int), paint, at + n, ranges, tone);
        let first_paint = if place(ranges, at, 0).0 {
            PaintModel::Tone(tone)
        } else {
            paint
        };
        let first = PieceModel::Text { text: text.take(n as int), paint: first_paint };
        lemma_cut_paints(text.skip(n as int), paint, at + n, ranges, tone);
        lemma_one_piece(text.take(n as int), first_paint);
        lemma_pieces_add(seq![first], rest);
        assert(pieces == seq![first] + rest);
        assert forall|i: int| 0 <= i < text.len() implies paints(pieces)[i] == whole[i] by {
            if i < n {
                lemma_edge_is_ahead(ranges, at, 0);
                lemma_place(ranges, at, at + i, 0);
            } else {
                assert(at + n + (i - n) == at + i);
                assert(paints(pieces)[i] == paints(rest)[i - n]);
            }
        }
        assert(paints(pieces) =~= whole);
    } else {
        assert(paints(pieces) =~= whole);
    }
}

/// Marking hits changes how a line looks, never what it says.
pub proof fn law_marking_keeps_the_text(
    pieces: Seq<PieceModel>,
    ranges: Seq<(int, int)>,
    tone: Tone,
)
    ensures
        pieces_text(marked(pieces, ranges, tone)) == pieces_text(pieces),
    decreases pieces.len(),
{
    if pieces.len() > 0 {
        let before = pieces.drop_last();
        let at = pieces_text(before).len() as int;
        law_marking_keeps_the_text(before, ranges, tone);
        lemma_pieces_add(marked(before, ranges, tone), cut_piece(pieces.last(), at, ranges, tone));
        match pieces.last() {
            PieceModel::Text { text, paint } => {
                lemma_cut_keeps_the_text(text, paint, at, ranges, tone);
            },
            PieceModel::Icon(_) => {
                lemma_no_text(pieces.last());
                assert(pieces_text(marked(pieces, ranges, tone)) =~= pieces_text(pieces));
            },
        }
    }
}

/// Marking paints the characters in the ranges as hits, and leaves every other
/// character the paint that it had.
pub proof fn law_marking_paints_the_ranges(
    pieces: Seq<PieceModel>,
    ranges: Seq<(int, int)>,
    tone: Tone,
)
    requires
        ordered(ranges),
    ensures
        paints(marked(pieces, ranges, tone)) == Seq::new(
            pieces_text(pieces).len(),
            |i: int|
                if in_ranges(ranges, i) {
                    PaintModel::Tone(tone)
                } else {
                    paints(pieces)[i]
                },
        ),
    decreases pieces.len(),
{
    let whole = Seq::new(
        pieces_text(pieces).len(),
        |i: int|
            if in_ranges(ranges, i) {
                PaintModel::Tone(tone)
            } else {
                paints(pieces)[i]
            },
    );
    let result = marked(pieces, ranges, tone);
    if pieces.len() > 0 {
        let before = pieces.drop_last();
        let at = pieces_text(before).len() as int;
        let last = cut_piece(pieces.last(), at, ranges, tone);
        law_marking_paints_the_ranges(before, ranges, tone);
        lemma_pieces_add(marked(before, ranges, tone), last);
        lemma_as_many_paints(before);
        lemma_as_many_paints(pieces);
        match pieces.last() {
            PieceModel::Text { text, paint } => {
                lemma_cut_paints(text, paint, at, ranges, tone);
                assert forall|i: int| 0 <= i < whole.len() implies paints(result)[i]
                    == whole[i] by {
                    if i >= at {
                        assert(paints(result)[i] == paints(last)[i - at]);
                        assert(at + (i - at) == i);
                    } else {
                        assert(paints(pieces)[i] == paints(before)[i]);
                    }
                }
            },
            PieceModel::Icon(_) => {
                lemma_no_text(pieces.last());
            },
        }
    }
    assert(paints(result) =~= whole);
}

proof fn lemma_first_fit(row: Seq<Seq<char>>, form: Seq<char>, k: nat)
    ensures
        match first_fit(row, form, k) {
            Some(j) => {
                &&& k <= j < row.len()
                &&& row[j as int] == form
                &&& forall|i: int| k <= i < j ==> #[trigger] row[i] != form
            },
            None => forall|i: int| k <= i < row.len() ==> #[trigger] row[i] != form,
        },
    decreases row.len() - k,
{
    if k < row.len() && row[k as int] != form {
        lemma_first_fit(row, form, k + 1);
    }
}

/// Whether an occurrence that begins at `from` and goes up to `to` begins in one of
/// the ranges, and reaches as far as that range does where it begins with it.
pub open spec fn is_taken(ranges: Seq<(int, int)>, from: int, to: int) -> bool {
    exists|k: int| {
        &&& 0 <= k < ranges.len()
        &&& (#[trigger] ranges[k]).0 <= from < ranges[k].1
        &&& from == ranges[k].0 ==> ranges[k].1 <= to
    }
}

proof fn lemma_taken_later(first: (int, int), rest: Seq<(int, int)>, from: int, to: int)
    requires
        is_taken(rest, from, to),
    ensures
        is_taken(seq![first] + rest, from, to),
{
    let k = choose|k: int| {
        &&& 0 <= k < rest.len()
        &&& (#[trigger] rest[k]).0 <= from < rest[k].1
        &&& from == rest[k].0 ==> rest[k].1 <= to
    };
    assert((seq![first] + rest)[k + 1] == rest[k]);
}

proof fn lemma_occurrences(text: Seq<char>, query: Seq<char>, i: nat)
    requires
        i <= text.len(),
    ensures
        ({
            let ranges = hits_from(forms_of(text, text.len()), lowercase(query), i);
            &&& ordered(ranges)
            &&& forall|k: int|
                0 <= k < ranges.len() ==> i <= (#[trigger] ranges[k]).0 && is_occurrence(
                    text,
                    query,
                    ranges[k].0,
                    ranges[k].1,
                )
            &&& forall|from: int, to: int|
                i <= from && #[trigger] is_occurrence(text, query, from, to) ==> is_taken(
                    ranges,
                    from,
                    to,
                )
        }),
    decreases text.len() - i,
{
    let form = lowercase(query);
    let forms = forms_of(text, text.len());
    let ranges = hits_from(forms, form, i);
    if i < text.len() {
        let row = forms[i as int];
        lemma_first_fit(row, form, 0);
        match first_fit(row, form, 0) {
            Some(k) => {
                let next = i + k + 1;
                let rest = hits_from(forms, form, next);
                let first = (i as int, next as int);
                lemma_occurrences(text, query, next);
                assert(ranges == seq![first] + rest);
                assert(is_occurrence(text, query, i as int, next as int));
                assert forall|j: int| 0 <= j < ranges.len() implies i <= (#[trigger] ranges[j]).0
                    && is_occurrence(text, query, ranges[j].0, ranges[j].1) by {
                    if j > 0 {
                        assert(ranges[j] == rest[j - 1]);
                    }
                }
                assert forall|j: int, l: int| 0 <= j < l < ranges.len() implies (
                #[trigger] ranges[j]).1 <= (#[trigger] ranges[l]).0 by {
                    assert(ranges[l] == rest[l - 1]);
                    if j > 0 {
                        assert(ranges[j] == rest[j - 1]);
                    }
                }
                assert forall|from: int, to: int|
                    i <= from && #[trigger] is_occurrence(text, query, from, to) implies is_taken(
                    ranges,
                    from,
                    to,
                ) by {
                    if from >= next {
                        lemma_taken_later(first, rest, from, to);
                    } else {
                        assert(ranges[0] == first);
                        if from == i && to < next {
                            assert(row[to - from - 1] == form_of_part(text, from, to));
                        }
                    }
                }
            },
            None => {
                lemma_occurrences(text, query, i + 1);
                assert forall|from: int, to: int|
                    i <= from && #[trigger] is_occurrence(text, query, from, to) implies is_taken(
                    ranges,
                    from,
                    to,
                ) by {
                    if from == i {
                        assert(row[to - from - 1] == form_of_part(text, from, to));
                    }
                }
            },
        }
    }
}

/// The marked ranges are occurrences of the query. They do not overlap, and each is
/// the leftmost one that the ranges before it leave: whatever occurrence there is
/// begins within a marked range, and is no shorter than it where it begins with it.
pub proof fn law_hits_are_leftmost(text: Seq<char>, query: Seq<char>)
    ensures
        ordered(hit_ranges(text, query)),
        forall|k: int|
            0 <= k < hit_ranges(text, query).len() ==> is_occurrence(
                text,
                query,
                (#[trigger] hit_ranges(text, query)[k]).0,
                hit_ranges(text, query)[k].1,
            ),
        forall|from: int, to: int| #[trigger]
            is_occurrence(text, query, from, to) ==> is_taken(hit_ranges(text, query), from, to),
{
    lemma_occurrences(text, query, 0);
}

/// A line with an occurrence of the query in its text is a hit for the query.
pub proof fn law_marked_text_is_a_hit(text: Seq<char>, query: Seq<char>, from: int, to: int)
    requires
        is_occurrence(text, query, from, to),
    ensures
        line_matches(text, query),
{
    let start = form_edge(text, from);
    let end = form_edge(text, to);
    let lower = lowercase(text);
    if start <= end <= lower.len() {
        assert(occurs_at(lower, lowercase(query), start as int));
    } else {
        assert(lower.subrange(0, 0) =~= lowercase(query));
        assert(occurs_at(lower, lowercase(query), 0));
    }
}

/// Nothing is marked in a text that is no hit for the query.
proof fn lemma_no_hit_no_mark(text: Seq<char>, query: Seq<char>)
    requires
        !line_matches(text, query),
    ensures
        hit_ranges(text, query) == Seq::<(int, int)>::empty(),
{
    let ranges = hit_ranges(text, query);
    law_hits_are_leftmost(text, query);
    if ranges.len() > 0 {
        assert(is_occurrence(text, query, ranges[0].0, ranges[0].1));
        law_marked_text_is_a_hit(text, query, ranges[0].0, ranges[0].1);
    }
    assert(ranges =~= Seq::<(int, int)>::empty());
}

/// Whether every character adds to the lower-case form.
spec fn edges_rise(text: Seq<char>) -> bool {
    forall|i: int, j: int|
        0 <= i <= j <= text.len() ==> #[trigger] form_edge(text, i) + (j - i)
            <= #[trigger] form_edge(text, j)
}

proof fn lemma_long_parts_do_not_fit(text: Seq<char>, form: Seq<char>, from: int, to: int)
    requires
        edges_rise(text),
        0 <= from < to <= text.len(),
        to - from > form.len(),
    ensures
        form_of_part(text, from, to) != form,
{
    assert(text.take(text.len() as int) =~= text);
    assert(form_edge(text, text.len() as int) == lowercase(text).len());
    assert(form_edge(text, to) <= form_edge(text, text.len() as int));
    assert(form_edge(text, from) + (to - from) <= form_edge(text, to));
}

/// Parts with more characters than the form that is looked for need not be looked at.
proof fn lemma_short_parts_suffice(text: Seq<char>, form: Seq<char>, i: nat)
    requires
        edges_rise(text),
    ensures
        hits_from(forms_of(text, form.len()), form, i) == hits_from(
            forms_of(text, text.len()),
            form,
            i,
        ),
    decreases text.len() - i,
{
    if i < text.len() {
        let short = forms_of(text, form.len())[i as int];
        let full = forms_of(text, text.len())[i as int];
        lemma_first_fit(short, form, 0);
        lemma_first_fit(full, form, 0);
        assert forall|k: int| 0 <= k < short.len() implies #[trigger] short[k] == full[k] by {}
        assert forall|k: int| form.len() <= k < full.len() implies #[trigger] full[k] != form by {
            lemma_long_parts_do_not_fit(text, form, i as int, i + k + 1);
        }
        if let Some(k) = first_fit(full, form, 0) {
            assert(k < short.len());
            assert(short[k as int] == full[k as int]);
            if let Some(j) = first_fit(short, form, 0) {
                assert(short[j as int] == full[j as int]);
            }
        } else if let Some(j) = first_fit(short, form, 0) {
            assert(short[j as int] == full[j as int]);
        }
        assert(first_fit(short, form, 0) == first_fit(full, form, 0));
        match first_fit(full, form, 0) {
            Some(k) => {
                lemma_short_parts_suffice(text, form, i + k + 1);
            },
            None => {
                lemma_short_parts_suffice(text, form, i + 1);
            },
        }
    }
}

/// A highlighted line reads as it did. The characters of the hits have the tone of a
/// hit, and all others the paint that they had.
pub proof fn law_highlighting_marks_the_hits(
    pieces: Seq<PieceModel>,
    query: Seq<char>,
    is_current: bool,
)
    requires
        query.len() > 0,
    ensures
        pieces_text(highlighted(pieces, query, is_current)) == pieces_text(pieces),
        paints(highlighted(pieces, query, is_current)) == Seq::new(
            pieces_text(pieces).len(),
            |i: int|
                if in_ranges(hit_ranges(pieces_text(pieces), query), i) {
                    PaintModel::Tone(hit_tone(is_current))
                } else {
                    paints(pieces)[i]
                },
        ),
{
    let ranges = hit_ranges(pieces_text(pieces), query);
    law_hits_are_leftmost(pieces_text(pieces), query);
    law_marking_keeps_the_text(pieces, ranges, hit_tone(is_current));
    law_marking_paints_the_ranges(pieces, ranges, hit_tone(is_current));
}

/// The texts of a table of lower-case forms.
pub open spec fn form_texts(forms: Seq<Vec<String>>) -> Seq<Seq<Seq<char>>> {
    Seq::new(forms.len(), |i: int| views(forms[i]@))
}

/// Ranges of positions as pairs of integers.
pub open spec fn range_values(ranges: Seq<(usize, usize)>) -> Seq<(int, int)> {
    Seq::new(ranges.len(), |i: int| (ranges[i].0 as int, ranges[i].1 as int))
}

/// The edges of the lower-case forms of the characters of a text.
spec fn edges_are(text: Seq<char>, edges: Seq<usize>) -> bool {
    &&& edges.len() == text.len() + 1
    &&& forall|i: int| 0 <= i <= text.len() ==> #[trigger] edges[i] == form_edge(text, i)
}

fn form_edges(chars: &Vec<char>) -> (r: Vec<usize>)
    ensures
        edges_are(chars@, r@),
{
    let mut out: Vec<usize> = Vec::new();
    let mut prefix: String = String::new();
    assert(chars@.take(0) =~= Seq::<char>::empty());
    out.push(count_chars(prefix.as_str().to_lowercase().as_str()));
    let mut i: usize = 0;
    while i < chars.len()
        invariant
            i <= chars@.len(),
            prefix@ == chars@.take(i as int),
            out@.len() == i + 1,
            forall|k: int| 0 <= k <= i ==> #[trigger] out@[k] == form_edge(chars@, k),
        decreases chars@.len() - i,
    {
        prefix.push(chars[i]);
        assert(prefix@ =~= chars@.take(i + 1));
        out.push(count_chars(prefix.as_str().to_lowercase().as_str()));
        i = i + 1;
    }
    out
}

/// Whether every character adds to the lower-case form.
fn do_rise(edges: &Vec<usize>, Ghost(text): Ghost<Seq<char>>) -> (r: bool)
    requires
        edges_are(text, edges@),
    ensures
        r ==> edges_rise(text),
{
    let mut i: usize = 1;
    while i < edges.len()
        invariant
            edges_are(text, edges@),
            1 <= i <= edges@.len(),
            forall|a: int, b: int|
                0 <= a <= b < i ==> #[trigger] form_edge(text, a) + (b - a) <= #[trigger] form_edge(
                    text,
                    b,
                ),
        decreases edges@.len() - i,
    {
        assert(edges@[i - 1] == form_edge(text, i - 1));
        assert(edges@[i as int] == form_edge(text, i as int));
        if edges[i] <= edges[i - 1] {
            return false;
        }
        assert forall|a: int, b: int| 0 <= a <= b < i + 1 implies #[trigger] form_edge(text, a) + (
        b - a) <= #[trigger] form_edge(text, b) by {
            if a < i && b == i {
                assert(form_edge(text, a) + (i - 1 - a) <= form_edge(text, i - 1));
            }
        }
        i = i + 1;
    }
    true
}

fn form_between(lower: &Vec<char>, start: usize, end: usize) -> (r: String)
    ensures
        r@ == (if start <= end <= lower@.len() {
            lower@.subrange(start as int, end as int)
        } else {
            Seq::<char>::empty()
        }),
{
    if start <= end && end <= lower.len() {
        text_between(lower, start, end)
    } else {
        String::new()
    }
}

fn lower_forms_at(
    lower: &Vec<char>,
    edges: &Vec<usize>,
    i: usize,
    most: usize,
    Ghost(text): Ghost<Seq<char>>,
) -> (r: Vec<String>)
    requires
        lower@ == lowercase(text),
        edges_are(text, edges@),
        i < text.len(),
    ensures
        views(r@) == forms_at(text, i as int, most as nat),
{
    let room: usize = edges.len() - 1 - i;
    let n: usize = if most <= room {
        most
    } else {
        room
    };
    let ghost all = forms_at(text, i as int, most as nat);
    let mut out: Vec<String> = Vec::new();
    let mut k: usize = 0;
    while k < n
        invariant
            k <= n,
            i + n < edges.len(),
            lower@ == lowercase(text),
            edges_are(text, edges@),
            all == forms_at(text, i as int, most as nat),
            all.len() == n,
            views(out@) == all.take(k as int),
        decreases n - k,
    {
        let form: String = form_between(lower, edges[i], edges[i + k + 1]);
        proof {
            assert(edges@[i as int] == form_edge(text, i as int));
            assert(edges@[i + k + 1] == form_edge(text, i + k + 1));
            assert(form@ == all[k as int]);
            lemma_views_push(out@, form);
        }
        out.push(form);
        k = k + 1;
        assert(all.take(k as int) =~= all.take(k - 1).push(all[k - 1]));
    }
    assert(all.take(k as int) =~= all);
    out
}

/// The lower-case forms of the parts of a text that have `most` characters at most,
/// by their first position.
fn lower_forms(
    lower: &Vec<char>,
    edges: &Vec<usize>,
    most: usize,
    Ghost(text): Ghost<Seq<char>>,
) -> (r: Vec<Vec<String>>)
    requires
        lower@ == lowercase(text),
        edges_are(text, edges@),
    ensures
        form_texts(r@) == forms_of(text, most as nat),
{
    let n: usize = edges.len() - 1;
    let mut out: Vec<Vec<String>> = Vec::new();
    let mut i: usize = 0;
    while i < n
        invariant
            i <= n == text.len(),
            lower@ == lowercase(text),
            edges_are(text, edges@),
            out@.len() == i,
            forall|j: int|
                0 <= j < i ==> views((#[trigger] out@[j])@) == forms_at(text, j, most as nat),
        decreases n - i,
    {
        let row: Vec<String> = lower_forms_at(lower, edges, i, most, Ghost(text));
        out.push(row);
        i = i + 1;
    }
    assert(form_texts(out@) =~= forms_of(text, most as nat));
    out
}

fn find_fit(row: &Vec<String>, form: &str) -> (r: Option<usize>)
    ensures
        match r {
            Some(k) => k < row@.len() && first_fit(views(row@), form@, 0) == Some(k as nat),
            None => first_fit(views(row@), form@, 0) is None,
        },
{
    let ghost forms = views(row@);
    let mut k: usize = 0;
    while k < row.len()
        invariant
            k <= row@.len(),
            forms == views(row@),
            first_fit(forms, form@, k as nat) == first_fit(forms, form@, 0),
        decreases row@.len() - k,
    {
        assert(forms[k as int] == row@[k as int]@);
        if same_text(row[k].as_str(), form) {
            return Some(k);
        }
        k = k + 1;
    }
    None
}

/// Finds the hits for a query in a text, from left to right: `forms` holds, by their
/// first position, the lower-case forms of the parts of the text, the shortest part
/// first, and `form` is that of the query.
pub fn find_hits(forms: &Vec<Vec<String>>, form: &str) -> (r: Vec<(usize, usize)>)
    requires
        forall|i: int|
            0 <= i < forms@.len() ==> i + (#[trigger] forms@[i])@.len() <= forms@.len(),
    ensures
        range_values(r@) == hits_from(form_texts(forms@), form@, 0),
{
    let ghost table = form_texts(forms@);
    let mut out: Vec<(usize, usize)> = Vec::new();
    let mut i: usize = 0;
    assert(range_values(out@) + hits_from(table, form@, 0) =~= hits_from(table, form@, 0));
    while i < forms.len()
        invariant
            i <= forms@.len(),
            table == form_texts(forms@),
            forall|j: int|
                0 <= j < forms@.len() ==> j + (#[trigger] forms@[j])@.len() <= forms@.len(),
            range_values(out@) + hits_from(table, form@, i as nat) == hits_from(table, form@, 0),
        decreases forms@.len() - i,
    {
        assert(table[i as int] == views(forms@[i as int]@));
        match find_fit(&forms[i], form) {
            Some(k) => {
                let next: usize = i + k + 1;
                let ghost before = range_values(out@);
                out.push((i, next));
                proof {
                    let first = (i as int, next as int);
                    assert(range_values(out@) =~= before.push(first));
                    assert(before + (seq![first] + hits_from(table, form@, next as nat))
                        =~= range_values(out@) + hits_from(table, form@, next as nat));
                }
                i = next;
            },
            None => {
                i = i + 1;
            },
        }
    }
    assert(range_values(out@) =~= range_values(out@) + hits_from(table, form@, i as nat));
    out
}

fn find_place(ranges: &Vec<(usize, usize)>, at: usize) -> (r: (bool, Option<usize>))
    ensures
        r.0 == place(range_values(ranges@), at as int, 0).0,
        match r.1 {
            Some(edge) => place(range_values(ranges@), at as int, 0).1 == Some(edge as int),
            None => place(range_values(ranges@), at as int, 0).1 is None,
        },
{
    let ghost values = range_values(ranges@);
    let mut k: usize = 0;
    while k < ranges.len()
        invariant
            k <= ranges@.len(),
            values == range_values(ranges@),
            place(values, at as int, k as nat) == place(values, at as int, 0),
        decreases ranges@.len() - k,
    {
        let (from, to): (usize, usize) = ranges[k];
        assert(values[k as int] == (from as int, to as int));
        if at < from {
            return (false, Some(from));
        }
        if at < to {
            return (true, Some(to));
        }
        k = k + 1;
    }
    (false, None)
}

/// Adds the parts of a text, which stands at position `at` of its line.
fn push_cut(
    out: &mut Line,
    chars: &Vec<char>,
    paint: &Paint,
    at: usize,
    ranges: &Vec<(usize, usize)>,
    tone: Tone,
)
    requires
        at + chars@.len() <= usize::MAX,
    ensures
        final(out)@ == old(out)@ + cut(chars@, paint@, at as int, range_values(ranges@), tone),
{
    let ghost values = range_values(ranges@);
    let ghost whole = cut(chars@, paint@, at as int, values, tone);
    let mut i: usize = 0;
    assert(chars@.skip(0) =~= chars@);
    while i < chars.len()
        invariant
            i <= chars@.len(),
            at + chars@.len() <= usize::MAX,
            values == range_values(ranges@),
            whole == cut(chars@, paint@, at as int, values, tone),
            out@ + cut(chars@.skip(i as int), paint@, at + i, values, tone) == old(out)@ + whole,
        decreases chars@.len() - i,
    {
        let (inside, edge): (bool, Option<usize>) = find_place(ranges, at + i);
        let end: usize = match edge {
            Some(edge) => if at + i < edge && edge < at + chars.len() {
                edge - at
            } else {
                chars.len()
            },
            None => chars.len(),
        };
        let ghost rest = chars@.skip(i as int);
        let ghost before = out@;
        let text: String = text_between(chars, i, end);
        let piece: Piece = if inside {
            Piece::Text { text, paint: Paint::Tone(tone) }
        } else {
            Piece::Text { text, paint: paint.copied() }
        };
        let ghost first = piece@;
        out.push(piece);
        proof {
            let n = run_len(values, at + i, rest.len());
            assert(n == end - i);
            assert(text@ =~= rest.take(n as int));
            assert(rest.skip(n as int) =~= chars@.skip(end as int));
            let later = cut(chars@.skip(end as int), paint@, at + end, values, tone);
            assert(cut(rest, paint@, at + i, values, tone) == seq![first] + later);
            assert(before + (seq![first] + later) =~= before.push(first) + later);
        }
        i = end;
    }
    assert(out@ =~= out@ + cut(chars@.skip(i as int), paint@, at + i, values, tone));
}

proof fn lemma_pieces_text_prefix(pieces: Seq<PieceModel>, n: int)
    requires
        0 <= n <= pieces.len(),
    ensures
        pieces_text(pieces.take(n)).len() <= pieces_text(pieces).len(),
{
    lemma_pieces_add(pieces.take(n), pieces.skip(n));
    assert(pieces.take(n) + pieces.skip(n) =~= pieces);
}

/// The characters of a line.
fn line_chars(line: &Line) -> (r: Vec<char>)
    ensures
        r@ == pieces_text(line@),
{
    let mut out: Vec<char> = Vec::new();
    let mut i: usize = 0;
    assert(line@.take(0) =~= Seq::<PieceModel>::empty());
    while i < line.pieces.len()
        invariant
            i <= line.pieces@.len(),
            out@ == pieces_text(line@.take(i as int)),
        decreases line.pieces@.len() - i,
    {
        assert(line@[i as int] == line.pieces@[i as int]@);
        assert(line@.take(i + 1).drop_last() =~= line@.take(i as int));
        assert(line@.take(i + 1).last() == line@[i as int]);
        match &line.pieces[i] {
            Piece::Text { text, .. } => {
                let mut chars: Vec<char> = chars_of(text.as_str());
                out.append(&mut chars);
            },
            Piece::Icon(_) => {},
        }
        i = i + 1;
    }
    assert(line@.take(i as int) =~= line@);
    out
}

/// Marks ranges of the text of a line. What lies outside of them keeps its paint.
pub fn mark_ranges(line: &Line, ranges: &Vec<(usize, usize)>, tone: Tone) -> (r: Line)
    ensures
        r@ == marked(line@, range_values(ranges@), tone),
        pieces_text(r@) == pieces_text(line@),
{
    let ghost values = range_values(ranges@);
    let total: usize = line_chars(line).len();
    let mut out: Line = Line::empty();
    let mut at: usize = 0;
    let mut i: usize = 0;
    assert(line@.take(0) =~= Seq::<PieceModel>::empty());
    while i < line.pieces.len()
        invariant
            i <= line.pieces@.len(),
            values == range_values(ranges@),
            total == pieces_text(line@).len(),
            at == pieces_text(line@.take(i as int)).len(),
            out@ == marked(line@.take(i as int), values, tone),
        decreases line.pieces@.len() - i,
    {
        proof {
            assert(line@[i as int] == line.pieces@[i as int]@);
            assert(line@.take(i + 1).drop_last() =~= line@.take(i as int));
            assert(line@.take(i + 1).last() == line@[i as int]);
            lemma_pieces_text_prefix(line@, i + 1);
        }
        match &line.pieces[i] {
            Piece::Text { text, paint } => {
                let chars: Vec<char> = chars_of(text.as_str());
                push_cut(&mut out, &chars, paint, at, ranges, tone);
                at = at + chars.len();
            },
            Piece::Icon(status) => {
                let ghost before = out@;
                out.push(Piece::Icon(*status));
                assert(out@ =~= before + seq![line@[i as int]]);
            },
        }
        i = i + 1;
    }
    assert(line@.take(i as int) =~= line@);
    proof {
        law_marking_keeps_the_text(line@, values, tone);
    }
    out
}

/// Looks up the occurrences of a query in a text. Only a text that is a hit for the
/// query is searched.
fn find_occurrences(chars: &Vec<char>, query: &str) -> (r: Vec<(usize, usize)>)
    ensures
        range_values(r@) == hit_ranges(chars@, query@),
{
    let text: String = text_between(chars, 0, chars.len());
    assert(text@ =~= chars@);
    let lower: String = text.as_str().to_lowercase();
    let form: String = query.to_lowercase();
    if !str_contains(lower.as_str(), form.as_str()) {
        proof {
            lemma_no_hit_no_mark(chars@, query@);
        }
        let none: Vec<(usize, usize)> = Vec::new();
        assert(range_values(none@) =~= Seq::<(int, int)>::empty());
        return none;
    }
    let edges: Vec<usize> = form_edges(chars);
    let most: usize = if do_rise(&edges, Ghost(chars@)) {
        proof {
            lemma_short_parts_suffice(chars@, form@, 0);
        }
        count_chars(form.as_str())
    } else {
        chars.len()
    };
    let lower_chars: Vec<char> = chars_of(lower.as_str());
    let forms: Vec<Vec<String>> = lower_forms(&lower_chars, &edges, most, Ghost(chars@));
    let ghost table = forms_of(chars@, most as nat);
    assert(form_texts(forms@).len() == table.len());
    assert forall|i: int| 0 <= i < forms@.len() implies i + (#[trigger] forms@[i])@.len()
        <= forms@.len() by {
        assert(form_texts(forms@)[i] == table[i]);
        assert(views(forms@[i]@).len() == forms@[i]@.len());
    }
    find_hits(&forms, form.as_str())
}

fn tone_of_hit(is_current: bool) -> (r: Tone)
    ensures
        r == hit_tone(is_current),
{
    if is_current {
        Tone::SearchCurrentMatch
    } else {
        Tone::SearchMatch
    }
}

/// Marks every occurrence of `query` in a styled line. Letter case does not count.
/// The hits on the line of the current match have a tone of their own; the rest of
/// the line keeps its styles.
pub fn highlight_styled(line: &Line, query: &str, is_current: bool) -> (r: Line)
    ensures
        r@ == highlighted(line@, query@, is_current),
        pieces_text(r@) == pieces_text(line@),
{
    if query.is_empty() {
        return line.copied();
    }
    let ranges: Vec<(usize, usize)> = find_occurrences(&line_chars(line), query);
    mark_ranges(line, &ranges, tone_of_hit(is_current))
}

/// Marks every occurrence of `query` in a line of text: its leftmost ranges of
/// characters that do not overlap and whose part of the lower-case form of the line is
/// the lower-case form of the query.
/// The hits on the line of the current match have a tone of their own.
pub fn highlight_line(line: &str, query: &str, is_current: bool) -> (r: Line)
    ensures
        query@.len() == 0 ==> r@ == plain_line(line@),
        query@.len() > 0 ==> {
            &&& r@ == marked(
                seq![raw_piece(line@)],
                hit_ranges(line@, query@),
                hit_tone(is_current),
            )
            &&& pieces_text(r@) == line@
        },
{
    if query.is_empty() {
        return Line::plain(line);
    }
    let mut whole: Line = Line::empty();
    whole.push_raw(line.to_owned());
    proof {
        assert(whole@ =~= seq![raw_piece(line@)]);
        lemma_one_piece(line@, PaintModel::Raw);
    }
    highlight_styled(&whole, query, is_current)
}

} // verus!
