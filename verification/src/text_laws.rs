//! What the texts are that the application puts together.

use vstd::prelude::*;

use crate::screen::plain_lines;
use crate::spans::{
    ansi_lines, parsed_line, plain_line, raw_piece, shown_line, PaintModel, PieceModel,
};
use crate::text::{decimal_text, digit, joined, line_end, lines_from, padded};

verus! {

/// The number that a text of digits stands for.
pub open spec fn number(text: Seq<char>) -> int
    decreases text.len(),
{
    if text.len() == 0 {
        0
    } else {
        number(text.drop_last()) * 10 + (text.last() as int - '0' as int)
    }
}

/// Numbers are written in decimal digits, without leading zeros.
pub proof fn law_numbers_are_written_in_decimal(n: nat)
    ensures
        number(decimal_text(n)) == n,
        decimal_text(n).len() > 0,
        forall|i: int|
            0 <= i < decimal_text(n).len() ==> '0' <= #[trigger] decimal_text(n)[i] <= '9',
        decimal_text(n).len() > 1 ==> decimal_text(n)[0] != '0',
    decreases n,
{
    let text = decimal_text(n);
    if n < 10 {
        assert(text.drop_last() =~= Seq::<char>::empty());
        assert(text.last() == digit(n));
        reveal_with_fuel(number, 2);
        assert(digit(n) as int == 48 + n);
    } else {
        law_numbers_are_written_in_decimal(n / 10);
        let before = decimal_text(n / 10);
        assert(text.drop_last() =~= before);
        assert(digit(n % 10) as int == 48 + n % 10);
        assert(text[0] == before[0]);
        if before.len() == 1 {
            reveal_with_fuel(number, 2);
            assert(before.drop_last() =~= Seq::<char>::empty());
            assert(number(before) == before[0] as int - 48);
            assert(n / 10 > 0);
        }
        assert forall|i: int| 0 <= i < text.len() implies '0' <= #[trigger] text[i] <= '9' by {
            if i < before.len() {
                assert(text[i] == before[i]);
            }
        }
        assert(n == (n / 10) * 10 + n % 10) by (nonlinear_arith);
    }
}

/// A text in a column has the width of the column: what is too long is cut off, and what
/// is too short is filled up with blanks.
pub proof fn law_columns_have_their_width(width: nat, text: Seq<char>)
    ensures
        padded(width, text).len() == width,
        forall|i: int|
            0 <= i < width ==> #[trigger] padded(width, text)[i] == (if i < text.len() {
                text[i]
            } else {
                ' '
            }),
{
}

/// Parts are put together in order, with what goes between them between each two
/// neighbours and nowhere else.
pub proof fn law_parts_are_joined<T>(parts: Seq<Seq<T>>, last: Seq<T>, between: Seq<T>)
    ensures
        joined(Seq::<Seq<T>>::empty(), between) == Seq::<T>::empty(),
        joined(seq![last], between) == last,
        parts.len() > 0 ==> joined(parts.push(last), between) == joined(parts, between) + between
            + last,
{
    if parts.len() > 0 {
        assert(parts.push(last).drop_last() =~= parts);
    }
}

/// Whether a text has no line feed in it.
pub open spec fn on_one_line(text: Seq<char>) -> bool {
    forall|i: int| 0 <= i < text.len() ==> #[trigger] text[i] != '\n'
}

proof fn lemma_line_end(text: Seq<char>, from: int, end: int)
    requires
        0 <= from <= end <= text.len(),
        forall|i: int| from <= i < end ==> #[trigger] text[i] != '\n',
        end < text.len() ==> text[end] == '\n',
    ensures
        line_end(text, from) == end,
    decreases end - from,
{
    if from < end {
        lemma_line_end(text, from + 1, end);
    }
}

/// A text without a line feed is one line, and none where it is empty.
pub proof fn law_text_without_line_feeds(text: Seq<char>)
    requires
        on_one_line(text),
    ensures
        text.len() > 0 ==> lines_from(text, 0) == seq![text],
        text.len() == 0 ==> lines_from(text, 0).len() == 0,
        text.len() > 0 ==> plain_line(text) == seq![
            PieceModel::Text { text, paint: PaintModel::Raw },
        ],
        text.len() == 0 ==> plain_line(text).len() == 0,
{
    lemma_line_end(text, 0, text.len() as int);
    assert(text.subrange(0, text.len() as int) =~= text);
    if text.len() > 0 {
        assert(plain_line(text) =~= seq![raw_piece(text)]);
    }
}

proof fn lemma_lines_of_the_rest(first: Seq<char>, rest: Seq<char>, from: int)
    requires
        0 <= from <= rest.len(),
    ensures
        lines_from(first + rest, first.len() + from) == lines_from(rest, from),
    decreases rest.len() - from,
{
    let text = first + rest;
    if from < rest.len() {
        lemma_line_end_shifts(first, rest, from);
        let end = line_end(rest, from);
        lemma_line_end_within(rest, from);
        if end < rest.len() {
            lemma_lines_of_the_rest(first, rest, end + 1);
            assert(text.subrange(first.len() + from, first.len() + end) =~= rest.subrange(
                from,
                end,
            ));
        } else {
            assert(text.subrange(first.len() + from, text.len() as int) =~= rest.subrange(
                from,
                rest.len() as int,
            ));
        }
    }
}

proof fn lemma_line_end_within(text: Seq<char>, from: int)
    requires
        0 <= from <= text.len(),
    ensures
        from <= line_end(text, from) <= text.len(),
    decreases text.len() - from,
{
    if from < text.len() && text[from] != '\n' {
        lemma_line_end_within(text, from + 1);
    }
}

proof fn lemma_line_end_shifts(first: Seq<char>, rest: Seq<char>, from: int)
    requires
        0 <= from <= rest.len(),
    ensures
        line_end(first + rest, first.len() + from) == first.len() + line_end(rest, from),
    decreases rest.len() - from,
{
    let text = first + rest;
    if from < rest.len() {
        assert(text[first.len() + from] == rest[from]);
        if rest[from] != '\n' {
            lemma_line_end_shifts(first, rest, from + 1);
        }
    }
}

/// A text with a line feed in it is the line before the line feed, without the carriage
/// return that may stand there, and the lines of what comes after it.
pub proof fn law_text_is_split_at_line_feeds(line: Seq<char>, rest: Seq<char>)
    requires
        on_one_line(line),
    ensures
        lines_from(line.push('\n') + rest, 0) == seq![
            if line.len() > 0 && line[line.len() - 1] == '\r' {
                line.subrange(0, line.len() - 1)
            } else {
                line
            },
        ] + lines_from(rest, 0),
{
    let first = line.push('\n');
    let text = first + rest;
    assert(text[line.len() as int] == '\n');
    assert forall|i: int| 0 <= i < line.len() implies #[trigger] text[i] != '\n' by {
        assert(text[i] == line[i]);
    }
    lemma_line_end(text, 0, line.len() as int);
    assert(text.subrange(0, line.len() as int) =~= line);
    lemma_lines_of_the_rest(first, rest, 0);
    if line.len() > 0 && line.last() == '\r' {
        assert(line.drop_last() =~= line.subrange(0, line.len() - 1));
    }
}

/// A log line is shown as reading its escape sequences makes it: one line as it is,
/// nothing as an empty line, several with a blank between each two; and where they
/// cannot be read, as the text itself.
pub proof fn law_log_line_as_shown(
    text: Seq<char>,
    line: Seq<PieceModel>,
    more: Seq<Seq<PieceModel>>,
)
    requires
        on_one_line(text),
    ensures
        shown_line(text, Some(seq![line])) == line,
        shown_line(text, Some(Seq::empty())) == Seq::<PieceModel>::empty(),
        more.len() > 0 ==> shown_line(text, Some(more.push(line))) == shown_line(
            text,
            Some(more),
        ).push(PieceModel::Text { text: seq![' '], paint: PaintModel::Raw }) + line,
        text.len() > 0 ==> shown_line(text, None) == seq![
            PieceModel::Text { text, paint: PaintModel::Raw },
        ],
        text.len() == 0 ==> shown_line(text, None).len() == 0,
{
    law_text_without_line_feeds(text);
    let blank = PieceModel::Text { text: seq![' '], paint: PaintModel::Raw };
    reveal_strlit(" ");
    assert(" "@ =~= seq![' ']);
    assert(raw_piece(" "@) == blank);
    law_parts_are_joined(more, line, seq![blank]);
    if more.len() > 0 {
        assert(joined(more, seq![blank]) + seq![blank] =~= joined(more, seq![blank]).push(blank));
    }
}

/// A log line is shown by what its escape sequences say, and several texts are shown one
/// below the other.
pub proof fn law_lines_as_shown(text: Seq<char>, texts: Seq<Seq<char>>, k: int)
    requires
        0 <= k < texts.len(),
    ensures
        parsed_line(text) == shown_line(text, ansi_lines(text)),
        plain_lines(texts).len() == texts.len(),
        on_one_line(texts[k]) && texts[k].len() > 0 ==> plain_lines(texts)[k] == seq![
            PieceModel::Text { text: texts[k], paint: PaintModel::Raw },
        ],
        texts[k].len() == 0 ==> plain_lines(texts)[k].len() == 0,
{
    if on_one_line(texts[k]) {
        law_text_without_line_feeds(texts[k]);
    }
}

} // verus!
