//! Styled text: lines made of pieces, and the lines that log output is turned
//! into.

use ansi_to_tui::IntoText;
use vstd::prelude::*;

use crate::target::Status;
use crate::text::{joined, lemma_views_push, lines_from, lines_of, views};

verus! {

/// A style that the output of a process asked for by escape sequences. Colours
/// are given by their names (`Red`, `LightBlue`), by `#RRGGBB`, or by their
/// number in the 256-colour palette.
#[derive(Debug)]
pub struct TextStyle {
    pub fg: Option<String>,
    pub bg: Option<String>,
    pub underline: Option<String>,
    /// The modifier bits (bold, italic, ...) that the style sets.
    pub added: u16,
    /// The modifier bits that the style takes away.
    pub removed: u16,
}

/// What a [`TextStyle`] holds.
pub struct StyleModel {
    pub fg: Option<Seq<char>>,
    pub bg: Option<Seq<char>>,
    pub underline: Option<Seq<char>>,
    pub added: u16,
    pub removed: u16,
}

/// The text of an optional string.
pub open spec fn optional_text(text: Option<String>) -> Option<Seq<char>> {
    match text {
        Some(t) => Some(t@),
        None => None,
    }
}

impl View for TextStyle {
    type V = StyleModel;

    open spec fn view(&self) -> StyleModel {
        StyleModel {
            fg: optional_text(self.fg),
            bg: optional_text(self.bg),
            underline: optional_text(self.underline),
            added: self.added,
            removed: self.removed,
        }
    }
}

/// The roles that the colour theme gives styles to.
#[derive(Clone, Copy, Debug, PartialEq, Eq, Structural)]
pub enum Tone {
    Header,
    HeaderHint,
    Border,
    Item,
    FolderItem,
    SelectedItem,
    OtelAlert,
    OtelAlertOff,
    KeyHint,
    PanelTitle,
    SearchMatch,
    SearchCurrentMatch,
    SearchBar,
    FooterBusy,
    OverlayText,
}

/// How a piece of text is painted.
#[derive(Debug)]
pub enum Paint {
    /// As its surroundings are.
    Raw,
    Tone(Tone),
    Ansi(TextStyle),
}

/// What a [`Paint`] holds.
pub enum PaintModel {
    Raw,
    Tone(Tone),
    Ansi(StyleModel),
}

impl View for Paint {
    type V = PaintModel;

    open spec fn view(&self) -> PaintModel {
        match *self {
            Paint::Raw => PaintModel::Raw,
            Paint::Tone(tone) => PaintModel::Tone(tone),
            Paint::Ansi(style) => PaintModel::Ansi(style@),
        }
    }
}

/// A part of a line: a text in one style, or the theme's icon for a status.
#[derive(Debug)]
pub enum Piece {
    Text { text: String, paint: Paint },
    Icon(Status),
}

/// What a [`Piece`] holds.
pub enum PieceModel {
    Text { text: Seq<char>, paint: PaintModel },
    Icon(Status),
}

impl View for Piece {
    type V = PieceModel;

    open spec fn view(&self) -> PieceModel {
        match *self {
            Piece::Text { text, paint } => PieceModel::Text { text: text@, paint: paint@ },
            Piece::Icon(status) => PieceModel::Icon(status),
        }
    }
}

/// A line on the screen.
#[derive(Debug)]
pub struct Line {
    pub pieces: Vec<Piece>,
}

impl View for Line {
    type V = Seq<PieceModel>;

    open spec fn view(&self) -> Seq<PieceModel> {
        views(self.pieces@)
    }
}

/// A piece of unstyled text.
pub open spec fn raw_piece(text: Seq<char>) -> PieceModel {
    PieceModel::Text { text, paint: PaintModel::Raw }
}

/// A piece of text in the style of a role.
pub open spec fn toned_piece(text: Seq<char>, tone: Tone) -> PieceModel {
    PieceModel::Text { text, paint: PaintModel::Tone(tone) }
}

/// `text` as one unstyled line: its line endings are dropped.
pub open spec fn plain_line(text: Seq<char>) -> Seq<PieceModel> {
    lines_from(text, 0).map_values(|line: Seq<char>| raw_piece(line))
}

/// What the escape sequences in `line` make of it: its lines, each with the
/// pieces of text in it and their styles; nothing where they cannot be read.
pub uninterp spec fn ansi_lines(line: Seq<char>) -> Option<Seq<Seq<PieceModel>>>;

/// `ansi_to_tui`'s `into_text` reads the escape sequences of a text. The result
/// is handed on as it is, line by line and span by span: a span's text, the
/// names of its colours and its modifier bits.
#[verifier::external_body]
fn read_ansi(line: &str) -> (r: Option<Vec<Line>>)
    ensures
        match r {
            Some(lines) => ansi_lines(line@) == Some(views(lines@)),
            None => ansi_lines(line@) is None,
        },
{
    let name = |c: ratatui::style::Color| c.to_string();
    let piece = |s: ratatui::text::Span<'static>| Piece::Text {
        text: s.content.into_owned(),
        paint: Paint::Ansi(TextStyle {
            fg: s.style.fg.map(name),
            bg: s.style.bg.map(name),
            underline: s.style.underline_color.map(name),
            added: s.style.add_modifier.bits(),
            removed: s.style.sub_modifier.bits(),
        }),
    };
    let line_of = |l: ratatui::text::Line<'static>| Line {
        pieces: l.spans.into_iter().map(piece).collect(),
    };
    line.into_text().ok().map(|text| text.lines.into_iter().map(line_of).collect())
}

/// A log line as it is shown: the one line that reading its escape sequences
/// gave; several joined by blanks; the bare text where reading failed.
pub open spec fn shown_line(text: Seq<char>, read: Option<Seq<Seq<PieceModel>>>) -> Seq<
    PieceModel,
> {
    match read {
        Some(lines) => joined(lines, seq![raw_piece(" "@)]),
        None => plain_line(text),
    }
}

/// A log line as it is shown, from its text alone.
pub open spec fn parsed_line(text: Seq<char>) -> Seq<PieceModel> {
    shown_line(text, ansi_lines(text))
}

impl Line {
    /// A line with nothing on it.
    pub fn empty() -> (r: Line)
        ensures
            r@ == Seq::<PieceModel>::empty(),
    {
        let r: Line = Line { pieces: Vec::new() };
        assert(r@ =~= Seq::<PieceModel>::empty());
        r
    }

    /// Adds a piece at the end.
    pub fn push(&mut self, piece: Piece)
        ensures
            final(self)@ == old(self)@.push(piece@),
    {
        proof {
            lemma_views_push(self.pieces@, piece);
        }
        self.pieces.push(piece);
    }

    /// Adds unstyled text at the end.
    pub fn push_raw(&mut self, text: String)
        ensures
            final(self)@ == old(self)@.push(raw_piece(text@)),
    {
        self.push(Piece::Text { text, paint: Paint::Raw });
    }

    /// Adds text in the style of a role at the end.
    pub fn push_toned(&mut self, text: String, tone: Tone)
        ensures
            final(self)@ == old(self)@.push(toned_piece(text@, tone)),
    {
        self.push(Piece::Text { text, paint: Paint::Tone(tone) });
    }

    /// A line of unstyled text.
    pub fn plain(text: &str) -> (r: Line)
        ensures
            r@ == plain_line(text@),
    {
        let lines: Vec<String> = lines_of(text);
        let mut r: Line = Line::empty();
        let mut i: usize = 0;
        while i < lines.len()
            invariant
                i <= lines@.len(),
                views(lines@) == lines_from(text@, 0),
                r@ == plain_line(text@).take(i as int),
            decreases lines@.len() - i,
        {
            assert(views(lines@)[i as int] == lines@[i as int]@);
            r.push_raw(lines[i].clone());
            i = i + 1;
            assert(plain_line(text@).take(i as int) =~= plain_line(text@).take(i - 1).push(
                plain_line(text@)[i - 1],
            ));
        }
        assert(plain_line(text@).take(i as int) =~= plain_line(text@));
        r
    }

    /// Moves the pieces of `other` to the end of this line.
    fn append(&mut self, other: Line)
        ensures
            final(self)@ == old(self)@ + other@,
    {
        let mut pieces: Vec<Piece> = other.pieces;
        self.pieces.append(&mut pieces);
        assert(self@ =~= old(self)@ + other@);
    }
}

fn copied_text(text: &Option<String>) -> (r: Option<String>)
    ensures
        optional_text(r) == optional_text(*text),
{
    match text {
        Some(t) => Some(t.clone()),
        None => None,
    }
}

impl Paint {
    /// Another paint like this one.
    pub fn copied(&self) -> (r: Paint)
        ensures
            r@ == self@,
    {
        match self {
            Paint::Raw => Paint::Raw,
            Paint::Tone(tone) => Paint::Tone(*tone),
            Paint::Ansi(style) => Paint::Ansi(
                TextStyle {
                    fg: copied_text(&style.fg),
                    bg: copied_text(&style.bg),
                    underline: copied_text(&style.underline),
                    added: style.added,
                    removed: style.removed,
                },
            ),
        }
    }
}

impl Piece {
    /// Another piece like this one.
    pub fn copied(&self) -> (r: Piece)
        ensures
            r@ == self@,
    {
        match self {
            Piece::Icon(status) => Piece::Icon(*status),
            Piece::Text { text, paint } => Piece::Text {
                text: text.clone(),
                paint: paint.copied(),
            },
        }
    }
}

impl Line {
    /// Another line like this one.
    pub fn copied(&self) -> (r: Line)
        ensures
            r@ == self@,
    {
        let mut r: Line = Line::empty();
        let mut i: usize = 0;
        while i < self.pieces.len()
            invariant
                i <= self.pieces@.len(),
                r@ == self@.take(i as int),
            decreases self.pieces@.len() - i,
        {
            r.push(self.pieces[i].copied());
            i = i + 1;
            assert(self@.take(i as int) =~= self@.take(i - 1).push(self@[i - 1]));
        }
        assert(self@.take(i as int) =~= self@);
        r
    }
}

/// Makes one line of what reading the escape sequences of `text` gave.
pub fn single_line(text: &str, read: Option<Vec<Line>>) -> (r: Line)
    ensures
        r@ == shown_line(
            text@,
            match read {
                Some(lines) => Some(views(lines@)),
                None => None,
            },
        ),
{
    match read {
        None => Line::plain(text),
        Some(lines) => {
            let ghost all = views(lines@);
            let ghost blank = seq![raw_piece(" "@)];
            let total: usize = lines.len();
            let mut rest: Vec<Line> = lines;
            let mut out: Line = Line::empty();
            let mut n: usize = 0;
            assert(all.take(0) =~= Seq::<Seq<PieceModel>>::empty());
            assert(all.skip(0) =~= all);
            while rest.len() > 0
                invariant
                    n + rest@.len() == all.len() == total,
                    views(rest@) == all.skip(n as int),
                    blank == seq![raw_piece(" "@)],
                    out@ == joined(all.take(n as int), blank),
                decreases rest@.len(),
            {
                let ghost before = views(rest@);
                let next: Line = rest.remove(0);
                assert(views(rest@) =~= before.skip(1));
                assert(next@ == before[0]);
                assert(before[0] == all[n as int]);
                if n > 0 {
                    out.push_raw(" ".to_owned());
                }
                let ghost so_far = out@;
                out.append(next);
                assert(all.take(n + 1).drop_last() =~= all.take(n as int));
                assert(all.take(n + 1).last() == all[n as int]);
                assert(all.skip(n as int).skip(1) =~= all.skip(n + 1));
                assert(n > 0 ==> so_far =~= joined(all.take(n as int), blank) + blank);
                assert(n == 0 ==> out@ =~= all[0]);
                n = n + 1;
            }
            assert(all.take(n as int) =~= all);
            out
        },
    }
}

/// Turns a log line, which may hold escape sequences, into styled text.
pub fn parse_log_line(line: &str) -> (r: Line)
    ensures
        r@ == parsed_line(line@),
{
    let read: Option<Vec<Line>> = read_ansi(line);
    single_line(line, read)
}

} // verus!
