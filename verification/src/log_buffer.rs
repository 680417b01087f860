//! The log lines that are kept of a target, and where its log view stands.

use std::collections::VecDeque;
use vstd::prelude::*;

use crate::spans::{parse_log_line, parsed_line, Line, PieceModel};
use crate::text::{lemma_views_push, views};

verus! {

/// How many lines are kept of each target.
pub const TUI_RING: usize = 10_000;

/// The most recent log lines of a target, with the position of the view.
#[derive(Debug)]
pub struct LogBuffer {
    /// The lines as they came in.
    pub lines: VecDeque<String>,
    /// The same lines as styled text, one for each of `lines`.
    pub parsed: VecDeque<Line>,
    /// How many of the newest lines are hidden below the view. At zero the view
    /// stands at the bottom.
    pub scroll: usize,
    /// Whether the view follows the newest line.
    pub at_bottom: bool,
}

/// What a [`LogBuffer`] holds.
pub struct LogModel {
    pub lines: Seq<Seq<char>>,
    pub parsed: Seq<Seq<PieceModel>>,
    pub scroll: nat,
    pub at_bottom: bool,
}

impl View for LogBuffer {
    type V = LogModel;

    open spec fn view(&self) -> LogModel {
        LogModel {
            lines: views(self.lines@),
            parsed: views(self.parsed@),
            scroll: self.scroll as nat,
            at_bottom: self.at_bottom,
        }
    }
}

impl LogModel {
    /// A buffer without lines, its view at the bottom.
    pub open spec fn fresh() -> LogModel {
        LogModel { lines: Seq::empty(), parsed: Seq::empty(), scroll: 0, at_bottom: true }
    }

    /// What every operation on a buffer keeps: it holds no more lines than the
    /// ring has room for, the styled lines are those of the text lines, the view
    /// does not end before the first line, and it follows the newest line exactly
    /// where it hides nothing.
    pub open spec fn wf(self) -> bool {
        &&& self.lines.len() <= TUI_RING
        &&& self.parsed.len() == self.lines.len()
        &&& forall|i: int|
            0 <= i < self.lines.len() ==> #[trigger] self.parsed[i] == parsed_line(self.lines[i])
        &&& self.scroll <= self.lines.len()
        &&& self.at_bottom <==> self.scroll == 0
    }

    /// How many lines the next line pushes out.
    pub open spec fn dropped_by_push(self) -> nat {
        if self.lines.len() >= TUI_RING {
            1
        } else {
            0
        }
    }

    /// The buffer with `line` at its end, the oldest line gone if the ring was full.
    pub open spec fn pushed(self, line: Seq<char>) -> LogModel {
        LogModel {
            lines: self.lines.push(line).skip(self.dropped_by_push() as int),
            parsed: self.parsed.push(parsed_line(line)).skip(self.dropped_by_push() as int),
            ..self
        }
    }

    /// The buffer after `lines` were pushed in order.
    pub open spec fn pushed_all(self, lines: Seq<Seq<char>>) -> LogModel
        decreases lines.len(),
    {
        if lines.len() == 0 {
            self
        } else {
            self.pushed_all(lines.drop_last()).pushed(lines.last())
        }
    }

    /// The buffer after a new line came in: a view that does not follow the
    /// newest line has one more line below it.
    pub open spec fn received(self, line: Seq<char>) -> LogModel {
        let next = self.pushed(line);
        if self.at_bottom {
            next
        } else {
            LogModel { scroll: least(self.scroll + 1, next.lines.len()), ..next }
        }
    }

    /// The buffer with its view moved by `delta` lines, towards older lines where
    /// `delta` is negative.
    pub open spec fn scrolled(self, delta: int) -> LogModel {
        if delta < 0 {
            let scroll = least((self.scroll - delta) as nat, self.lines.len());
            LogModel { scroll, at_bottom: scroll == 0, ..self }
        } else if delta > 0 {
            let scroll: nat = if self.scroll > delta {
                (self.scroll - delta) as nat
            } else {
                0
            };
            LogModel { scroll, at_bottom: scroll == 0, ..self }
        } else {
            self
        }
    }

    /// The buffer with its view moved so that line `index` stands about in the
    /// middle of a window of `rows` rows.
    pub open spec fn centered(self, index: nat, rows: nat) -> LogModel {
        let end = least(index + rows / 2 + 1, self.lines.len());
        let scroll = (self.lines.len() - end) as nat;
        LogModel { scroll, at_bottom: scroll == 0, ..self }
    }

    /// The position after the last line in view.
    pub open spec fn view_end(self) -> nat {
        if self.scroll <= self.lines.len() {
            (self.lines.len() - self.scroll) as nat
        } else {
            0
        }
    }

    /// The position of the first line in a view of `rows` rows.
    pub open spec fn view_start(self, rows: nat) -> nat {
        let rows = if rows == 0 {
            1
        } else {
            rows
        };
        if rows <= self.view_end() {
            (self.view_end() - rows) as nat
        } else {
            0
        }
    }
}

/// The smaller of two numbers.
pub open spec fn least(a: nat, b: nat) -> nat {
    if a <= b {
        a
    } else {
        b
    }
}

impl Default for LogBuffer {
    fn default() -> (r: Self)
        ensures
            r@ == LogModel::fresh(),
            r@.wf(),
    {
        let r: LogBuffer = LogBuffer {
            lines: VecDeque::new(),
            parsed: VecDeque::new(),
            scroll: 0,
            at_bottom: true,
        };
        assert(r@.lines =~= Seq::<Seq<char>>::empty());
        assert(r@.parsed =~= Seq::<Seq<PieceModel>>::empty());
        r
    }
}

impl LogBuffer {
    /// Appends a line and drops the oldest one when the ring is full. Returns how
    /// many lines were dropped.
    pub fn push(&mut self, line: String) -> (dropped: usize)
        requires
            old(self)@.wf(),
        ensures
            final(self)@ == old(self)@.pushed(line@),
            final(self)@.wf(),
            dropped == old(self)@.dropped_by_push(),
    {
        let parsed: Line = parse_log_line(line.as_str());
        proof {
            lemma_views_push(self.lines@, line);
            lemma_views_push(self.parsed@, parsed);
        }
        self.lines.push_back(line);
        self.parsed.push_back(parsed);
        let ghost full = self@;
        let dropped: usize = if self.lines.len() > TUI_RING {
            let first = self.lines.pop_front();
            let first_parsed = self.parsed.pop_front();
            1
        } else {
            0
        };
        proof {
            assert(self@.lines =~= full.lines.skip(dropped as int));
            assert(self@.parsed =~= full.parsed.skip(dropped as int));
            assert(self@ == old(self)@.pushed(line@));
            assert forall|i: int| 0 <= i < self@.lines.len() implies #[trigger] self@.parsed[i]
                == parsed_line(self@.lines[i]) by {
                assert(self@.parsed[i] == full.parsed[i + dropped]);
                assert(self@.lines[i] == full.lines[i + dropped]);
                if i + dropped < old(self)@.lines.len() {
                    assert(old(self)@.parsed[i + dropped] == parsed_line(
                        old(self)@.lines[i + dropped],
                    ));
                }
            }
        }
        dropped
    }

    /// Takes in a line that the target wrote. Returns how many lines were dropped.
    pub fn receive(&mut self, line: String) -> (dropped: usize)
        requires
            old(self)@.wf(),
        ensures
            final(self)@ == old(self)@.received(line@),
            final(self)@.wf(),
            dropped == old(self)@.dropped_by_push(),
    {
        let dropped: usize = self.push(line);
        if !self.at_bottom {
            let room: usize = self.lines.len();
            self.scroll = if self.scroll + 1 <= room {
                self.scroll + 1
            } else {
                room
            };
        }
        dropped
    }

    /// Drops all lines and moves the view to the bottom.
    pub fn clear(&mut self)
        ensures
            final(self)@ == LogModel::fresh(),
            final(self)@.wf(),
    {
        self.lines.clear();
        self.parsed.clear();
        self.scroll = 0;
        self.at_bottom = true;
        assert(self@.lines =~= Seq::<Seq<char>>::empty());
        assert(self@.parsed =~= Seq::<Seq<PieceModel>>::empty());
    }

    /// Moves the view by `delta` lines, towards older lines where `delta` is
    /// negative.
    pub fn scroll_by(&mut self, delta: i32)
        requires
            old(self)@.wf(),
        ensures
            final(self)@ == old(self)@.scrolled(delta as int),
            final(self)@.wf(),
    {
        if delta < 0 {
            let amount: usize = (0 - delta as i64) as usize;
            let room: usize = self.lines.len();
            self.scroll = if self.scroll + amount <= room {
                self.scroll + amount
            } else {
                room
            };
            self.at_bottom = self.scroll == 0;
        } else if delta > 0 {
            self.scroll = self.scroll.saturating_sub(delta as usize);
            self.at_bottom = self.scroll == 0;
        }
    }

    /// Moves the view so that line `index` stands about in the middle of a window
    /// of `rows` rows.
    pub fn center_on(&mut self, index: usize, rows: usize)
        requires
            old(self)@.wf(),
        ensures
            final(self)@ == old(self)@.centered(index as nat, rows as nat),
            final(self)@.wf(),
    {
        let total: usize = self.lines.len();
        let wanted: usize = index.saturating_add(rows / 2 + 1);
        let end: usize = if wanted <= total {
            wanted
        } else {
            total
        };
        self.scroll = total.saturating_sub(end);
        self.at_bottom = self.scroll == 0;
    }
}

} // verus!
