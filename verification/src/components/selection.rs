//! Which display lines are selected.

use vstd::prelude::*;

verus! {

/// The way a selection grows or shrinks.
#[derive(Clone, Copy, PartialEq, Eq, Debug, Structural)]
pub enum Direction {
    Up,
    Down,
}

/// One display line, or the lines from an anchor to a moving end.
#[derive(Clone, Copy, PartialEq, Eq, Debug, Structural)]
pub enum Selection {
    Single(usize),
    Multiple(usize, usize),
}

impl Selection {
    /// The line where the selection was started.
    pub open spec fn start(self) -> int {
        match self {
            Selection::Single(line) => line as int,
            Selection::Multiple(start, _) => start as int,
        }
    }

    /// The line that the selection was last moved to.
    pub open spec fn end(self) -> int {
        match self {
            Selection::Single(line) => line as int,
            Selection::Multiple(_, end) => end as int,
        }
    }

    pub open spec fn top(self) -> int {
        if self.start() <= self.end() { self.start() } else { self.end() }
    }

    pub open spec fn bottom(self) -> int {
        if self.start() <= self.end() { self.end() } else { self.start() }
    }

    /// The selected lines are those from the top to the bottom.
    pub open spec fn has(self, index: int) -> bool {
        self.top() <= index <= self.bottom()
    }

    /// The choice of the selected lines.
    pub open spec fn choice(self) -> spec_fn(int) -> bool {
        |index: int| self.has(index)
    }

    /// The selection after its end was moved by one line and kept at most
    /// `max`.
    pub open spec fn modified(self, direction: Direction, max: int) -> Selection {
        let end = match direction {
            Direction::Up => if self.end() > 0 { self.end() - 1 } else { 0 },
            Direction::Down => if self.end() + 1 <= max { self.end() + 1 } else { max },
        };
        Selection::Multiple(self.start() as usize, end as usize)
    }

    pub fn get_start(&self) -> (line: usize)
        ensures
            line == self.start(),
    {
        match self {
            Selection::Single(start) => *start,
            Selection::Multiple(start, _) => *start,
        }
    }

    pub fn get_end(&self) -> (line: usize)
        ensures
            line == self.end(),
    {
        match self {
            Selection::Single(end) => *end,
            Selection::Multiple(_, end) => *end,
        }
    }

    pub fn get_top(&self) -> (line: usize)
        ensures
            line == self.top(),
    {
        match self {
            Selection::Single(start) => *start,
            Selection::Multiple(start, end) => if *start <= *end { *start } else { *end },
        }
    }

    pub fn get_bottom(&self) -> (line: usize)
        ensures
            line == self.bottom(),
    {
        match self {
            Selection::Single(start) => *start,
            Selection::Multiple(start, end) => if *start <= *end { *end } else { *start },
        }
    }

    /// Moves the end of the selection by one line, up to line `max`.
    pub fn modify(&mut self, direction: Direction, max: usize)
        requires
            direction == Direction::Down ==> old(self).end() < usize::MAX,
        ensures
            *final(self) == old(self).modified(direction, max as int),
    {
        let start = self.get_start();
        let old_end = self.get_end();
        *self = match direction {
            Direction::Up => Selection::Multiple(start, old_end.saturating_sub(1)),
            Direction::Down => {
                let next: usize = old_end + 1;
                Selection::Multiple(start, if next <= max { next } else { max })
            },
        };
    }

    pub fn contains(&self, index: usize) -> (selected: bool)
        ensures
            selected == self.has(index as int),
            *self matches Selection::Single(line) ==> selected == (index == line),
            *self matches Selection::Multiple(a, b) ==> selected == (a <= index <= b || b <= index
                <= a),
    {
        match self {
            Selection::Single(start) => index == *start,
            Selection::Multiple(start, end) => {
                if *start <= *end {
                    *start <= index && index <= *end
                } else {
                    *end <= index && index <= *start
                }
            },
        }
    }
}

/// A selection of one line selects that line and no other. One that was stretched
/// selects both its ends and the lines between them, whichever end is the upper
/// one; it was started at its first end and moved to its second.
pub proof fn law_selection_reaches_from_end_to_end(start: usize, end: usize, index: int)
    ensures
        Selection::Single(start).has(index) <==> index == start,
        Selection::Multiple(start, end).has(index) <==> start <= index <= end || end <= index
            <= start,
        Selection::Single(start).choice()(index) == Selection::Single(start).has(index),
        Selection::Multiple(start, end).choice()(index) == Selection::Multiple(start, end).has(
            index,
        ),
        Selection::Single(start).start() == start,
        Selection::Single(start).end() == start,
        Selection::Multiple(start, end).start() == start,
        Selection::Multiple(start, end).end() == end,
        Selection::Single(start).top() == start,
        Selection::Single(start).bottom() == start,
        start <= end ==> Selection::Multiple(start, end).top() == start && Selection::Multiple(
            start,
            end,
        ).bottom() == end,
        end <= start ==> Selection::Multiple(start, end).top() == end && Selection::Multiple(
            start,
            end,
        ).bottom() == start,
{
}

/// Stretching a selection moves its end by exactly one line, up as far as the
/// first line and down as far as line `max`; its start stays where it is.
pub proof fn law_stretching_moves_end_by_one(start: usize, end: usize, max: int)
    requires
        0 <= max <= usize::MAX,
    ensures
        end > 0 ==> Selection::Multiple(start, end).modified(Direction::Up, max)
            == Selection::Multiple(start, (end - 1) as usize),
        Selection::Multiple(start, 0).modified(Direction::Up, max) == Selection::Multiple(start, 0),
        end < max ==> Selection::Multiple(start, end).modified(Direction::Down, max)
            == Selection::Multiple(start, (end + 1) as usize),
        end >= max ==> Selection::Multiple(start, end).modified(Direction::Down, max)
            == Selection::Multiple(start, max as usize),
        Selection::Single(end).modified(Direction::Up, max) == Selection::Multiple(
            end,
            end,
        ).modified(Direction::Up, max),
        Selection::Single(end).modified(Direction::Down, max) == Selection::Multiple(
            end,
            end,
        ).modified(Direction::Down, max),
{
}

/// Moving the end of a selection down and up again selects the lines that were
/// selected before, unless the end already stood on the last line.
pub proof fn law_modify_down_up(selection: Selection, max: int)
    requires
        selection.end() < max <= usize::MAX,
    ensures
        forall|index: int|
            selection.modified(Direction::Down, max).modified(Direction::Up, max).has(index)
                == selection.has(index),
{
}

/// Moving the end of a selection keeps the line where it was started, and keeps
/// the end within the lines there are.
pub proof fn law_modify_keeps_start(selection: Selection, direction: Direction, max: int)
    requires
        0 <= max <= usize::MAX,
        selection.end() <= max,
    ensures
        selection.modified(direction, max).start() == selection.start(),
        0 <= selection.modified(direction, max).end() <= max,
{
}

} // verus!
