//! Laying text out, centered, on a fixed-size character grid.
use crate::text::chars_of;
use vstd::prelude::*;

verus! {

/// The number of newline characters in `s`.
pub open spec fn newline_count(s: Seq<char>) -> nat
    decreases s.len(),
{
    if s.len() == 0 {
        0
    } else {
        newline_count(s.drop_last()) + if s.last() == '\n' {
            1nat
        } else {
            0nat
        }
    }
}

/// The length of the last line of `s`: the characters after its last newline.
pub open spec fn last_line_len(s: Seq<char>) -> nat
    decreases s.len(),
{
    if s.len() == 0 || s.last() == '\n' {
        0
    } else {
        last_line_len(s.drop_last()) + 1
    }
}

/// The length of the longest line of `s` that a newline ends.
pub open spec fn longest_ended_line(s: Seq<char>) -> nat
    decreases s.len(),
{
    if s.len() == 0 {
        0
    } else if s.last() == '\n' {
        vstd::math::max(
            longest_ended_line(s.drop_last()) as int,
            last_line_len(s.drop_last()) as int,
        ) as nat
    } else {
        longest_ended_line(s.drop_last())
    }
}

/// The length of the longest line of `s`, the last line counted whether or
/// not a newline ends it.
pub open spec fn longest_line_len(s: Seq<char>) -> nat {
    vstd::math::max(longest_ended_line(s) as int, last_line_len(s) as int) as nat
}

/// Half of the room that `content` leaves in `room`, or 0 where it leaves none.
pub open spec fn margin(room: nat, content: nat) -> nat {
    if room > content {
        ((room - content) as nat / 2) as nat
    } else {
        0
    }
}

/// What the layout walk remembers between cells: how many characters of the
/// text it has taken, and whether the current text line has ended.
pub struct WalkState {
    pub taken: nat,
    pub line_ended: bool,
}

/// The character at grid cell `idx` and the walk's state after it, given the
/// state before it. `top` and `left` are the margins, `width` the grid width.
#[verifier::opaque]
pub open spec fn walk_step(
    text: Seq<char>,
    width: nat,
    top: nat,
    left: nat,
    idx: nat,
    st: WalkState,
) -> (char, WalkState) {
    if idx / width < top {
        (' ', st)
    } else if idx % width < left {
        (' ', WalkState { taken: st.taken, line_ended: false })
    } else if st.line_ended {
        (' ', st)
    } else if st.taken < text.len() {
        if text[st.taken as int] == '\n' {
            (' ', WalkState { taken: st.taken + 1, line_ended: true })
        } else {
            (text[st.taken as int], WalkState { taken: st.taken + 1, line_ended: false })
        }
    } else {
        (' ', st)
    }
}

/// The walk's state before grid cell `k`.
pub open spec fn walk_state(text: Seq<char>, width: nat, top: nat, left: nat, k: nat) -> WalkState
    decreases k,
{
    if k == 0 {
        WalkState { taken: 0, line_ended: false }
    } else {
        walk_step(text, width, top, left, (k - 1) as nat, walk_state(text, width, top, left, (k - 1) as nat)).1
    }
}

/// The top margin of `text` on a grid `height` rows high.
pub open spec fn top_margin(text: Seq<char>, height: nat) -> nat {
    margin(height, newline_count(text) + 1)
}

/// The left margin of `text` on a grid `width` columns wide.
pub open spec fn left_margin(text: Seq<char>, width: nat) -> nat {
    margin(width, longest_line_len(text))
}

/// The `width × height` grid, row by row, with `text` centered in it: cells
/// above the top margin and left of the left margin are blank, each text
/// line's characters follow the left margin, and the rest of a row after a
/// line has ended is blank. A line longer than the room right of the margin
/// runs on into the next row; text past the last cell is cut off.
#[verifier::opaque]
pub open spec fn centered_grid(text: Seq<char>, width: nat, height: nat) -> Seq<char> {
    let top = top_margin(text, height);
    let left = left_margin(text, width);
    Seq::new(
        width * height,
        |k: int| walk_step(text, width, top, left, k as nat, walk_state(text, width, top, left, k as nat)).0,
    )
}

/// Lays a text out on a grid, one cell per call of `next`.
pub struct CenteredDebugString {
    chars: Vec<char>,
    taken: usize,
    top_margin_length: usize,
    left_margin_length: usize,
    terminal_size: (usize, usize),
    curr_index: usize,
    in_right_side: bool,
}

impl CenteredDebugString {
    /// The text being laid out.
    pub closed spec fn text(&self) -> Seq<char> {
        self.chars@
    }

    pub closed spec fn grid_width(&self) -> nat {
        self.terminal_size.0 as nat
    }

    pub closed spec fn grid_height(&self) -> nat {
        self.terminal_size.1 as nat
    }

    /// The grid, whole.
    pub open spec fn grid(&self) -> Seq<char> {
        centered_grid(self.text(), self.grid_width(), self.grid_height())
    }

    /// How many cells have been handed out so far.
    pub closed spec fn position(&self) -> nat {
        self.curr_index as nat
    }

    pub closed spec fn wf(&self) -> bool {
        let w = self.grid_width();
        let top = top_margin(self.text(), self.grid_height());
        let left = left_margin(self.text(), w);
        &&& self.grid_width() * self.grid_height() <= usize::MAX
        &&& self.top_margin_length == top
        &&& self.left_margin_length == left
        &&& self.curr_index <= w * self.grid_height()
        &&& walk_state(self.text(), w, top, left, self.curr_index as nat) == (WalkState {
            taken: self.taken as nat,
            line_ended: self.in_right_side,
        })
        &&& self.taken <= self.chars@.len()
    }

    /// A layout of `s` on a grid of `terminal_size.0` columns and
    /// `terminal_size.1` rows, at its first cell.
    pub fn new(s: &str, terminal_size: (usize, usize)) -> (r: Self)
        requires
            terminal_size.0 * terminal_size.1 <= usize::MAX,
            s@.len() < usize::MAX,
        ensures
            r.wf(),
            r.text() == s@,
            r.grid_width() == terminal_size.0,
            r.grid_height() == terminal_size.1,
            r.position() == 0,
    {
        let chars = chars_of(s);
        let mut newlines: usize = 0;
        let mut i: usize = 0;
        while i < chars.len()
            invariant
                i <= chars@.len(),
                chars@.len() < usize::MAX,
                newlines == newline_count(chars@.subrange(0, i as int)),
                newlines <= i,
            decreases chars@.len() - i,
        {
            assert(chars@.subrange(0, i + 1).drop_last() =~= chars@.subrange(0, i as int));
            if chars[i] == '\n' {
                newlines = newlines + 1;
            }
            i = i + 1;
        }
        assert(chars@.subrange(0, i as int) =~= chars@);
        let longest = CenteredDebugString::longest_line(s);
        CenteredDebugString {
            top_margin_length: CenteredDebugString::margin_length(terminal_size.1, newlines + 1),
            left_margin_length: CenteredDebugString::margin_length(terminal_size.0, longest),
            chars,
            taken: 0,
            curr_index: 0,
            terminal_size,
            in_right_side: false,
        }
    }

    /// The length of the longest line of `s`, the last line counted whether or
    /// not a newline ends it.
    pub fn longest_line(s: &str) -> (r: usize)
        ensures
            r == longest_line_len(s@),
    {
        let chars = chars_of(s);
        let mut max: usize = 0;
        let mut curr_line_length: usize = 0;
        let mut i: usize = 0;
        while i < chars.len()
            invariant
                i <= chars@.len(),
                max == longest_ended_line(chars@.subrange(0, i as int)),
                curr_line_length == last_line_len(chars@.subrange(0, i as int)),
                max <= i,
                curr_line_length <= i,
            decreases chars@.len() - i,
        {
            assert(chars@.subrange(0, i + 1).drop_last() =~= chars@.subrange(0, i as int));
            if chars[i] == '\n' {
                if curr_line_length > max {
                    max = curr_line_length;
                }
                curr_line_length = 0;
            } else {
                curr_line_length = curr_line_length + 1;
            }
            i = i + 1;
        }
        assert(chars@.subrange(0, i as int) =~= chars@);
        if curr_line_length > max {
            max = curr_line_length;
        }
        max
    }

    /// Half of the room that `content_length` leaves in `max_length`, or 0.
    pub fn margin_length(max_length: usize, content_length: usize) -> (r: usize)
        ensures
            r == margin(max_length as nat, content_length as nat),
    {
        max_length.saturating_sub(content_length) / 2
    }

    /// The number of cells of the grid.
    pub fn len(&self) -> (r: usize)
        requires
            self.wf(),
        ensures
            r == self.grid_width() * self.grid_height(),
            r == self.grid().len(),
    {
        proof {
            reveal(centered_grid);
        }
        self.terminal_size.0 * self.terminal_size.1
    }

    /// The next cell of the grid, row by row, or `None` once every cell has
    /// been handed out.
    pub fn next(&mut self) -> (r: Option<char>)
        requires
            old(self).wf(),
        ensures
            final(self).wf(),
            final(self).text() == old(self).text(),
            final(self).grid_width() == old(self).grid_width(),
            final(self).grid_height() == old(self).grid_height(),
            old(self).position() < old(self).grid().len() ==> r == Some(
                old(self).grid()[old(self).position() as int],
            ) && final(self).position() == old(self).position() + 1,
            old(self).position() >= old(self).grid().len() ==> r is None && final(self).position()
                == old(self).position(),
    {
        proof {
            reveal(centered_grid);
        }
        let width = self.terminal_size.0;
        if self.curr_index >= width * self.terminal_size.1 {
            return None;
        }
        assert(width > 0) by (nonlinear_arith)
            requires
                self.curr_index < width * self.terminal_size.1,
        ;
        let ghost text = self.chars@;
        let ghost top = self.top_margin_length as nat;
        let ghost left = self.left_margin_length as nat;
        let ghost k = self.curr_index as nat;
        let ghost before = walk_state(text, width as nat, top, left, k);
        let result = if self.curr_index / width < self.top_margin_length {
            ' '
        } else if self.curr_index % width < self.left_margin_length {
            self.in_right_side = false;
            ' '
        } else if self.in_right_side {
            ' '
        } else if self.taken < self.chars.len() {
            let c = self.chars[self.taken];
            self.taken = self.taken + 1;
            if c == '\n' {
                self.in_right_side = true;
                ' '
            } else {
                c
            }
        } else {
            ' '
        };
        self.curr_index = self.curr_index + 1;
        proof {
            reveal(walk_step);
            let step = walk_step(text, width as nat, top, left, k, before);
            assert(walk_state(text, width as nat, top, left, k + 1) == step.1);
            assert(result == step.0);
        }
        Some(result)
    }
}

/// A layout of any text on a `width × height` grid has exactly
/// `width * height` cells, none for an empty grid.
pub proof fn lemma_grid_len(text: Seq<char>, width: nat, height: nat)
    ensures
        centered_grid(text, width, height).len() == width * height,
        width == 0 || height == 0 ==> centered_grid(text, width, height).len() == 0,
{
    reveal(centered_grid);
    assert(width == 0 || height == 0 ==> width * height == 0) by (nonlinear_arith);
}

} // verus!
