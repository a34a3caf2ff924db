//! A two-state cellular automaton on a flat, wrapping board.
use crate::rng::{draw_ratio, small_rng_from_seed, Seed};
use vstd::prelude::*;

verus! {

#[derive(Debug, Copy, Clone, PartialEq, Eq, Structural)]
pub enum Cell {
    Dead,
    Live,
}

/// 1 for a live cell, 0 for a dead one.
pub open spec fn cell_value(c: Cell) -> int {
    match c {
        Cell::Dead => 0,
        Cell::Live => 1,
    }
}

impl From<Cell> for u8 {
    fn from(cell: Cell) -> (r: u8) {
        match cell {
            Cell::Dead => 0,
            Cell::Live => 1,
        }
    }
}

impl vstd::std_specs::convert::FromSpecImpl<Cell> for u8 {
    open spec fn obeys_from_spec() -> bool {
        true
    }

    open spec fn from_spec(cell: Cell) -> u8 {
        cell_value(cell) as u8
    }
}

/// The flat index reached from `index` on a board of `n` cells: the remainder
/// of `n + index` truncated towards zero, taken by absolute value.
pub open spec fn wrap_index(n: int, index: int) -> int {
    let t = n + index;
    if t >= 0 {
        t % n
    } else {
        (-t) % n
    }
}

/// The number of live cells among the eight neighbours of cell `i`, found by
/// offsets of one and of one row around it on the flat board.
pub open spec fn live_neighbours(cells: Seq<Cell>, width: int, i: int) -> int {
    let n = cells.len() as int;
    cell_value(cells[wrap_index(n, i - width - 1)]) + cell_value(cells[wrap_index(n, i - width)])
        + cell_value(cells[wrap_index(n, i - width + 1)]) + cell_value(
        cells[wrap_index(n, i - 1)],
    ) + cell_value(cells[wrap_index(n, i + 1)]) + cell_value(cells[wrap_index(n, i + width - 1)])
        + cell_value(cells[wrap_index(n, i + width)]) + cell_value(
        cells[wrap_index(n, i + width + 1)],
    )
}

/// The rule: three live neighbours make a live cell, two keep the cell as it
/// was, any other count makes a dead cell.
pub open spec fn next_cell(c: Cell, live: int) -> Cell {
    if live == 3 {
        Cell::Live
    } else if live == 2 {
        c
    } else {
        Cell::Dead
    }
}

/// One generation of the whole board, every cell computed from `cells` alone.
pub open spec fn life_step(cells: Seq<Cell>, width: int) -> Seq<Cell> {
    Seq::new(cells.len(), |i: int| next_cell(cells[i], live_neighbours(cells, width, i)))
}

#[derive(Debug)]
pub struct Board {
    arr: Vec<Cell>,
    width: usize,
    height: usize,
}

impl Board {
    pub closed spec fn cells(&self) -> Seq<Cell> {
        self.arr@
    }

    pub closed spec fn spec_width(&self) -> nat {
        self.width as nat
    }

    pub closed spec fn spec_height(&self) -> nat {
        self.height as nat
    }

    /// The board holds one cell per position of its `width × height` grid.
    pub open spec fn wf(&self) -> bool {
        self.cells().len() == self.spec_width() * self.spec_height()
    }

    /// A board of `terminal_size.0 × terminal_size.1` cells, each drawn live
    /// with probability 1/4 from a generator seeded with `seed`.
    pub fn new(seed: Seed, terminal_size: (u16, u16)) -> (r: Self)
        ensures
            r.wf(),
            r.spec_width() == terminal_size.0,
            r.spec_height() == terminal_size.1,
    {
        let mut rng = small_rng_from_seed(seed);
        let width = terminal_size.0 as usize;
        let height = terminal_size.1 as usize;
        assert(width * height <= u16::MAX * u16::MAX) by (nonlinear_arith)
            requires
                width <= u16::MAX,
                height <= u16::MAX,
        ;
        let n: usize = width * height;
        let mut arr: Vec<Cell> = Vec::new();
        while arr.len() < n
            invariant
                arr.len() <= n,
            decreases n - arr.len(),
        {
            let cell = if draw_ratio(&mut rng, 1, 4) {
                Cell::Live
            } else {
                Cell::Dead
            };
            arr.push(cell);
        }
        Board { arr, width, height }
    }

    /// A board over the given cells, laid out row by row.
    pub fn new_with_array(arr: Vec<Cell>, width: usize, height: usize) -> (r: Self)
        requires
            arr@.len() == width * height,
        ensures
            r.wf(),
            r.cells() == arr@,
            r.spec_width() == width,
            r.spec_height() == height,
    {
        Board { arr, width, height }
    }

    /// The cells, row by row.
    pub fn cell_array(&self) -> (r: &[Cell])
        ensures
            r@ == self.cells(),
    {
        self.arr.as_slice()
    }

    pub fn width(&self) -> (r: usize)
        ensures
            r == self.spec_width(),
    {
        self.width
    }

    pub fn height(&self) -> (r: usize)
        ensures
            r == self.spec_height(),
    {
        self.height
    }

    /// The flat index that `index` stands for on a `width × height` board,
    /// where indices past either end wrap around.
    pub fn wrap_around_index(width: usize, height: usize, index: isize) -> (r: usize)
        requires
            width * height != 0,
            width * height <= isize::MAX,
            width * height + index <= isize::MAX,
        ensures
            r == wrap_index(width * height, index as int),
            r < width * height,
    {
        let n: usize = width * height;
        let t: isize = n as isize + index;
        if t >= 0 {
            (t as usize) % n
        } else {
            ((-t) as usize) % n
        }
    }

    /// Advances the board one generation, reading only the generation before.
    pub fn tick(&mut self)
        requires
            old(self).wf(),
            2 * old(self).cells().len() + old(self).spec_width() + 1 <= isize::MAX,
        ensures
            final(self).wf(),
            final(self).spec_width() == old(self).spec_width(),
            final(self).spec_height() == old(self).spec_height(),
            final(self).cells() == life_step(old(self).cells(), old(self).spec_width() as int),
    {
        let previous = self.arr.clone();
        assert(previous@ =~= self.arr@);
        let n: usize = previous.len();
        let width: isize = self.width as isize;
        let mut i: usize = 0;
        while i < n
            invariant
                n == previous@.len(),
                n == self.width * self.height,
                previous@ == old(self).arr@,
                self.width == old(self).width,
                self.height == old(self).height,
                2 * n + self.width + 1 <= isize::MAX,
                width == self.width,
                i <= n,
                self.arr@.len() == n,
                forall|j: int|
                    0 <= j < i ==> self.arr@[j] == life_step(previous@, width as int)[j],
                forall|j: int| i <= j < n ==> self.arr@[j] == previous@[j],
            decreases n - i,
        {
            let ii: isize = i as isize;
            let w: usize = self.width;
            let h: usize = self.height;
            let sum: u8 = u8::from(previous[Board::wrap_around_index(w, h, ii - width - 1)])
                + u8::from(previous[Board::wrap_around_index(w, h, ii - width)])
                + u8::from(previous[Board::wrap_around_index(w, h, ii - width + 1)])
                + u8::from(previous[Board::wrap_around_index(w, h, ii - 1)])
                + u8::from(previous[Board::wrap_around_index(w, h, ii + 1)])
                + u8::from(previous[Board::wrap_around_index(w, h, ii + width - 1)])
                + u8::from(previous[Board::wrap_around_index(w, h, ii + width)])
                + u8::from(previous[Board::wrap_around_index(w, h, ii + width + 1)]);
            assert(sum == live_neighbours(previous@, width as int, i as int));
            if sum < 2 || sum > 3 {
                self.arr.set(i, Cell::Dead);
            } else if previous[i] == Cell::Dead && sum == 3 {
                self.arr.set(i, Cell::Live);
            }
            i = i + 1;
        }
        assert(self.arr@ =~= life_step(previous@, width as int));
    }
}

} // verus!
