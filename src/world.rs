//! The board: its cells, its shape and its generation counter.

use vstd::prelude::*;
use crate::rules::{
    all_dead, lemma_block_still_life, lemma_empty_step, lone_block, neighbor_count, next_state,
    step,
};
use crate::torus::{down, down_of, left, left_of, lemma_neighbors_on_board, right, right_of, up, up_of, valid_shape};

verus! {

/// Relies on rand::thread_rng and rand::Rng::gen::<bool>: one fair coin flip from
/// the thread-local generator. Nothing is known of the value drawn.
#[verifier::external_body]
fn random_bool() -> (r: bool) {
    rand::Rng::gen::<bool>(&mut rand::thread_rng())
}

/// Why a board could not be made.
#[derive(Clone, Copy, Debug, PartialEq, Eq, Structural)]
pub enum WorldError {
    /// The width or the height is zero.
    InvalidDimensions,
}

/// What a board is: its shape, how many generations it has advanced, and its
/// cells in row-major order.
pub ghost struct WorldView {
    pub width: nat,
    pub height: nat,
    pub generation: nat,
    pub cells: Seq<bool>,
}

/// A toroidal Life board.
#[derive(Debug)]
pub struct World {
    days: usize,
    width: usize,
    height: usize,
    length: usize,
    cells: Vec<bool>,
}

impl View for World {
    type V = WorldView;

    closed spec fn view(&self) -> WorldView {
        WorldView {
            width: self.width as nat,
            height: self.height as nat,
            generation: self.days as nat,
            cells: self.cells@,
        }
    }
}

impl World {
    /// The board has cells, and as many as its shape says.
    pub closed spec fn wf(&self) -> bool {
        &&& valid_shape(self.width as int, self.height as int)
        &&& self.length == self.width * self.height
        &&& self.cells@.len() == self.length
    }

    /// A board of `width` by `height` dead cells at generation zero; an error
    /// where a side is zero.
    pub fn new(width: usize, height: usize) -> (r: Result<World, WorldError>)
        requires
            width * height <= usize::MAX,
        ensures
            r is Err <==> (width == 0 || height == 0),
            r is Err ==> r->Err_0 == WorldError::InvalidDimensions,
            r is Ok ==> r->Ok_0.wf(),
            r is Ok ==> r->Ok_0@ == (WorldView {
                width: width as nat,
                height: height as nat,
                generation: 0,
                cells: Seq::new((width * height) as nat, |i: int| false),
            }),
    {
        if width == 0 || height == 0 {
            return Err(WorldError::InvalidDimensions);
        }
        let length = width * height;
        let cells = vec![false; length];
        let w = World { days: 0, width, height, length, cells };
        assert(w@.cells =~= Seq::new((width * height) as nat, |i: int| false));
        Ok(w)
    }

    /// Whether any cell of the board is alive.
    pub fn alive(&self) -> (r: bool)
        ensures
            r == exists|i: int| 0 <= i < self@.cells.len() && self@.cells[i],
    {
        let mut i: usize = 0;
        while i < self.cells.len()
            invariant
                i <= self.cells@.len(),
                forall|j: int| 0 <= j < i ==> !self.cells@[j],
            decreases self.cells@.len() - i,
        {
            if self.cells[i] {
                assert(self@.cells[i as int]);
                return true;
            }
            i = i + 1;
        }
        false
    }

    /// Replaces every cell with a random state; the shape and the generation
    /// stay as they were.
    pub fn randomize(&mut self)
        requires
            old(self).wf(),
        ensures
            final(self).wf(),
            final(self)@.width == old(self)@.width,
            final(self)@.height == old(self)@.height,
            final(self)@.generation == old(self)@.generation,
            final(self)@.cells.len() == old(self)@.cells.len(),
    {
        let mut fresh: Vec<bool> = Vec::with_capacity(self.length);
        let mut i: usize = 0;
        while i < self.length
            invariant
                self.wf(),
                i <= self.length,
                fresh@.len() == i,
            decreases self.length - i,
        {
            fresh.push(random_bool());
            i = i + 1;
        }
        self.set_cells(fresh);
    }

    /// Replaces every cell with the states in `cells`, in row-major order; the
    /// shape and the generation stay as they were.
    pub fn set_cells(&mut self, cells: Vec<bool>)
        requires
            old(self).wf(),
            cells@.len() == old(self)@.cells.len(),
        ensures
            final(self).wf(),
            final(self)@.width == old(self)@.width,
            final(self)@.height == old(self)@.height,
            final(self)@.generation == old(self)@.generation,
            final(self)@.cells == cells@,
    {
        self.cells = cells;
    }

    /// A well-formed board has positive sides and width times height cells.
    pub proof fn lemma_wf_shape(&self)
        requires
            self.wf(),
        ensures
            valid_shape(self@.width as int, self@.height as int),
            self@.cells.len() == self@.width * self@.height,
            self@.width * self@.height <= usize::MAX,
    {
    }

    /// The number of columns of the board.
    pub fn width(&self) -> (r: usize)
        ensures
            r == self@.width,
    {
        self.width
    }

    /// The number of rows of the board.
    pub fn height(&self) -> (r: usize)
        ensures
            r == self@.height,
    {
        self.height
    }

    /// How many generations the board has advanced since it was made.
    pub fn generation(&self) -> (r: usize)
        ensures
            r == self@.generation,
    {
        self.days
    }

    /// The number of cells, width times height.
    pub fn cell_count(&self) -> (r: usize)
        requires
            self.wf(),
        ensures
            r == self@.cells.len(),
            r == self@.width * self@.height,
    {
        self.length
    }

    /// The state of the cell at `index`, in row-major order.
    pub fn cell(&self, index: usize) -> (r: bool)
        requires
            index < self@.cells.len(),
        ensures
            r == self@.cells[index as int],
    {
        self.cells[index]
    }

    /// Flips the cell at `index`; an index past the last cell changes nothing.
    pub fn toggle_cell(&mut self, index: usize)
        requires
            old(self).wf(),
        ensures
            final(self).wf(),
            final(self)@.width == old(self)@.width,
            final(self)@.height == old(self)@.height,
            final(self)@.generation == old(self)@.generation,
            index < old(self)@.cells.len() ==> final(self)@.cells == old(self)@.cells.update(
                index as int,
                !old(self)@.cells[index as int],
            ),
            index >= old(self)@.cells.len() ==> final(self)@.cells == old(self)@.cells,
    {
        if index < self.length {
            let flipped = !self.cells[index];
            self.cells.set(index, flipped);
        }
    }

    /// The next state of one cell, from its state and its number of live
    /// neighbours.
    pub fn is_alive(is_alive: bool, neighbour_count: usize) -> (r: bool)
        ensures
            r == next_state(is_alive, neighbour_count as int),
    {
        if is_alive {
            neighbour_count == 2 || neighbour_count == 3
        } else {
            neighbour_count == 3
        }
    }

    fn cell_as_count(&self, index: usize) -> (r: usize)
        requires
            index < self.cells@.len(),
        ensures
            r == (if self.cells@[index as int] { 1int } else { 0int }),
    {
        if self.cells[index] {
            1
        } else {
            0
        }
    }

    /// How many of the eight cells around `index` are alive.
    pub fn neighbour_count(&self, index: usize) -> (r: usize)
        requires
            self.wf(),
            index < self@.cells.len(),
        ensures
            r == neighbor_count(self@.cells, index as int, self@.width as int, self@.height as int),
            r <= 8,
    {
        let w = self.width;
        let h = self.height;
        proof {
            lemma_neighbors_on_board(index as int, w as int, h as int);
        }
        let l = left(index, w, h);
        let r = right(index, w, h);
        self.cell_as_count(up(l, w, h)) + self.cell_as_count(up(index, w, h)) + self.cell_as_count(
            up(r, w, h),
        ) + self.cell_as_count(l) + self.cell_as_count(r) + self.cell_as_count(down(l, w, h))
            + self.cell_as_count(down(index, w, h)) + self.cell_as_count(down(r, w, h))
    }

    /// Advances the board one generation: every cell gets its next state,
    /// computed from the board as it was before the call, and the generation
    /// counter goes up by one.
    pub fn tick(&mut self)
        requires
            old(self).wf(),
            old(self)@.generation < usize::MAX,
        ensures
            final(self).wf(),
            final(self)@.width == old(self)@.width,
            final(self)@.height == old(self)@.height,
            final(self)@.generation == old(self)@.generation + 1,
            final(self)@.cells == step(
                old(self)@.cells,
                old(self)@.width as int,
                old(self)@.height as int,
            ),
            all_dead(old(self)@.cells) ==> all_dead(final(self)@.cells),
            forall|row: int, column: int|
                #![trigger lone_block(old(self)@.cells, row, column, old(self)@.width as int, old(self)@.height as int)]
                old(self)@.width >= 4 && old(self)@.height >= 4 && 0 <= row < old(self)@.height
                    && 0 <= column < old(self)@.width && lone_block(
                    old(self)@.cells,
                    row,
                    column,
                    old(self)@.width as int,
                    old(self)@.height as int,
                ) ==> final(self)@.cells == old(self)@.cells,
    {
        let ghost before = self@.cells;
        let ghost w = self@.width as int;
        let ghost h = self@.height as int;
        proof {
            if all_dead(before) {
                lemma_empty_step(before, w, h);
            }
            assert forall|row: int, column: int|
                w >= 4 && h >= 4 && 0 <= row < h && 0 <= column < w && #[trigger] lone_block(
                    before,
                    row,
                    column,
                    w,
                    h,
                ) implies step(before, w, h) == before by {
                lemma_block_still_life(before, row, column, w, h);
            }
        }
        let mut new_cells: Vec<bool> = Vec::with_capacity(self.length);
        let mut i: usize = 0;
        while i < self.length
            invariant
                self.wf(),
                i <= self.length,
                new_cells@.len() == i,
                forall|j: int|
                    0 <= j < i ==> new_cells@[j] == step(
                        self@.cells,
                        self@.width as int,
                        self@.height as int,
                    )[j],
            decreases self.length - i,
        {
            let n = self.neighbour_count(i);
            new_cells.push(World::is_alive(self.cells[i], n));
            i = i + 1;
        }
        assert(new_cells@ =~= step(self@.cells, self@.width as int, self@.height as int));
        self.days = self.days + 1;
        self.cells = new_cells;
    }
}

} // verus!
