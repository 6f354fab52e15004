//! The automaton: a grid of cells packed in a bit set, advanced one generation
//! at a time.

use crate::bits::{bit_at, bits_blocks, bits_cleared, bits_copy, bits_of, set_bit};
use crate::entropy::{byte_or_fallback, draw_bytes, draw_random_u8};
use crate::rules::{
    index_of, lemma_index_in_grid, neighbor_count, next_cell, next_generation, rendered, seeded,
    spaceship_offset, stamped, ALIVE_GLYPH, DEAD_GLYPH,
};
use fixedbitset::FixedBitSet;
use vstd::arithmetic::div_mod::{lemma_mod_add_multiples_vanish, lemma_small_mod};
use vstd::prelude::*;

verus! {

/// A toroidal grid of cells, stored row by row, one bit per cell.
pub struct Universe {
    width: u32,
    height: u32,
    cells: FixedBitSet,
}

/// Relies on `String::push`: appends one character.
#[verifier::external_body]
fn push_char(s: &mut String, c: char)
    ensures
        final(s)@ == old(s)@.push(c),
{
    s.push(c)
}

/// Whether `(row_rel, col)` is one of the spaceship's nine cells.
fn is_spaceship_cell(row_rel: u32, col: u32) -> (r: bool)
    ensures
        r == spaceship_offset(row_rel as int, col as int),
{
    match (row_rel, col) {
        (0, 0) | (1, 0) | (2, 0) | (3, 1) | (0, 1) | (0, 2) | (0, 3) | (1, 4) | (3, 4) => true,
        (_, _) => false,
    }
}

/// Stamps the lightweight spaceship into `cells` with its top row at `v_offset`.
/// Cells of the pattern become alive; every other cell, including all rows above
/// `v_offset`, keeps its state.
pub(crate) fn create_spaceship(cells: &mut FixedBitSet, width: u32, height: u32, v_offset: u32)
    requires
        width > 0,
        width * height <= u32::MAX,
        bits_of(*old(cells)).len() == width * height,
    ensures
        bits_of(*final(cells)) == stamped(bits_of(*old(cells)), width as int, v_offset as int),
{
    let ghost w = width as int;
    let ghost h = height as int;
    let ghost before = bits_of(*cells);
    let ghost goal = stamped(before, w, v_offset as int);
    let mut row: u32 = 0;
    while row < height
        invariant
            w == width,
            h == height,
            w > 0,
            w * h <= u32::MAX,
            goal == stamped(before, w, v_offset as int),
            before.len() == w * h,
            row <= h,
            bits_of(*cells).len() == w * h,
            forall|i: int| 0 <= i < row * w ==> bits_of(*cells)[i] == goal[i],
            forall|i: int| row * w <= i < w * h ==> bits_of(*cells)[i] == before[i],
        decreases h - row,
    {
        let mut col: u32 = 0;
        while col < width
            invariant
                w == width,
                h == height,
                w > 0,
                w * h <= u32::MAX,
                goal == stamped(before, w, v_offset as int),
                before.len() == w * h,
                row < h,
                col <= w,
                bits_of(*cells).len() == w * h,
                forall|i: int| 0 <= i < row * w + col ==> bits_of(*cells)[i] == goal[i],
                forall|i: int| row * w + col <= i < w * h ==> bits_of(*cells)[i] == before[i],
            decreases w - col,
        {
            proof {
                lemma_index_in_grid(w, h, row as int, col as int);
            }
            let idx: usize = row as usize * width as usize + col as usize;
            let spaceship_cell = if row >= v_offset && is_spaceship_cell(row - v_offset, col) {
                true
            } else {
                bit_at(cells, idx)
            };
            set_bit(cells, idx, spaceship_cell);
            col = col + 1;
        }
        assert(row * w + w == (row + 1) * w) by (nonlinear_arith);
        row = row + 1;
    }
    assert(h * w == w * h) by (nonlinear_arith);
    assert(bits_of(*cells) =~= goal);
}

impl Universe {
    /// Number of columns.
    pub closed spec fn spec_width(&self) -> nat {
        self.width as nat
    }

    /// Number of rows.
    pub closed spec fn spec_height(&self) -> nat {
        self.height as nat
    }

    /// The cells, row by row; `true` is alive.
    pub closed spec fn grid(&self) -> Seq<bool> {
        bits_of(self.cells)
    }

    /// Both sides are nonzero, every index fits in a `u32`, and there is one cell
    /// per position.
    pub open spec fn wf(&self) -> bool {
        &&& self.spec_width() > 0
        &&& self.spec_height() > 0
        &&& self.spec_width() * self.spec_height() <= u32::MAX
        &&& self.grid().len() == self.spec_width() * self.spec_height()
    }

    /// A `width` by `height` grid seeded from one byte per cell: cell `i` starts
    /// alive when `bytes[i]` is even.
    pub fn from_bytes(width: u32, height: u32, bytes: &Vec<u8>) -> (r: Universe)
        requires
            width > 0,
            height > 0,
            width * height <= u32::MAX,
            bytes@.len() == width * height,
        ensures
            r.wf(),
            r.spec_width() == width,
            r.spec_height() == height,
            r.grid() == seeded(bytes@),
    {
        let size = width as usize * height as usize;
        let mut cells = bits_cleared(size);
        let mut i: usize = 0;
        while i < size
            invariant
                size == bytes@.len(),
                i <= size,
                bits_of(cells).len() == size,
                forall|j: int| 0 <= j < i ==> bits_of(cells)[j] == seeded(bytes@)[j],
            decreases size - i,
        {
            if bytes[i] % 2 == 0 {
                set_bit(&mut cells, i, true)
            } else {
                set_bit(&mut cells, i, false)
            }
            i = i + 1;
        }
        assert(bits_of(cells) =~= seeded(bytes@));
        Universe { width, height, cells }
    }

    /// A `width` by `height` grid seeded from one random draw per cell: cell `i`
    /// starts alive when draw `i` succeeded with an even byte, and dead when it
    /// failed or gave an odd byte.
    pub fn from_draws(width: u32, height: u32, draws: &Vec<Result<u8, getrandom::Error>>) -> (r:
        Universe)
        requires
            width > 0,
            height > 0,
            width * height <= u32::MAX,
            draws@.len() == width * height,
        ensures
            r.wf(),
            r.spec_width() == width,
            r.spec_height() == height,
            r.grid() == seeded(draw_bytes(draws@)),
            forall|i: int|
                0 <= i < draws@.len() ==> r.grid()[i] == (draws@[i] is Ok && draws@[i]->Ok_0 % 2
                    == 0),
    {
        let size = width as usize * height as usize;
        let mut bytes: Vec<u8> = Vec::new();
        let mut i: usize = 0;
        while i < size
            invariant
                size == draws@.len(),
                i <= size,
                bytes@ == draw_bytes(draws@).subrange(0, i as int),
            decreases size - i,
        {
            let b = byte_or_fallback(&draws[i]);
            proof {
                assert(draw_bytes(draws@).subrange(0, i + 1) =~= draw_bytes(draws@).subrange(
                    0,
                    i as int,
                ).push(b));
            }
            bytes.push(b);
            i = i + 1;
        }
        assert(bytes@ =~= draw_bytes(draws@));
        Universe::from_bytes(width, height, &bytes)
    }

    /// A `width` by `height` grid whose cells start alive or dead at random, one
    /// draw from the random source per cell, as `from_draws` describes.
    pub fn with_dimensions(width: u32, height: u32) -> (r: Universe)
        requires
            width > 0,
            height > 0,
            width * height <= u32::MAX,
        ensures
            r.wf(),
            r.spec_width() == width,
            r.spec_height() == height,
    {
        let size = width as usize * height as usize;
        let mut draws: Vec<Result<u8, getrandom::Error>> = Vec::new();
        let mut i: usize = 0;
        while i < size
            invariant
                i <= size,
                draws@.len() == i,
            decreases size - i,
        {
            draws.push(draw_random_u8());
            i = i + 1;
        }
        Universe::from_draws(width, height, &draws)
    }

    /// A 64 by 64 grid whose cells start alive or dead at random.
    pub fn new() -> (r: Universe)
        ensures
            r.wf(),
            r.spec_width() == 64,
            r.spec_height() == 64,
    {
        Universe::with_dimensions(64, 64)
    }

    /// Stamps the lightweight spaceship with its top row at `v_offset`; see
    /// `stamped`.
    pub fn stamp_spaceship(&mut self, v_offset: u32)
        requires
            old(self).wf(),
        ensures
            final(self).wf(),
            final(self).spec_width() == old(self).spec_width(),
            final(self).spec_height() == old(self).spec_height(),
            final(self).grid() == stamped(
                old(self).grid(),
                old(self).spec_width() as int,
                v_offset as int,
            ),
    {
        create_spaceship(&mut self.cells, self.width, self.height, v_offset);
    }

    /// The grid as text: `height` lines of `width` glyphs, each ended by `'\n'`.
    pub fn render(&self) -> (r: String)
        requires
            self.wf(),
        ensures
            r@ == rendered(self.grid(), self.spec_width() as int, self.spec_height() as int),
    {
        let ghost w = self.width as int;
        let ghost h = self.height as int;
        let ghost text = rendered(self.grid(), w, h);
        let mut s = String::new();
        let mut row: u32 = 0;
        while row < self.height
            invariant
                self.wf(),
                w == self.width,
                h == self.height,
                text == rendered(self.grid(), w, h),
                row <= h,
                s@.len() == row * (w + 1),
                forall|k: int| 0 <= k < s@.len() ==> s@[k] == text[k],
            decreases h - row,
        {
            let mut col: u32 = 0;
            while col < self.width
                invariant
                    self.wf(),
                    w == self.width,
                    h == self.height,
                    text == rendered(self.grid(), w, h),
                    row < h,
                    col <= w,
                    s@.len() == row * (w + 1) + col,
                    forall|k: int| 0 <= k < s@.len() ==> s@[k] == text[k],
                decreases w - col,
            {
                let idx = self.get_index(row, col);
                let symbol = if bit_at(&self.cells, idx) {
                    ALIVE_GLYPH
                } else {
                    DEAD_GLYPH
                };
                proof {
                    lemma_index_in_grid(w + 1, h, row as int, col as int);
                    assert(row * (w + 1) + col < h * (w + 1)) by (nonlinear_arith)
                        requires
                            row < h,
                            col < w,
                    ;
                }
                push_char(&mut s, symbol);
                col = col + 1;
            }
            proof {
                lemma_index_in_grid(w + 1, h, row as int, w);
                assert(row * (w + 1) + w < h * (w + 1)) by (nonlinear_arith)
                    requires
                        0 <= row < h,
                        w >= 0,
                ;
            }
            push_char(&mut s, '\n');
            assert(row * (w + 1) + w + 1 == (row + 1) * (w + 1)) by (nonlinear_arith);
            row = row + 1;
        }
        assert(s@ =~= text);
        s
    }

    /// Number of columns.
    pub fn width(&self) -> (r: u32)
        ensures
            r == self.spec_width(),
    {
        self.width
    }

    /// Number of rows.
    pub fn height(&self) -> (r: u32)
        ensures
            r == self.spec_height(),
    {
        self.height
    }

    /// The packed cells: `u32` blocks, cell `i` being bit `i % 32` of block `i / 32`.
    pub fn cells(&self) -> (r: &[u32])
        requires
            self.wf(),
        ensures
            r@.len() == (self.grid().len() + 31) / 32,
            forall|i: int|
                0 <= i < self.grid().len() ==> (self.grid()[i] <==> (r@[i / 32] >> ((i % 32) as u32))
                    & 1 == 1),
    {
        bits_blocks(&self.cells)
    }

    fn get_index(&self, row: u32, column: u32) -> (r: usize)
        requires
            self.wf(),
            row < self.spec_height(),
            column < self.spec_width(),
        ensures
            r == index_of(self.spec_width() as int, row as int, column as int),
            r < self.grid().len(),
    {
        proof {
            lemma_index_in_grid(self.width as int, self.height as int, row as int, column as int);
        }
        row as usize * self.width as usize + column as usize
    }

    /// 1 if the cell at `(row, column)` is alive, else 0.
    fn alive_at(&self, row: u32, column: u32) -> (r: u8)
        requires
            self.wf(),
            row < self.spec_height(),
            column < self.spec_width(),
        ensures
            r == (if self.grid()[index_of(self.spec_width() as int, row as int, column as int)] {
                1u8
            } else {
                0u8
            }),
    {
        let idx = self.get_index(row, column);
        if bit_at(&self.cells, idx) {
            1
        } else {
            0
        }
    }

    /// Live cells among the eight neighbours of `(row, column)`, the grid's edges
    /// wrapping round to the opposite ones.
    pub fn live_neighbor_count(&self, row: u32, column: u32) -> (r: u8)
        requires
            self.wf(),
            row < self.spec_height(),
            column < self.spec_width(),
        ensures
            r as int == neighbor_count(
                self.grid(),
                self.spec_width() as int,
                self.spec_height() as int,
                row as int,
                column as int,
            ),
            r <= 8,
    {
        let h = self.height as u64;
        let w = self.width as u64;
        let up = ((row as u64 + h - 1) % h) as u32;
        let down = ((row as u64 + 1) % h) as u32;
        let left = ((column as u64 + w - 1) % w) as u32;
        let right = ((column as u64 + 1) % w) as u32;
        proof {
            lemma_mod_add_multiples_vanish(row - 1, h as int);
            lemma_mod_add_multiples_vanish(column - 1, w as int);
            lemma_small_mod(row as nat, h as nat);
            lemma_small_mod(column as nat, w as nat);
            assert(up as int == (row - 1) % (h as int));
            assert(down as int == (row + 1) % (h as int));
            assert(left as int == (column - 1) % (w as int));
            assert(right as int == (column + 1) % (w as int));
        }
        self.alive_at(up, left) + self.alive_at(up, column) + self.alive_at(up, right)
            + self.alive_at(row, left) + self.alive_at(row, right) + self.alive_at(down, left)
            + self.alive_at(down, column) + self.alive_at(down, right)
    }

    /// Advances the grid by one generation: every cell's next state is computed
    /// from the grid as it was before the call.
    pub fn tick(&mut self)
        requires
            old(self).wf(),
        ensures
            final(self).wf(),
            final(self).spec_width() == old(self).spec_width(),
            final(self).spec_height() == old(self).spec_height(),
            final(self).grid() == next_generation(
                old(self).grid(),
                old(self).spec_width() as int,
                old(self).spec_height() as int,
            ),
    {
        let ghost w = self.width as int;
        let ghost h = self.height as int;
        let ghost gen = next_generation(self.grid(), w, h);
        let mut next = bits_copy(&self.cells);
        let mut row: u32 = 0;
        while row < self.height
            invariant
                self.wf(),
                w == self.width,
                h == self.height,
                gen == next_generation(self.grid(), w, h),
                row <= h,
                bits_of(next).len() == w * h,
                forall|i: int| 0 <= i < row * w ==> bits_of(next)[i] == gen[i],
            decreases h - row,
        {
            let mut col: u32 = 0;
            while col < self.width
                invariant
                    self.wf(),
                    w == self.width,
                    h == self.height,
                    gen == next_generation(self.grid(), w, h),
                    row < h,
                    col <= w,
                    bits_of(next).len() == w * h,
                    forall|i: int| 0 <= i < row * w + col ==> bits_of(next)[i] == gen[i],
                decreases w - col,
            {
                let idx = self.get_index(row, col);
                let cell = bit_at(&self.cells, idx);
                let live_neighbors = self.live_neighbor_count(row, col);
                proof {
                    lemma_index_in_grid(w, h, row as int, col as int);
                }
                set_bit(&mut next, idx, next_cell(cell, live_neighbors));
                col = col + 1;
            }
            assert(row * w + w == (row + 1) * w) by (nonlinear_arith);
            row = row + 1;
        }
        assert(h * w == w * h) by (nonlinear_arith);
        assert(bits_of(next) =~= gen);
        self.cells = next;
    }
}

} // verus!
