//! The mathematical model of the automaton: cells on a torus, neighbours, the
//! life rule, the text glyphs and the spaceship pattern.

use vstd::arithmetic::div_mod::lemma_fundamental_div_mod_converse;
use vstd::prelude::*;

verus! {

/// Glyph drawn for a live cell.
pub const ALIVE_GLYPH: char = '◼';

/// Glyph drawn for a dead cell.
pub const DEAD_GLYPH: char = '◻';

/// Row-major position of `(row, col)` in a grid `width` cells wide.
pub open spec fn index_of(width: int, row: int, col: int) -> int {
    row * width + col
}

/// `row * width + col` lies inside a `width` by `height` grid.
pub proof fn lemma_index_in_grid(width: int, height: int, row: int, col: int)
    requires
        0 <= row < height,
        0 <= col < width,
    ensures
        0 <= index_of(width, row, col) < width * height,
        index_of(width, row, col) / width == row,
        index_of(width, row, col) % width == col,
{
    assert(row * width + col < width * height) by (nonlinear_arith)
        requires
            0 <= row < height,
            0 <= col < width,
    ;
    assert(0 <= row * width) by (nonlinear_arith)
        requires
            0 <= row,
            0 <= col < width,
    ;
    lemma_fundamental_div_mod_converse(row * width + col, width, row, col);
}

/// The cell at `(row, col)`, both taken modulo the grid's sides.
pub open spec fn cell_wrapped(cells: Seq<bool>, width: int, height: int, row: int, col: int) -> bool {
    cells[index_of(width, row % height, col % width)]
}

/// 1 for a live cell at a wrapped position, 0 for a dead one.
pub open spec fn alive_count(cells: Seq<bool>, width: int, height: int, row: int, col: int) -> int {
    if cell_wrapped(cells, width, height, row, col) {
        1
    } else {
        0
    }
}

/// Live cells among the eight toroidal neighbours of `(row, col)`.
pub open spec fn neighbor_count(cells: Seq<bool>, width: int, height: int, row: int, col: int) -> int {
    alive_count(cells, width, height, row - 1, col - 1) + alive_count(cells, width, height, row - 1, col)
        + alive_count(cells, width, height, row - 1, col + 1) + alive_count(
        cells,
        width,
        height,
        row,
        col - 1,
    ) + alive_count(cells, width, height, row, col + 1) + alive_count(
        cells,
        width,
        height,
        row + 1,
        col - 1,
    ) + alive_count(cells, width, height, row + 1, col) + alive_count(
        cells,
        width,
        height,
        row + 1,
        col + 1,
    )
}

/// Conway's rule: a live cell survives with two or three live neighbours, a dead
/// one comes alive with exactly three.
pub open spec fn next_state(alive: bool, neighbors: int) -> bool {
    if alive {
        neighbors == 2 || neighbors == 3
    } else {
        neighbors == 3
    }
}

/// The whole grid one generation later.
pub open spec fn next_generation(cells: Seq<bool>, width: int, height: int) -> Seq<bool> {
    Seq::new(
        cells.len(),
        |i: int| next_state(cells[i], neighbor_count(cells, width, height, i / width, i % width)),
    )
}

/// The grid after `n` generations.
pub open spec fn generations(cells: Seq<bool>, width: int, height: int, n: nat) -> Seq<bool>
    decreases n,
{
    if n == 0 {
        cells
    } else {
        next_generation(generations(cells, width, height, (n - 1) as nat), width, height)
    }
}

/// The grid seeded from one byte per cell: a cell starts alive when its byte is even.
pub open spec fn seeded(bytes: Seq<u8>) -> Seq<bool> {
    Seq::new(bytes.len(), |i: int| bytes[i] % 2 == 0)
}

/// The glyph that stands for one cell.
pub open spec fn glyph(alive: bool) -> char {
    if alive {
        ALIVE_GLYPH
    } else {
        DEAD_GLYPH
    }
}

/// The text of a grid: `height` lines of `width` glyphs, each line ended by `'\n'`.
pub open spec fn rendered(cells: Seq<bool>, width: int, height: int) -> Seq<char> {
    Seq::new(
        (height * (width + 1)) as nat,
        |k: int|
            if k % (width + 1) == width {
                '\n'
            } else {
                glyph(cells[index_of(width, k / (width + 1), k % (width + 1))])
            },
    )
}

/// The nine cells of the lightweight spaceship, as offsets from its top-left corner.
pub open spec fn spaceship_offset(row: int, col: int) -> bool {
    (row == 0 && (col == 0 || col == 1 || col == 2 || col == 3)) || (row == 1 && (col == 0 || col
        == 4)) || (row == 2 && col == 0) || (row == 3 && (col == 1 || col == 4))
}

/// The grid with the spaceship stamped `v_offset` rows down: cells of the pattern
/// become alive, all others keep their state.
pub open spec fn stamped(cells: Seq<bool>, width: int, v_offset: int) -> Seq<bool> {
    Seq::new(
        cells.len(),
        |i: int| spaceship_offset(i / width - v_offset, i % width) || cells[i],
    )
}

/// The next state of one cell, from its state and its count of live neighbours.
pub fn next_cell(alive: bool, live_neighbors: u8) -> (r: bool)
    ensures
        r == next_state(alive, live_neighbors as int),
{
    match (alive, live_neighbors) {
        (true, x) if x < 2 => false,
        (true, 2) | (true, 3) => true,
        (true, x) if x > 3 => false,
        (false, 3) => true,
        (otherwise, _) => otherwise,
    }
}

} // verus!
