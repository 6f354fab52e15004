//! Properties of the automaton, proved over the model in `rules`.

use crate::entropy::{draw_bytes, FALLBACK_BYTE};
use crate::rules::{
    alive_count, cell_wrapped, generations, glyph, index_of, lemma_index_in_grid, neighbor_count,
    next_generation, next_state, rendered, seeded, spaceship_offset, stamped, ALIVE_GLYPH,
    DEAD_GLYPH,
};
use vstd::arithmetic::div_mod::{
    lemma_fundamental_div_mod, lemma_mod_add_multiples_vanish, lemma_mod_pos_bound, lemma_small_mod,
};
use vstd::prelude::*;

verus! {

/// The grid whose cell `(row, col)` is alive exactly when `alive(row, col)` holds.
pub open spec fn grid_of(width: int, height: int, alive: spec_fn(int, int) -> bool) -> Seq<bool> {
    Seq::new((width * height) as nat, |i: int| alive(i / width, i % width))
}

/// Cells of a 2 by 2 block with its top-left corner at `(r0, c0)`.
pub open spec fn block_cells(r0: int, c0: int) -> spec_fn(int, int) -> bool {
    |r: int, c: int| (r == r0 || r == r0 + 1) && (c == c0 || c == c0 + 1)
}

/// Cells of three in a row, centred on `(r0, c0)`, wrapping round a grid
/// `width` cells wide.
pub open spec fn row_of_three(width: int, r0: int, c0: int) -> spec_fn(int, int) -> bool {
    |r: int, c: int| r == r0 && (c == wrap(c0 - 1, width) || c == c0 || c == wrap(c0 + 1, width))
}

/// Cells of three in a column, centred on `(r0, c0)`, wrapping round a grid
/// `height` cells high.
pub open spec fn column_of_three(height: int, r0: int, c0: int) -> spec_fn(int, int) -> bool {
    |r: int, c: int| c == c0 && (r == wrap(r0 - 1, height) || r == r0 || r == wrap(r0 + 1, height))
}

/// The spaceship's cells with its top-left corner at `(0, 0)`.
pub open spec fn spaceship_cells() -> spec_fn(int, int) -> bool {
    |r: int, c: int| spaceship_offset(r, c)
}

/// A 2 by 2 block of live cells with its top-left corner at `(r0, c0)`.
pub open spec fn block(width: int, height: int, r0: int, c0: int) -> Seq<bool> {
    grid_of(width, height, block_cells(r0, c0))
}

/// Three live cells in a row, centred on `(r0, c0)`.
pub open spec fn horizontal_blinker(width: int, height: int, r0: int, c0: int) -> Seq<bool> {
    grid_of(width, height, row_of_three(width, r0, c0))
}

/// Three live cells in a column, centred on `(r0, c0)`.
pub open spec fn vertical_blinker(width: int, height: int, r0: int, c0: int) -> Seq<bool> {
    grid_of(width, height, column_of_three(height, r0, c0))
}

/// A coordinate one step outside `0..n` brought back onto the torus.
pub open spec fn wrap(x: int, n: int) -> int {
    if x < 0 {
        x + n
    } else if x >= n {
        x - n
    } else {
        x
    }
}

proof fn lemma_wrap(x: int, n: int)
    requires
        n > 0,
        -1 <= x <= n,
    ensures
        x % n == wrap(x, n),
{
    if x < 0 {
        lemma_mod_add_multiples_vanish(-1, n);
        lemma_small_mod((n - 1) as nat, n as nat);
    } else if x >= n {
        lemma_mod_add_multiples_vanish(0, n);
        lemma_small_mod(0, n as nat);
    } else {
        lemma_small_mod(x as nat, n as nat);
    }
}

/// Row and column of an index inside the grid.
proof fn lemma_row_col(width: int, height: int, i: int)
    requires
        width > 0,
        0 <= i < width * height,
    ensures
        0 <= i / width < height,
        0 <= i % width < width,
        i == index_of(width, i / width, i % width),
{
    lemma_fundamental_div_mod(i, width);
    lemma_mod_pos_bound(i, width);
    let r = i / width;
    let c = i % width;
    assert(0 <= r < height && i == r * width + c) by (nonlinear_arith)
        requires
            i == width * r + c,
            0 <= c < width,
            0 <= i < width * height,
    ;
}

/// On a pattern grid, a wrapped cell next to the grid reads the pattern at the
/// wrapped position.
proof fn lemma_wrapped_cells(width: int, height: int, alive: spec_fn(int, int) -> bool)
    requires
        width > 0,
        height > 0,
    ensures
        forall|a: int, b: int|
            -1 <= a <= height && -1 <= b <= width ==> #[trigger] cell_wrapped(
                grid_of(width, height, alive),
                width,
                height,
                a,
                b,
            ) == alive(wrap(a, height), wrap(b, width)),
{
    assert forall|a: int, b: int| -1 <= a <= height && -1 <= b <= width implies #[trigger] cell_wrapped(
        grid_of(width, height, alive),
        width,
        height,
        a,
        b,
    ) == alive(wrap(a, height), wrap(b, width)) by {
        lemma_wrap(a, height);
        lemma_wrap(b, width);
        lemma_index_in_grid(width, height, wrap(a, height), wrap(b, width));
    }
}

/// Rendering gives `height` lines, each of `width` glyphs from the two-glyph
/// alphabet followed by a line break.
pub proof fn lemma_render_shape(cells: Seq<bool>, width: int, height: int)
    requires
        width > 0,
        height > 0,
        cells.len() == width * height,
    ensures
        rendered(cells, width, height).len() == height * (width + 1),
        forall|r: int, c: int|
            0 <= r < height && 0 <= c < width ==> {
                let ch = #[trigger] rendered(cells, width, height)[index_of(width + 1, r, c)];
                &&& ch == glyph(cells[index_of(width, r, c)])
                &&& (ch == ALIVE_GLYPH || ch == DEAD_GLYPH)
            },
        forall|r: int|
            0 <= r < height ==> #[trigger] rendered(cells, width, height)[index_of(
                width + 1,
                r,
                width,
            )] == '\n',
        ALIVE_GLYPH != DEAD_GLYPH,
        ALIVE_GLYPH != '\n' && DEAD_GLYPH != '\n',
{
    assert(height * (width + 1) >= 0) by (nonlinear_arith)
        requires
            width > 0,
            height > 0,
    ;
    assert forall|r: int, c: int| 0 <= r < height && 0 <= c < width implies {
        let ch = #[trigger] rendered(cells, width, height)[index_of(width + 1, r, c)];
        &&& ch == glyph(cells[index_of(width, r, c)])
        &&& (ch == ALIVE_GLYPH || ch == DEAD_GLYPH)
    } by {
        lemma_index_in_grid(width + 1, height, r, c);
        lemma_index_in_grid(width, height, r, c);
    }
    assert forall|r: int| 0 <= r < height implies #[trigger] rendered(cells, width, height)[index_of(
        width + 1,
        r,
        width,
    )] == '\n' by {
        lemma_index_in_grid(width + 1, height, r, width);
    }
}

/// A neighbour count lies in `0..=8`, and the grid wraps round: the cell up and
/// to the left of `(0, 0)` is the bottom-right cell.
pub proof fn lemma_neighbor_count_wraps(cells: Seq<bool>, width: int, height: int, row: int, col: int)
    requires
        width > 0,
        height > 0,
        cells.len() == width * height,
    ensures
        0 <= neighbor_count(cells, width, height, row, col) <= 8,
        cell_wrapped(cells, width, height, 0 - 1, 0 - 1) == cells[index_of(
            width,
            height - 1,
            width - 1,
        )],
        alive_count(cells, width, height, 0 - 1, 0 - 1) == (if cells[index_of(
            width,
            height - 1,
            width - 1,
        )] {
            1int
        } else {
            0int
        }),
{
    lemma_wrap(-1, height);
    lemma_wrap(-1, width);
}

/// Conway's rule case by case: a live cell with fewer than two live neighbours or
/// more than three dies, with two or three it lives on; a dead cell with exactly
/// three comes alive and otherwise stays dead.
pub proof fn lemma_rule_cases()
    ensures
        !next_state(true, 0) && !next_state(true, 1),
        next_state(true, 2) && next_state(true, 3),
        forall|n: int| n >= 4 ==> !#[trigger] next_state(true, n),
        next_state(false, 3),
        forall|n: int| n != 3 ==> !#[trigger] next_state(false, n),
{
}

/// A 2 by 2 block on a grid of at least 4 by 4 is a still life: one generation
/// leaves it as it is.
pub proof fn lemma_block_still(width: int, height: int, r0: int, c0: int)
    requires
        width >= 4,
        height >= 4,
        0 <= r0 < height - 1,
        0 <= c0 < width - 1,
    ensures
        next_generation(block(width, height, r0, c0), width, height) == block(width, height, r0, c0),
{
    let g = block(width, height, r0, c0);
    lemma_wrapped_cells(width, height, block_cells(r0, c0));
    assert forall|i: int| 0 <= i < g.len() implies next_generation(g, width, height)[i] == g[i] by {
        lemma_row_col(width, height, i);
    }
    assert(next_generation(g, width, height) =~= g);
}

/// However many generations pass, the block stays as it is.
pub proof fn lemma_block_still_forever(width: int, height: int, r0: int, c0: int, n: nat)
    requires
        width >= 4,
        height >= 4,
        0 <= r0 < height - 1,
        0 <= c0 < width - 1,
    ensures
        generations(block(width, height, r0, c0), width, height, n) == block(width, height, r0, c0),
    decreases n,
{
    if n > 0 {
        lemma_block_still_forever(width, height, r0, c0, (n - 1) as nat);
        lemma_block_still(width, height, r0, c0);
    }
}

/// A blinker on a grid of at least 4 by 4, anywhere on it and wrapping across
/// the edges where it meets them, turns from a row into a column, and back into
/// the row after a second generation.
pub proof fn lemma_blinker_oscillates(width: int, height: int, r0: int, c0: int)
    requires
        width >= 4,
        height >= 4,
        0 <= r0 < height,
        0 <= c0 < width,
    ensures
        next_generation(horizontal_blinker(width, height, r0, c0), width, height)
            == vertical_blinker(width, height, r0, c0),
        next_generation(vertical_blinker(width, height, r0, c0), width, height)
            == horizontal_blinker(width, height, r0, c0),
        generations(horizontal_blinker(width, height, r0, c0), width, height, 2)
            == horizontal_blinker(width, height, r0, c0),
{
    let hz = horizontal_blinker(width, height, r0, c0);
    let vt = vertical_blinker(width, height, r0, c0);
    lemma_wrapped_cells(width, height, row_of_three(width, r0, c0));
    lemma_wrapped_cells(width, height, column_of_three(height, r0, c0));
    assert forall|i: int| 0 <= i < hz.len() implies next_generation(hz, width, height)[i] == vt[i] by {
        lemma_row_col(width, height, i);
    }
    assert forall|i: int| 0 <= i < vt.len() implies next_generation(vt, width, height)[i] == hz[i] by {
        lemma_row_col(width, height, i);
    }
    assert(next_generation(hz, width, height) =~= vt);
    assert(next_generation(vt, width, height) =~= hz);
    assert(generations(hz, width, height, 2) == next_generation(
        generations(hz, width, height, 1),
        width,
        height,
    ));
    assert(generations(hz, width, height, 1) == next_generation(
        generations(hz, width, height, 0),
        width,
        height,
    ));
}

/// Stamping the spaceship at the top of an all-dead grid makes alive exactly the
/// pattern's cells.
pub proof fn lemma_spaceship_on_dead_grid(width: int, height: int)
    requires
        width > 0,
        height > 0,
    ensures
        stamped(Seq::new((width * height) as nat, |i: int| false), width, 0) == grid_of(
            width,
            height,
            spaceship_cells(),
        ),
{
    assert(stamped(Seq::new((width * height) as nat, |i: int| false), width, 0) =~= grid_of(
        width,
        height,
        spaceship_cells(),
    ));
}

/// The initial grid depends on the random bytes alone, indeed on their parities
/// alone; and the fallback byte seeds a dead cell.
pub proof fn lemma_seeding_deterministic(a: Seq<u8>, b: Seq<u8>)
    requires
        a.len() == b.len(),
        forall|i: int| 0 <= i < a.len() ==> a[i] % 2 == b[i] % 2,
    ensures
        seeded(a) == seeded(b),
        !seeded(seq![FALLBACK_BYTE])[0],
{
    assert(seeded(a) =~= seeded(b));
}

/// The initial grid depends on the random draws alone: equal streams of draws
/// give equal grids, a failed draw seeds a dead cell, and a successful one seeds
/// a live cell exactly when its byte is even.
pub proof fn lemma_draws_seed_grid(
    a: Seq<Result<u8, getrandom::Error>>,
    b: Seq<Result<u8, getrandom::Error>>,
)
    requires
        a == b,
    ensures
        seeded(draw_bytes(a)) == seeded(draw_bytes(b)),
        seeded(draw_bytes(a)).len() == a.len(),
        forall|i: int|
            0 <= i < a.len() ==> (#[trigger] seeded(draw_bytes(a))[i] <==> (a[i] is Ok && a[i]->Ok_0
                % 2 == 0)),
{
}

/// However many generations pass, the grid keeps its number of cells.
pub proof fn lemma_generations_keep_size(cells: Seq<bool>, width: int, height: int, n: nat)
    ensures
        generations(cells, width, height, n).len() == cells.len(),
    decreases n,
{
    if n > 0 {
        lemma_generations_keep_size(cells, width, height, (n - 1) as nat);
    }
}

} // verus!
