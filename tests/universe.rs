use game_of_life::entropy::{byte_or_fallback, FALLBACK_BYTE};
use game_of_life::rules::{next_cell, ALIVE_GLYPH, DEAD_GLYPH};
use game_of_life::Universe;

/// Builds a grid from rows of `#` (alive) and `.` (dead).
fn grid(rows: &[&str]) -> Universe {
    let height = rows.len() as u32;
    let width = rows[0].len() as u32;
    let mut bytes: Vec<u8> = Vec::new();
    for row in rows {
        for ch in row.chars() {
            bytes.push(if ch == '#' { 0 } else { 1 });
        }
    }
    Universe::from_bytes(width, height, &bytes)
}

/// The text that `render` should give for rows of `#` and `.`.
fn text(rows: &[&str]) -> String {
    let mut s = String::new();
    for row in rows {
        for ch in row.chars() {
            s.push(if ch == '#' { ALIVE_GLYPH } else { DEAD_GLYPH });
        }
        s.push('\n');
    }
    s
}

fn is_alive(u: &Universe, row: u32, col: u32) -> bool {
    let i = (row * u.width() + col) as usize;
    (u.cells()[i / 32] >> (i % 32)) & 1 == 1
}

#[test]
fn render_has_height_lines_of_width_glyphs() {
    let u = grid(&["#..#.", ".#...", "....#"]);
    let out = u.render();
    let lines: Vec<&str> = out.split_terminator('\n').collect();
    assert_eq!(lines.len(), 3);
    for line in &lines {
        assert_eq!(line.chars().count(), 5);
        assert!(line.chars().all(|c| c == ALIVE_GLYPH || c == DEAD_GLYPH));
    }
    assert!(out.ends_with('\n'));
    assert_eq!(out, text(&["#..#.", ".#...", "....#"]));
}

#[test]
fn render_exact_text() {
    let u = grid(&["#.", ".#"]);
    assert_eq!(u.render(), "◼◻\n◻◼\n");
}

#[test]
fn neighbor_count_wraps_to_opposite_corner() {
    let u = grid(&["....", "....", "....", "...#"]);
    assert_eq!(u.live_neighbor_count(0, 0), 1);
    assert_eq!(u.live_neighbor_count(1, 1), 0);
    assert_eq!(u.live_neighbor_count(3, 0), 1);
    assert_eq!(u.live_neighbor_count(0, 3), 1);
}

#[test]
fn neighbor_count_full_grid_is_eight() {
    let u = grid(&["####", "####", "####", "####"]);
    for row in 0..4 {
        for col in 0..4 {
            assert_eq!(u.live_neighbor_count(row, col), 8);
        }
    }
    let empty = grid(&["....", "....", "...."]);
    assert_eq!(empty.live_neighbor_count(1, 2), 0);
}

#[test]
fn neighbor_count_mixed() {
    let u = grid(&["#.#..", ".#...", "#....", "....."]);
    assert_eq!(u.live_neighbor_count(1, 1), 3);
    assert_eq!(u.live_neighbor_count(0, 1), 3);
    assert_eq!(u.live_neighbor_count(3, 4), 2);
}

#[test]
fn rule_table() {
    assert!(!next_cell(true, 0));
    assert!(!next_cell(true, 1));
    assert!(next_cell(true, 2));
    assert!(next_cell(true, 3));
    for n in 4..=8 {
        assert!(!next_cell(true, n));
    }
    assert!(next_cell(false, 3));
    for n in [0, 1, 2, 4, 5, 6, 7, 8] {
        assert!(!next_cell(false, n));
    }
}

#[test]
fn block_is_still_life() {
    let rows = ["......", ".##...", ".##...", "......", "......"];
    let mut u = grid(&rows);
    for _ in 0..5 {
        u.tick();
        assert_eq!(u.render(), text(&rows));
    }
}

#[test]
fn block_on_smallest_grid_is_still() {
    let rows = ["##..", "##..", "....", "...."];
    let mut u = grid(&rows);
    u.tick();
    assert_eq!(u.render(), text(&rows));
}

#[test]
fn blinker_oscillates() {
    let horizontal = [".....", ".....", ".###.", ".....", "....."];
    let vertical = [".....", "..#..", "..#..", "..#..", "....."];
    let mut u = grid(&horizontal);
    u.tick();
    assert_eq!(u.render(), text(&vertical));
    u.tick();
    assert_eq!(u.render(), text(&horizontal));
}

#[test]
fn lone_cell_dies_and_crowd_thins() {
    let mut u = grid(&[".....", "..#..", ".....", "....."]);
    u.tick();
    assert_eq!(u.render(), text(&[".....", ".....", ".....", "....."]));
    let mut full = grid(&["#####", "#####", "#####", "#####"]);
    full.tick();
    assert_eq!(full.render(), text(&[".....", ".....", ".....", "....."]));
}

#[test]
fn spaceship_on_dead_grid() {
    let mut u = grid(&["......", "......", "......", "......", "......"]);
    u.stamp_spaceship(0);
    assert_eq!(
        u.render(),
        text(&["####..", "#...#.", "#.....", ".#..#.", "......"])
    );
}

#[test]
fn spaceship_keeps_other_cells_and_rows_above() {
    let mut u = grid(&[".....#", "#.....", "......", "......", "......", "......"]);
    u.stamp_spaceship(2);
    assert_eq!(
        u.render(),
        text(&[".....#", "#.....", "####..", "#...#.", "#.....", ".#..#."])
    );
}

#[test]
fn spaceship_offset_below_grid_changes_nothing() {
    let rows = ["#....", ".....", "....#"];
    let mut u = grid(&rows);
    u.stamp_spaceship(u32::MAX);
    assert_eq!(u.render(), text(&rows));
}

#[test]
fn same_bytes_same_grid() {
    let bytes: Vec<u8> = (0..48u32).map(|i| (i * 37 % 251) as u8).collect();
    let a = Universe::from_bytes(8, 6, &bytes);
    let b = Universe::from_bytes(8, 6, &bytes);
    assert_eq!(a.render(), b.render());
    assert_eq!(a.cells(), b.cells());
    let flipped: Vec<u8> = bytes.iter().map(|b| b.wrapping_add(2)).collect();
    let c = Universe::from_bytes(8, 6, &flipped);
    assert_eq!(a.render(), c.render());
}

#[test]
fn even_byte_alive_odd_byte_dead() {
    let u = Universe::from_bytes(4, 1, &vec![0, 1, 2, 255]);
    assert_eq!(u.render(), text(&["#.#."]));
    assert_eq!(FALLBACK_BYTE % 2, 1);
    let fallback = Universe::from_bytes(2, 1, &vec![FALLBACK_BYTE, FALLBACK_BYTE]);
    assert_eq!(fallback.render(), text(&[".."]));
}

#[test]
fn ticks_keep_dimensions() {
    let mut u = grid(&["#.#.#.#", ".#.#.#.", "##..##.", "#######", "......#"]);
    for _ in 0..10 {
        u.tick();
        assert_eq!(u.width(), 7);
        assert_eq!(u.height(), 5);
        assert_eq!(u.cells().len(), 2);
        let out = u.render();
        assert_eq!(out.lines().count(), 5);
        assert!(out.lines().all(|l| l.chars().count() == 7));
    }
}

#[test]
fn cells_are_packed_bits() {
    let u = grid(&["#.......", "........", "........", "........", ".......#"]);
    let blocks = u.cells();
    assert_eq!(blocks.len(), 2);
    assert_eq!(blocks[0], 1);
    assert_eq!(blocks[1], 1 << 7);
    assert!(is_alive(&u, 0, 0));
    assert!(is_alive(&u, 4, 7));
    assert!(!is_alive(&u, 2, 3));
}

#[test]
fn new_is_sixty_four_square() {
    let mut u = Universe::new();
    assert_eq!(u.width(), 64);
    assert_eq!(u.height(), 64);
    assert_eq!(u.cells().len(), 128);
    assert_eq!(u.render().lines().count(), 64);
    u.tick();
    assert_eq!(u.width(), 64);
    assert_eq!(u.cells().len(), 128);
}

#[test]
fn with_dimensions_sizes_grid() {
    let u = Universe::with_dimensions(3, 7);
    assert_eq!(u.width(), 3);
    assert_eq!(u.height(), 7);
    assert_eq!(u.cells().len(), 1);
    let out = u.render();
    assert_eq!(out.lines().count(), 7);
    assert!(out.lines().all(|l| l.chars().count() == 3));
}

#[test]
fn fallback_on_failed_draw() {
    assert_eq!(byte_or_fallback(&Ok(0)), 0);
    assert_eq!(byte_or_fallback(&Ok(200)), 200);
    assert_eq!(byte_or_fallback(&Ok(7)), 7);
    assert_eq!(byte_or_fallback(&Err(getrandom::Error::UNSUPPORTED)), FALLBACK_BYTE);
    assert_eq!(byte_or_fallback(&Err(getrandom::Error::UNEXPECTED)), 1);
}

#[test]
fn draws_seed_cells() {
    let draws = vec![
        Ok(4),
        Err(getrandom::Error::UNSUPPORTED),
        Ok(9),
        Ok(0),
        Err(getrandom::Error::UNEXPECTED),
        Ok(255),
    ];
    let u = Universe::from_draws(3, 2, &draws);
    assert_eq!(u.render(), text(&["#..", "#.."]));
    let again = Universe::from_draws(3, 2, &draws);
    assert_eq!(u.cells(), again.cells());
}

#[test]
fn all_failed_draws_give_dead_grid() {
    let draws: Vec<Result<u8, getrandom::Error>> =
        (0..20).map(|_| Err(getrandom::Error::UNSUPPORTED)).collect();
    let u = Universe::from_draws(5, 4, &draws);
    assert_eq!(u.render(), text(&[".....", ".....", ".....", "....."]));
}

#[test]
fn all_zero_draws_give_full_grid() {
    let draws: Vec<Result<u8, getrandom::Error>> = (0..4096).map(|_| Ok(0)).collect();
    let u = Universe::from_draws(64, 64, &draws);
    assert_eq!(u.width(), 64);
    assert_eq!(u.height(), 64);
    assert_eq!(u.cells().len(), 128);
    assert!(u.cells().iter().all(|b| *b == u32::MAX));
}

#[test]
fn blinker_across_corner_oscillates() {
    let mut u = grid(&[".....", ".....", ".....", ".....", "#..##"]);
    u.tick();
    assert_eq!(u.render(), text(&["....#", ".....", ".....", "....#", "....#"]));
    u.tick();
    assert_eq!(u.render(), text(&[".....", ".....", ".....", ".....", "#..##"]));
    let mut v = grid(&["#....", ".....", ".....", "#....", "#...."]);
    v.tick();
    v.tick();
    assert_eq!(v.render(), text(&["#....", ".....", ".....", "#....", "#...."]));
}
