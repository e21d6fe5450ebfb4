use game_of_life::glider::Heading;
use game_of_life::{Cell, GameOfLife};

const HEADINGS: [(Heading, i64, i64); 4] = [
    (Heading::SouthEast, 1, 1),
    (Heading::SouthWest, -1, 1),
    (Heading::NorthEast, 1, -1),
    (Heading::NorthWest, -1, -1),
];

/// The cells of a game in row-major order.
fn cells(game: &GameOfLife) -> Vec<bool> {
    let mut all = Vec::new();
    while let Some(cell) = game.at(all.len(), 0) {
        all.push(cell.is_alive());
    }
    all
}

/// A game drawn with `#` for each living cell.
fn game(rows: &[&str]) -> GameOfLife {
    let width = rows[0].len();
    let mut game = GameOfLife::new(width, rows.len());
    for (y, row) in rows.iter().enumerate() {
        for (x, mark) in row.chars().enumerate() {
            if mark == '#' {
                game.flip(y * width + x, 0);
            }
        }
    }
    game
}

fn drawn(game: &GameOfLife) -> Vec<String> {
    cells(game)
        .chunks(game.get_width())
        .map(|row| row.iter().map(|alive| if *alive { '#' } else { '.' }).collect())
        .collect()
}

fn stepped(rows: &[&str]) -> Vec<String> {
    let mut game = game(rows);
    game.step();
    drawn(&game)
}

#[test]
fn cells_and_bools() {
    assert!(Cell::Alive.is_alive());
    assert!(!Cell::Dead.is_alive());
    assert_eq!(Cell::from(true), Cell::Alive);
    assert_eq!(Cell::from(false), Cell::Dead);
}

#[test]
fn new_game_is_dead() {
    let game = GameOfLife::new(3, 2);
    assert_eq!(game.get_width(), 3);
    assert_eq!(game.get_height(), 2);
    assert_eq!(cells(&game), vec![false; 6]);
    assert_eq!(game.at(6, 0), None);
}

#[test]
fn game_without_cells() {
    for (width, height) in [(0, 0), (0, 5), (5, 0), (usize::MAX, 0), (0, 7)] {
        let mut game = GameOfLife::new(width, height);
        game.step();
        assert_eq!(game.at(0, 0), None);
        assert_eq!(game.get_width(), width);
        assert_eq!(game.get_height(), height);
    }
}

#[test]
fn at_reads_what_was_flipped() {
    let mut game = GameOfLife::new(4, 4);
    game.flip(2, 3);
    assert_eq!(game.at(2, 3), Some(Cell::Alive));
    assert_eq!(game.at(3, 2), Some(Cell::Dead));
    assert_eq!(cells(&game).iter().filter(|alive| **alive).count(), 1);
    assert!(cells(&game)[3 * 4 + 2]);
}

#[test]
fn row_pitch_of_names_is_the_height() {
    let mut game = GameOfLife::new(3, 2);
    game.flip(0, 1);
    assert_eq!(cells(&game), vec![false, false, true, false, false, false]);
    let game = GameOfLife::new(2, 3);
    assert_eq!(game.at(1, 1), Some(Cell::Dead));
    assert_eq!(game.at(1, 2), None);
}

#[test]
fn names_run_into_the_next_row() {
    let mut game = GameOfLife::new(3, 3);
    game.flip(4, 0);
    assert_eq!(game.at(1, 1), Some(Cell::Alive));
}

#[test]
fn flip_undoes_flip() {
    let mut game = game(&["#..", ".#.", "..."]);
    let before = cells(&game);
    game.flip(1, 1);
    assert_ne!(cells(&game), before);
    game.flip(1, 1);
    assert_eq!(cells(&game), before);
}

#[test]
fn flip_outside_does_nothing() {
    let mut game = game(&["#.", ".#"]);
    let before = cells(&game);
    game.flip(4, 0);
    game.flip(0, 2);
    assert_eq!(cells(&game), before);
}

#[test]
fn set_alive_and_set_dead() {
    let mut game = GameOfLife::new(3, 3);
    game.set_alive(1, 2);
    game.set_alive(1, 2);
    assert_eq!(game.at(1, 2), Some(Cell::Alive));
    game.set_dead(1, 2);
    assert_eq!(game.at(1, 2), Some(Cell::Dead));
    game.set_alive(9, 0);
    game.set_alive(usize::MAX, usize::MAX);
    game.set_alive(usize::MAX, 1);
    game.set_dead(0, usize::MAX);
    assert_eq!(cells(&game), vec![false; 9]);
}

#[test]
fn clear_kills_every_cell() {
    let mut game = game(&["###", "#.#"]);
    game.clear();
    assert_eq!(cells(&game), vec![false; 6]);
}

#[test]
fn lonely_cells_die() {
    assert_eq!(stepped(&[".....", ".....", "..#..", ".....", "....."]), vec!["....."; 5]);
    assert_eq!(stepped(&[".....", ".....", ".##..", ".....", "....."]), vec!["....."; 5]);
}

#[test]
fn crowded_cells_die() {
    assert_eq!(
        stepped(&[".....", "..#..", ".###.", "..#..", "....."]),
        vec![".....", ".###.", ".#.#.", ".###.", "....."]
    );
}

#[test]
fn block_is_still() {
    let block = ["....", ".##.", ".##.", "...."];
    assert_eq!(stepped(&block), block.to_vec());
}

#[test]
fn blinker_turns() {
    let lying = [".....", ".....", ".###.", ".....", "....."];
    let standing = [".....", "..#..", "..#..", "..#..", "....."];
    assert_eq!(stepped(&lying), standing.to_vec());
    assert_eq!(stepped(&standing), lying.to_vec());
}

#[test]
fn board_wraps_at_its_borders() {
    assert_eq!(
        stepped(&["##..#", ".....", ".....", "....."]),
        vec!["#....", "#....", ".....", "#...."]
    );
    assert_eq!(
        stepped(&["#....", ".....", ".....", "#....", "#...."]),
        vec![".....", ".....", ".....", ".....", "##..#"]
    );
}

#[test]
fn narrow_board_counts_a_neighbor_twice() {
    // On a torus of one column a cell is its own left and right neighbour.
    assert_eq!(stepped(&["#", ".", ".", "."]), vec!["#", "#", ".", "#"]);
    assert_eq!(stepped(&["#"]), vec!["."]);
}

#[test]
fn rectangular_board_steps_by_columns_and_rows() {
    assert_eq!(
        stepped(&[".......", "..###..", ".......", "......."]),
        vec!["...#...", "...#...", "...#...", "......."]
    );
}

#[test]
fn far_cells_do_not_matter() {
    let near = stepped(&["......", ".##...", ".#....", "......", "......", "......"]);
    let far = stepped(&["......", ".##...", ".#....", "......", "....##", "....##"]);
    assert_eq!(near[1], ".##...");
    assert_eq!(far[1], near[1]);
    assert_eq!(far[2], near[2]);
    assert_ne!(far, near);
}

#[test]
fn square_board_steps_as_read() {
    let mut game = GameOfLife::new(5, 5);
    for x in 1..4 {
        game.set_alive(x, 2);
    }
    game.step();
    for y in 0..5 {
        for x in 0..5 {
            let alive = x == 2 && (1..4).contains(&y);
            assert_eq!(game.at(x, y), Some(Cell::from(alive)));
        }
    }
}

#[test]
fn dead_stays_dead() {
    let mut game = GameOfLife::new(5, 3);
    for _ in 0..4 {
        game.step();
        assert_eq!(cells(&game), vec![false; 15]);
    }
}

#[test]
fn stepping_commutes_with_shifting() {
    let board = ["#..#..", ".##...", "...#.#", "#.....", "..###."];
    let (width, height) = (6, 5);
    let before = cells(&game(&board));
    let mut moved = GameOfLife::new(width, height);
    let (dx, dy) = (2, 3);
    for y in 0..height {
        for x in 0..width {
            if before[(x + dx) % width + (y + dy) % height * width] {
                moved.flip(y * width + x, 0);
            }
        }
    }
    moved.step();
    let mut stepped = game(&board);
    stepped.step();
    let (moved, stepped) = (cells(&moved), cells(&stepped));
    for y in 0..height {
        for x in 0..width {
            assert_eq!(
                moved[x + y * width],
                stepped[(x + dx) % width + (y + dy) % height * width]
            );
        }
    }
}

#[test]
fn stepping_commutes_with_mirroring() {
    let mirror = |rows: &[String]| -> Vec<String> {
        rows.iter().map(|row| row.chars().rev().collect()).collect()
    };
    let board = ["#..#..", ".##...", "...#.#", "#.....", "..###."];
    let owned: Vec<String> = board.iter().map(|row| row.to_string()).collect();
    let mirrored = mirror(&owned);
    let mirrored: Vec<&str> = mirrored.iter().map(|row| row.as_str()).collect();
    assert_eq!(stepped(&mirrored), mirror(&stepped(&board)));
}

#[test]
fn stepping_commutes_with_transposing() {
    let transpose = |rows: &[String]| -> Vec<String> {
        (0..rows[0].len())
            .map(|x| rows.iter().map(|row| row.as_bytes()[x] as char).collect())
            .collect()
    };
    let board = ["#..#..", ".##...", "...#.#", "#.....", "..###."];
    let owned: Vec<String> = board.iter().map(|row| row.to_string()).collect();
    let transposed = transpose(&owned);
    let transposed: Vec<&str> = transposed.iter().map(|row| row.as_str()).collect();
    assert_eq!(stepped(&transposed), transpose(&stepped(&board)));
}

#[test]
fn spawned_gliders() {
    let spawned = |heading| {
        let mut game = GameOfLife::new(5, 5);
        game.spawn_glider(1, 0, heading);
        drawn(&game)
    };
    assert_eq!(
        spawned(Heading::SouthEast),
        vec![".#...", "..##.", ".##..", ".....", "....."]
    );
    assert_eq!(
        spawned(Heading::SouthWest),
        vec!["...#.", ".##..", "..##.", ".....", "....."]
    );
    assert_eq!(
        spawned(Heading::NorthEast),
        vec![".##..", "..##.", ".#...", ".....", "....."]
    );
    assert_eq!(
        spawned(Heading::NorthWest),
        vec!["..##.", ".##..", "...#.", ".....", "....."]
    );
}

#[test]
fn glider_outside_is_left_out() {
    let mut game = GameOfLife::new(4, 4);
    game.spawn_glider(0, 3, Heading::SouthEast);
    assert_eq!(drawn(&game), vec!["....", "....", "....", "#..."]);
    game.spawn_glider(usize::MAX, usize::MAX, Heading::NorthWest);
    game.spawn_glider(usize::MAX - 1, 0, Heading::SouthEast);
    assert_eq!(drawn(&game), vec!["....", "....", "....", "#..."]);
}

#[test]
fn gliders_glide() {
    for (heading, columns, rows) in HEADINGS {
        let mut game = GameOfLife::new(8, 8);
        game.spawn_glider(2, 3, heading);
        for _ in 0..4 {
            game.step();
        }
        let mut moved = GameOfLife::new(8, 8);
        moved.spawn_glider((2 + columns) as usize, (3 + rows) as usize, heading);
        assert_eq!(drawn(&game), drawn(&moved));
    }
}

#[test]
fn glider_comes_back_around_the_torus() {
    for (heading, _, _) in HEADINGS {
        let mut game = GameOfLife::new(6, 6);
        game.spawn_glider(1, 2, heading);
        let before = cells(&game);
        for _ in 0..23 {
            game.step();
        }
        assert_ne!(cells(&game), before);
        game.step();
        assert_eq!(cells(&game), before);
    }
}

#[test]
fn headings_by_number() {
    assert_eq!(Heading::from_index(0), Heading::SouthEast);
    assert_eq!(Heading::from_index(1), Heading::SouthWest);
    assert_eq!(Heading::from_index(2), Heading::NorthEast);
    assert_eq!(Heading::from_index(3), Heading::NorthWest);
    assert_eq!(Heading::from_index(255), Heading::NorthWest);
}
