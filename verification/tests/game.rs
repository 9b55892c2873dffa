use game_of_life::board::Board;
use game_of_life::game::Game;

/// Rows written with `#` for a live cell and any other character for a dead one.
fn rows(lines: &[&str]) -> Vec<Vec<bool>> {
    lines
        .iter()
        .map(|line| line.chars().map(|c| c == '#').collect())
        .collect()
}

fn game(lines: &[&str], is_torus: bool) -> Game {
    Game::new(Board::new(rows(lines)), is_torus)
}

/// The rule written out a second time, on signed coordinates.
fn reference_step(grid: &Vec<Vec<bool>>, is_torus: bool) -> Vec<Vec<bool>> {
    let h = grid.len() as i64;
    let w = grid[0].len() as i64;
    let mut next = grid.clone();
    for y in 0..h {
        for x in 0..w {
            let mut count = 0;
            for dy in -1..=1i64 {
                for dx in -1..=1i64 {
                    if dx == 0 && dy == 0 {
                        continue;
                    }
                    let (cx, cy) = (x + dx, y + dy);
                    if 0 <= cx && cx < w && 0 <= cy && cy < h {
                        if grid[cy as usize][cx as usize] {
                            count += 1;
                        }
                    } else if is_torus
                        && grid[cy.rem_euclid(h) as usize][cx.rem_euclid(w) as usize]
                    {
                        count += 1;
                    }
                }
            }
            let alive = grid[y as usize][x as usize];
            next[y as usize][x as usize] = if alive {
                count == 2 || count == 3
            } else {
                count == 3
            };
        }
    }
    next
}

#[test]
fn new_game_holds_the_board_it_was_given() {
    let start = rows(&["#..", ".#.", "..."]);
    let g = Game::new(Board::new(start.clone()), false);
    assert_eq!(g.board(), &start);
    assert_eq!(g.epochs(), 0);
    assert_eq!(g.height(), 3);
    assert_eq!(g.width(), 3);
    assert!(g.init_board == Board::new(start));
    assert!(!g.is_dead());
}

#[test]
fn height_and_width_are_those_of_the_board() {
    let g = game(&["....", "...."], true);
    assert_eq!(g.height(), 2);
    assert_eq!(g.width(), 4);
}

#[test]
fn check_within_range_accepts_the_grid_only() {
    let g = game(&["...", "..."], false);
    assert!(g.check_within_range(0, 0));
    assert!(g.check_within_range(2, 1));
    assert!(g.check_within_range(2, 0));
    assert!(!g.check_within_range(3, 1));
    assert!(!g.check_within_range(2, 2));
    assert!(!g.check_within_range(-1, 0));
    assert!(!g.check_within_range(0, -1));
    assert!(!g.check_within_range(i32::MAX, 0));
    assert!(!g.check_within_range(i32::MIN, i32::MIN));
}

#[test]
fn bounded_count_stops_at_the_edge() {
    let g = game(&["###", "###", "###"], false);
    assert_eq!(g.count_neighbors(0, 0), 3);
    assert_eq!(g.count_neighbors(1, 0), 5);
    assert_eq!(g.count_neighbors(2, 2), 3);
    assert_eq!(g.count_neighbors(0, 1), 5);
    assert_eq!(g.count_neighbors(1, 1), 8);
}

#[test]
fn torus_count_wraps_round() {
    let g = game(&["###", "###", "###"], true);
    assert_eq!(g.count_neighbors(0, 0), 8);
    assert_eq!(g.count_neighbors(1, 0), 8);
    assert_eq!(g.count_neighbors(1, 1), 8);
}

#[test]
fn count_leaves_out_the_cell_itself() {
    let g = game(&["...", ".#.", "..."], false);
    assert_eq!(g.count_neighbors(1, 1), 0);
    assert_eq!(g.count_neighbors(0, 0), 1);
    assert_eq!(g.count_neighbors(2, 1), 1);
}

#[test]
fn far_corner_is_a_neighbor_on_a_torus_only() {
    let lines = ["....", "....", "...#"];
    let torus = game(&lines, true);
    assert_eq!(torus.count_neighbors(0, 0), 1);
    assert_eq!(torus.count_neighbors(0, 2), 1);
    assert_eq!(torus.count_neighbors(3, 0), 1);
    assert_eq!(torus.count_neighbors(1, 0), 0);
    let bounded = game(&lines, false);
    assert_eq!(bounded.count_neighbors(0, 0), 0);
    assert_eq!(bounded.count_neighbors(0, 2), 0);
    assert_eq!(bounded.count_neighbors(3, 0), 0);
    assert_eq!(bounded.count_neighbors(2, 1), 1);
}

#[test]
fn single_cell_torus_is_its_own_eight_neighbors() {
    let mut alive = game(&["#"], true);
    assert_eq!(alive.count_neighbors(0, 0), 8);
    alive.step();
    assert_eq!(alive.board(), &rows(&["."]));
    let dead = game(&["."], true);
    assert_eq!(dead.count_neighbors(0, 0), 0);
    let bounded = game(&["#"], false);
    assert_eq!(bounded.count_neighbors(0, 0), 0);
}

#[test]
fn one_row_torus_counts_a_cell_once_per_offset() {
    let mut g = game(&["#.."], true);
    assert_eq!(g.count_neighbors(1, 0), 3);
    assert_eq!(g.count_neighbors(2, 0), 3);
    assert_eq!(g.count_neighbors(0, 0), 2);
    g.step();
    assert_eq!(g.board(), &rows(&["###"]));
}

#[test]
fn horizontal_blinker_becomes_vertical() {
    let mut g = game(&["...", "###", "..."], false);
    g.step();
    assert_eq!(g.board(), &rows(&[".#.", ".#.", ".#."]));
    assert_eq!(g.epochs(), 1);
}

#[test]
fn blinker_has_period_two() {
    let start = rows(&[".....", ".....", ".###.", ".....", "....."]);
    let mut g = Game::new(Board::new(start.clone()), false);
    g.step();
    assert_eq!(
        g.board(),
        &rows(&[".....", "..#..", "..#..", "..#..", "....."])
    );
    g.step();
    assert_eq!(g.board(), &start);
    assert_eq!(g.epochs(), 2);
}

#[test]
fn blinker_across_the_seam_of_a_torus() {
    let lines = ["##..#", ".....", ".....", ".....", "....."];
    let mut torus = game(&lines, true);
    torus.step();
    assert_eq!(
        torus.board(),
        &rows(&["#....", "#....", ".....", ".....", "#...."])
    );
    let mut bounded = game(&lines, false);
    bounded.step();
    assert_eq!(
        bounded.board(),
        &rows(&[".....", ".....", ".....", ".....", "....."])
    );
}

#[test]
fn block_is_still() {
    let start = rows(&["....", ".##.", ".##.", "...."]);
    let mut g = Game::new(Board::new(start.clone()), false);
    g.step();
    assert_eq!(g.board(), &start);
}

#[test]
fn three_neighbors_give_life_two_keep_it() {
    // Every way of filling a three-by-three board: the middle cell follows
    // the rule on the count of the other eight.
    for bits in 0..512u32 {
        let mut cells = vec![vec![false; 3]; 3];
        for i in 0..9 {
            cells[i / 3][i % 3] = (bits >> i) & 1 == 1;
        }
        let alive = cells[1][1];
        let around = (bits & !(1 << 4)).count_ones() as usize;
        let mut g = Game::new(Board::new(cells), false);
        assert_eq!(g.count_neighbors(1, 1), around);
        g.step();
        let now = g.board()[1][1];
        if around == 3 {
            assert!(now);
        } else if around < 2 || around > 3 {
            assert!(!now);
        } else {
            assert_eq!(now, alive);
        }
    }
}

#[test]
fn interior_cells_ignore_the_topology() {
    let lines = ["#.#.#", ".##..", "#..##", ".#.#.", "##..#"];
    let mut bounded = game(&lines, false);
    let mut torus = game(&lines, true);
    for y in 1..4 {
        for x in 1..4 {
            assert_eq!(bounded.count_neighbors(x, y), torus.count_neighbors(x, y));
        }
    }
    assert_ne!(bounded.count_neighbors(0, 0), torus.count_neighbors(0, 0));
    bounded.step();
    torus.step();
    for y in 1..4 {
        for x in 1..4 {
            assert_eq!(bounded.board()[y][x], torus.board()[y][x]);
        }
    }
}

#[test]
fn step_agrees_with_the_rule_written_out_again() {
    let lines = [
        "..#.....",
        "...#..#.",
        ".###..#.",
        "......#.",
        "##......",
        "#....##.",
        ".....##.",
        "#......#",
    ];
    for is_torus in [false, true] {
        let mut expected = rows(&lines);
        let mut g = Game::new(Board::new(expected.clone()), is_torus);
        for round in 1..=40 {
            expected = reference_step(&expected, is_torus);
            g.step();
            assert_eq!(g.board(), &expected);
            assert_eq!(g.epochs(), round);
        }
    }
}

#[test]
fn step_leaves_the_starting_board_alone() {
    let start = rows(&["...", "###", "..."]);
    let mut g = Game::new(Board::new(start.clone()), true);
    g.step();
    g.step();
    g.step();
    assert!(g.init_board == Board::new(start));
    assert_eq!(g.epochs(), 3);
}

#[test]
fn empty_board_is_dead_after_one_round() {
    let mut g = game(&["...", "...", "..."], false);
    g.step();
    assert_eq!(g.board(), &rows(&["...", "...", "..."]));
    let mut g = game(&["...", "...", "..."], false);
    assert!(!g.is_dead());
    g.step_until_dead();
    assert!(g.is_dead());
    assert_eq!(g.epochs(), 1);
    assert_eq!(g.board(), &rows(&["...", "...", "..."]));
}

#[test]
fn blinker_is_dead_after_two_rounds() {
    let start = rows(&[".....", ".....", ".###.", ".....", "....."]);
    let mut g = Game::new(Board::new(start.clone()), false);
    g.step_until_dead();
    assert!(g.is_dead());
    assert_eq!(g.epochs(), 2);
    assert_eq!(g.board(), &start);
}

#[test]
fn still_life_is_dead_after_one_round() {
    let start = rows(&["....", ".##.", ".##.", "...."]);
    let mut g = Game::new(Board::new(start.clone()), true);
    g.step_until_dead();
    assert_eq!(g.epochs(), 1);
    assert_eq!(g.board(), &start);
}

#[test]
fn a_dead_game_stays_as_it_is() {
    let mut g = game(&["...", "###", "..."], false);
    g.step_until_dead();
    let epochs = g.epochs();
    let board = g.board().clone();
    g.step_until_dead();
    assert_eq!(g.epochs(), epochs);
    assert_eq!(g.board(), &board);
}

#[test]
fn step_alone_records_nothing() {
    let mut g = game(&["....", ".##.", ".##.", "...."], false);
    g.step();
    g.step();
    assert!(!g.is_dead());
}

#[test]
fn run_ends_at_the_first_repeat() {
    let lines = [
        ".#......",
        "..#.....",
        "###.....",
        "........",
        "........",
        "........",
        "........",
        "........",
    ];
    for is_torus in [false, true] {
        let mut seen: Vec<Vec<Vec<bool>>> = Vec::new();
        let mut current = rows(&lines);
        let mut rounds = 0;
        while !seen.contains(&current) {
            seen.push(current.clone());
            current = reference_step(&current, is_torus);
            rounds += 1;
        }
        let mut g = game(&lines, is_torus);
        g.step_until_dead();
        assert!(g.is_dead());
        assert_eq!(g.epochs(), rounds);
        assert_eq!(g.board(), &current);
    }
}

#[test]
fn random_game_has_the_shape_asked_for() {
    let g = Game::new_random(7, 4, true);
    assert_eq!(g.width(), 7);
    assert_eq!(g.height(), 4);
    assert_eq!(g.epochs(), 0);
    assert_eq!(g.board().len(), 4);
    for row in g.board() {
        assert_eq!(row.len(), 7);
    }
    assert!(g.init_board == Board::new(g.board().clone()));
    assert!(!g.is_dead());
}

#[test]
fn random_game_of_one_cell() {
    let g = Game::new_random(1, 1, false);
    assert_eq!(g.width(), 1);
    assert_eq!(g.height(), 1);
}

#[test]
fn random_cells_are_not_all_alike() {
    let g = Game::new_random(64, 64, false);
    let live = g.board().iter().flatten().filter(|c| **c).count();
    assert!(live > 0);
    assert!(live < 64 * 64);
    let other = Game::new_random(64, 64, false);
    assert_ne!(g.board(), other.board());
}

#[test]
fn random_game_keeps_its_topology() {
    // A lone live cell in a corner is seen from the far corner on a torus only.
    loop {
        let torus = Game::new_random(3, 3, true);
        let live = torus.board().iter().flatten().filter(|c| **c).count();
        if live == 9 {
            assert_eq!(torus.count_neighbors(0, 0), 8);
            break;
        }
    }
    loop {
        let bounded = Game::new_random(3, 3, false);
        let live = bounded.board().iter().flatten().filter(|c| **c).count();
        if live == 9 {
            assert_eq!(bounded.count_neighbors(0, 0), 3);
            break;
        }
    }
}
