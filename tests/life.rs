use life_grid::{
    cell_rect, clamp_down, clamp_up, pin_index, window_size, Board, Button, Game, Key, BOARD_HEIGHT,
    BOARD_WIDTH, CELL_SIZE, GEN_INTERVAL_MS,
};

fn board_with(width: usize, height: usize, live: &[(usize, usize)]) -> Board {
    let mut b = Board::new(width, height);
    for &(i, j) in live {
        b.toggle_cell(i, j);
    }
    b
}

fn live_cells(b: &Board) -> Vec<(usize, usize)> {
    let mut out = Vec::new();
    for i in 0..b.width() {
        for j in 0..b.height() {
            if b.cell_at(i, j) == 1 {
                out.push((i, j));
            }
        }
    }
    out
}

fn snapshot(b: &Board) -> Vec<Vec<u8>> {
    (0..b.width())
        .map(|i| (0..b.height()).map(|j| b.cell_at(i, j)).collect())
        .collect()
}

#[test]
fn clamp_helpers_pin_to_range() {
    assert_eq!(clamp_up(3, 10), 4);
    assert_eq!(clamp_up(9, 10), 9);
    assert_eq!(clamp_up(0, 1), 0);
    assert_eq!(clamp_down(0), 0);
    assert_eq!(clamp_down(5), 4);
    assert_eq!(pin_index(3, 10), 3);
    assert_eq!(pin_index(10, 10), 9);
    assert_eq!(pin_index(usize::MAX, 4), 3);
}

#[test]
fn count_past_the_edge_is_pinned() {
    let b = board_with(5, 5, &[(4, 4), (3, 3)]);
    assert_eq!(b.neighbor_count(40, 4), b.neighbor_count(4, 4));
    assert_eq!(b.neighbor_count(4, usize::MAX), 4);
}

#[test]
fn new_board_is_dead() {
    let b = Board::new(7, 4);
    assert_eq!(b.width(), 7);
    assert_eq!(b.height(), 4);
    assert!(live_cells(&b).is_empty());
}

#[test]
fn interior_count_is_plain_count() {
    // A full 3x3 block around (5, 5) plus one cell two steps away.
    let mut live = Vec::new();
    for i in 4..7 {
        for j in 4..7 {
            live.push((i, j));
        }
    }
    live.push((7, 5));
    let b = board_with(12, 12, &live);
    assert_eq!(b.neighbor_count(5, 5), 8);
    assert_eq!(b.neighbor_count(6, 5), 6);
    assert_eq!(b.neighbor_count(3, 3), 1);
    assert_eq!(b.neighbor_count(9, 9), 0);
    assert_eq!(b.neighbor_count(7, 5), 3);
}

#[test]
fn corner_count_is_clamped() {
    // A lone live corner cell is read three times from its own position.
    let b = board_with(5, 5, &[(0, 0)]);
    assert_eq!(b.neighbor_count(0, 0), 3);
    assert_eq!(b.neighbor_count(1, 0), 2);
    assert_eq!(b.neighbor_count(0, 1), 2);
    assert_eq!(b.neighbor_count(1, 1), 1);
    // The far corner pins upward.
    let c = board_with(5, 5, &[(4, 4)]);
    assert_eq!(c.neighbor_count(4, 4), 3);
    assert_eq!(c.neighbor_count(3, 4), 2);
}

#[test]
fn lone_corner_cell_survives() {
    let mut b = board_with(5, 5, &[(0, 0)]);
    b.advance();
    assert_eq!(b.cell_at(0, 0), 1);
    assert_eq!(live_cells(&b), vec![(0, 0)]);
}

#[test]
fn edge_count_is_clamped() {
    // On the top edge the row above pins to row 0 itself.
    let b = board_with(6, 6, &[(2, 0), (3, 0)]);
    assert_eq!(b.neighbor_count(3, 0), 3);
    assert_eq!(b.neighbor_count(2, 1), 2);
}

#[test]
fn advance_follows_rule() {
    // Blinker: horizontal bar becomes vertical.
    let mut b = board_with(9, 9, &[(3, 4), (4, 4), (5, 4)]);
    b.advance();
    assert_eq!(live_cells(&b), vec![(4, 3), (4, 4), (4, 5)]);
    b.advance();
    assert_eq!(live_cells(&b), vec![(3, 4), (4, 4), (5, 4)]);
}

#[test]
fn advance_kills_lonely_and_crowded_cells() {
    // A lone cell dies; the centre of a plus with four neighbours dies.
    let mut lone = board_with(9, 9, &[(4, 4)]);
    lone.advance();
    assert!(live_cells(&lone).is_empty());
    let mut plus = board_with(9, 9, &[(4, 4), (3, 4), (5, 4), (4, 3), (4, 5)]);
    plus.advance();
    assert_eq!(plus.cell_at(4, 4), 0);
    // Corners of the plus have exactly three neighbours and are born.
    assert_eq!(plus.cell_at(3, 3), 1);
    assert_eq!(plus.cell_at(5, 5), 1);
}

#[test]
fn block_is_still_life() {
    let mut b = board_with(8, 8, &[(3, 3), (3, 4), (4, 3), (4, 4)]);
    let before = snapshot(&b);
    b.advance();
    assert_eq!(snapshot(&b), before);
}

#[test]
fn dead_board_stays_dead() {
    let mut b = Board::new(BOARD_WIDTH, BOARD_HEIGHT);
    b.advance();
    assert!(live_cells(&b).is_empty());
}

#[test]
fn clear_makes_every_cell_dead() {
    let mut b = board_with(10, 6, &[(0, 0), (9, 5), (4, 2), (4, 3)]);
    b.clear();
    for i in 0..10 {
        for j in 0..6 {
            assert_eq!(b.cell_at(i, j), 0);
        }
    }
    assert_eq!(b.width(), 10);
    assert_eq!(b.height(), 6);
}

#[test]
fn toggle_twice_restores_board() {
    let mut b = board_with(6, 6, &[(1, 1), (2, 3)]);
    let before = snapshot(&b);
    b.toggle_cell(2, 3);
    assert_eq!(b.cell_at(2, 3), 0);
    b.toggle_cell(2, 3);
    assert_eq!(snapshot(&b), before);
    b.toggle_cell(4, 0);
    assert_eq!(b.cell_at(4, 0), 1);
    b.toggle_cell(4, 0);
    assert_eq!(snapshot(&b), before);
}

#[test]
fn out_of_range_coordinates_are_pinned() {
    let mut b = Board::new(4, 3);
    b.toggle_cell(10, 1);
    assert_eq!(live_cells(&b), vec![(3, 1)]);
    b.toggle_cell(0, 99);
    assert_eq!(live_cells(&b), vec![(0, 2), (3, 1)]);
    assert_eq!(b.cell_at(50, 1), 1);
    assert_eq!(b.cell_at(0, 50), 1);
    assert_eq!(b.cell_at(1, 50), 0);
}

#[test]
fn glider_moves_one_diagonal_step_in_four_generations() {
    let shape = [(1, 0), (2, 1), (0, 2), (1, 2), (2, 2)];
    let start: Vec<(usize, usize)> = shape.iter().map(|&(x, y)| (x + 20, y + 20)).collect();
    let mut b = board_with(BOARD_WIDTH, BOARD_HEIGHT, &start);
    for _ in 0..4 {
        b.advance();
    }
    let mut expected: Vec<(usize, usize)> =
        shape.iter().map(|&(x, y)| (x + 21, y + 21)).collect();
    expected.sort();
    assert_eq!(live_cells(&b), expected);
}

#[test]
fn glider_diverges_at_the_edge() {
    // Near the corner the clamped reads make the glider leave its free path.
    let shape = [(1, 0), (2, 1), (0, 2), (1, 2), (2, 2)];
    let mut b = board_with(8, 8, &shape);
    for _ in 0..4 {
        b.advance();
    }
    let free: Vec<(usize, usize)> = {
        let mut v: Vec<(usize, usize)> = shape.iter().map(|&(x, y)| (x + 1, y + 1)).collect();
        v.sort();
        v
    };
    assert_ne!(live_cells(&b), free);
    assert_eq!(live_cells(&b), vec![(1, 0), (1, 1), (1, 2), (2, 3), (3, 2)]);
}

#[test]
fn fill_with_copies_bits() {
    let mut b = Board::new(2, 3);
    let bits = vec![vec![true, false, true], vec![false, false, true]];
    b.fill_with(&bits);
    assert_eq!(snapshot(&b), vec![vec![1, 0, 1], vec![0, 0, 1]]);
}

#[test]
fn randomize_keeps_shape_and_binary_cells() {
    let mut b = Board::new(BOARD_WIDTH, BOARD_HEIGHT);
    b.randomize();
    assert_eq!(b.width(), BOARD_WIDTH);
    assert_eq!(b.height(), BOARD_HEIGHT);
    let mut live = 0usize;
    for i in 0..BOARD_WIDTH {
        for j in 0..BOARD_HEIGHT {
            let c = b.cell_at(i, j);
            assert!(c <= 1);
            live += c as usize;
        }
    }
    // With 9216 fair coins both outcomes are all but certain to appear.
    assert!(live > 0 && live < BOARD_WIDTH * BOARD_HEIGHT);
}

#[test]
fn new_game_is_paused_and_dead() {
    let g = Game::new(1000);
    assert!(g.is_paused());
    assert_eq!(g.board().width(), BOARD_WIDTH);
    assert_eq!(g.board().height(), BOARD_HEIGHT);
    assert!(live_cells(g.board()).is_empty());
}

fn game_with_blinker(now: u64) -> Game {
    let mut g = Game::new(now);
    for &(i, j) in &[(3usize, 4usize), (4, 4), (5, 4)] {
        g.on_pointer_move(i * CELL_SIZE + 5, j * CELL_SIZE + 5);
        g.on_button_press(Button::Primary);
    }
    g
}

#[test]
fn paused_ticks_never_change_board() {
    let mut g = game_with_blinker(0);
    let before = snapshot(g.board());
    for now in [0u64, 50, 100, 1000, 100_000, 5] {
        assert!(!g.on_frame_tick(now));
        assert_eq!(snapshot(g.board()), before);
    }
}

#[test]
fn running_ticks_gate_on_interval() {
    let mut g = game_with_blinker(0);
    g.on_key_press(Key::TogglePause);
    assert!(!g.is_paused());
    assert!(!g.on_frame_tick(GEN_INTERVAL_MS - 1));
    assert_eq!(live_cells(g.board()), vec![(3, 4), (4, 4), (5, 4)]);
    assert!(g.on_frame_tick(GEN_INTERVAL_MS));
    assert_eq!(live_cells(g.board()), vec![(4, 3), (4, 4), (4, 5)]);
    // A late tick steps the board once only; the interval then counts from that tick.
    assert!(g.on_frame_tick(1000));
    assert_eq!(live_cells(g.board()), vec![(3, 4), (4, 4), (5, 4)]);
    assert!(!g.on_frame_tick(1050));
    assert!(g.on_frame_tick(1100));
    assert_eq!(live_cells(g.board()), vec![(4, 3), (4, 4), (4, 5)]);
}

#[test]
fn tick_before_last_update_does_nothing() {
    let mut g = game_with_blinker(500);
    g.on_key_press(Key::TogglePause);
    assert!(!g.on_frame_tick(10));
    assert_eq!(live_cells(g.board()), vec![(3, 4), (4, 4), (5, 4)]);
}

#[test]
fn pause_key_twice_restores_paused() {
    let mut g = Game::new(0);
    g.on_key_press(Key::TogglePause);
    assert!(!g.is_paused());
    g.on_key_press(Key::TogglePause);
    assert!(g.is_paused());
    g.on_key_press(Key::TogglePause);
    g.on_key_press(Key::TogglePause);
    assert!(g.is_paused());
}

#[test]
fn primary_press_flips_only_cell_under_pointer() {
    let mut g = game_with_blinker(0);
    let mut before = snapshot(g.board());
    g.on_pointer_move(7 * CELL_SIZE, 2 * CELL_SIZE + 9);
    g.on_button_press(Button::Primary);
    before[7][2] = 1;
    assert_eq!(snapshot(g.board()), before);
    g.on_button_press(Button::Primary);
    before[7][2] = 0;
    assert_eq!(snapshot(g.board()), before);
}

#[test]
fn other_button_does_nothing() {
    let mut g = game_with_blinker(0);
    let before = snapshot(g.board());
    g.on_pointer_move(7 * CELL_SIZE, 2 * CELL_SIZE);
    g.on_button_press(Button::Other);
    assert_eq!(snapshot(g.board()), before);
}

#[test]
fn press_at_window_edge_is_pinned() {
    let mut g = Game::new(0);
    g.on_pointer_move(BOARD_WIDTH * CELL_SIZE, BOARD_HEIGHT * CELL_SIZE);
    g.on_button_press(Button::Primary);
    assert_eq!(live_cells(g.board()), vec![(BOARD_WIDTH - 1, BOARD_HEIGHT - 1)]);
}

#[test]
fn clear_key_keeps_pause_state() {
    let mut g = game_with_blinker(0);
    g.on_key_press(Key::TogglePause);
    g.on_key_press(Key::Clear);
    assert!(live_cells(g.board()).is_empty());
    assert!(!g.is_paused());
}

#[test]
fn randomize_key_keeps_pause_state() {
    let mut g = Game::new(0);
    g.on_key_press(Key::Randomize);
    assert!(g.is_paused());
    assert_eq!(g.board().width(), BOARD_WIDTH);
    g.on_key_press(Key::Other);
    assert!(g.is_paused());
}

#[test]
fn cell_and_window_geometry() {
    assert_eq!(cell_rect(0, 0), (0, 0, 10, 10));
    assert_eq!(cell_rect(3, 7), (30, 70, 40, 80));
    assert_eq!(window_size(BOARD_WIDTH, BOARD_HEIGHT), (1280, 720));
}
