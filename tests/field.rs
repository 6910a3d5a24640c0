use tetris::buffer::Color;
use tetris::playground::{Key, Playground, FIELD_HEIGHT, FIELD_WIDTH, LINE_SCORE, PLACE_SCORE};
use tetris::screen::{Screen, State};
use tetris::tetro::{Tetro, TetroState};
use tetris::units::{Pos, Size};

/// A fresh field whose next piece is shape `kind` turned `turns` times,
/// brought in by one tick.
fn with_piece(kind: usize, turns: usize) -> Playground {
    let mut p = Playground::new();
    p.next = Some(Tetro::from_choice(kind, turns));
    assert!(p.on_tick());
    p
}

fn state(p: &Playground) -> TetroState {
    p.tetro.as_ref().unwrap().state
}

fn occupied(p: &Playground, x: u16, y: u16) -> bool {
    p.buffer.get(x, y).is_some()
}

#[test]
fn fresh_field_is_empty() {
    let p = Playground::new();
    assert_eq!(p.size(), Size::new(12, 20));
    assert_eq!(p.buffer.size(), Size::new(FIELD_WIDTH, FIELD_HEIGHT));
    assert_eq!(p.score, 0);
    assert!(p.tetro.is_none() && p.next.is_none());
    assert_eq!(p.descent_speed, 1);
    assert_eq!(p.tick_count, 0);
}

#[test]
fn first_tick_spawns_centred_and_draws_next() {
    let p = with_piece(0, 0);
    assert_eq!(p.tetro_pos, Pos::new(4, 0));
    assert_eq!(state(&p), TetroState::Descent);
    assert!(p.next.is_some());
    let mut q = Playground::new();
    assert!(q.on_tick());
    assert!(q.tetro.is_some() && q.next.is_some());
    let w = q.tetro.as_ref().unwrap().size().width;
    assert_eq!(q.tetro_pos, Pos::new(6 - w / 2, 0));
}

#[test]
fn move_left_at_left_wall_is_no_op() {
    let mut p = with_piece(0, 0);
    assert_eq!(p.tetro_pos, Pos::new(4, 0));
    for x in (0..4).rev() {
        p.move_left();
        assert_eq!(p.tetro_pos, Pos::new(x, 0));
    }
    p.move_left();
    assert_eq!(p.tetro_pos, Pos::new(0, 0));
    assert_eq!(state(&p), TetroState::Descent);
}

#[test]
fn move_right_clamps_at_right_wall() {
    let mut p = with_piece(0, 0);
    for x in 5..9 {
        p.move_right();
        assert_eq!(p.tetro_pos, Pos::new(x, 0));
    }
    p.move_right();
    assert_eq!(p.tetro_pos, Pos::new(8, 0));
    assert_eq!(state(&p), TetroState::Descent);
    p.descend_soft();
    p.move_right();
    assert_eq!(p.tetro_pos, Pos::new(8, 1));
    assert_eq!(state(&p), TetroState::Descent);
}

#[test]
fn descent_to_floor_waits_then_places() {
    let mut p = with_piece(0, 0);
    for y in 1..20 {
        p.descend_soft();
        assert_eq!(p.tetro_pos, Pos::new(4, y));
        assert_eq!(state(&p), TetroState::Descent);
    }
    p.descend_soft();
    assert_eq!(p.tetro_pos, Pos::new(4, 19));
    assert_eq!(state(&p), TetroState::WaitToPlace);
    p.descend_soft();
    assert!(p.tetro.is_none());
    for x in 0..12 {
        assert_eq!(occupied(&p, x, 19), (4..8).contains(&x));
    }
    assert_eq!(p.buffer.get(4, 19), Some(Color::Cyan));
    assert_eq!(p.score, PLACE_SCORE);
}

#[test]
fn moving_onto_settled_cells_waits_above_them() {
    let mut p = with_piece(3, 0);
    assert_eq!(p.tetro_pos, Pos::new(5, 0));
    p.buffer.set(5, 10, Some(Color::Red));
    for _ in 0..8 {
        p.descend_soft();
    }
    assert_eq!(p.tetro_pos, Pos::new(5, 8));
    p.descend_soft();
    assert_eq!(p.tetro_pos, Pos::new(5, 8));
    assert_eq!(state(&p), TetroState::WaitToPlace);
}

#[test]
fn hard_descent_places_at_rest_row() {
    let mut p = with_piece(3, 0);
    p.buffer.set(6, 15, Some(Color::Red));
    p.descend_hard();
    assert!(p.tetro.is_none());
    assert_eq!(p.tetro_pos, Pos::new(5, 13));
    for (x, y) in [(5, 13), (6, 13), (5, 14), (6, 14), (6, 15)] {
        assert!(occupied(&p, x, y));
    }
    assert!(!occupied(&p, 5, 15));
    assert_eq!(p.tick_count, 0);
}

#[test]
fn hard_descent_without_piece_does_nothing() {
    let mut p = Playground::new();
    p.descend_hard();
    assert!(p.tetro.is_none());
    assert_eq!(p.score, 0);
}

#[test]
fn full_row_is_cleared_on_next_tick() {
    let mut p = Playground::new();
    for target in [0u16, 4, 8] {
        p.next = Some(Tetro::from_choice(0, 0));
        assert!(p.on_tick());
        while p.tetro_pos.x > target {
            p.move_left();
        }
        while p.tetro_pos.x < target {
            p.move_right();
        }
        p.descend_hard();
        assert_eq!(p.tetro_pos, Pos::new(target, 19));
    }
    p.buffer.set(3, 18, Some(Color::Green));
    assert!(p.buffer.line_full(19));
    let score = p.score;
    assert!(p.on_tick());
    assert!(p.tetro.is_none());
    assert_eq!(p.score, score + LINE_SCORE);
    assert!(!p.buffer.line_full(19));
    for y in 0..20 {
        for x in 0..12 {
            assert_eq!(occupied(&p, x, y), x == 3 && y == 19);
        }
    }
}

#[test]
fn one_row_is_cleared_per_tick() {
    let mut p = Playground::new();
    for y in [17u16, 19] {
        for x in 0..12 {
            p.buffer.set(x, y, Some(Color::Red));
        }
    }
    p.buffer.set(0, 18, Some(Color::Blue));
    assert!(p.on_tick());
    assert!(p.tetro.is_none());
    assert!(occupied(&p, 0, 18) && p.buffer.line_full(19) && !p.buffer.line_full(17));
    assert!(p.on_tick());
    assert!(p.tetro.is_none());
    assert!(occupied(&p, 0, 19) && !p.buffer.line_full(19));
    assert!(p.on_tick());
    assert!(p.tetro.is_some());
}

#[test]
fn spawn_onto_stack_ends_round() {
    let mut p = Playground::new();
    p.buffer.set(5, 0, Some(Color::Red));
    p.next = Some(Tetro::from_choice(0, 0));
    assert!(!p.on_tick());
    assert!(p.tetro.is_none());
    assert!(p.next.is_some());
    for x in 4..8 {
        assert!(occupied(&p, x, 0));
    }
}

#[test]
fn spawn_takes_the_given_pieces() {
    let mut p = Playground::new();
    assert!(p.spawn(Tetro::from_choice(3, 0), Tetro::from_choice(5, 0)));
    assert_eq!(p.tetro_pos, Pos::new(5, 0));
    assert_eq!(p.tetro.as_ref().unwrap().size(), Size::new(2, 2));
    assert_eq!(p.next.as_ref().unwrap().size(), Size::new(3, 2));
}

#[test]
fn ticks_count_up_to_descent() {
    let mut p = with_piece(3, 0);
    for n in 1..=9 {
        assert!(p.on_tick());
        assert_eq!(p.tick_count, n);
        assert_eq!(p.tetro_pos, Pos::new(5, 0));
    }
    assert!(p.on_tick());
    assert_eq!(p.tick_count, 0);
    assert_eq!(p.tetro_pos, Pos::new(5, 1));
}

#[test]
fn rotation_recentres_the_turned_piece() {
    let mut p = with_piece(0, 0);
    for _ in 0..5 {
        p.descend_soft();
    }
    assert_eq!(p.tetro_pos, Pos::new(4, 5));
    p.rotate_right();
    assert_eq!(p.tetro_pos, Pos::new(5, 4));
    assert_eq!(p.tetro.as_ref().unwrap().size(), Size::new(1, 4));
    p.rotate_right();
    assert_eq!(p.tetro_pos, Pos::new(4, 5));
    assert_eq!(p.tetro.as_ref().unwrap().size(), Size::new(4, 1));
}

#[test]
fn rotation_that_would_not_fit_is_refused() {
    let mut p = with_piece(0, 1);
    assert_eq!(p.tetro_pos, Pos::new(6, 0));
    for _ in 0..10 {
        p.move_right();
    }
    assert_eq!(p.tetro_pos, Pos::new(11, 0));
    p.descend_soft();
    p.rotate_right();
    assert_eq!(p.tetro_pos, Pos::new(11, 1));
    assert_eq!(p.tetro.as_ref().unwrap().size(), Size::new(1, 4));
    for _ in 0..6 {
        p.move_left();
    }
    assert_eq!(p.tetro_pos, Pos::new(5, 1));
    p.buffer.set(6, 2, Some(Color::Red));
    p.rotate_right();
    assert_eq!(p.tetro_pos, Pos::new(5, 1));
    assert_eq!(p.tetro.as_ref().unwrap().size(), Size::new(1, 4));
    p.buffer.set(6, 2, None);
    p.rotate_right();
    assert_eq!(p.tetro_pos, Pos::new(4, 2));
    assert_eq!(p.tetro.as_ref().unwrap().size(), Size::new(4, 1));
}

#[test]
fn keys_reach_the_field() {
    let mut p = with_piece(3, 0);
    p.on_keydown(Key::Left);
    assert_eq!(p.tetro_pos, Pos::new(4, 0));
    p.on_keydown(Key::Right);
    p.on_keydown(Key::Right);
    assert_eq!(p.tetro_pos, Pos::new(6, 0));
    p.on_keydown(Key::Down);
    assert_eq!(p.tetro_pos, Pos::new(6, 1));
    p.on_keydown(Key::Other);
    assert_eq!(p.tetro_pos, Pos::new(6, 1));
    p.on_keydown(Key::Space);
    assert!(p.tetro.is_none());
    assert!(occupied(&p, 6, 19) && occupied(&p, 7, 18));
}

#[test]
fn clear_restores_a_fresh_field() {
    let mut p = with_piece(0, 0);
    p.descend_hard();
    p.clear();
    assert_eq!(p.score, 0);
    assert!(p.tetro.is_none() && p.next.is_none());
    assert_eq!(p.tetro_pos, Pos::new(0, 0));
    assert!(!occupied(&p, 4, 19));
}

#[test]
fn round_goes_ready_playing_finished_ready() {
    let mut s = Screen::new();
    assert_eq!(s.state, State::Ready);
    s.on_tick();
    assert!(s.playground.tetro.is_none() && s.playground.next.is_none());
    s.on_keydown(Key::Left);
    assert_eq!(s.state, State::Ready);
    s.on_keydown(Key::Space);
    assert_eq!(s.state, State::Playing);
    s.playground.buffer.set(5, 0, Some(Color::Red));
    s.playground.next = Some(Tetro::from_choice(3, 0));
    s.on_tick();
    assert_eq!(s.state, State::Finished);
    s.on_tick();
    s.on_keydown(Key::Down);
    assert_eq!(s.state, State::Finished);
    s.on_keydown(Key::Space);
    assert_eq!(s.state, State::Ready);
    assert!(!occupied(&s.playground, 5, 0));
    assert_eq!(s.playground.score, 0);
}

#[test]
fn playing_round_forwards_ticks_and_keys() {
    let mut s = Screen::new();
    s.on_keydown(Key::Space);
    s.playground.next = Some(Tetro::from_choice(3, 0));
    s.on_tick();
    assert_eq!(s.state, State::Playing);
    assert_eq!(s.playground.tetro_pos, Pos::new(5, 0));
    s.on_keydown(Key::Left);
    assert_eq!(s.playground.tetro_pos, Pos::new(4, 0));
    s.on_keydown(Key::Space);
    assert!(s.playground.tetro.is_none());
    assert_eq!(s.state, State::Playing);
}

#[test]
fn placing_changes_only_the_piece_footprint() {
    let mut p = with_piece(1, 0);
    assert_eq!(p.tetro_pos, Pos::new(5, 0));
    let settled = [(0u16, 19u16), (11, 19), (5, 19), (9, 10)];
    for (x, y) in settled {
        p.buffer.set(x, y, Some(Color::Red));
    }
    p.descend_hard();
    assert_eq!(p.tetro_pos, Pos::new(5, 17));
    let footprint = [(5u16, 17u16), (5, 18), (6, 18), (7, 18)];
    for y in 0..20 {
        for x in 0..12 {
            let expected = if footprint.contains(&(x, y)) {
                Some(Color::Blue)
            } else if settled.contains(&(x, y)) {
                Some(Color::Red)
            } else {
                None
            };
            assert_eq!(p.buffer.get(x, y), expected);
        }
    }
}

fn snapshot(p: &Playground) -> Vec<Vec<Option<Color>>> {
    (0..20)
        .map(|y| (0..12).map(|x| p.buffer.get(x, y)).collect())
        .collect()
}

#[test]
fn placing_twice_equals_placing_once() {
    let mut p = Playground::new();
    p.buffer.set(0, 0, Some(Color::Green));
    let t = Tetro::from_choice(4, 0);
    p.place(3, 7, &t);
    let once = snapshot(&p);
    assert_eq!(p.score, PLACE_SCORE);
    for (x, y) in [(4u16, 7u16), (5, 7), (3, 8), (4, 8)] {
        assert_eq!(p.buffer.get(x, y), Some(Color::Green));
    }
    assert!(!occupied(&p, 3, 7) && !occupied(&p, 5, 8));
    p.place(3, 7, &t);
    assert_eq!(snapshot(&p), once);
    assert_eq!(p.score, 2 * PLACE_SCORE);
}

#[test]
fn remove_line_completed_clears_the_one_full_row() {
    let mut p = Playground::new();
    for x in 0..12 {
        p.buffer.set(x, 15, Some(Color::Red));
    }
    p.buffer.set(2, 14, Some(Color::Blue));
    p.buffer.set(7, 16, Some(Color::Yellow));
    let before = snapshot(&p);
    assert!(p.remove_line_completed());
    assert_eq!(p.buffer.size(), Size::new(12, 20));
    let after = snapshot(&p);
    assert!(after[0].iter().all(|c| c.is_none()));
    for y in 1..=15 {
        assert_eq!(after[y], before[y - 1]);
    }
    for y in 16..20 {
        assert_eq!(after[y], before[y]);
    }
    assert_eq!(p.score, LINE_SCORE);
}

#[test]
fn row_with_one_empty_cell_is_not_cleared() {
    let mut p = Playground::new();
    for x in 0..12 {
        if x != 9 {
            p.buffer.set(x, 19, Some(Color::Red));
        }
    }
    let before = snapshot(&p);
    assert!(!p.remove_line_completed());
    assert_eq!(snapshot(&p), before);
    assert_eq!(p.score, 0);
}
