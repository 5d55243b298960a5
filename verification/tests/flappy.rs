use game_logic::flappy::{GameMode, Obstacle, Player, State, CHANCES, SCREEN_WIDTH};
use game_logic::keys::Key;

#[test]
fn gravity_moves_one_column_and_falls() {
    let mut p = Player::new(5, 25);
    p.gravity_and_move(2);
    assert_eq!(p, Player { x: 6, y: 27 });
}

#[test]
fn gravity_wraps_at_the_right_edge() {
    let mut p = Player::new(79, 10);
    p.gravity_and_move(0);
    assert_eq!(p, Player { x: 0, y: 10 });
}

#[test]
fn the_dragon_never_rises_above_row_zero() {
    let mut p = Player::new(3, 1);
    p.gravity_and_move(-2);
    assert_eq!(p, Player { x: 4, y: 0 });
}

#[test]
fn negative_columns_keep_rusts_remainder() {
    let mut p = Player::new(-85, 0);
    p.gravity_and_move(0);
    assert_eq!(p.x, -4);
}

#[test]
fn dragon_picture() {
    let p = Player::new(10, 20);
    assert_eq!(
        p.render(true),
        vec![
            (9, 19, '_'),
            (8, 19, '_'),
            (11, 19, '0'),
            (12, 19, '>'),
            (9, 20, '/'),
            (10, 20, ')'),
            (9, 21, '"'),
            (8, 21, '"'),
        ]
    );
    let gliding = p.render(false);
    assert_eq!(gliding[0], (9, 18, '\\'));
    assert_eq!(gliding[1], (10, 19, '\\'));
    assert_eq!(gliding.len(), 8);
}

#[test]
fn new_walls_have_a_gap_in_range_and_sized_by_score() {
    for _ in 0..200 {
        let o = Obstacle::new(40, 0);
        assert_eq!(o.x, 40);
        assert!(10 <= o.gap_y && o.gap_y < 40);
        assert_eq!(o.size, 20);
    }
    assert_eq!(Obstacle::new(1, 5).size, 15);
    assert_eq!(Obstacle::new(1, 18).size, 2);
    assert_eq!(Obstacle::new(1, 30).size, 2);
    assert_eq!(Obstacle::new(1, -3).size, 23);
}

#[test]
fn hitting_a_wall() {
    let o = Obstacle { x: 10, gap_y: 25, size: 6 };
    assert!(!o.hit_obstacle(&Player { x: 10, y: 25 }));
    assert!(!o.hit_obstacle(&Player { x: 10, y: 28 }));
    assert!(o.hit_obstacle(&Player { x: 10, y: 29 }));
    assert!(o.hit_obstacle(&Player { x: 10, y: 21 }));
    assert!(!o.hit_obstacle(&Player { x: 11, y: 0 }));
    let odd = Obstacle { x: 10, gap_y: 25, size: 5 };
    assert!(odd.hit_obstacle(&Player { x: 10, y: 28 }));
    assert!(!odd.hit_obstacle(&Player { x: 10, y: 27 }));
}

#[test]
fn wall_rows() {
    let o = Obstacle { x: 10, gap_y: 25, size: 7 };
    assert_eq!(o.render(), (22, 28));
}

#[test]
fn a_new_round_waits_at_the_menu() {
    let s = State::new();
    assert_eq!(s.player, Player { x: 5, y: 25 });
    assert_eq!(s.mode, GameMode::Menu);
    assert_eq!(s.score, 0);
    assert_eq!(s.obstacles.len(), 1);
    assert_eq!(s.obstacles[0].x, SCREEN_WIDTH / 2);
    assert_eq!(s.obstacles[0].size, 20);
}

#[test]
fn restart_resets_the_round() {
    let mut s = State::new();
    s.player = Player { x: 70, y: 3 };
    s.score = 9;
    s.mode = GameMode::End;
    s.place_obstacles();
    s.restart();
    assert_eq!(s.player, Player { x: 5, y: 25 });
    assert_eq!(s.mode, GameMode::Playing);
    assert_eq!(s.score, 0);
    assert_eq!(s.obstacles.len(), 1);
    assert_eq!(s.obstacles[0].x, 40);
}

#[test]
fn placed_walls_are_evenly_spaced() {
    for _ in 0..200 {
        let mut s = State::new();
        s.score = 4;
        s.place_obstacles();
        let n = s.obstacles.len() as i32;
        assert!(CHANCES.contains(&n));
        let interval = SCREEN_WIDTH / (n + 1);
        for (i, o) in s.obstacles.iter().enumerate() {
            assert_eq!(o.x, interval * (i as i32 + 1));
            assert_eq!(o.size, 16);
            assert!(10 <= o.gap_y && o.gap_y < 40);
        }
    }
}

fn playing_state() -> State {
    let mut s = State::new();
    s.restart();
    s.obstacles[0] = Obstacle { x: 40, gap_y: 25, size: 20 };
    s
}

#[test]
fn a_frame_without_time_changes_nothing_but_may_end() {
    let mut s = playing_state();
    s.play(None);
    assert_eq!(s.player, Player { x: 5, y: 25 });
    assert_eq!(s.mode, GameMode::Playing);
}

#[test]
fn falling_off_the_screen_ends_the_round() {
    let mut s = playing_state();
    s.player = Player { x: 5, y: 50 };
    s.play(Some(0));
    assert_eq!(s.mode, GameMode::Playing);
    s.play(Some(1));
    assert_eq!(s.player, Player { x: 7, y: 51 });
    assert_eq!(s.mode, GameMode::End);
}

#[test]
fn crashing_into_a_wall_ends_the_round() {
    let mut s = playing_state();
    s.player = Player { x: 39, y: 2 };
    s.play(Some(0));
    assert_eq!(s.player, Player { x: 40, y: 2 });
    assert_eq!(s.mode, GameMode::End);
}

#[test]
fn flying_through_the_gap_is_safe() {
    let mut s = playing_state();
    s.player = Player { x: 39, y: 30 };
    s.play(Some(0));
    assert_eq!(s.mode, GameMode::Playing);
}

#[test]
fn passed_walls_are_not_checked() {
    let mut s = playing_state();
    s.obstacles[0] = Obstacle { x: 3, gap_y: 25, size: 2 };
    s.player = Player { x: 3, y: 2 };
    s.play(Some(0));
    assert_eq!(s.mode, GameMode::Playing);
}

#[test]
fn wrapping_around_scores_and_replaces_the_walls() {
    let mut s = playing_state();
    s.player = Player { x: 79, y: 25 };
    s.score = 7;
    s.play(Some(0));
    assert_eq!(s.player, Player { x: 0, y: 25 });
    assert_eq!(s.score, 8);
    assert!(s.obstacles.iter().all(|o| o.size == 12));
    assert!(!s.obstacles.is_empty() && s.obstacles.len() <= 4);
}

#[test]
fn menu_keys() {
    let mut s = State::new();
    assert!(!s.main_menu(None));
    assert_eq!(s.mode, GameMode::Menu);
    assert!(!s.main_menu(Some(Key::Space)));
    assert_eq!(s.mode, GameMode::Menu);
    assert!(s.main_menu(Some(Key::Q)));
    assert_eq!(s.mode, GameMode::Menu);
    assert!(!s.main_menu(Some(Key::P)));
    assert_eq!(s.mode, GameMode::Playing);
}

#[test]
fn dead_screen_keys() {
    let mut s = playing_state();
    s.mode = GameMode::End;
    s.score = 3;
    assert!(!s.dead(Some(Key::W)));
    assert_eq!(s.score, 3);
    assert!(s.dead(Some(Key::Q)));
    assert!(!s.dead(Some(Key::P)));
    assert_eq!(s.mode, GameMode::Playing);
    assert_eq!(s.score, 0);
}

#[test]
fn a_wall_from_a_given_draw() {
    assert_eq!(Obstacle::with_gap(40, 17, 0), Obstacle { x: 40, gap_y: 17, size: 20 });
    assert_eq!(Obstacle::with_gap(8, 39, 25), Obstacle { x: 8, gap_y: 39, size: 2 });
}

#[test]
fn walls_for_each_draw() {
    let expected: [&[i32]; 12] = [
        &[40],
        &[26, 52],
        &[26, 52],
        &[26, 52],
        &[26, 52],
        &[20, 40, 60],
        &[20, 40, 60],
        &[20, 40, 60],
        &[20, 40, 60],
        &[20, 40, 60],
        &[20, 40, 60],
        &[16, 32, 48, 64],
    ];
    for roll in 0..12 {
        let mut s = State::new();
        s.score = 2;
        s.place_obstacles_for_roll(roll);
        let xs: Vec<i32> = s.obstacles.iter().map(|o| o.x).collect();
        assert_eq!(xs, expected[roll as usize].to_vec());
        assert!(s.obstacles.iter().all(|o| o.size == 18));
        assert_eq!(s.score, 2);
        assert_eq!(s.mode, GameMode::Menu);
    }
}

#[test]
fn random_draws_vary() {
    let gaps: Vec<i32> = (0..200).map(|_| Obstacle::new(1, 0).gap_y).collect();
    assert!(gaps.iter().any(|g| *g != gaps[0]));
    let mut counts = Vec::new();
    for _ in 0..200 {
        let mut s = State::new();
        s.place_obstacles();
        counts.push(s.obstacles.len());
    }
    assert!(counts.iter().any(|c| *c != counts[0]));
}
