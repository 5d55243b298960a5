use game_logic::keys::Key;
use game_logic::raycaster::{
    player_move, HorizontalDirection, PlayerMove, VerticalDirection, WorldMap, TILES_CUBE,
    TILES_H, TILES_W,
};

#[test]
fn the_world_has_a_tile_per_layout_character() {
    let m = WorldMap::new();
    assert_eq!(m.tiles.len(), TILES_CUBE as usize);
    assert!(m.tiles[0]);
    assert!(!m.tiles[17]);
    assert!(m.tiles[27]);
    assert!(m.tiles[37] && m.tiles[38]);
    assert_eq!(m.tiles.iter().filter(|t| **t).count(), 63);
}

#[test]
fn the_world_is_walled_in() {
    let m = WorldMap::new();
    for k in 0..TILES_W {
        assert!(m.tiles[k as usize]);
        assert!(m.tiles[((TILES_H - 1) * TILES_W + k) as usize]);
    }
    for r in 0..TILES_H {
        assert!(m.tiles[(r * TILES_W) as usize]);
        assert!(m.tiles[(r * TILES_W + TILES_W - 1) as usize]);
    }
}

#[test]
fn from_layout_reads_ones_as_walls() {
    let m = WorldMap::from_layout("10x1");
    assert_eq!(m.tiles, vec![true, false, false, true]);
}

#[test]
fn tile_lookup() {
    let m = WorldMap::new();
    assert!(!m.tile_from_vec(7, 7));
    assert!(m.tile_from_vec(2, 7));
    assert!(m.tile_from_vec(-3, 7));
    assert!(m.tile_from_vec(-5, 7));
    assert!(m.tile_from_vec(80, 20));
    assert!(m.tile_from_vec(20, 50));
    assert!(!m.tile_from_vec(74, 44));
}

#[test]
fn tiles_of_cells_round_toward_zero() {
    let m = WorldMap::new();
    assert_eq!(m.mapspace_to_tilespace(12, 49), (2, 9));
    assert_eq!(m.mapspace_to_tilespace(-3, -7), (0, -1));
}

#[test]
fn column_checks() {
    let m = WorldMap::new();
    assert!(!m.check_column_tile(HorizontalDirection::Right, 5, 5));
    assert!(m.check_column_tile(HorizontalDirection::Left, 5, 5));
    assert!(!m.check_column_tile(HorizontalDirection::Left, 10, 5));
    assert!(m.check_column_tile(HorizontalDirection::Right, 55, 5));
    assert!(m.check_column_tile(HorizontalDirection::Left, 0, 0));
    assert!(!m.check_column_tile(HorizontalDirection::Right, 85, 5));
}

#[test]
fn row_checks() {
    let m = WorldMap::new();
    assert!(!m.check_row_tile(VerticalDirection::Down, 5, 5));
    assert!(m.check_row_tile(VerticalDirection::Up, 5, 5));
    assert!(!m.check_row_tile(VerticalDirection::Up, 5, 10));
    assert!(m.check_row_tile(VerticalDirection::Down, 5, 50));
    assert!(m.check_row_tile(VerticalDirection::Up, 5, 0));
}

#[test]
fn render_2d_fills_walls_and_outlines_floor() {
    let m = WorldMap::from_layout("10");
    let cells = m.render_2d();
    let mut expected: Vec<(i32, i32)> = Vec::new();
    for y in 0..5 {
        for x in 0..5 {
            expected.push((x, y));
        }
    }
    for x in 5..10 {
        expected.push((x, 0));
    }
    for y in 0..5 {
        expected.push((5, y));
    }
    assert_eq!(cells, expected);
}

#[test]
fn render_2d_of_the_world() {
    let m = WorldMap::new();
    let cells = m.render_2d();
    assert_eq!(cells.len(), 63 * 25 + 97 * 10);
    assert!(cells.contains(&(79, 49)));
    assert!(cells.contains(&(5, 9)));
    assert!(!cells.contains(&(6, 6)));
}

#[test]
fn keys_move_the_player() {
    assert_eq!(player_move(Some(Key::W)), Some(PlayerMove::Forward));
    assert_eq!(player_move(Some(Key::S)), Some(PlayerMove::Backward));
    assert_eq!(player_move(Some(Key::A)), Some(PlayerMove::TurnLeft));
    assert_eq!(player_move(Some(Key::D)), Some(PlayerMove::TurnRight));
    assert_eq!(player_move(Some(Key::Z)), Some(PlayerMove::PrintDistances));
    assert_eq!(player_move(Some(Key::P)), None);
    assert_eq!(player_move(None), None);
}

#[test]
fn boundary_checks_agree_with_tile_lookup_on_the_grid() {
    let m = WorldMap::new();
    for x in 0..80 {
        for y in 0..50 {
            let own = m.tile_from_vec(x, y);
            assert_eq!(m.check_column_tile(HorizontalDirection::Right, x, y), own);
            assert_eq!(m.check_row_tile(VerticalDirection::Down, x, y), own);
            if x >= 5 {
                assert_eq!(
                    m.check_column_tile(HorizontalDirection::Left, x, y),
                    m.tile_from_vec(x - 5, y)
                );
            }
            if y >= 5 {
                assert_eq!(
                    m.check_row_tile(VerticalDirection::Up, x, y),
                    m.tile_from_vec(x, y - 5)
                );
            }
        }
    }
}
