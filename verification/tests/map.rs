use roguelike::components::{Color, DrawCall};
use roguelike::map::{
    apply_horizontal_tunnel, apply_room_to_map, apply_vertical_tunnel, bordered_map, draw_map,
    filled_map, new_map_test, place_wall, tile_at, xy_idx, MapError, TileType, MAP_HEIGHT,
    MAP_SIZE, MAP_WIDTH,
};
use roguelike::rect::Rect;

fn floor_count(map: &[TileType]) -> usize {
    map.iter().filter(|t| **t == TileType::Floor).count()
}

#[test]
fn grid_is_80_by_50() {
    assert_eq!(MAP_WIDTH, 80);
    assert_eq!(MAP_HEIGHT, 50);
    assert_eq!(MAP_SIZE, 4000);
}

#[test]
fn xy_idx_is_row_major() {
    assert_eq!(xy_idx(0, 0), 0);
    assert_eq!(xy_idx(1, 0), 1);
    assert_eq!(xy_idx(0, 1), 80);
    assert_eq!(xy_idx(40, 25), 2040);
    assert_eq!(xy_idx(79, 49), 3999);
}

#[test]
fn xy_idx_is_y_times_80_plus_x_everywhere() {
    for y in 0..50 {
        for x in 0..80 {
            assert_eq!(xy_idx(x, y), (y * 80 + x) as usize);
        }
    }
}

#[test]
fn xy_idx_is_injective() {
    let mut seen = vec![false; 4000];
    for y in 0..50 {
        for x in 0..80 {
            let i = xy_idx(x, y);
            assert!(!seen[i]);
            seen[i] = true;
        }
    }
    assert!(seen.iter().all(|s| *s));
}

#[test]
fn tile_at_reads_the_cell() {
    let mut map = filled_map(TileType::Wall);
    map[xy_idx(7, 3)] = TileType::Floor;
    assert_eq!(tile_at(&map, 7, 3), Ok(TileType::Floor));
    assert_eq!(tile_at(&map, 3, 7), Ok(TileType::Wall));
    assert_eq!(tile_at(&map, 0, 0), Ok(TileType::Wall));
    assert_eq!(tile_at(&map, 79, 49), Ok(TileType::Wall));
}

#[test]
fn tile_at_out_of_bounds() {
    let map = filled_map(TileType::Floor);
    assert_eq!(tile_at(&map, -1, 0), Err(MapError::OutOfBounds));
    assert_eq!(tile_at(&map, 0, -1), Err(MapError::OutOfBounds));
    assert_eq!(tile_at(&map, 80, 0), Err(MapError::OutOfBounds));
    assert_eq!(tile_at(&map, 0, 50), Err(MapError::OutOfBounds));
    assert_eq!(tile_at(&map, i32::MIN, i32::MAX), Err(MapError::OutOfBounds));
}

#[test]
fn tile_at_short_map_is_out_of_bounds() {
    let map = vec![TileType::Floor; 100];
    assert_eq!(tile_at(&map, 19, 1), Ok(TileType::Floor));
    assert_eq!(tile_at(&map, 20, 1), Err(MapError::OutOfBounds));
}

#[test]
fn filled_map_has_4000_equal_tiles() {
    let walls = filled_map(TileType::Wall);
    assert_eq!(walls.len(), 4000);
    assert!(walls.iter().all(|t| *t == TileType::Wall));
    let floor = filled_map(TileType::Floor);
    assert_eq!(floor.len(), 4000);
    assert!(floor.iter().all(|t| *t == TileType::Floor));
}

#[test]
fn bordered_map_is_floor_inside_walls() {
    let map = bordered_map();
    assert_eq!(map.len(), 4000);
    for y in 0..50 {
        for x in 0..80 {
            let border = x == 0 || x == 79 || y == 0 || y == 49;
            let want = if border { TileType::Wall } else { TileType::Floor };
            assert_eq!(map[xy_idx(x, y)], want);
        }
    }
}

#[test]
fn place_wall_spares_the_start() {
    let mut map = bordered_map();
    place_wall(&mut map, 10, 10);
    assert_eq!(map[xy_idx(10, 10)], TileType::Wall);
    place_wall(&mut map, 40, 25);
    assert_eq!(map[xy_idx(40, 25)], TileType::Floor);
    assert_eq!(floor_count(&map), 78 * 48 - 1);
}

#[test]
fn new_map_test_has_walls_around_and_a_free_start() {
    for _ in 0..10 {
        let map = new_map_test();
        assert_eq!(map.len(), 4000);
        for x in 0..80 {
            assert_eq!(map[xy_idx(x, 0)], TileType::Wall);
            assert_eq!(map[xy_idx(x, 49)], TileType::Wall);
        }
        for y in 0..50 {
            assert_eq!(map[xy_idx(0, y)], TileType::Wall);
            assert_eq!(map[xy_idx(79, y)], TileType::Wall);
        }
        assert_eq!(map[xy_idx(40, 25)], TileType::Floor);
        let inner_walls = 78 * 48 - floor_count(&map);
        assert!(inner_walls <= 400);
        assert!(inner_walls > 0);
    }
}

#[test]
fn apply_room_carves_all_but_first_row_and_column() {
    let mut map = filled_map(TileType::Wall);
    let room = Rect::new(10, 20, 6, 7);
    apply_room_to_map(&room, &mut map);
    for y in 0..50 {
        for x in 0..80 {
            let inside = 10 < x && x <= 16 && 20 < y && y <= 27;
            let want = if inside { TileType::Floor } else { TileType::Wall };
            assert_eq!(map[xy_idx(x, y)], want, "at ({}, {})", x, y);
        }
    }
    assert_eq!(floor_count(&map), 6 * 7);
}

#[test]
fn apply_room_of_no_extent_carves_nothing() {
    let mut map = filled_map(TileType::Wall);
    apply_room_to_map(&Rect::new(5, 5, 0, 0), &mut map);
    assert_eq!(floor_count(&map), 0);
}

#[test]
fn horizontal_tunnel_includes_both_ends() {
    let mut map = filled_map(TileType::Wall);
    apply_horizontal_tunnel(&mut map, 5, 9, 3);
    for x in 0..80 {
        let want = if (5..=9).contains(&x) { TileType::Floor } else { TileType::Wall };
        assert_eq!(map[xy_idx(x, 3)], want);
    }
    assert_eq!(floor_count(&map), 5);
}

#[test]
fn horizontal_tunnel_takes_its_ends_in_either_order() {
    let mut a = filled_map(TileType::Wall);
    let mut b = filled_map(TileType::Wall);
    apply_horizontal_tunnel(&mut a, 30, 12, 40);
    apply_horizontal_tunnel(&mut b, 12, 30, 40);
    assert_eq!(a, b);
    assert_eq!(floor_count(&a), 19);
}

#[test]
fn vertical_tunnel_includes_both_ends() {
    let mut map = filled_map(TileType::Wall);
    apply_vertical_tunnel(&mut map, 44, 40, 7);
    for y in 0..50 {
        let want = if (40..=44).contains(&y) { TileType::Floor } else { TileType::Wall };
        assert_eq!(map[xy_idx(7, y)], want);
    }
    assert_eq!(floor_count(&map), 5);
}

#[test]
fn tunnel_of_one_cell() {
    let mut map = filled_map(TileType::Wall);
    apply_horizontal_tunnel(&mut map, 4, 4, 4);
    assert_eq!(map[xy_idx(4, 4)], TileType::Floor);
    assert_eq!(floor_count(&map), 1);
    apply_vertical_tunnel(&mut map, 6, 6, 6);
    assert_eq!(map[xy_idx(6, 6)], TileType::Floor);
    assert_eq!(floor_count(&map), 2);
}

#[test]
fn tunnel_drops_writes_beyond_the_array() {
    let mut map = filled_map(TileType::Wall);
    apply_horizontal_tunnel(&mut map, 0, 79, 50);
    apply_vertical_tunnel(&mut map, 50, 60, 3);
    apply_horizontal_tunnel(&mut map, 4000, 4010, 0);
    apply_vertical_tunnel(&mut map, 0, 49, 4000);
    assert_eq!(floor_count(&map), 0);
    apply_horizontal_tunnel(&mut map, 78, 85, 49);
    assert_eq!(map[3998], TileType::Floor);
    assert_eq!(map[3999], TileType::Floor);
    assert_eq!(floor_count(&map), 2);
    apply_vertical_tunnel(&mut map, 45, 60, 3);
    for y in 45..50 {
        assert_eq!(map[xy_idx(3, y)], TileType::Floor);
    }
    assert_eq!(floor_count(&map), 7);
}

#[test]
fn tunnel_drops_writes_at_negative_columns_and_rows() {
    let mut map = filled_map(TileType::Wall);
    apply_horizontal_tunnel(&mut map, 0, 79, -1);
    apply_vertical_tunnel(&mut map, 0, 49, -1);
    apply_vertical_tunnel(&mut map, -9, -1, 5);
    apply_horizontal_tunnel(&mut map, -9, -1, 5);
    assert_eq!(floor_count(&map), 0);
    apply_horizontal_tunnel(&mut map, -5, 2, 1);
    for x in 0..=2 {
        assert_eq!(map[xy_idx(x, 1)], TileType::Floor);
    }
    assert_eq!(floor_count(&map), 3);
    apply_vertical_tunnel(&mut map, 2, -5, 7);
    for y in 0..=2 {
        assert_eq!(map[xy_idx(7, y)], TileType::Floor);
    }
    assert_eq!(floor_count(&map), 6);
}

#[test]
fn tunnel_past_the_last_column_runs_on_in_the_array() {
    let mut map = filled_map(TileType::Wall);
    apply_horizontal_tunnel(&mut map, 78, 81, 0);
    for i in 78..=81 {
        assert_eq!(map[i], TileType::Floor);
    }
    assert_eq!(map[xy_idx(0, 1)], TileType::Floor);
    assert_eq!(map[xy_idx(1, 1)], TileType::Floor);
    assert_eq!(floor_count(&map), 4);

    let mut map = filled_map(TileType::Wall);
    apply_vertical_tunnel(&mut map, 0, 2, 85);
    assert_eq!(map[85], TileType::Floor);
    assert_eq!(map[165], TileType::Floor);
    assert_eq!(map[245], TileType::Floor);
    assert_eq!(map[xy_idx(5, 3)], TileType::Floor);
    assert_eq!(floor_count(&map), 3);

    let mut map = filled_map(TileType::Wall);
    apply_vertical_tunnel(&mut map, 0, 49, 80);
    for y in 1..50 {
        assert_eq!(map[xy_idx(0, y)], TileType::Floor);
    }
    assert_eq!(floor_count(&map), 49);
}

#[test]
fn tunnel_writes_the_first_cell() {
    let mut map = filled_map(TileType::Wall);
    apply_horizontal_tunnel(&mut map, 0, 3, 0);
    for x in 0..=3 {
        assert_eq!(map[xy_idx(x, 0)], TileType::Floor);
    }
    assert_eq!(map[0], TileType::Floor);
    assert_eq!(floor_count(&map), 4);

    let mut map = filled_map(TileType::Wall);
    apply_vertical_tunnel(&mut map, 0, 3, 0);
    for y in 0..=3 {
        assert_eq!(map[xy_idx(0, y)], TileType::Floor);
    }
    assert_eq!(map[0], TileType::Floor);
    assert_eq!(floor_count(&map), 4);
}

#[test]
fn tunnel_ends_are_carved_wherever_the_grid_has_them() {
    for (a, b, y) in [(0, 79, 0), (79, 0, 49), (5, 5, 7), (0, 0, 0), (79, 79, 49)] {
        let mut map = filled_map(TileType::Wall);
        apply_horizontal_tunnel(&mut map, a, b, y);
        assert_eq!(map[xy_idx(a, y)], TileType::Floor);
        assert_eq!(map[xy_idx(b, y)], TileType::Floor);
        assert_eq!(floor_count(&map), ((a - b).abs() + 1) as usize);
    }
    for (a, b, x) in [(0, 49, 0), (49, 0, 79), (5, 5, 7), (0, 0, 0), (49, 49, 79)] {
        let mut map = filled_map(TileType::Wall);
        apply_vertical_tunnel(&mut map, a, b, x);
        assert_eq!(map[xy_idx(x, a)], TileType::Floor);
        assert_eq!(map[xy_idx(x, b)], TileType::Floor);
        assert_eq!(floor_count(&map), ((a - b).abs() + 1) as usize);
    }
}

#[test]
fn draw_map_draws_each_tile_in_order() {
    let mut map = filled_map(TileType::Wall);
    map[xy_idx(2, 1)] = TileType::Floor;
    let calls = draw_map(&map);
    assert_eq!(calls.len(), 4000);
    let black = Color { r: 0, g: 0, b: 0 };
    let wall = |x: i32, y: i32| DrawCall {
        x,
        y,
        fg: Color { r: 0, g: 1000, b: 0 },
        bg: black,
        glyph: 35,
    };
    assert_eq!(calls[0], wall(0, 0));
    assert_eq!(calls[79], wall(79, 0));
    assert_eq!(calls[80], wall(0, 1));
    assert_eq!(calls[3999], wall(79, 49));
    assert_eq!(
        calls[82],
        DrawCall { x: 2, y: 1, fg: Color { r: 500, g: 500, b: 500 }, bg: black, glyph: 46 }
    );
    for (i, c) in calls.iter().enumerate() {
        assert_eq!(c.x, (i % 80) as i32);
        assert_eq!(c.y, (i / 80) as i32);
    }
}

#[test]
fn draw_map_of_a_part_of_a_map() {
    let map = vec![TileType::Floor, TileType::Wall, TileType::Floor];
    let calls = draw_map(&map);
    assert_eq!(calls.len(), 3);
    assert_eq!(calls[0].glyph, 46);
    assert_eq!(calls[1].glyph, 35);
    assert_eq!((calls[2].x, calls[2].y), (2, 0));
    assert!(draw_map(&[]).is_empty());
}
