use roguelike::components::{Color, Component, ComponentKind, DrawCall, Position, Renderable};
use roguelike::ecs::EntityStore;
use roguelike::map::{bordered_map, filled_map, xy_idx, TileType};
use roguelike::systems::{render_entities, step_by, step_left, try_move_player, LeftWalker};

fn at(x: i32, y: i32) -> Component {
    Component::Position(Position { x, y })
}

fn pos(x: i32, y: i32) -> Position {
    Position { x, y }
}

fn store_with_player(x: i32, y: i32) -> EntityStore {
    let mut ecs = EntityStore::new();
    let e = ecs.create_entity();
    ecs.attach(e, at(x, y));
    ecs.attach(e, Component::Player);
    ecs
}

#[test]
fn step_left_moves_one_column() {
    assert_eq!(step_left(pos(10, 7)), pos(9, 7));
    assert_eq!(step_left(pos(1, 0)), pos(0, 0));
    assert_eq!(step_left(pos(79, 49)), pos(78, 49));
}

#[test]
fn step_left_wraps_to_the_last_column() {
    assert_eq!(step_left(pos(0, 7)), pos(79, 7));
    assert_eq!(step_left(pos(-3, 7)), pos(79, 7));
    assert_eq!(step_left(pos(i32::MIN, 7)), pos(79, 7));
}

#[test]
fn left_walker_wraps_around() {
    let mut ecs = EntityStore::new();
    let a = ecs.create_entity();
    let b = ecs.create_entity();
    ecs.attach(a, at(0, 20));
    ecs.attach(a, Component::LeftMover);
    ecs.attach(b, at(10, 20));
    ecs.attach(b, Component::LeftMover);
    let mut lw = LeftWalker {};
    lw.run(&mut ecs);
    assert_eq!(ecs.position(a), Some(pos(79, 20)));
    assert_eq!(ecs.position(b), Some(pos(9, 20)));
}

#[test]
fn left_walker_moves_only_left_movers_with_a_position() {
    let mut ecs = EntityStore::new();
    let still = ecs.create_entity();
    let mover = ecs.create_entity();
    let nowhere = ecs.create_entity();
    let dead = ecs.create_entity();
    ecs.attach(still, at(5, 5));
    ecs.attach(mover, at(5, 6));
    ecs.attach(mover, Component::LeftMover);
    ecs.attach(nowhere, Component::LeftMover);
    ecs.attach(dead, at(5, 7));
    ecs.attach(dead, Component::LeftMover);
    ecs.destroy_entity(dead);
    let mut lw = LeftWalker {};
    lw.run(&mut ecs);
    lw.run(&mut ecs);
    assert_eq!(ecs.position(still), Some(pos(5, 5)));
    assert_eq!(ecs.position(mover), Some(pos(3, 6)));
    assert_eq!(ecs.position(nowhere), None);
    assert_eq!(ecs.position(dead), None);
    assert!(ecs.has(mover, ComponentKind::LeftMover));
}

#[test]
fn left_walker_goes_round_in_80_ticks() {
    let mut ecs = EntityStore::new();
    let e = ecs.create_entity();
    ecs.attach(e, at(13, 2));
    ecs.attach(e, Component::LeftMover);
    let mut lw = LeftWalker {};
    for _ in 0..80 {
        lw.run(&mut ecs);
        let p = ecs.position(e).unwrap();
        assert!(0 <= p.x && p.x < 80);
    }
    assert_eq!(ecs.position(e), Some(pos(13, 2)));
}

#[test]
fn step_by_onto_floor() {
    let map = filled_map(TileType::Floor);
    assert_eq!(step_by(pos(5, 5), 1, 0, &map), pos(6, 5));
    assert_eq!(step_by(pos(5, 5), -1, 0, &map), pos(4, 5));
    assert_eq!(step_by(pos(5, 5), 0, 1, &map), pos(5, 6));
    assert_eq!(step_by(pos(5, 5), 0, -1, &map), pos(5, 4));
    assert_eq!(step_by(pos(5, 5), 3, -2, &map), pos(8, 3));
    assert_eq!(step_by(pos(5, 5), 0, 0, &map), pos(5, 5));
}

#[test]
fn step_by_into_wall_stays() {
    let mut map = filled_map(TileType::Floor);
    map[xy_idx(6, 5)] = TileType::Wall;
    assert_eq!(step_by(pos(5, 5), 1, 0, &map), pos(5, 5));
    assert_eq!(step_by(pos(7, 5), -1, 0, &map), pos(7, 5));
    assert_eq!(step_by(pos(6, 4), 0, 1, &map), pos(6, 4));
    assert_eq!(step_by(pos(6, 6), 0, -1, &map), pos(6, 6));
}

#[test]
fn step_by_off_the_grid_stays() {
    let map = filled_map(TileType::Floor);
    assert_eq!(step_by(pos(0, 0), -1, 0, &map), pos(0, 0));
    assert_eq!(step_by(pos(0, 0), 0, -1, &map), pos(0, 0));
    assert_eq!(step_by(pos(79, 49), 1, 0, &map), pos(79, 49));
    assert_eq!(step_by(pos(79, 49), 0, 1, &map), pos(79, 49));
    assert_eq!(step_by(pos(79, 3), 1, 0, &map), pos(79, 3));
    assert_eq!(step_by(pos(5, 5), i32::MAX, i32::MAX, &map), pos(5, 5));
    assert_eq!(step_by(pos(i32::MAX, i32::MIN), 1, -1, &map), pos(i32::MAX, i32::MIN));
}

#[test]
fn step_by_on_a_short_map() {
    let map = vec![TileType::Floor; 160];
    assert_eq!(step_by(pos(5, 0), 0, 1, &map), pos(5, 1));
    assert_eq!(step_by(pos(5, 1), 0, 1, &map), pos(5, 1));
}

#[test]
fn try_move_player_wall_blocks() {
    let mut map = filled_map(TileType::Floor);
    map[xy_idx(6, 5)] = TileType::Wall;
    let mut ecs = store_with_player(5, 5);
    try_move_player(1, 0, &mut ecs, &map);
    assert_eq!(ecs.position(0), Some(pos(5, 5)));
}

#[test]
fn try_move_player_floor_lets_through() {
    let map = filled_map(TileType::Floor);
    let mut ecs = store_with_player(5, 5);
    try_move_player(1, 0, &mut ecs, &map);
    assert_eq!(ecs.position(0), Some(pos(6, 5)));
}

#[test]
fn try_move_player_never_leaves_the_grid() {
    for tile in [TileType::Floor, TileType::Wall] {
        let map = filled_map(tile);
        let mut ecs = store_with_player(0, 0);
        try_move_player(-1, 0, &mut ecs, &map);
        assert_eq!(ecs.position(0), Some(pos(0, 0)));
        try_move_player(0, -1, &mut ecs, &map);
        assert_eq!(ecs.position(0), Some(pos(0, 0)));
    }
}

#[test]
fn try_move_player_moves_only_the_player() {
    let map = bordered_map();
    let mut ecs = EntityStore::new();
    let npc = ecs.create_entity();
    let player = ecs.create_entity();
    let ghost = ecs.create_entity();
    ecs.attach(npc, at(10, 10));
    ecs.attach(npc, Component::LeftMover);
    ecs.attach(player, at(20, 20));
    ecs.attach(player, Component::Player);
    ecs.attach(ghost, at(30, 30));
    try_move_player(0, 1, &mut ecs, &map);
    assert_eq!(ecs.position(npc), Some(pos(10, 10)));
    assert_eq!(ecs.position(player), Some(pos(20, 21)));
    assert_eq!(ecs.position(ghost), Some(pos(30, 30)));
}

#[test]
fn try_move_player_without_player_or_position() {
    let map = filled_map(TileType::Floor);
    let mut ecs = EntityStore::new();
    let e = ecs.create_entity();
    ecs.attach(e, at(1, 1));
    try_move_player(1, 0, &mut ecs, &map);
    assert_eq!(ecs.position(e), Some(pos(1, 1)));
    let p = ecs.create_entity();
    ecs.attach(p, Component::Player);
    try_move_player(1, 0, &mut ecs, &map);
    assert_eq!(ecs.position(p), None);
    assert_eq!(ecs.position(e), Some(pos(1, 1)));
}

#[test]
fn render_entities_draws_those_with_position_and_appearance() {
    let mut ecs = EntityStore::new();
    let red = Color { r: 1000, g: 0, b: 0 };
    let a = ecs.create_entity();
    let b = ecs.create_entity();
    let c = ecs.create_entity();
    let d = ecs.create_entity();
    ecs.attach(a, at(1, 2));
    ecs.attach(a, Component::Renderable(Renderable::new('@', Color::yellow(), Color::black())));
    ecs.attach(b, at(3, 4));
    ecs.attach(c, Component::Renderable(Renderable::new('c', red, Color::black())));
    ecs.attach(d, at(7, 8));
    ecs.attach(d, Component::Renderable(Renderable { glyph: 1, fg: red, bg: Color::grey() }));
    let calls = render_entities(&ecs);
    assert_eq!(
        calls,
        vec![
            DrawCall { x: 1, y: 2, fg: Color::yellow(), bg: Color::black(), glyph: 64 },
            DrawCall { x: 7, y: 8, fg: red, bg: Color::grey(), glyph: 1 },
        ]
    );
}

#[test]
fn render_entities_twice_gives_the_same_calls() {
    let mut ecs = EntityStore::new();
    for i in 0..5 {
        let e = ecs.create_entity();
        ecs.attach(e, at(i * 7, 20));
        ecs.attach(
            e,
            Component::Renderable(Renderable::new('\u{263A}', Color::green(), Color::black())),
        );
    }
    let first = render_entities(&ecs);
    let second = render_entities(&ecs);
    assert_eq!(first.len(), 5);
    assert_eq!(first, second);
}

#[test]
fn render_entities_of_empty_store() {
    assert!(render_entities(&EntityStore::new()).is_empty());
}
