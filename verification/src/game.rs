//! The game: its state and what one tick does to it.

use crate::components::{Color, Component, ComponentKind, DrawCall, Position, Renderable};
use crate::ecs::{EntityStore, StoreModel};
use crate::map::{draw_map, is_grid, map_draws, TileType, MAP_SIZE};
use crate::systems::{
    entity_draws, left_walked, player_moved, render_entities, try_move_player, LeftWalker,
};
use vstd::prelude::*;

verus! {

/// A key press, as far as the game tells keys apart.
#[derive(Clone, Copy, Debug, PartialEq, Eq, Structural)]
pub enum Key {
    Left,
    Right,
    Up,
    Down,
    Other,
}

/// The step that a key asks of the player, if it asks for one.
pub open spec fn key_delta(key: Option<Key>) -> Option<(int, int)> {
    match key {
        Some(Key::Left) => Some((-1, 0)),
        Some(Key::Right) => Some((1, 0)),
        Some(Key::Up) => Some((0, -1)),
        Some(Key::Down) => Some((0, 1)),
        _ => None,
    }
}

/// The store after the key, if any, was handled.
pub open spec fn after_input(v: StoreModel, key: Option<Key>, tiles: Seq<TileType>) -> StoreModel {
    match key_delta(key) {
        Some((dx, dy)) => player_moved(v, dx, dy, tiles),
        None => v,
    }
}

/// The store after the systems ran: the left movers walked, and then the
/// queued commands were applied.
pub open spec fn after_systems(v: StoreModel) -> StoreModel {
    left_walked(v).maintained()
}

/// The store with which a game begins: one entity, the player, at
/// `(x, y)` and drawn as `look`.
pub open spec fn lone_player(x: i32, y: i32, look: Renderable) -> StoreModel {
    StoreModel {
        alive: seq![true],
        positions: seq![Some(Position { x, y })],
        renderables: seq![Some(look)],
        players: seq![true],
        left_movers: seq![false],
        queue: Seq::empty(),
    }
}

/// The look of the player: a yellow `@`, glyph 64, on black.
pub open spec fn player_look() -> Renderable {
    Renderable {
        glyph: 64,
        fg: Color { r: 1000, g: 1000, b: 0 },
        bg: Color { r: 0, g: 0, b: 0 },
    }
}

/// The calls that draw a frame on a cleared screen: the tiles first, the
/// entities on top of them.
pub open spec fn frame(tiles: Seq<TileType>, v: StoreModel) -> Seq<DrawCall> {
    map_draws(tiles) + entity_draws(v)
}

/// What a tick asks of the screen.
#[derive(Clone, Copy, Debug, PartialEq, Eq, Structural)]
pub enum ScreenCall {
    /// Clear the screen.
    Clear,
    /// Set one cell to a glyph in two colors.
    Draw(DrawCall),
}

/// The calls of one tick: the screen is cleared once, and then the frame
/// is drawn.
pub open spec fn screen_calls(tiles: Seq<TileType>, v: StoreModel) -> Seq<ScreenCall> {
    seq![ScreenCall::Clear] + frame(tiles, v).map_values(|c: DrawCall| ScreenCall::Draw(c))
}

/// The entities and the map of a game.
pub struct State {
    pub ecs: EntityStore,
    pub map: Vec<TileType>,
}

impl State {
    /// The store is well-formed and the map is a whole grid.
    pub open spec fn wf(&self) -> bool {
        self.ecs.wf() && is_grid(self.map@)
    }

    /// Whether the state is well-formed: a test for callers that cannot
    /// know.
    pub fn well_formed(&self) -> (ok: bool)
        ensures
            ok == self.wf(),
    {
        self.ecs.well_formed() && self.map.len() == MAP_SIZE
    }

    /// A game on `map` whose only entity is the player, at `(x, y)` and
    /// drawn as a yellow `@` on black.
    pub fn new(map: Vec<TileType>, x: i32, y: i32) -> (gs: State)
        requires
            is_grid(map@),
        ensures
            gs.map@ == map@,
            gs.ecs@ == lone_player(x, y, player_look()),
            gs.wf(),
    {
        State::with_player(map, x, y, Renderable::new('@', Color::yellow(), Color::black()))
    }

    /// A game on `map` whose only entity is the player, at `(x, y)` and
    /// drawn as `look`.
    pub fn with_player(map: Vec<TileType>, x: i32, y: i32, look: Renderable) -> (gs: State)
        requires
            is_grid(map@),
        ensures
            gs.map@ == map@,
            gs.ecs@ == lone_player(x, y, look),
            gs.wf(),
    {
        let mut ecs = EntityStore::new();
        let player = ecs.create_entity();
        ecs.attach(player, Component::Position(Position { x, y }));
        ecs.attach(player, Component::Renderable(look));
        ecs.attach(player, Component::Player);
        proof {
            let v = ecs@;
            let w = lone_player(x, y, look);
            assert(v.alive =~= w.alive);
            assert(v.positions =~= w.positions);
            assert(v.renderables =~= w.renderables);
            assert(v.players =~= w.players);
            assert(v.left_movers =~= w.left_movers);
            assert(v.queue =~= w.queue);
        }
        State { ecs, map }
    }

    /// Runs the systems that need no input, and then applies the changes
    /// that were queued.
    pub fn run_systems(&mut self)
        requires
            old(self).wf(),
        ensures
            final(self).ecs@ == after_systems(old(self).ecs@),
            final(self).map@ == old(self).map@,
            final(self).wf(),
    {
        let mut lw = LeftWalker {  };
        lw.run(&mut self.ecs);
        self.ecs.maintain();
    }

    /// The calls that draw the game as it stands. They depend on nothing
    /// but the map and the store, which drawing leaves as they are: drawn
    /// again, the same game gives the same calls in the same order.
    pub fn render(&self) -> (calls: Vec<DrawCall>)
        requires
            self.wf(),
        ensures
            calls@ == frame(self.map@, self.ecs@),
    {
        let mut calls = draw_map(self.map.as_slice());
        let mut entities = render_entities(&self.ecs);
        calls.append(&mut entities);
        calls
    }

    /// One tick: handles the key, runs the systems, and returns what the
    /// screen is to do: clear, and then draw the game as it stands after
    /// the systems.
    pub fn tick(&mut self, key: Option<Key>) -> (calls: Vec<ScreenCall>)
        requires
            old(self).wf(),
        ensures
            final(self).ecs@ == after_systems(after_input(old(self).ecs@, key, old(self).map@)),
            final(self).map@ == old(self).map@,
            final(self).wf(),
            calls@ == screen_calls(final(self).map@, final(self).ecs@),
    {
        let mut calls: Vec<ScreenCall> = Vec::new();
        calls.push(ScreenCall::Clear);
        player_input(self, key);
        self.run_systems();
        let drawn = self.render();
        let mut i: usize = 0;
        while i < drawn.len()
            invariant
                i <= drawn@.len(),
                calls@.len() == i + 1,
                calls@[0] == ScreenCall::Clear,
                forall|k: int|
                    1 <= k <= i ==> #[trigger] calls@[k] == ScreenCall::Draw(drawn@[k - 1]),
            decreases drawn@.len() - i,
        {
            calls.push(ScreenCall::Draw(drawn[i]));
            i += 1;
        }
        assert(calls@ =~= seq![ScreenCall::Clear] + drawn@.map_values(
            |c: DrawCall| ScreenCall::Draw(c),
        ));
        calls
    }
}

/// A tick without an arrow key changes nothing in a store that has no left
/// mover with a position and nothing queued.
pub proof fn lemma_idle_tick(v: StoreModel, key: Option<Key>, tiles: Seq<TileType>)
    requires
        key_delta(key) is None,
        v.queue.len() == 0,
        forall|e: int|
            !(v.holds(e, ComponentKind::LeftMover) && #[trigger] v.holds(
                e,
                ComponentKind::Position,
            )),
    ensures
        after_systems(after_input(v, key, tiles)) == v,
{
    assert(left_walked(v).positions =~= v.positions);
    assert(v.queue =~= Seq::empty());
}

/// Drawing twice gives the same calls: whatever two runs of `render` hand
/// back for one game, with nothing done to it in between, the two are the
/// same calls in the same order.
pub proof fn lemma_render_repeats(gs: &State, first: Vec<DrawCall>, second: Vec<DrawCall>)
    requires
        call_ensures(State::render, (gs,), first),
        call_ensures(State::render, (gs,), second),
    ensures
        first@ == second@,
{
}

/// Handles a key: an arrow key moves the player one cell, if it can go
/// there; any other key, and no key, does nothing.
pub fn player_input(gs: &mut State, key: Option<Key>)
    requires
        old(gs).wf(),
    ensures
        final(gs).ecs@ == after_input(old(gs).ecs@, key, old(gs).map@),
        final(gs).map@ == old(gs).map@,
        final(gs).wf(),
{
    match key {
        None => {},
        Some(key) => match key {
            Key::Left => try_move_player(-1, 0, &mut gs.ecs, gs.map.as_slice()),
            Key::Right => try_move_player(1, 0, &mut gs.ecs, gs.map.as_slice()),
            Key::Up => try_move_player(0, -1, &mut gs.ecs, gs.map.as_slice()),
            Key::Down => try_move_player(0, 1, &mut gs.ecs, gs.map.as_slice()),
            _ => {},
        },
    }
}

} // verus!
