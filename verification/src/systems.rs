//! The systems: passes over the entity store that move and draw entities.

use crate::components::{Component, ComponentKind, DrawCall, Position, Renderable};
use crate::ecs::{lemma_joined_below, EntityId, EntityStore, StoreModel};
use crate::map::{cell_index, in_bounds, is_grid, tile_at, TileType};
use vstd::prelude::*;

verus! {

/// The position one step to the left; from the first column, and from
/// anywhere left of it, the step leads to the last column.
pub open spec fn stepped_left(p: Position) -> Position {
    Position {
        x: if p.x - 1 < 0 {
            79
        } else {
            (p.x - 1) as i32
        },
        y: p.y,
    }
}

/// The store after every entity that is a left mover and has a position
/// took one step to the left.
pub open spec fn left_walked(v: StoreModel) -> StoreModel {
    StoreModel {
        positions: Seq::new(
            v.positions.len(),
            |e: int|
                if v.holds(e, ComponentKind::LeftMover) && v.holds(e, ComponentKind::Position) {
                    Some(stepped_left(v.positions[e].unwrap()))
                } else {
                    v.positions[e]
                },
        ),
        ..v
    }
}

/// Where a move by `(dx, dy)` leads from `p`: to the cell that far away if
/// the grid has that cell and it is no wall, and nowhere else.
pub open spec fn moved(p: Position, dx: int, dy: int, tiles: Seq<TileType>) -> Position {
    let x = p.x + dx;
    let y = p.y + dy;
    if in_bounds(x, y) && cell_index(x, y) < tiles.len() && tiles[cell_index(x, y)]
        != TileType::Wall {
        Position { x: x as i32, y: y as i32 }
    } else {
        p
    }
}

/// The store after the player, if there is one and it has a position,
/// tried to move by `(dx, dy)`.
pub open spec fn player_moved(v: StoreModel, dx: int, dy: int, tiles: Seq<TileType>) -> StoreModel {
    StoreModel {
        positions: Seq::new(
            v.positions.len(),
            |e: int|
                if v.holds(e, ComponentKind::Player) && v.holds(e, ComponentKind::Position) {
                    Some(moved(v.positions[e].unwrap(), dx, dy, tiles))
                } else {
                    v.positions[e]
                },
        ),
        ..v
    }
}

/// The call that draws an entity with position `p` and appearance `r`.
pub open spec fn entity_draw(p: Position, r: Renderable) -> DrawCall {
    DrawCall { x: p.x, y: p.y, fg: r.fg, bg: r.bg, glyph: r.glyph }
}

/// The calls that draw the entities: one for each entity that has both a
/// position and an appearance, in rising order of the entities.
pub open spec fn entity_draws(v: StoreModel) -> Seq<DrawCall> {
    v.joined(ComponentKind::Position, ComponentKind::Renderable).map_values(
        |e: EntityId| entity_draw(v.positions[e as int].unwrap(), v.renderables[e as int].unwrap()),
    )
}

/// The store on the way from `start` to `target`, which differ in their
/// positions only: the first `k` entities of `ids` have their position of
/// `target`, all others that of `start`.
spec fn partly(start: StoreModel, target: StoreModel, ids: Seq<EntityId>, k: int) -> StoreModel {
    StoreModel {
        positions: Seq::new(
            start.positions.len(),
            |e: int|
                if ids.take(k).contains(e as usize) {
                    target.positions[e]
                } else {
                    start.positions[e]
                },
        ),
        ..start
    }
}

/// The way begins at `start`.
proof fn lemma_partly_begin(start: StoreModel, target: StoreModel, ids: Seq<EntityId>)
    ensures
        partly(start, target, ids, 0) == start,
{
    assert(partly(start, target, ids, 0).positions =~= start.positions);
}

/// The entity of step `k` still has its position of `start` when the step
/// begins.
proof fn lemma_partly_untouched(
    start: StoreModel,
    target: StoreModel,
    ids: Seq<EntityId>,
    k: int,
)
    requires
        0 <= k < ids.len(),
        forall|i: int, j: int| 0 <= i < j < ids.len() ==> (#[trigger] ids[i]) < (#[trigger] ids[j]),
        ids[k] < start.positions.len() <= usize::MAX,
    ensures
        partly(start, target, ids, k).positions[ids[k] as int] == start.positions[ids[k] as int],
{
    let shorter = ids.take(k);
    if shorter.contains(ids[k]) {
        let j = choose|j: int| 0 <= j < shorter.len() && shorter[j] == ids[k];
        assert(ids[j] < ids[k]);
    }
}

/// One step of the way: giving the entity of step `k` its position of
/// `target` leads to the next store.
proof fn lemma_partly_step(start: StoreModel, target: StoreModel, ids: Seq<EntityId>, k: int)
    requires
        0 <= k < ids.len(),
        forall|i: int, j: int| 0 <= i < j < ids.len() ==> (#[trigger] ids[i]) < (#[trigger] ids[j]),
        ids[k] < start.positions.len() <= usize::MAX,
        target.positions.len() == start.positions.len(),
        target.positions[ids[k] as int] is Some,
    ensures
        partly(start, target, ids, k).attached(
            ids[k] as int,
            Component::Position(target.positions[ids[k] as int].unwrap()),
        ) == partly(start, target, ids, k + 1),
{
    let shorter = ids.take(k);
    let longer = ids.take(k + 1);
    assert(longer[k] == ids[k]);
    assert forall|e: usize| longer.contains(e) <==> shorter.contains(e) || e == ids[k] by {
        if longer.contains(e) {
            let j = choose|j: int| 0 <= j < longer.len() && longer[j] == e;
            if j < k {
                assert(shorter[j] == e);
            }
        }
        if shorter.contains(e) {
            let j = choose|j: int| 0 <= j < shorter.len() && shorter[j] == e;
            assert(longer[j] == e);
        }
    }
    assert(partly(start, target, ids, k).attached(
        ids[k] as int,
        Component::Position(target.positions[ids[k] as int].unwrap()),
    ).positions =~= partly(start, target, ids, k + 1).positions);
}

/// The way ends at `target`, if the entities outside `ids` have the same
/// position in both stores.
proof fn lemma_partly_end(start: StoreModel, target: StoreModel, ids: Seq<EntityId>)
    requires
        target == (StoreModel { positions: target.positions, ..start }),
        target.positions.len() == start.positions.len() <= usize::MAX,
        forall|e: int|
            0 <= e < start.positions.len() && !ids.contains(e as usize)
                ==> #[trigger] target.positions[e] == start.positions[e],
    ensures
        partly(start, target, ids, ids.len() as int) == target,
{
    assert(ids.take(ids.len() as int) =~= ids);
    assert(partly(start, target, ids, ids.len() as int).positions =~= target.positions);
}

/// What a join tells about its entities, for the stores of this module.
proof fn lemma_join_facts(v: StoreModel, a: ComponentKind, b: ComponentKind)
    requires
        v.count() <= usize::MAX,
    ensures
        forall|i: int, j: int|
            0 <= i < j < v.joined(a, b).len() ==> (#[trigger] v.joined(a, b)[i]) < (
            #[trigger] v.joined(a, b)[j]),
        forall|i: int|
            0 <= i < v.joined(a, b).len() ==> v.holds((#[trigger] v.joined(a, b)[i]) as int, a)
                && v.holds(v.joined(a, b)[i] as int, b),
        forall|e: int|
            0 <= e < v.count() && !v.joined(a, b).contains(e as usize) ==> !(v.holds(e, a)
                && #[trigger] v.holds(e, b)),
{
    lemma_joined_below(v, a, b, v.count() as int);
}

/// A step to the left keeps the row, and from a column of the grid it
/// leads to a column of the grid: from the first to the last, from any
/// other to the one before it.
pub proof fn lemma_stepped_left_wraps(p: Position)
    ensures
        stepped_left(p).y == p.y,
        p.x == 0 ==> stepped_left(p).x == 79,
        0 < p.x ==> stepped_left(p).x == p.x - 1,
        0 <= p.x < 80 ==> 0 <= stepped_left(p).x < 80,
{
}

/// A move into a wall leaves the position where it is, and a move onto
/// floor leads there.
pub proof fn lemma_moved_obeys_walls(p: Position, dx: int, dy: int, tiles: Seq<TileType>)
    requires
        is_grid(tiles),
        in_bounds(p.x + dx, p.y + dy),
    ensures
        tiles[cell_index(p.x + dx, p.y + dy)] == TileType::Wall ==> moved(p, dx, dy, tiles) == p,
        tiles[cell_index(p.x + dx, p.y + dy)] == TileType::Floor ==> moved(p, dx, dy, tiles) == (
        Position { x: (p.x + dx) as i32, y: (p.y + dy) as i32 }),
{
}

/// A move leaves the position where it is or leads to a cell of the grid
/// that is no wall; so from a cell of the grid it never leads off the grid,
/// whatever the tiles are.
pub proof fn lemma_moved_stays_in_grid(p: Position, dx: int, dy: int, tiles: Seq<TileType>)
    ensures
        moved(p, dx, dy, tiles) == p || (in_bounds(
            moved(p, dx, dy, tiles).x as int,
            moved(p, dx, dy, tiles).y as int,
        ) && tiles[cell_index(moved(p, dx, dy, tiles).x as int, moved(p, dx, dy, tiles).y as int)]
            == TileType::Floor),
        in_bounds(p.x as int, p.y as int) ==> in_bounds(
            moved(p, dx, dy, tiles).x as int,
            moved(p, dx, dy, tiles).y as int,
        ),
{
}

/// The position one step to the left of `p`, around the edge.
pub fn step_left(p: Position) -> (q: Position)
    ensures
        q == stepped_left(p),
{
    let x: i32 = if p.x <= 0 {
        79
    } else {
        p.x - 1
    };
    Position { x, y: p.y }
}

/// Gives every entity that holds both a component of type `marker` and a
/// position the position that `step` makes of its own. `target` is the
/// store that this leads to.
fn move_each<F: Fn(Position) -> Position>(
    ecs: &mut EntityStore,
    marker: ComponentKind,
    step: F,
    Ghost(target): Ghost<StoreModel>,
)
    requires
        old(ecs).wf(),
        forall|p: Position| call_requires(step, (p,)),
        target == (StoreModel { positions: target.positions, ..old(ecs)@ }),
        target.positions.len() == old(ecs)@.positions.len(),
        forall|e: int|
            0 <= e < old(ecs)@.count() && !(old(ecs)@.holds(e, marker) && old(ecs)@.holds(
                e,
                ComponentKind::Position,
            )) ==> #[trigger] target.positions[e] == old(ecs)@.positions[e],
        forall|e: int, q: Position|
            old(ecs)@.holds(e, marker) && old(ecs)@.holds(e, ComponentKind::Position)
                && #[trigger] call_ensures(step, (old(ecs)@.positions[e].unwrap(),), q)
                ==> target.positions[e] == Some(q),
    ensures
        final(ecs)@ == target,
        final(ecs).wf(),
{
    let ghost start = ecs@;
    let ids = ecs.join(marker, ComponentKind::Position);
    proof {
        lemma_join_facts(start, marker, ComponentKind::Position);
        lemma_partly_begin(start, target, ids@);
    }
    let mut k: usize = 0;
    while k < ids.len()
        invariant
            k <= ids@.len(),
            start.wf(),
            ecs.wf(),
            forall|p: Position| call_requires(step, (p,)),
            target.positions.len() == start.positions.len(),
            forall|e: int, q: Position|
                start.holds(e, marker) && start.holds(e, ComponentKind::Position)
                    && #[trigger] call_ensures(step, (start.positions[e].unwrap(),), q)
                    ==> target.positions[e] == Some(q),
            forall|i: int, j: int|
                0 <= i < j < ids@.len() ==> (#[trigger] ids@[i]) < (#[trigger] ids@[j]),
            forall|i: int|
                0 <= i < ids@.len() ==> start.holds((#[trigger] ids@[i]) as int, marker)
                    && start.holds(ids@[i] as int, ComponentKind::Position),
            ecs@ == partly(start, target, ids@, k as int),
        decreases ids@.len() - k,
    {
        let e = ids[k];
        proof {
            lemma_partly_untouched(start, target, ids@, k as int);
        }
        if let Some(p) = ecs.position(e) {
            let q = step(p);
            proof {
                lemma_partly_step(start, target, ids@, k as int);
            }
            ecs.attach(e, Component::Position(q));
        }
        k += 1;
    }
    proof {
        lemma_join_facts(start, marker, ComponentKind::Position);
        lemma_partly_end(start, target, ids@);
    }
}

/// The system that lets left movers drift.
pub struct LeftWalker {}

impl LeftWalker {
    /// Moves every entity that is a left mover and has a position one
    /// step to the left, around the edge of the screen.
    pub fn run(&mut self, ecs: &mut EntityStore)
        requires
            old(ecs).wf(),
        ensures
            final(ecs)@ == left_walked(old(ecs)@),
            final(ecs).wf(),
    {
        move_each(ecs, ComponentKind::LeftMover, step_left, Ghost(left_walked(ecs@)));
    }
}

/// `v` if it lies between `lo` and `hi`, else the nearer of the two.
fn clamp(v: i32, lo: i32, hi: i32) -> (r: i32)
    requires
        lo <= hi,
    ensures
        r == (if v < lo {
            lo
        } else if v > hi {
            hi
        } else {
            v
        }),
{
    if v < lo {
        lo
    } else if v > hi {
        hi
    } else {
        v
    }
}

/// Where a move by `(dx, dy)` leads from `p` on the map: to the cell that
/// far away if the map has it and it is no wall, and nowhere else.
pub fn step_by(p: Position, dx: i32, dy: i32, map: &[TileType]) -> (q: Position)
    ensures
        q == moved(p, dx as int, dy as int, map@),
        in_bounds(p.x as int, p.y as int) ==> in_bounds(q.x as int, q.y as int),
{
    let x: i64 = p.x as i64 + dx as i64;
    let y: i64 = p.y as i64 + dy as i64;
    if x < 0 || x >= 80 || y < 0 || y >= 50 {
        return p;
    }
    match tile_at(map, x as i32, y as i32) {
        Ok(tile) => {
            if tile != TileType::Wall {
                Position { x: clamp(x as i32, 0, 79), y: clamp(y as i32, 0, 49) }
            } else {
                p
            }
        },
        Err(_) => p,
    }
}

/// Moves the player by `(delta_x, delta_y)`, unless a wall or the edge of
/// the map is in the way.
pub fn try_move_player(delta_x: i32, delta_y: i32, ecs: &mut EntityStore, map: &[TileType])
    requires
        old(ecs).wf(),
    ensures
        final(ecs)@ == player_moved(old(ecs)@, delta_x as int, delta_y as int, map@),
        final(ecs).wf(),
{
    let step = |p: Position| -> (q: Position)
        ensures
            q == moved(p, delta_x as int, delta_y as int, map@),
        { step_by(p, delta_x, delta_y, map) };
    move_each(
        ecs,
        ComponentKind::Player,
        step,
        Ghost(player_moved(ecs@, delta_x as int, delta_y as int, map@)),
    );
}

/// The calls that draw the entities, in rising order of the entities.
pub fn render_entities(ecs: &EntityStore) -> (calls: Vec<DrawCall>)
    requires
        ecs.wf(),
    ensures
        calls@ == entity_draws(ecs@),
{
    let ids = ecs.join(ComponentKind::Position, ComponentKind::Renderable);
    let mut calls: Vec<DrawCall> = Vec::new();
    proof {
        lemma_join_facts(ecs@, ComponentKind::Position, ComponentKind::Renderable);
    }
    let mut k: usize = 0;
    while k < ids.len()
        invariant
            k <= ids@.len(),
            ecs.wf(),
            ids@ == ecs@.joined(ComponentKind::Position, ComponentKind::Renderable),
            forall|i: int|
                0 <= i < ids@.len() ==> ecs@.holds(
                    (#[trigger] ids@[i]) as int,
                    ComponentKind::Position,
                ) && ecs@.holds(ids@[i] as int, ComponentKind::Renderable),
            calls@.len() == k,
            forall|i: int| 0 <= i < k ==> #[trigger] calls@[i] == entity_draws(ecs@)[i],
        decreases ids@.len() - k,
    {
        let e = ids[k];
        if let Some(p) = ecs.position(e) {
            if let Some(r) = ecs.renderable(e) {
                calls.push(DrawCall { x: p.x, y: p.y, fg: r.fg, bg: r.bg, glyph: r.glyph });
            }
        }
        k += 1;
    }
    assert(calls@ =~= entity_draws(ecs@));
    calls
}

} // verus!
