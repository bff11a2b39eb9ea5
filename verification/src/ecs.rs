//! The entity store: which entities exist, which components each holds,
//! and the changes queued for the end of the tick.

use crate::components::{Component, ComponentKind, Position, Renderable};
use vstd::prelude::*;

verus! {

/// The name of an entity: its number in the order of creation.
pub type EntityId = usize;

/// A change to the store that waits for `maintain`.
#[derive(Clone, Copy, Debug, PartialEq, Eq, Structural)]
pub enum Command {
    Create,
    Destroy(EntityId),
    Attach(EntityId, Component),
    Detach(EntityId, ComponentKind),
}

/// The store as mathematics: one sequence for each component type, indexed
/// by entity, a sequence that tells which entities are alive, and the
/// queue.
pub struct StoreModel {
    pub alive: Seq<bool>,
    pub positions: Seq<Option<Position>>,
    pub renderables: Seq<Option<Renderable>>,
    pub players: Seq<bool>,
    pub left_movers: Seq<bool>,
    pub queue: Seq<Command>,
}

impl StoreModel {
    /// The store without entities and with nothing queued.
    pub open spec fn empty() -> StoreModel {
        StoreModel {
            alive: Seq::empty(),
            positions: Seq::empty(),
            renderables: Seq::empty(),
            players: Seq::empty(),
            left_movers: Seq::empty(),
            queue: Seq::empty(),
        }
    }

    /// The number of entities created so far, destroyed ones included.
    pub open spec fn count(self) -> nat {
        self.alive.len()
    }

    /// Every component type has one slot for each entity, only a living
    /// entity holds components, and at most one entity is the player.
    pub open spec fn wf(self) -> bool {
        &&& self.positions.len() == self.count()
        &&& self.renderables.len() == self.count()
        &&& self.players.len() == self.count()
        &&& self.left_movers.len() == self.count()
        &&& forall|e: int|
            0 <= e < self.count() && !(#[trigger] self.alive[e]) ==> {
                &&& self.positions[e] is None
                &&& self.renderables[e] is None
                &&& !self.players[e]
                &&& !self.left_movers[e]
            }
        &&& forall|a: int, b: int|
            #![trigger self.players[a], self.players[b]]
            0 <= a < self.count() && 0 <= b < self.count() && self.players[a] && self.players[b]
                ==> a == b
    }

    /// Entity `e` exists and holds a component of type `kind`.
    pub open spec fn holds(self, e: int, kind: ComponentKind) -> bool {
        &&& 0 <= e < self.count()
        &&& match kind {
            ComponentKind::Position => self.positions[e] is Some,
            ComponentKind::Renderable => self.renderables[e] is Some,
            ComponentKind::Player => self.players[e],
            ComponentKind::LeftMover => self.left_movers[e],
        }
    }

    /// The store with one more entity, alive and without components.
    pub open spec fn spawned(self) -> StoreModel {
        StoreModel {
            alive: self.alive.push(true),
            positions: self.positions.push(None),
            renderables: self.renderables.push(None),
            players: self.players.push(false),
            left_movers: self.left_movers.push(false),
            queue: self.queue,
        }
    }

    /// Entity `e` can take component `c`: it is alive, and where `c` marks
    /// the player no other entity is the player already.
    pub open spec fn accepts(self, e: int, c: Component) -> bool {
        &&& 0 <= e < self.count()
        &&& self.alive[e]
        &&& c is Player ==> forall|o: int|
            0 <= o < self.count() && o != e ==> !(#[trigger] self.players[o])
    }

    /// The store in which entity `e` holds `c`, in place of any component
    /// of that type that it held before.
    pub open spec fn attached(self, e: int, c: Component) -> StoreModel {
        match c {
            Component::Position(p) => StoreModel {
                positions: self.positions.update(e, Some(p)),
                ..self
            },
            Component::Renderable(r) => StoreModel {
                renderables: self.renderables.update(e, Some(r)),
                ..self
            },
            Component::Player => StoreModel { players: self.players.update(e, true), ..self },
            Component::LeftMover => StoreModel {
                left_movers: self.left_movers.update(e, true),
                ..self
            },
        }
    }

    /// The store in which entity `e` holds no component of type `kind`.
    pub open spec fn detached(self, e: int, kind: ComponentKind) -> StoreModel {
        if 0 <= e < self.count() {
            match kind {
                ComponentKind::Position => StoreModel {
                    positions: self.positions.update(e, None),
                    ..self
                },
                ComponentKind::Renderable => StoreModel {
                    renderables: self.renderables.update(e, None),
                    ..self
                },
                ComponentKind::Player => StoreModel {
                    players: self.players.update(e, false),
                    ..self
                },
                ComponentKind::LeftMover => StoreModel {
                    left_movers: self.left_movers.update(e, false),
                    ..self
                },
            }
        } else {
            self
        }
    }

    /// The store in which entity `e` is dead and holds nothing.
    pub open spec fn destroyed(self, e: int) -> StoreModel {
        if 0 <= e < self.count() {
            StoreModel {
                alive: self.alive.update(e, false),
                positions: self.positions.update(e, None),
                renderables: self.renderables.update(e, None),
                players: self.players.update(e, false),
                left_movers: self.left_movers.update(e, false),
                queue: self.queue,
            }
        } else {
            self
        }
    }

    /// The store after one command. An `Attach` that the store does not
    /// accept changes nothing.
    pub open spec fn applied(self, cmd: Command) -> StoreModel {
        match cmd {
            Command::Create => self.spawned(),
            Command::Destroy(e) => self.destroyed(e as int),
            Command::Attach(e, c) => if self.accepts(e as int, c) {
                self.attached(e as int, c)
            } else {
                self
            },
            Command::Detach(e, kind) => self.detached(e as int, kind),
        }
    }

    /// The store after the commands, first to last.
    pub open spec fn applied_all(self, cmds: Seq<Command>) -> StoreModel
        decreases cmds.len(),
    {
        if cmds.len() == 0 {
            self
        } else {
            self.applied_all(cmds.drop_last()).applied(cmds.last())
        }
    }

    /// The store after the queued commands were applied, first to last,
    /// and the queue was emptied.
    pub open spec fn maintained(self) -> StoreModel {
        (StoreModel { queue: Seq::empty(), ..self }).applied_all(self.queue)
    }

    /// The entities below `n` that hold both a component of type `a` and
    /// one of type `b`, in rising order.
    pub open spec fn joined_below(self, a: ComponentKind, b: ComponentKind, n: int) -> Seq<
        EntityId,
    >
        decreases n,
    {
        if n <= 0 {
            Seq::empty()
        } else if self.holds(n - 1, a) && self.holds(n - 1, b) {
            self.joined_below(a, b, n - 1).push((n - 1) as usize)
        } else {
            self.joined_below(a, b, n - 1)
        }
    }

    /// The entities that hold both a component of type `a` and one of type
    /// `b`, in rising order.
    pub open spec fn joined(self, a: ComponentKind, b: ComponentKind) -> Seq<EntityId> {
        self.joined_below(a, b, self.count() as int)
    }
}

/// Every command keeps a well-formed store well-formed.
pub proof fn lemma_applied_wf(v: StoreModel, cmd: Command)
    requires
        v.wf(),
    ensures
        v.applied(cmd).wf(),
{
}

/// Applying the queue keeps a well-formed store well-formed and leaves the
/// queue empty.
pub proof fn lemma_maintained_wf(v: StoreModel)
    requires
        v.wf(),
    ensures
        v.maintained().wf(),
        v.maintained().queue.len() == 0,
{
    lemma_applied_all_wf(StoreModel { queue: Seq::empty(), ..v }, v.queue);
}

/// Commands keep a well-formed store well-formed, and none of them touches
/// the queue.
proof fn lemma_applied_all_wf(v: StoreModel, cmds: Seq<Command>)
    requires
        v.wf(),
    ensures
        v.applied_all(cmds).wf(),
        v.applied_all(cmds).queue == v.queue,
    decreases cmds.len(),
{
    if cmds.len() > 0 {
        lemma_applied_all_wf(v, cmds.drop_last());
    }
}

/// A join lists exactly the entities that hold both components, each once
/// and in rising order.
pub proof fn lemma_joined_below(v: StoreModel, a: ComponentKind, b: ComponentKind, n: int)
    requires
        0 <= n <= v.count() <= usize::MAX,
    ensures
        v.joined_below(a, b, n).len() <= n,
        forall|k: int|
            0 <= k < v.joined_below(a, b, n).len() ==> {
                &&& (#[trigger] v.joined_below(a, b, n)[k]) < n
                &&& v.holds(v.joined_below(a, b, n)[k] as int, a)
                &&& v.holds(v.joined_below(a, b, n)[k] as int, b)
            },
        forall|j: int, k: int|
            0 <= j < k < v.joined_below(a, b, n).len() ==> (#[trigger] v.joined_below(a, b, n)[j])
                < (#[trigger] v.joined_below(a, b, n)[k]),
        forall|e: int|
            0 <= e < n && v.holds(e, a) && v.holds(e, b) ==> v.joined_below(a, b, n).contains(
                e as usize,
            ),
    decreases n,
{
    if n > 0 {
        lemma_joined_below(v, a, b, n - 1);
        let before = v.joined_below(a, b, n - 1);
        let now = v.joined_below(a, b, n);
        assert forall|e: int| 0 <= e < n && v.holds(e, a) && v.holds(e, b) implies now.contains(
            e as usize,
        ) by {
            if e < n - 1 {
                let k = choose|k: int| 0 <= k < before.len() && before[k] == e as usize;
                assert(now[k] == e as usize);
            } else {
                assert(now[now.len() - 1] == e as usize);
            }
        }
    }
}

/// The entities of the game and their components.
pub struct EntityStore {
    alive: Vec<bool>,
    positions: Vec<Option<Position>>,
    renderables: Vec<Option<Renderable>>,
    players: Vec<bool>,
    left_movers: Vec<bool>,
    queue: Vec<Command>,
}

impl View for EntityStore {
    type V = StoreModel;

    closed spec fn view(&self) -> StoreModel {
        StoreModel {
            alive: self.alive@,
            positions: self.positions@,
            renderables: self.renderables@,
            players: self.players@,
            left_movers: self.left_movers@,
            queue: self.queue@,
        }
    }
}

impl EntityStore {
    /// The store is well-formed, and its entities can be counted in a
    /// `usize`.
    pub open spec fn wf(&self) -> bool {
        self@.wf() && self@.count() <= usize::MAX
    }

    /// A store without entities.
    pub fn new() -> (s: EntityStore)
        ensures
            s@ == StoreModel::empty(),
            s.wf(),
    {
        EntityStore {
            alive: Vec::new(),
            positions: Vec::new(),
            renderables: Vec::new(),
            players: Vec::new(),
            left_movers: Vec::new(),
            queue: Vec::new(),
        }
    }

    /// Whether the store is well-formed, looked up slot by slot: a test for
    /// callers that cannot know.
    pub fn well_formed(&self) -> (ok: bool)
        ensures
            ok == self.wf(),
    {
        let n = self.alive.len();
        if self.positions.len() != n || self.renderables.len() != n || self.players.len() != n
            || self.left_movers.len() != n {
            return false;
        }
        let mut player: Option<usize> = None;
        let mut e: usize = 0;
        while e < n
            invariant
                e <= n,
                n == self.alive@.len(),
                self.positions@.len() == n,
                self.renderables@.len() == n,
                self.players@.len() == n,
                self.left_movers@.len() == n,
                forall|k: int|
                    0 <= k < e && !(#[trigger] self.alive@[k]) ==> {
                        &&& self.positions@[k] is None
                        &&& self.renderables@[k] is None
                        &&& !self.players@[k]
                        &&& !self.left_movers@[k]
                    },
                forall|k: int|
                    0 <= k < e && #[trigger] self.players@[k] ==> player == Some(k as usize),
                player matches Some(p) ==> p < e && self.players@[p as int],
            decreases n - e,
        {
            if !self.alive[e] && (self.positions[e].is_some() || self.renderables[e].is_some()
                || self.players[e] || self.left_movers[e]) {
                return false;
            }
            if self.players[e] {
                if player.is_some() {
                    assert(self.players@[player.unwrap() as int] && self.players@[e as int]);
                    return false;
                }
                player = Some(e);
            }
            e += 1;
        }
        true
    }

    /// The number of entities created so far, destroyed ones included.
    pub fn count(&self) -> (n: usize)
        ensures
            n == self@.count(),
    {
        self.alive.len()
    }

    /// Whether `e` names an entity that was created and not destroyed.
    pub fn is_alive(&self, e: EntityId) -> (b: bool)
        ensures
            b == (e < self@.count() && self@.alive[e as int]),
    {
        e < self.alive.len() && self.alive[e]
    }

    /// Creates an entity without components and returns its name.
    pub fn create_entity(&mut self) -> (e: EntityId)
        requires
            old(self).wf(),
        ensures
            e == old(self)@.count(),
            final(self)@ == old(self)@.spawned(),
            final(self).wf(),
    {
        let e = self.alive.len();
        self.alive.push(true);
        self.positions.push(None);
        self.renderables.push(None);
        self.players.push(false);
        self.left_movers.push(false);
        assert(self.alive.len() == self.alive@.len());
        e
    }

    /// Whether some entity other than `e` is the player.
    fn other_player(&self, e: EntityId) -> (found: bool)
        requires
            self.wf(),
        ensures
            found == exists|o: int| 0 <= o < self@.count() && o != e && #[trigger] self@.players[o],
    {
        let mut found = false;
        let mut o: usize = 0;
        while o < self.players.len()
            invariant
                o <= self.players@.len(),
                found == exists|k: int| 0 <= k < o && k != e && #[trigger] self.players@[k],
            decreases self.players@.len() - o,
        {
            if o != e && self.players[o] {
                found = true;
            }
            o += 1;
        }
        found
    }

    /// Gives entity `e` the component `c`, in place of any component of
    /// that type that it holds. Returns whether the store accepted it; a
    /// store that did not is unchanged.
    pub fn attach(&mut self, e: EntityId, c: Component) -> (ok: bool)
        requires
            old(self).wf(),
        ensures
            ok == old(self)@.accepts(e as int, c),
            final(self)@ == old(self)@.applied(Command::Attach(e, c)),
            final(self).wf(),
    {
        if !self.is_alive(e) {
            return false;
        }
        match c {
            Component::Position(p) => {
                self.positions[e] = Some(p);
            },
            Component::Renderable(r) => {
                self.renderables[e] = Some(r);
            },
            Component::Player => {
                if self.other_player(e) {
                    return false;
                }
                self.players[e] = true;
            },
            Component::LeftMover => {
                self.left_movers[e] = true;
            },
        }
        true
    }

    /// Takes from entity `e` its component of type `kind`, if it holds one.
    pub fn detach(&mut self, e: EntityId, kind: ComponentKind)
        requires
            old(self).wf(),
        ensures
            final(self)@ == old(self)@.detached(e as int, kind),
            final(self).wf(),
    {
        if e < self.alive.len() {
            match kind {
                ComponentKind::Position => {
                    self.positions[e] = None;
                },
                ComponentKind::Renderable => {
                    self.renderables[e] = None;
                },
                ComponentKind::Player => {
                    self.players[e] = false;
                },
                ComponentKind::LeftMover => {
                    self.left_movers[e] = false;
                },
            }
        }
    }

    /// Destroys entity `e` and all its components at once.
    pub fn destroy_entity(&mut self, e: EntityId)
        requires
            old(self).wf(),
        ensures
            final(self)@ == old(self)@.destroyed(e as int),
            final(self).wf(),
    {
        if e < self.alive.len() {
            self.alive[e] = false;
            self.positions[e] = None;
            self.renderables[e] = None;
            self.players[e] = false;
            self.left_movers[e] = false;
        }
    }

    /// Whether entity `e` holds a component of type `kind`.
    pub fn has(&self, e: EntityId, kind: ComponentKind) -> (b: bool)
        requires
            self.wf(),
        ensures
            b == self@.holds(e as int, kind),
    {
        if e >= self.alive.len() {
            return false;
        }
        match kind {
            ComponentKind::Position => self.positions[e].is_some(),
            ComponentKind::Renderable => self.renderables[e].is_some(),
            ComponentKind::Player => self.players[e],
            ComponentKind::LeftMover => self.left_movers[e],
        }
    }

    /// The position of entity `e`, if it has one.
    pub fn position(&self, e: EntityId) -> (p: Option<Position>)
        requires
            self.wf(),
        ensures
            p == (if e < self@.count() {
                self@.positions[e as int]
            } else {
                None
            }),
    {
        if e < self.positions.len() {
            self.positions[e]
        } else {
            None
        }
    }

    /// The appearance of entity `e`, if it has one.
    pub fn renderable(&self, e: EntityId) -> (r: Option<Renderable>)
        requires
            self.wf(),
        ensures
            r == (if e < self@.count() {
                self@.renderables[e as int]
            } else {
                None
            }),
    {
        if e < self.renderables.len() {
            self.renderables[e]
        } else {
            None
        }
    }

    /// The entities that hold both a component of type `a` and one of type
    /// `b`, in rising order.
    pub fn join(&self, a: ComponentKind, b: ComponentKind) -> (ids: Vec<EntityId>)
        requires
            self.wf(),
        ensures
            ids@ == self@.joined(a, b),
    {
        let mut ids: Vec<EntityId> = Vec::new();
        let mut e: usize = 0;
        while e < self.alive.len()
            invariant
                self.wf(),
                e <= self@.count(),
                ids@ == self@.joined_below(a, b, e as int),
            decreases self@.count() - e,
        {
            if self.has(e, a) && self.has(e, b) {
                ids.push(e);
            }
            e += 1;
        }
        ids
    }

    /// The entities that hold a component of type `kind`, in rising
    /// order.
    pub fn read(&self, kind: ComponentKind) -> (ids: Vec<EntityId>)
        requires
            self.wf(),
        ensures
            ids@ == self@.joined(kind, kind),
    {
        self.join(kind, kind)
    }

    /// Queues a command for the next `maintain`.
    pub fn enqueue(&mut self, cmd: Command)
        requires
            old(self).wf(),
        ensures
            final(self)@ == (StoreModel { queue: old(self)@.queue.push(cmd), ..old(self)@ }),
            final(self).wf(),
    {
        self.queue.push(cmd);
    }

    /// Applies the queued commands, first to last, and empties the queue.
    pub fn maintain(&mut self)
        requires
            old(self).wf(),
        ensures
            final(self)@ == old(self)@.maintained(),
            final(self).wf(),
    {
        let mut cmds: Vec<Command> = Vec::new();
        std::mem::swap(&mut self.queue, &mut cmds);
        let ghost start = self@;
        let mut i: usize = 0;
        while i < cmds.len()
            invariant
                i <= cmds@.len(),
                self.wf(),
                self@ == start.applied_all(cmds@.take(i as int)),
            decreases cmds@.len() - i,
        {
            proof {
                assert(cmds@.take(i + 1).drop_last() =~= cmds@.take(i as int));
            }
            match cmds[i] {
                Command::Create => {
                    self.create_entity();
                },
                Command::Destroy(e) => {
                    self.destroy_entity(e);
                },
                Command::Attach(e, c) => {
                    self.attach(e, c);
                },
                Command::Detach(e, kind) => {
                    self.detach(e, kind);
                },
            }
            i += 1;
        }
        assert(cmds@.take(cmds@.len() as int) =~= cmds@);
    }
}

} // verus!
