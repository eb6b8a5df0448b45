//! The entity store: one column per component type, indexed by entity handle.
use vstd::prelude::*;
use crate::components::{Asteroid, Component, Player, Position, Renderable};

verus! {

/// Which component types a join asks for.
#[derive(Clone, Copy, Debug, PartialEq, Eq, Structural)]
pub struct Selector {
    pub position: bool,
    pub renderable: bool,
    pub player: bool,
    pub asteroid: bool,
}

/// All entities and their components. Entity `e` owns a component of a type
/// exactly when that type's column holds `Some` at index `e`.
pub struct World {
    pub positions: Vec<Option<Position>>,
    pub renderables: Vec<Option<Renderable>>,
    pub players: Vec<Option<Player>>,
    pub asteroids: Vec<Option<Asteroid>>,
}

impl World {
    /// Every column has one slot per entity.
    pub open spec fn wf(&self) -> bool {
        &&& self.renderables@.len() == self.positions@.len()
        &&& self.players@.len() == self.positions@.len()
        &&& self.asteroids@.len() == self.positions@.len()
    }

    /// Number of entities created so far.
    pub open spec fn len(&self) -> nat {
        self.positions@.len()
    }

    /// Entity `e` exists and owns every component type that `sel` asks for.
    pub open spec fn has(&self, e: int, sel: Selector) -> bool {
        &&& 0 <= e < self.len()
        &&& sel.position ==> self.positions@[e] is Some
        &&& sel.renderable ==> self.renderables@[e] is Some
        &&& sel.player ==> self.players@[e] is Some
        &&& sel.asteroid ==> self.asteroids@[e] is Some
    }

    /// An empty store.
    pub fn new() -> (r: World)
        ensures
            r.wf(),
            r.len() == 0,
    {
        World {
            positions: Vec::new(),
            renderables: Vec::new(),
            players: Vec::new(),
            asteroids: Vec::new(),
        }
    }

    /// Number of entities created so far.
    pub fn entity_count(&self) -> (r: usize)
        ensures
            r == self.len(),
    {
        self.positions.len()
    }

    /// Adds an entity with no components and returns its handle.
    pub fn create_entity(&mut self) -> (e: usize)
        requires
            old(self).wf(),
            old(self).len() < usize::MAX,
        ensures
            final(self).wf(),
            e == old(self).len(),
            final(self).positions@ == old(self).positions@.push(None),
            final(self).renderables@ == old(self).renderables@.push(None),
            final(self).players@ == old(self).players@.push(None),
            final(self).asteroids@ == old(self).asteroids@.push(None),
    {
        let e = self.positions.len();
        self.positions.push(None);
        self.renderables.push(None);
        self.players.push(None);
        self.asteroids.push(None);
        e
    }

    /// Gives entity `e` the component `c`, replacing one of the same type.
    pub fn attach(&mut self, e: usize, c: Component)
        requires
            old(self).wf(),
            e < old(self).len(),
        ensures
            final(self).wf(),
            final(self).positions@ == (match c {
                Component::Position(p) => old(self).positions@.update(e as int, Some(p)),
                _ => old(self).positions@,
            }),
            final(self).renderables@ == (match c {
                Component::Renderable(r) => old(self).renderables@.update(e as int, Some(r)),
                _ => old(self).renderables@,
            }),
            final(self).players@ == (match c {
                Component::Player(p) => old(self).players@.update(e as int, Some(p)),
                _ => old(self).players@,
            }),
            final(self).asteroids@ == (match c {
                Component::Asteroid(a) => old(self).asteroids@.update(e as int, Some(a)),
                _ => old(self).asteroids@,
            }),
    {
        match c {
            Component::Position(p) => self.positions.set(e, Some(p)),
            Component::Renderable(r) => self.renderables.set(e, Some(r)),
            Component::Player(p) => self.players.set(e, Some(p)),
            Component::Asteroid(a) => self.asteroids.set(e, Some(a)),
        }
    }

    /// The position of entity `e`, if it has one.
    pub fn position(&self, e: usize) -> (r: Option<Position>)
        ensures
            r == (if e < self.positions@.len() { self.positions@[e as int] } else { None }),
    {
        if e < self.positions.len() {
            self.positions[e]
        } else {
            None
        }
    }

    /// The player record of entity `e`, if it has one.
    pub fn player(&self, e: usize) -> (r: Option<Player>)
        ensures
            r == (if e < self.players@.len() { self.players@[e as int] } else { None }),
    {
        if e < self.players.len() {
            self.players[e]
        } else {
            None
        }
    }

    /// The asteroid record of entity `e`, if it has one.
    pub fn asteroid(&self, e: usize) -> (r: Option<Asteroid>)
        ensures
            r == (if e < self.asteroids@.len() { self.asteroids@[e as int] } else { None }),
    {
        if e < self.asteroids.len() {
            self.asteroids[e]
        } else {
            None
        }
    }

    /// The render record of entity `e`, if it has one.
    pub fn renderable(&self, e: usize) -> (r: Option<&Renderable>)
        ensures
            r == (if e < self.renderables@.len() {
                match self.renderables@[e as int] {
                    Some(x) => Some(&x),
                    None => None,
                }
            } else {
                None
            }),
    {
        if e < self.renderables.len() {
            match &self.renderables[e] {
                Some(x) => Some(x),
                None => None,
            }
        } else {
            None
        }
    }

    /// The handles, in increasing order, of the entities that own every
    /// component type that `sel` asks for.
    pub fn join(&self, sel: Selector) -> (r: Vec<usize>)
        requires
            self.wf(),
        ensures
            forall|i: int, j: int| 0 <= i < j < r@.len() ==> r@[i] < r@[j],
            forall|i: int| 0 <= i < r@.len() ==> self.has(#[trigger] r@[i] as int, sel),
            forall|e: int| #[trigger] self.has(e, sel) ==> r@.contains(e as usize),
    {
        let mut r: Vec<usize> = Vec::new();
        let mut e: usize = 0;
        while e < self.positions.len()
            invariant
                self.wf(),
                0 <= e <= self.len(),
                forall|i: int, j: int| 0 <= i < j < r@.len() ==> r@[i] < r@[j],
                forall|i: int| 0 <= i < r@.len() ==> r@[i] < e,
                forall|i: int| 0 <= i < r@.len() ==> self.has(#[trigger] r@[i] as int, sel),
                forall|f: int| 0 <= f < e && #[trigger] self.has(f, sel) ==> r@.contains(f as usize),
            decreases self.len() - e,
        {
            let wanted = (!sel.position || self.positions[e].is_some())
                && (!sel.renderable || self.renderables[e].is_some())
                && (!sel.player || self.players[e].is_some())
                && (!sel.asteroid || self.asteroids[e].is_some());
            let ghost r0 = r@;
            if wanted {
                r.push(e);
                assert forall|f: int| 0 <= f < e + 1 && #[trigger] self.has(f, sel) implies r@.contains(
                    f as usize,
                ) by {
                    if f < e {
                        let i = choose|i: int| 0 <= i < r0.len() && r0[i] == f as usize;
                        assert(r@[i] == f as usize);
                    } else {
                        assert(r@[r@.len() - 1] == e);
                    }
                }
            } else {
                assert(!self.has(e as int, sel));
            }
            e = e + 1;
        }
        r
    }

    /// Applies queued creations and deletions; none are ever queued, so the
    /// store is left as it is.
    pub fn maintain(&mut self)
        ensures
            final(self).positions@ == old(self).positions@,
            final(self).renderables@ == old(self).renderables@,
            final(self).players@ == old(self).players@,
            final(self).asteroids@ == old(self).asteroids@,
    {
    }
}

} // verus!
