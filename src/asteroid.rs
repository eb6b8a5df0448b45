//! The asteroid systems: drift and turn at fixed per-entity speeds.
use vstd::prelude::*;
use vstd::arithmetic::div_mod::{lemma_add_mod_noop, lemma_add_mod_noop_right, lemma_small_mod};
use crate::components::{Asteroid, Position};
use crate::fixed::{COORD_LIMIT, SPEED_LIMIT};
use crate::game::{position_in_range, FULL_TURN};
use crate::world::{Selector, World};

verus! {

/// Heading `rot` turned by `s`, taken modulo a full turn into `[0, FULL_TURN)`.
pub open spec fn turned_by(rot: int, s: int) -> int {
    (rot + s) % (FULL_TURN as int)
}

/// Speeds lie where a step cannot overflow.
pub open spec fn asteroid_in_range(a: Asteroid) -> bool {
    &&& -SPEED_LIMIT <= a.speed <= SPEED_LIMIT
    &&& -SPEED_LIMIT <= a.rot_speed <= SPEED_LIMIT
}

/// The component types that the asteroid mover works on.
pub open spec fn asteroid_selector() -> Selector {
    Selector { position: true, renderable: false, player: false, asteroid: true }
}

/// `t` modulo a full turn, in `[0, FULL_TURN)`.
pub fn angle_mod(t: i64) -> (r: i64)
    requires
        -2 * COORD_LIMIT <= t,
    ensures
        r == (t as int) % (FULL_TURN as int),
        0 <= r < FULL_TURN,
{
    if t >= 0 {
        t % FULL_TURN
    } else {
        let r: i64 = (-t) % FULL_TURN;
        if r == 0 {
            0
        } else {
            FULL_TURN - r
        }
    }
}

/// One tick of drift for one asteroid: it moves right by its speed (it is not
/// wrapped at the field's edge) and turns by its turn speed, modulo a full
/// turn.
pub fn step_asteroid(pos: &mut Position, a: Asteroid)
    requires
        position_in_range(*old(pos)),
        asteroid_in_range(a),
    ensures
        final(pos).x == old(pos).x + a.speed,
        final(pos).y == old(pos).y,
        final(pos).rot == turned_by(old(pos).rot as int, a.rot_speed as int),
{
    pos.x = pos.x + a.speed;
    pos.rot = angle_mod(pos.rot + a.rot_speed);
}

/// Runs the asteroid mover once over every entity that owns a position and
/// an asteroid record; nothing else changes.
pub fn move_asteroids(world: &mut World)
    requires
        old(world).wf(),
        forall|e: int|
            #![trigger old(world).positions@[e]]
            old(world).has(e, asteroid_selector()) ==> position_in_range(
                old(world).positions@[e]->0,
            ) && asteroid_in_range(old(world).asteroids@[e]->0),
    ensures
        final(world).wf(),
        final(world).renderables@ == old(world).renderables@,
        final(world).players@ == old(world).players@,
        final(world).asteroids@ == old(world).asteroids@,
        final(world).positions@.len() == old(world).positions@.len(),
        forall|e: int|
            0 <= e < old(world).len() && !old(world).has(e, asteroid_selector())
                ==> #[trigger] final(world).positions@[e] == old(world).positions@[e],
        forall|e: int|
            #![trigger final(world).positions@[e]]
            old(world).has(e, asteroid_selector()) ==> {
                let p0 = old(world).positions@[e]->0;
                let a = old(world).asteroids@[e]->0;
                let p1 = final(world).positions@[e]->0;
                &&& final(world).positions@[e] is Some
                &&& p1.x == p0.x + a.speed
                &&& p1.y == p0.y
                &&& p1.rot == turned_by(p0.rot as int, a.rot_speed as int)
            },
{
    let ghost w0: World = *world;
    let n = world.positions.len();
    let mut e: usize = 0;
    while e < n
        invariant
            w0 == *old(world),
            n == w0.len(),
            world.wf(),
            world.len() == n,
            0 <= e <= n,
            forall|f: int|
                #![trigger w0.positions@[f]]
                w0.has(f, asteroid_selector()) ==> position_in_range(w0.positions@[f]->0)
                    && asteroid_in_range(w0.asteroids@[f]->0),
            world.renderables@ == w0.renderables@,
            world.players@ == w0.players@,
            world.asteroids@ == w0.asteroids@,
            forall|f: int| e <= f < n ==> #[trigger] world.positions@[f] == w0.positions@[f],
            forall|f: int|
                0 <= f < e && !w0.has(f, asteroid_selector()) ==> #[trigger] world.positions@[f]
                    == w0.positions@[f],
            forall|f: int|
                #![trigger world.positions@[f]]
                0 <= f < e && w0.has(f, asteroid_selector()) ==> {
                    let p0 = w0.positions@[f]->0;
                    let a = w0.asteroids@[f]->0;
                    let p1 = world.positions@[f]->0;
                    &&& world.positions@[f] is Some
                    &&& p1.x == p0.x + a.speed
                    &&& p1.y == p0.y
                    &&& p1.rot == turned_by(p0.rot as int, a.rot_speed as int)
                },
        decreases n - e,
    {
        match (world.positions[e], world.asteroids[e]) {
            (Some(p0), Some(a)) => {
                assert(w0.has(e as int, asteroid_selector()));
                let mut p = p0;
                step_asteroid(&mut p, a);
                world.positions.set(e, Some(p));
            },
            _ => {
                assert(!w0.has(e as int, asteroid_selector()));
            },
        }
        e = e + 1;
    }
}

/// The collision pass between asteroids and other entities: it detects and
/// resolves nothing yet, and leaves the store as it is.
pub fn collide_asteroids(world: &mut World)
    ensures
        final(world).positions@ == old(world).positions@,
        final(world).renderables@ == old(world).renderables@,
        final(world).players@ == old(world).players@,
        final(world).asteroids@ == old(world).asteroids@,
{
}

/// Heading of an asteroid that starts at `rot` after `n` ticks at turn speed `s`.
pub open spec fn rot_after(rot: int, s: int, n: nat) -> int
    decreases n,
{
    if n == 0 {
        rot
    } else {
        turned_by(rot_after(rot, s, (n - 1) as nat), s)
    }
}

/// Turning tick by tick is turning once by the sum, modulo a full turn.
pub proof fn lemma_rot_after(rot: int, s: int, n: nat)
    requires
        n > 0,
    ensures
        rot_after(rot, s, n) == (rot + n * s) % (FULL_TURN as int),
    decreases n,
{
    if n > 1 {
        lemma_rot_after(rot, s, (n - 1) as nat);
        let prev = rot + (n - 1) * s;
        lemma_add_mod_noop_right(s, prev, FULL_TURN as int);
        assert(s + prev == rot + n * s) by (nonlinear_arith)
            requires
                prev == rot + (n - 1) * s,
        ;
        assert(prev % (FULL_TURN as int) + s == s + prev % (FULL_TURN as int));
    } else {
        assert(n * s == s) by (nonlinear_arith)
            requires
                n == 1,
        ;
        assert(rot_after(rot, s, 0) == rot);
    }
}

/// An asteroid whose turns over `n` ticks add up to whole turns comes back
/// to the heading it started from.
pub proof fn lemma_full_cycle(rot: int, s: int, n: nat)
    requires
        0 <= rot < FULL_TURN,
        (n * s) % (FULL_TURN as int) == 0,
    ensures
        rot_after(rot, s, n) == rot,
{
    if n > 0 {
        lemma_rot_after(rot, s, n);
        lemma_add_mod_noop(rot, n * s, FULL_TURN as int);
        lemma_small_mod(rot as nat, FULL_TURN as nat);
    }
}

} // verus!
