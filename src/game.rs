//! The movement system for input-driven entities, and the starting scene.
use vstd::prelude::*;
use crate::components::{Asteroid, Component, Player, Position, Renderable};
use crate::keys::KeyTable;
use crate::world::{Selector, World};
use crate::fixed::{mul_div, trunc_div, COORD_LIMIT, SCALE, SPEED_LIMIT};
use crate::vector::{lemma_limited_norm, limit_speed, limited, Vec2};

verus! {

/// Turn per tick while a turn key is held, in thousandths of a degree.
pub const ROTATION_SPEED: i64 = 1500;

/// Length of the push that the thrust key gives, in thousandths of a unit.
pub const PLAYER_SPEED: i64 = 4500;

/// Share of the velocity kept from one tick to the next: nine tenths.
pub const FRICTION_NUM: i64 = 9;

pub const FRICTION_DEN: i64 = 10;

/// Largest speed of a player, in thousandths of a unit per tick.
pub const MAX_SPEED: i64 = 3500;

/// A full turn, in thousandths of a degree.
pub const FULL_TURN: i64 = 360_000;

/// Width of the playfield in thousandths of a unit.
pub const FIELD_WIDTH: i64 = 800_000;

/// Height of the playfield in thousandths of a unit.
pub const FIELD_HEIGHT: i64 = 800_000;

/// The keys that steer a player during one tick.
#[derive(Clone, Copy, Debug, PartialEq, Eq, Structural)]
pub struct Controls {
    /// "D": turn clockwise.
    pub right: bool,
    /// "A": turn counter-clockwise.
    pub left: bool,
    /// "W": push forward.
    pub thrust: bool,
}

/// The keys held in `keys` that steer a player.
pub open spec fn controls_of(keys: Set<Seq<char>>) -> Controls {
    Controls {
        right: keys.contains(seq!['D']),
        left: keys.contains(seq!['A']),
        thrust: keys.contains(seq!['W']),
    }
}

impl Controls {
    /// Reads the steering keys from the key table.
    pub fn read(keys: &KeyTable) -> (r: Controls)
        ensures
            r == controls_of(keys@),
    {
        let d = "D".to_owned();
        let a = "A".to_owned();
        let w = "W".to_owned();
        proof {
            reveal_strlit("D");
            reveal_strlit("A");
            reveal_strlit("W");
            assert(d@ =~= seq!['D']);
            assert(a@ =~= seq!['A']);
            assert(w@ =~= seq!['W']);
        }
        Controls {
            right: keys.is_key_pressed(&d),
            left: keys.is_key_pressed(&a),
            thrust: keys.is_key_pressed(&w),
        }
    }
}

/// The component types that the movement system works on.
pub open spec fn player_selector() -> Selector {
    Selector { position: true, renderable: true, player: true, asteroid: false }
}

/// `r` drawn at the angle `rot`.
pub open spec fn with_rot(r: Renderable, rot: i64) -> Renderable {
    Renderable { rot, ..r }
}

/// `v` brought back into `[0, bound]` by at most one shift of `bound`.
pub open spec fn wrapped(v: int, bound: int) -> int {
    if v > bound {
        v - bound
    } else if v < 0 {
        v + bound
    } else {
        v
    }
}

/// Brings `v` back into `[0, bound]`: a value above `bound` loses `bound`,
/// a negative one gains it.
pub fn wrap_coord(v: i64, bound: i64) -> (r: i64)
    requires
        0 < bound <= SPEED_LIMIT,
        -2 * COORD_LIMIT <= v <= 2 * COORD_LIMIT,
    ensures
        r == wrapped(v as int, bound as int),
{
    if v > bound {
        v - bound
    } else if v < 0 {
        v + bound
    } else {
        v
    }
}

/// Heading after the turn keys of one tick.
pub open spec fn turned(rot: int, c: Controls) -> int {
    rot + (if c.right { ROTATION_SPEED as int } else { 0 }) - (if c.left {
        ROTATION_SPEED as int
    } else {
        0
    })
}

/// A heading above a full turn loses one; one below zero gains one.
pub open spec fn wrapped_angle(rot: int) -> int {
    wrapped(rot, FULL_TURN as int)
}

/// One velocity component after friction.
pub open spec fn damped(c: int) -> int {
    trunc_div(c * FRICTION_NUM, FRICTION_DEN as int)
}

/// One impulse component of the push along a heading component `h`, where
/// `h` is a sine or cosine in thousandths.
pub open spec fn thrust_of(h: int) -> int {
    trunc_div(PLAYER_SPEED * h, SCALE as int)
}

/// Velocity after friction and impulse, before the speed limit.
pub open spec fn raw_speed(q: Player) -> (int, int) {
    (damped(q.cur_speed.x as int) + q.impulse.x, damped(q.cur_speed.y as int) + q.impulse.y)
}

/// `v` is the velocity that integration makes of `q`.
pub open spec fn integrated(q: Player, v: Vec2) -> bool {
    let (sx, sy) = raw_speed(q);
    &&& v.x == limited(sx, sy, sx, MAX_SPEED as int)
    &&& v.y == limited(sx, sy, sy, MAX_SPEED as int)
}

/// Coordinates and heading lie in `[-limit, limit]`.
pub open spec fn position_within(p: Position, limit: int) -> bool {
    &&& -limit <= p.x <= limit
    &&& -limit <= p.y <= limit
    &&& -limit <= p.rot <= limit
}

/// Coordinates and heading lie where the systems can move them without overflow.
pub open spec fn position_in_range(p: Position) -> bool {
    position_within(p, COORD_LIMIT as int)
}

/// Velocity and impulse lie where integration cannot overflow.
pub open spec fn player_in_range(q: Player) -> bool {
    &&& q.cur_speed.bounded(SPEED_LIMIT as int)
    &&& q.impulse.bounded(SPEED_LIMIT as int)
}

/// One tick of the movement system takes `(p0, q0)` to `(p1, q1)` under the
/// keys `c`, where `h` is the heading (sine, cosine in thousandths) of the
/// turned angle.
pub open spec fn player_stepped(
    p0: Position,
    q0: Player,
    c: Controls,
    h: Vec2,
    p1: Position,
    q1: Player,
) -> bool {
    &&& integrated(q0, q1.cur_speed)
    &&& q1.impulse.x == (if c.thrust { thrust_of(h.x as int) } else { 0 })
    &&& q1.impulse.y == (if c.thrust { thrust_of(h.y as int) } else { 0 })
    &&& p1.rot == wrapped_angle(turned(p0.rot as int, c))
    &&& p1.x == wrapped(p0.x + q1.cur_speed.x, FIELD_WIDTH as int)
    &&& p1.y == wrapped(p0.y - q1.cur_speed.y, FIELD_HEIGHT as int)
}

/// Integrates one tick: friction, then the impulse, then the speed limit;
/// moves the position by the new velocity (y grows downward on screen) and
/// clears the impulse.
pub fn update_movement(pos: &mut Position, player: &mut Player)
    requires
        position_within(*old(pos), 2 * COORD_LIMIT),
        player_in_range(*old(player)),
    ensures
        integrated(*old(player), final(player).cur_speed),
        final(player).cur_speed.norm_sq() <= MAX_SPEED * MAX_SPEED,
        final(player).cur_speed.bounded(MAX_SPEED as int),
        final(player).impulse == (Vec2 { x: 0, y: 0 }),
        final(pos).x == old(pos).x + final(player).cur_speed.x,
        final(pos).y == old(pos).y - final(player).cur_speed.y,
        final(pos).rot == old(pos).rot,
{
    let kx = mul_div(player.cur_speed.x, FRICTION_NUM, FRICTION_DEN);
    let ky = mul_div(player.cur_speed.y, FRICTION_NUM, FRICTION_DEN);
    let raw = Vec2::new(kx + player.impulse.x, ky + player.impulse.y);
    player.cur_speed = limit_speed(raw, MAX_SPEED);
    pos.x = pos.x + player.cur_speed.x;
    pos.y = pos.y - player.cur_speed.y;
    player.impulse = Vec2::zero();
}

/// One tick of the movement system for one entity: turn, integrate, push
/// along `heading` where thrust is held, wrap the heading and the position.
pub fn step_player(pos: &mut Position, player: &mut Player, c: Controls, heading: Vec2)
    requires
        position_in_range(*old(pos)),
        player_in_range(*old(player)),
        heading.bounded(SCALE as int),
    ensures
        player_stepped(*old(pos), *old(player), c, heading, *final(pos), *final(player)),
        player_in_range(*final(player)),
        final(player).cur_speed.norm_sq() <= MAX_SPEED * MAX_SPEED,
{
    if c.right {
        pos.rot = pos.rot + ROTATION_SPEED;
    }
    if c.left {
        pos.rot = pos.rot - ROTATION_SPEED;
    }
    update_movement(pos, player);
    if c.thrust {
        let push = Vec2::new(
            mul_div(heading.x, PLAYER_SPEED, SCALE),
            mul_div(heading.y, PLAYER_SPEED, SCALE),
        );
        proof {
            assert(-4_500_000 <= heading.x * PLAYER_SPEED <= 4_500_000) by (nonlinear_arith)
                requires
                    -1000 <= heading.x <= 1000,
            ;
            assert(-4_500_000 <= heading.y * PLAYER_SPEED <= 4_500_000) by (nonlinear_arith)
                requires
                    -1000 <= heading.y <= 1000,
            ;
            assert(heading.x * PLAYER_SPEED == PLAYER_SPEED * heading.x);
            assert(heading.y * PLAYER_SPEED == PLAYER_SPEED * heading.y);
        }
        player.impulse = Vec2::new(player.impulse.x + push.x, player.impulse.y + push.y);
    }
    pos.rot = wrap_coord(pos.rot, FULL_TURN);
    pos.x = wrap_coord(pos.x, FIELD_WIDTH);
    pos.y = wrap_coord(pos.y, FIELD_HEIGHT);
}

/// Runs the movement system once over every entity that owns a position, a
/// render record and a player record. `heading` gives, for an angle in
/// thousandths of a degree, its sine and cosine in thousandths; it is asked
/// only where thrust is held. The render record takes the new heading.
pub fn update<F: Fn(i64) -> Vec2>(world: &mut World, keys: &KeyTable, heading: F)
    requires
        old(world).wf(),
        forall|r: i64| heading.requires((r,)),
        forall|r: i64, h: Vec2| heading.ensures((r,), h) ==> h.bounded(SCALE as int),
        forall|e: int|
            #![trigger old(world).positions@[e]]
            old(world).has(e, player_selector()) ==> position_in_range(
                old(world).positions@[e]->0,
            ) && player_in_range(old(world).players@[e]->0),
    ensures
        final(world).wf(),
        final(world).len() == old(world).len(),
        final(world).asteroids@ == old(world).asteroids@,
        forall|e: int|
            #![trigger final(world).positions@[e]]
            0 <= e < old(world).len() && !old(world).has(e, player_selector()) ==> {
                &&& final(world).positions@[e] == old(world).positions@[e]
                &&& final(world).players@[e] == old(world).players@[e]
                &&& final(world).renderables@[e] == old(world).renderables@[e]
            },
        forall|e: int|
            #![trigger final(world).positions@[e]]
            old(world).has(e, player_selector()) ==> {
                let p0 = old(world).positions@[e]->0;
                let q0 = old(world).players@[e]->0;
                let p1 = final(world).positions@[e]->0;
                let q1 = final(world).players@[e]->0;
                let c = controls_of(keys@);
                &&& final(world).has(e, player_selector())
                &&& final(world).renderables@[e]->0 == with_rot(old(world).renderables@[e]->0, p1.rot)
                &&& exists|h: Vec2|
                    (c.thrust ==> heading.ensures((turned(p0.rot as int, c) as i64,), h))
                        && #[trigger] player_stepped(p0, q0, c, h, p1, q1)
            },
{
    let c = Controls::read(keys);
    let ghost w0: World = *world;
    let n = world.positions.len();
    let mut e: usize = 0;
    while e < n
        invariant
            w0 == *old(world),
            n == w0.len(),
            world.wf(),
            world.len() == n,
            0 <= e <= n,
            c == controls_of(keys@),
            forall|r: i64| heading.requires((r,)),
            forall|r: i64, h: Vec2| heading.ensures((r,), h) ==> h.bounded(SCALE as int),
            forall|f: int|
                #![trigger w0.positions@[f]]
                w0.has(f, player_selector()) ==> position_in_range(w0.positions@[f]->0)
                    && player_in_range(w0.players@[f]->0),
            world.asteroids@ == w0.asteroids@,
            forall|f: int| e <= f < n ==> #[trigger] world.positions@[f] == w0.positions@[f],
            forall|f: int| e <= f < n ==> #[trigger] world.players@[f] == w0.players@[f],
            forall|f: int| e <= f < n ==> #[trigger] world.renderables@[f] == w0.renderables@[f],
            forall|f: int| 0 <= f < e && !w0.has(f, player_selector()) ==> #[trigger] world.positions@[f] == w0.positions@[f],
            forall|f: int| 0 <= f < e && !w0.has(f, player_selector()) ==> #[trigger] world.players@[f] == w0.players@[f],
            forall|f: int| 0 <= f < e && !w0.has(f, player_selector()) ==> #[trigger] world.renderables@[f] == w0.renderables@[f],
            forall|f: int|
                #![trigger world.positions@[f]]
                0 <= f < e && w0.has(f, player_selector()) ==> {
                    let p0 = w0.positions@[f]->0;
                    let q0 = w0.players@[f]->0;
                    let p1 = world.positions@[f]->0;
                    let q1 = world.players@[f]->0;
                    &&& world.has(f, player_selector())
                    &&& world.renderables@[f]->0 == with_rot(w0.renderables@[f]->0, p1.rot)
                    &&& exists|h: Vec2|
                        (c.thrust ==> heading.ensures((turned(p0.rot as int, c) as i64,), h))
                            && #[trigger] player_stepped(p0, q0, c, h, p1, q1)
                },
        decreases n - e,
    {
        let pos_slot = world.positions[e];
        let player_slot = world.players[e];
        let drawn = world.renderables[e].is_some();
        assert(world.positions@[e as int] == w0.positions@[e as int]);
        match (pos_slot, player_slot) {
            (Some(p0), Some(q0)) => {
                if drawn {
                    assert(w0.has(e as int, player_selector()));
                    let mut p = p0;
                    let mut q = q0;
                    let h = if c.thrust {
                        let mut rot = p.rot;
                        if c.right {
                            rot = rot + ROTATION_SPEED;
                        }
                        if c.left {
                            rot = rot - ROTATION_SPEED;
                        }
                        heading(rot)
                    } else {
                        Vec2::zero()
                    };
                    step_player(&mut p, &mut q, c, h);
                    world.positions.set(e, Some(p));
                    world.players.set(e, Some(q));
                    match &mut world.renderables[e] {
                        Some(r) => {
                            r.rot = p.rot;
                        },
                        None => {},
                    }
                    assert(world.renderables@[e as int]->0 == with_rot(
                        w0.renderables@[e as int]->0,
                        p.rot,
                    ));
                    assert(player_stepped(p0, q0, c, h, p, q));
                    assert(world.positions@[e as int]->0 == p);
                    assert(world.players@[e as int]->0 == q);
                    assert(c.thrust ==> heading.ensures((turned(p0.rot as int, c) as i64,), h));
                } else {
                    assert(!w0.has(e as int, player_selector()));
                }
            },
            _ => {
                assert(!w0.has(e as int, player_selector()));
            },
        }
        e = e + 1;
    }
}

/// `r` draws the whole `i_w` by `i_h` texture `name` at `o_w` by `o_h`, with
/// one frame, at angle zero.
pub open spec fn sprite_of(r: Renderable, name: Seq<char>, i_w: u32, i_h: u32, o_w: u32, o_h: u32) -> bool {
    &&& r.tex_name@ == name
    &&& r.i_w == i_w
    &&& r.i_h == i_h
    &&& r.o_w == o_w
    &&& r.o_h == o_h
    &&& r.frame == 0
    &&& r.total_frames == 1
    &&& r.rot == 0
}

fn sprite(name: &str, i_w: u32, i_h: u32, o_w: u32, o_h: u32) -> (r: Renderable)
    ensures
        sprite_of(r, name@, i_w, i_h, o_w, o_h),
{
    Renderable { tex_name: name.to_owned(), i_w, i_h, o_w, o_h, frame: 0, total_frames: 1, rot: 0 }
}

/// Adds the starting scene: a background at the centre, the player's vehicle
/// at rest at the centre, and one asteroid above it.
pub fn load_world(world: &mut World)
    requires
        old(world).wf(),
        old(world).len() + 3 <= usize::MAX,
    ensures
        final(world).wf(),
        final(world).len() == old(world).len() + 3,
        final(world).positions@ == old(world).positions@ + seq![
            Some(Position { x: 400_000, y: 400_000, rot: 0 }),
            Some(Position { x: 400_000, y: 400_000, rot: 0 }),
            Some(Position { x: 400_000, y: 235_000, rot: 45_000 }),
        ],
        final(world).players@ == old(world).players@ + seq![
            None,
            Some(Player { impulse: Vec2 { x: 0, y: 0 }, cur_speed: Vec2 { x: 0, y: 0 } }),
            None,
        ],
        final(world).asteroids@ == old(world).asteroids@ + seq![
            None,
            None,
            Some(Asteroid { speed: 2500, rot_speed: 500 }),
        ],
        final(world).renderables@.subrange(0, old(world).len() as int) == old(world).renderables@,
        sprite_of(
            final(world).renderables@[old(world).len() as int]->0,
            "img/intersection_road_test.png"@,
            800,
            800,
            800,
            800,
        ),
        sprite_of(
            final(world).renderables@[old(world).len() + 1int]->0,
            "img/car2_test.png"@,
            50,
            100,
            50,
            100,
        ),
        sprite_of(
            final(world).renderables@[old(world).len() + 2int]->0,
            "img/asteroid.png"@,
            100,
            100,
            50,
            50,
        ),
        (final(world).renderables@[old(world).len() as int] is Some),
        (final(world).renderables@[old(world).len() + 1int] is Some),
        (final(world).renderables@[old(world).len() + 2int] is Some),
{
    let background = world.create_entity();
    world.attach(background, Component::Position(Position { x: 400_000, y: 400_000, rot: 0 }));
    world.attach(
        background,
        Component::Renderable(sprite("img/intersection_road_test.png", 800, 800, 800, 800)),
    );

    let car = world.create_entity();
    world.attach(car, Component::Position(Position { x: 400_000, y: 400_000, rot: 0 }));
    world.attach(car, Component::Renderable(sprite("img/car2_test.png", 50, 100, 50, 100)));
    world.attach(car, Component::Player(Player { impulse: Vec2::zero(), cur_speed: Vec2::zero() }));

    let rock = world.create_entity();
    world.attach(rock, Component::Position(Position { x: 400_000, y: 235_000, rot: 45_000 }));
    world.attach(rock, Component::Renderable(sprite("img/asteroid.png", 100, 100, 50, 50)));
    world.attach(rock, Component::Asteroid(Asteroid { speed: 2500, rot_speed: 500 }));
    assert(world.positions@ =~= old(world).positions@ + seq![
        Some(Position { x: 400_000, y: 400_000, rot: 0 }),
        Some(Position { x: 400_000, y: 400_000, rot: 0 }),
        Some(Position { x: 400_000, y: 235_000, rot: 45_000 }),
    ]);
    assert(world.players@ =~= old(world).players@ + seq![
        None,
        Some(Player { impulse: Vec2 { x: 0, y: 0 }, cur_speed: Vec2 { x: 0, y: 0 } }),
        None,
    ]);
    assert(world.asteroids@ =~= old(world).asteroids@ + seq![
        None,
        None,
        Some(Asteroid { speed: 2500, rot_speed: 500 }),
    ]);
    assert(world.renderables@.subrange(0, old(world).len() as int) =~= old(world).renderables@);
}

/// After a tick the impulse is zero unless thrust was held; with thrust held
/// it is the push of length `PLAYER_SPEED` along the heading.
pub proof fn lemma_impulse_transient(
    p0: Position,
    q0: Player,
    c: Controls,
    h: Vec2,
    p1: Position,
    q1: Player,
)
    requires
        player_stepped(p0, q0, c, h, p1, q1),
    ensures
        !c.thrust ==> q1.impulse == (Vec2 { x: 0, y: 0 }),
        c.thrust ==> q1.impulse.x == thrust_of(h.x as int) && q1.impulse.y == thrust_of(h.y as int),
{
}

/// After a tick the velocity is never longer than `MAX_SPEED`.
pub proof fn lemma_speed_limited(p0: Position, q0: Player, c: Controls, h: Vec2, p1: Position, q1: Player)
    requires
        player_stepped(p0, q0, c, h, p1, q1),
    ensures
        q1.cur_speed.norm_sq() <= MAX_SPEED * MAX_SPEED,
{
    let (sx, sy) = raw_speed(q0);
    if sx * sx + sy * sy > MAX_SPEED * MAX_SPEED {
        lemma_limited_norm(sx, sy, MAX_SPEED as int);
    }
}

/// Where the moved coordinates lie within one field's length of the field
/// (and not exactly on its far edge), the wrap brings them onto the field.
pub proof fn lemma_position_on_field(
    p0: Position,
    q0: Player,
    c: Controls,
    h: Vec2,
    p1: Position,
    q1: Player,
)
    requires
        player_stepped(p0, q0, c, h, p1, q1),
        -FIELD_WIDTH <= p0.x + q1.cur_speed.x < 2 * FIELD_WIDTH,
        p0.x + q1.cur_speed.x != FIELD_WIDTH,
        -FIELD_HEIGHT <= p0.y - q1.cur_speed.y < 2 * FIELD_HEIGHT,
        p0.y - q1.cur_speed.y != FIELD_HEIGHT,
    ensures
        0 <= p1.x < FIELD_WIDTH,
        0 <= p1.y < FIELD_HEIGHT,
{
}

/// With no key held and the vehicle at rest and unpushed, a tick leaves a
/// position on the field, and the player record, as they were.
pub proof fn lemma_idle_is_still(p0: Position, q0: Player, h: Vec2, p1: Position, q1: Player)
    requires
        player_stepped(p0, q0, Controls { right: false, left: false, thrust: false }, h, p1, q1),
        q0.cur_speed == (Vec2 { x: 0, y: 0 }),
        q0.impulse == (Vec2 { x: 0, y: 0 }),
        0 <= p0.x <= FIELD_WIDTH,
        0 <= p0.y <= FIELD_HEIGHT,
        0 <= p0.rot <= FULL_TURN,
    ensures
        p1 == p0,
        q1 == q0,
{
    assert(damped(0) == 0);
    assert(raw_speed(q0) == (0int, 0int));
    assert(limited(0, 0, 0, MAX_SPEED as int) == 0);
}

} // verus!
