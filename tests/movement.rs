use smart_road::components::{Component, Player, Position, Renderable};
use smart_road::game::{
    load_world, step_player, update, update_movement, wrap_coord, Controls, FIELD_WIDTH,
    MAX_SPEED,
};
use smart_road::keys::KeyTable;
use smart_road::vector::{limit_speed, Vec2};
use smart_road::world::World;

fn still() -> Player {
    Player { impulse: Vec2::zero(), cur_speed: Vec2::zero() }
}

fn sprite() -> Renderable {
    Renderable {
        tex_name: String::from("img/car2_test.png"),
        i_w: 50,
        i_h: 100,
        o_w: 50,
        o_h: 100,
        frame: 0,
        total_frames: 1,
        rot: 0,
    }
}

fn one_player(pos: Position, player: Player) -> World {
    let mut w = World::new();
    let e = w.create_entity();
    w.attach(e, Component::Position(pos));
    w.attach(e, Component::Renderable(sprite()));
    w.attach(e, Component::Player(player));
    w
}

fn north(_rot: i64) -> Vec2 {
    Vec2::new(0, 1000)
}

#[test]
fn idle_tick_keeps_position() {
    let mut w = one_player(Position { x: 401_000, y: 1_000, rot: 0 }, still());
    let keys = KeyTable::new();
    update(&mut w, &keys, north);
    assert_eq!(w.position(0), Some(Position { x: 401_000, y: 1_000, rot: 0 }));
    assert_eq!(w.player(0), Some(still()));
}

#[test]
fn thrust_is_felt_one_tick_later_and_limited() {
    let mut w = one_player(Position { x: 400_000, y: 400_000, rot: 0 }, still());
    let mut keys = KeyTable::new();
    keys.key_down(String::from("W"));
    update(&mut w, &keys, north);
    let p = w.player(0).unwrap();
    assert_eq!(p.cur_speed, Vec2::new(0, 0));
    assert_eq!(p.impulse, Vec2::new(0, 4500));
    assert_eq!(w.position(0).unwrap().y, 400_000);
    update(&mut w, &keys, north);
    let p = w.player(0).unwrap();
    assert_eq!(p.cur_speed, Vec2::new(0, 3500));
    assert_eq!(p.impulse, Vec2::new(0, 4500));
    assert_eq!(w.position(0).unwrap().y, 396_500);
}

#[test]
fn turning_past_full_circle_wraps() {
    let mut w = one_player(Position { x: 400_000, y: 400_000, rot: 359_000 }, still());
    let mut keys = KeyTable::new();
    keys.key_down(String::from("D"));
    update(&mut w, &keys, north);
    assert_eq!(w.position(0).unwrap().rot, 500);
    assert_eq!(w.renderable(0).unwrap().rot, 500);
}

#[test]
fn turning_below_zero_wraps() {
    let mut pos = Position { x: 0, y: 0, rot: 1_000 };
    let mut p = still();
    step_player(&mut pos, &mut p, Controls { right: false, left: true, thrust: false }, north(0));
    assert_eq!(pos.rot, 359_500);
}

#[test]
fn both_turn_keys_cancel() {
    let mut pos = Position { x: 0, y: 0, rot: 90_000 };
    let mut p = still();
    step_player(&mut pos, &mut p, Controls { right: true, left: true, thrust: false }, north(0));
    assert_eq!(pos.rot, 90_000);
}

#[test]
fn impulse_cleared_without_thrust() {
    let mut pos = Position { x: 100_000, y: 100_000, rot: 0 };
    let mut p = Player { impulse: Vec2::new(1000, -2000), cur_speed: Vec2::new(0, 0) };
    step_player(&mut pos, &mut p, Controls { right: false, left: false, thrust: false }, north(0));
    assert_eq!(p.impulse, Vec2::zero());
    assert_eq!(p.cur_speed, Vec2::new(1000, -2000));
    assert_eq!(pos, Position { x: 101_000, y: 102_000, rot: 0 });
}

#[test]
fn thrust_follows_heading() {
    let east = |rot: i64| {
        assert_eq!(rot, 90_000);
        Vec2::new(1000, 0)
    };
    let mut w = one_player(Position { x: 100_000, y: 100_000, rot: 88_500 }, still());
    let mut keys = KeyTable::new();
    keys.key_down(String::from("W"));
    keys.key_down(String::from("D"));
    update(&mut w, &keys, east);
    assert_eq!(w.player(0).unwrap().impulse, Vec2::new(4500, 0));
}

#[test]
fn speed_never_exceeds_limit() {
    let mut pos = Position { x: 400_000, y: 400_000, rot: 0 };
    let mut p = Player { impulse: Vec2::new(300_000, -400_000), cur_speed: Vec2::new(50_000, 0) };
    update_movement(&mut pos, &mut p);
    let v = p.cur_speed;
    assert!(v.x * v.x + v.y * v.y <= MAX_SPEED * MAX_SPEED);
    assert!(v.x > 0 && v.y < 0);
}

#[test]
fn friction_keeps_nine_tenths() {
    let mut pos = Position { x: 10_000, y: 10_000, rot: 0 };
    let mut p = Player { impulse: Vec2::zero(), cur_speed: Vec2::new(1000, -15) };
    update_movement(&mut pos, &mut p);
    assert_eq!(p.cur_speed, Vec2::new(900, -13));
    assert_eq!(pos, Position { x: 10_900, y: 10_013, rot: 0 });
}

#[test]
fn limiter_scales_long_vector() {
    assert_eq!(limit_speed(Vec2::new(3000, 4000), 3500), Vec2::new(2100, 2800));
    assert_eq!(limit_speed(Vec2::new(-3000, 4000), 3500), Vec2::new(-2100, 2800));
    assert_eq!(limit_speed(Vec2::new(2000, 2000), 3500), Vec2::new(2000, 2000));
    assert_eq!(limit_speed(Vec2::new(0, 4500), 3500), Vec2::new(0, 3500));
}

#[test]
fn wrap_brings_coordinates_onto_field() {
    assert_eq!(wrap_coord(-2_000, FIELD_WIDTH), 798_000);
    assert_eq!(wrap_coord(801_000, FIELD_WIDTH), 1_000);
    assert_eq!(wrap_coord(0, FIELD_WIDTH), 0);
    assert_eq!(wrap_coord(FIELD_WIDTH, FIELD_WIDTH), FIELD_WIDTH);
    assert_eq!(wrap_coord(-FIELD_WIDTH, FIELD_WIDTH), 0);
}

#[test]
fn player_leaving_left_edge_reappears_right() {
    let mut w = one_player(
        Position { x: 1_000, y: 500, rot: 0 },
        Player { impulse: Vec2::zero(), cur_speed: Vec2::new(-3000, 1000) },
    );
    update(&mut w, &KeyTable::new(), north);
    let pos = w.position(0).unwrap();
    assert_eq!(pos.x, 798_300);
    assert_eq!(pos.y, 799_600);
}

#[test]
fn idle_tick_is_a_no_op() {
    let start = Position { x: 123_000, y: 456_000, rot: 45_000 };
    let mut pos = start;
    let mut p = still();
    step_player(&mut pos, &mut p, Controls { right: false, left: false, thrust: false }, north(0));
    assert_eq!(pos, start);
    assert_eq!(p, still());
}

#[test]
fn entities_without_player_untouched() {
    let mut w = World::new();
    load_world(&mut w);
    let mut keys = KeyTable::new();
    keys.key_down(String::from("A"));
    update(&mut w, &keys, north);
    assert_eq!(w.position(0), Some(Position { x: 400_000, y: 400_000, rot: 0 }));
    assert_eq!(w.position(1), Some(Position { x: 400_000, y: 400_000, rot: 358_500 }));
    assert_eq!(w.position(2), Some(Position { x: 400_000, y: 235_000, rot: 45_000 }));
    assert_eq!(w.renderable(1).unwrap().rot, 358_500);
    assert_eq!(w.renderable(2).unwrap().rot, 0);
}

#[test]
fn integration_at_largest_speeds() {
    let mut pos = Position { x: 0, y: 0, rot: 0 };
    let big = 1_000_000_000;
    let mut p = Player { impulse: Vec2::new(big, big), cur_speed: Vec2::new(big, big) };
    update_movement(&mut pos, &mut p);
    assert_eq!(p.cur_speed, Vec2::new(2474, 2474));
    assert_eq!(pos, Position { x: 2474, y: -2474, rot: 0 });
}
