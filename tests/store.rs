use smart_road::asteroid::{angle_mod, collide_asteroids, move_asteroids, step_asteroid};
use smart_road::components::{Asteroid, Component, Player, Position};
use smart_road::fixed::{ceil_sqrt_u64, mul_div};
use smart_road::game::load_world;
use smart_road::keys::KeyTable;
use smart_road::vector::Vec2;
use smart_road::world::{Selector, World};

#[test]
fn load_world_builds_scene() {
    let mut w = World::new();
    load_world(&mut w);
    assert_eq!(w.entity_count(), 3);
    assert_eq!(w.renderable(0).unwrap().tex_name, "img/intersection_road_test.png");
    assert_eq!(w.renderable(1).unwrap().tex_name, "img/car2_test.png");
    assert_eq!(w.renderable(2).unwrap().tex_name, "img/asteroid.png");
    assert_eq!(w.renderable(2).unwrap().o_w, 50);
    assert_eq!(w.renderable(2).unwrap().i_w, 100);
    assert_eq!(w.player(1), Some(Player { impulse: Vec2::zero(), cur_speed: Vec2::zero() }));
    assert_eq!(w.player(0), None);
    assert_eq!(w.asteroid(2), Some(Asteroid { speed: 2500, rot_speed: 500 }));
    assert_eq!(w.position(2), Some(Position { x: 400_000, y: 235_000, rot: 45_000 }));
    assert_eq!(w.position(3), None);
}

#[test]
fn join_yields_only_full_matches() {
    let mut w = World::new();
    load_world(&mut w);
    let drawn = Selector { position: true, renderable: true, player: false, asteroid: false };
    assert_eq!(w.join(drawn), vec![0, 1, 2]);
    let players = Selector { position: true, renderable: true, player: true, asteroid: false };
    assert_eq!(w.join(players), vec![1]);
    let rocks = Selector { position: true, renderable: false, player: false, asteroid: true };
    assert_eq!(w.join(rocks), vec![2]);
    let both = Selector { position: false, renderable: false, player: true, asteroid: true };
    assert_eq!(w.join(both), Vec::<usize>::new());
}

#[test]
fn attach_replaces_component() {
    let mut w = World::new();
    let e = w.create_entity();
    assert_eq!(w.position(e), None);
    w.attach(e, Component::Position(Position { x: 1, y: 2, rot: 3 }));
    w.attach(e, Component::Position(Position { x: 4, y: 5, rot: 6 }));
    assert_eq!(w.position(e), Some(Position { x: 4, y: 5, rot: 6 }));
    w.maintain();
    assert_eq!(w.entity_count(), 1);
}

#[test]
fn asteroid_drifts_right_and_turns() {
    let mut w = World::new();
    load_world(&mut w);
    move_asteroids(&mut w);
    collide_asteroids(&mut w);
    assert_eq!(w.position(2), Some(Position { x: 402_500, y: 235_000, rot: 45_500 }));
    assert_eq!(w.position(1), Some(Position { x: 400_000, y: 400_000, rot: 0 }));
}

#[test]
fn asteroid_full_turn_after_720_ticks() {
    let a = Asteroid { speed: 0, rot_speed: 500 };
    let mut pos = Position { x: 0, y: 0, rot: 45_000 };
    for _ in 0..720 {
        step_asteroid(&mut pos, a);
    }
    assert_eq!(pos.rot, 45_000);
}

#[test]
fn asteroid_turn_wraps_both_ways() {
    assert_eq!(angle_mod(360_200), 200);
    assert_eq!(angle_mod(-500), 359_500);
    assert_eq!(angle_mod(-360_000), 0);
    assert_eq!(angle_mod(0), 0);
}

#[test]
fn keys_go_down_and_up() {
    let mut k = KeyTable::new();
    let w = String::from("W");
    assert!(!k.is_key_pressed(&w));
    k.key_down(String::from("W"));
    k.key_down(String::from("W"));
    k.key_down(String::from("A"));
    assert!(k.is_key_pressed(&w));
    k.key_up(&w);
    assert!(!k.is_key_pressed(&w));
    assert!(k.is_key_pressed(&String::from("A")));
}

#[test]
fn fixed_point_helpers() {
    assert_eq!(mul_div(-15, 9, 10), -13);
    assert_eq!(mul_div(15, 9, 10), 13);
    assert_eq!(ceil_sqrt_u64(0), 0);
    assert_eq!(ceil_sqrt_u64(25), 5);
    assert_eq!(ceil_sqrt_u64(26), 6);
    assert_eq!(ceil_sqrt_u64(16_000_000_000_000_000_000), 4_000_000_000);
}
