use aknit::bonus::{Bonus, BonusType, Effect};
use aknit::config::{SimConfig, GROUND_Y, TICK};
use aknit::display::{is_on_top, Screen};
use aknit::factory::{Factory, MAX_COOLDOWN};
use aknit::game::{Game, Scene};
use aknit::geometry::{floor_div, is_closer_than, Vec2};
use aknit::mutation::{remove_expired, update_mutation_list, Mutation};
use aknit::particles::{update_blood, update_texts, Blood, BonusText};
use aknit::player::{Controls, Facing, Player, PlayerAnimationStatus, PlayerType, Tint};
use aknit::ui::Fps;

const UP1: u32 = 1;
const LEFT1: u32 = 2;
const RIGHT1: u32 = 3;
const UP2: u32 = 4;
const LEFT2: u32 = 5;
const RIGHT2: u32 = 6;
const CONFIRM: u32 = 7;
const CREDITS: u32 = 8;

fn controls1() -> Controls {
    Controls { up: UP1, left: LEFT1, right: RIGHT1 }
}

fn controls2() -> Controls {
    Controls { up: UP2, left: LEFT2, right: RIGHT2 }
}

fn player() -> Player {
    Player::new(controls1(), PlayerType::Player1)
}

fn game_scene() -> Game {
    let mut g = Game::new(controls1(), controls2(), CONFIRM, CREDITS);
    g.key_down(CONFIRM);
    assert_eq!(g.scene, Scene::Game);
    g
}

fn freeze() -> Mutation {
    Mutation { duration: 2_000_000, size_factor: 1000, velocity_factor: Vec2::new(0, 0), active: true }
}

fn speed() -> Mutation {
    Mutation { duration: 7_500_000, size_factor: 1000, velocity_factor: Vec2::new(2000, 1500), active: true }
}

#[test]
fn new_players_start_apart_on_the_ground() {
    let p1 = Player::new(controls1(), PlayerType::Player1);
    let p2 = Player::new(controls2(), PlayerType::Player2);
    assert_eq!(p1.position, Vec2::new(250_000, GROUND_Y));
    assert_eq!(p2.position, Vec2::new(-250_000, GROUND_Y));
    assert_eq!(p1.facing, Facing::Left);
    assert_eq!(p2.facing, Facing::Right);
    assert_eq!(p1.cbox_size, Vec2::new(55_000, 75_000));
    assert_eq!(p1.score, 0);
}

#[test]
fn airborne_player_falls_by_the_gravity_step() {
    let cfg = SimConfig::standard();
    let mut p = player();
    p.position = Vec2::new(0, 0);
    p.velocity = Vec2::new(0, 0);
    let jumped = p.update_position(&cfg);
    assert!(!jumped);
    // 16667 us * 1.0 units/s / 20, in millionths of a unit
    assert_eq!(p.velocity.y, -833);
    assert_eq!(p.position.y, -833);
    p.update_position(&cfg);
    assert_eq!(p.velocity.y, -1666);
    assert_eq!(p.position.y, -2499);
}

#[test]
fn falling_player_stops_at_the_ground() {
    let cfg = SimConfig::standard();
    let mut p = player();
    p.position = Vec2::new(0, GROUND_Y + 10_000);
    p.velocity = Vec2::new(0, -50_000);
    p.update_position(&cfg);
    assert_eq!(p.position.y, GROUND_Y);
    assert!(p.position.y >= GROUND_Y);
}

#[test]
fn grounded_player_without_input_stays_put() {
    let cfg = SimConfig::standard();
    let mut p = player();
    let start = p.position;
    for _ in 0..10 {
        p.update_position(&cfg);
    }
    assert_eq!(p.velocity, Vec2::new(0, 0));
    assert_eq!(p.position, start);
}

#[test]
fn grounded_player_jumps_and_moves() {
    let cfg = SimConfig::standard();
    let mut p = player();
    p.position = Vec2::new(0, GROUND_Y);
    p.press(UP1);
    p.press(RIGHT1);
    assert_eq!(p.facing, Facing::Right);
    let jumped = p.update_position(&cfg);
    assert!(jumped);
    assert_eq!(p.velocity, Vec2::new(3333, 16_667));
    assert_eq!(p.position, Vec2::new(3333, GROUND_Y + 16_667));
}

#[test]
fn frozen_player_cannot_jump_but_still_falls() {
    let cfg = SimConfig::standard();
    let mut p = player();
    p.mutations.push(freeze());
    p.press(UP1);
    p.press(LEFT1);
    let jumped = p.update_position(&cfg);
    assert!(!jumped);
    assert_eq!(p.velocity, Vec2::new(0, 0));
    p.position = Vec2::new(0, 0);
    p.velocity = Vec2::new(0, 5_000);
    p.update_position(&cfg);
    assert_eq!(p.velocity.y, -833);
}

#[test]
fn wrap_teleports_across_the_playfield() {
    let cfg = SimConfig::standard();
    let mut p = player();
    p.position = Vec2::new(500_100, GROUND_Y);
    p.update_position(&cfg);
    assert_eq!(p.position.x, -499_900);
    p.position = Vec2::new(-500_100, GROUND_Y);
    p.update_position(&cfg);
    assert_eq!(p.position.x, 499_900);
    p.position = Vec2::new(499_000, GROUND_Y);
    p.press(RIGHT1);
    p.update_position(&cfg);
    assert_eq!(p.position.x, 499_000 + 3333 - 1_000_000);
    assert_eq!(p.velocity.x, 3333);
}

#[test]
fn mutation_factors_multiply() {
    let mut p = player();
    assert_eq!(p.max_velocity_mutated(), Vec2::new(200_000, 1_000_000));
    p.mutations.push(speed());
    assert_eq!(p.max_velocity_mutated(), Vec2::new(400_000, 1_500_000));
    p.mutations.push(speed());
    assert_eq!(p.max_velocity_mutated(), Vec2::new(800_000, 2_250_000));
    p.mutations.push(freeze());
    assert_eq!(p.max_velocity_mutated(), Vec2::new(0, 0));
}

#[test]
fn mutation_order_does_not_change_whole_factors() {
    let mut a = player();
    let mut b = player();
    let double = Mutation { duration: 1, size_factor: 2000, velocity_factor: Vec2::new(2000, 3000), active: true };
    let triple = Mutation { duration: 1, size_factor: 3000, velocity_factor: Vec2::new(3000, 1000), active: true };
    a.mutations.push(double);
    a.mutations.push(triple);
    b.mutations.push(triple);
    b.mutations.push(double);
    assert_eq!(a.max_velocity_mutated(), b.max_velocity_mutated());
    assert_eq!(a.max_velocity_mutated(), Vec2::new(1_200_000, 3_000_000));
    assert_eq!(a.cbox_size_mutated(), Vec2::new(330_000, 450_000));
}

#[test]
fn mutation_factors_multiply_exactly_in_any_order() {
    let half_more = Mutation { duration: 1, size_factor: 1000, velocity_factor: Vec2::new(1500, 1500), active: true };
    let double = Mutation { duration: 1, size_factor: 1000, velocity_factor: Vec2::new(2000, 1000), active: true };
    let mut a = player();
    a.max_velocity = Vec2::new(1, 1);
    a.mutations = vec![half_more, double];
    let mut b = player();
    b.max_velocity = Vec2::new(1, 1);
    b.mutations = vec![double, half_more];
    assert_eq!(a.max_velocity_mutated(), Vec2::new(3, 1));
    assert_eq!(b.max_velocity_mutated(), Vec2::new(3, 1));
    let mut c = player();
    c.mutations = vec![speed(), speed(), speed()];
    assert_eq!(c.max_velocity_mutated(), Vec2::new(1_600_000, 3_375_000));
}

#[test]
fn long_mutation_lists_saturate_without_overflow() {
    let mut p = player();
    for _ in 0..60 {
        p.mutations.push(speed());
    }
    assert_eq!(p.max_velocity_mutated(), Vec2::new(1_000_000_000_000, 1_000_000_000_000));
    let shrink = Mutation { duration: 1, size_factor: 1000, velocity_factor: Vec2::new(1, 1), active: true };
    for _ in 0..60 {
        p.mutations.push(shrink);
    }
    let v = p.max_velocity_mutated();
    assert_eq!(v, Vec2::new(0, 0));
}

#[test]
fn inactive_mutations_do_not_count() {
    let mut p = player();
    let mut m = speed();
    m.active = false;
    p.mutations.push(m);
    assert_eq!(p.max_velocity_mutated(), Vec2::new(200_000, 1_000_000));
    p.update_mutations(TICK);
    assert_eq!(p.mutations[0].duration, 7_500_000);
}

#[test]
fn mutations_count_down_and_expire() {
    let mut ms = vec![
        Mutation { duration: 10_000, ..speed() },
        Mutation { duration: 20_000, ..freeze() },
    ];
    update_mutation_list(&mut ms, TICK);
    assert_eq!(ms.len(), 1);
    assert_eq!(ms[0].duration, 20_000 - TICK);
    assert_eq!(ms[0].velocity_factor, Vec2::new(0, 0));
    update_mutation_list(&mut ms, TICK);
    assert!(ms.is_empty());
}

#[test]
fn removing_expired_twice_changes_nothing_more() {
    let mut ms = vec![
        Mutation { duration: 0, ..speed() },
        Mutation { duration: 5, ..freeze() },
        Mutation { duration: -3, ..freeze() },
    ];
    remove_expired(&mut ms);
    let once = ms.clone();
    remove_expired(&mut ms);
    assert_eq!(ms, once);
    assert_eq!(ms.len(), 1);
    assert_eq!(ms[0].duration, 5);
}

#[test]
fn effects_of_each_bonus_type() {
    assert_eq!(BonusType::GiveOnePoint.effect(), Effect::ScoreDelta(1));
    assert_eq!(BonusType::GiveFivePoint.effect(), Effect::ScoreDelta(5));
    assert_eq!(BonusType::Velocity2.effect(), Effect::TimedMutation(speed()));
    assert_eq!(BonusType::Freeze.effect(), Effect::TimedMutation(freeze()));
    assert_eq!(BonusType::from_index(0), BonusType::GiveOnePoint);
    assert_eq!(BonusType::from_index(3), BonusType::Freeze);
}

#[test]
fn bonus_labels() {
    assert_eq!(BonusType::GiveOnePoint.text(), "score +1");
    assert_eq!(BonusType::GiveFivePoint.text(), "score +5");
    assert_eq!(BonusType::Velocity2.text(), "speed x2");
    assert_eq!(BonusType::Freeze.text(), "freeze");
    let b = Bonus::new(BonusType::Freeze, Vec2::new(0, 0), Vec2::new(0, 0));
    assert_eq!(b.description(), "freeze");
}

#[test]
fn apply_scores_or_returns_a_mutation() {
    let mut p = player();
    let one = Bonus::new(BonusType::GiveOnePoint, Vec2::new(0, 0), Vec2::new(0, 0));
    assert_eq!(one.apply(&mut p), None);
    assert_eq!(p.score, 1);
    let five = Bonus::new(BonusType::GiveFivePoint, Vec2::new(0, 0), Vec2::new(0, 0));
    assert_eq!(five.apply(&mut p), None);
    assert_eq!(p.score, 6);
    let fr = Bonus::new(BonusType::Freeze, Vec2::new(0, 0), Vec2::new(0, 0));
    assert_eq!(fr.apply(&mut p), Some(freeze()));
    assert_eq!(p.score, 6);
    p.score = u32::MAX - 2;
    five.apply(&mut p);
    assert_eq!(p.score, u32::MAX);
}

fn placed(g: &mut Game, a: Vec2, b: Vec2) {
    g.players[0].position = a;
    g.players[1].position = b;
}

#[test]
fn one_point_bonus_pickup_scores_and_removes_it() {
    let cfg = SimConfig::standard();
    let mut g = game_scene();
    placed(&mut g, Vec2::new(100_000, GROUND_Y), Vec2::new(-300_000, GROUND_Y));
    g.bonuses.push(Bonus::new(BonusType::GiveOnePoint, Vec2::new(110_000, GROUND_Y), Vec2::new(0, 0)));
    g.bonuses.push(Bonus::new(BonusType::GiveFivePoint, Vec2::new(0, 400_000), Vec2::new(0, 0)));
    let (kill, pickups) = g.resolve_collisions(&cfg);
    assert_eq!(kill, None);
    assert_eq!(pickups, vec![(0, BonusType::GiveOnePoint)]);
    assert_eq!(g.players[0].score, 1);
    assert_eq!(g.players[1].score, 0);
    assert_eq!(g.bonuses.len(), 1);
    assert_eq!(g.bonuses[0].tag, BonusType::GiveFivePoint);
    assert_eq!(g.bonuses_text.len(), 1);
    assert_eq!(g.bonuses_text[0].text(), "score +1");
    assert_eq!(g.bonuses_text[0].position, Vec2::new(110_000, GROUND_Y));
}

#[test]
fn freeze_bonus_pickup_adds_a_still_mutation() {
    let cfg = SimConfig::standard();
    let mut g = game_scene();
    placed(&mut g, Vec2::new(100_000, GROUND_Y), Vec2::new(-300_000, GROUND_Y));
    g.bonuses.push(Bonus::new(BonusType::Freeze, Vec2::new(-290_000, GROUND_Y), Vec2::new(0, 0)));
    let (_, pickups) = g.resolve_collisions(&cfg);
    assert_eq!(pickups, vec![(1, BonusType::Freeze)]);
    assert_eq!(g.players[1].score, 0);
    assert_eq!(g.players[1].mutations, vec![freeze()]);
    assert_eq!(g.players[1].max_velocity_mutated(), Vec2::new(0, 0));
    assert_eq!(g.players[1].tint(), Tint::Frozen);
    assert!(g.bonuses.is_empty());
}

#[test]
fn bonus_at_the_collision_radius_is_not_picked() {
    let cfg = SimConfig::standard();
    let mut g = game_scene();
    placed(&mut g, Vec2::new(0, GROUND_Y), Vec2::new(-300_000, GROUND_Y));
    g.bonuses.push(Bonus::new(BonusType::GiveOnePoint, Vec2::new(55_000, GROUND_Y), Vec2::new(0, 0)));
    g.resolve_collisions(&cfg);
    assert_eq!(g.players[0].score, 0);
    assert_eq!(g.bonuses.len(), 1);
}

#[test]
fn bonus_in_reach_of_both_goes_to_the_first_player() {
    let cfg = SimConfig::standard();
    let mut g = game_scene();
    placed(&mut g, Vec2::new(0, GROUND_Y), Vec2::new(60_000, GROUND_Y));
    g.bonuses.push(Bonus::new(BonusType::GiveFivePoint, Vec2::new(30_000, GROUND_Y), Vec2::new(0, 0)));
    g.resolve_collisions(&cfg);
    assert_eq!(g.players[0].score, 5);
    assert_eq!(g.players[1].score, 0);
}

#[test]
fn kill_from_above_scores_and_respawns() {
    let cfg = SimConfig::standard();
    let mut g = game_scene();
    placed(&mut g, Vec2::new(0, GROUND_Y + 30_000), Vec2::new(10_000, GROUND_Y));
    g.players[0].velocity = Vec2::new(0, -2_000);
    let (kill, _) = g.resolve_collisions(&cfg);
    assert_eq!(kill, Some((0, 1)));
    assert_eq!(g.players[0].score, 1);
    assert_eq!(g.players[1].score, 0);
    assert_eq!(g.players[0].velocity.y, 2_000);
    assert_eq!(g.players[1].position.y, GROUND_Y);
    assert!(g.players[1].position.x >= -500_000 && g.players[1].position.x < 500_000);
    assert_eq!(g.blood_particles.len(), 7);
    for b in &g.blood_particles {
        assert_eq!(b.position, Vec2::new(10_000, GROUND_Y));
        assert!(b.velocity.x >= -10_000 && b.velocity.x < 10_000);
        assert!(b.velocity.y >= 0 && b.velocity.y < 25_000);
    }
}

#[test]
fn second_player_can_kill_the_first() {
    let cfg = SimConfig::standard();
    let mut g = game_scene();
    placed(&mut g, Vec2::new(0, GROUND_Y), Vec2::new(0, GROUND_Y + 40_000));
    g.players[1].velocity = Vec2::new(0, -1);
    let (kill, _) = g.resolve_collisions(&cfg);
    assert_eq!(kill, Some((1, 0)));
    assert_eq!(g.players[1].score, 1);
    assert_eq!(g.players[0].score, 0);
}

#[test]
fn no_kill_at_equal_height_or_when_rising() {
    let cfg = SimConfig::standard();
    let mut g = game_scene();
    placed(&mut g, Vec2::new(0, GROUND_Y), Vec2::new(10_000, GROUND_Y));
    g.players[0].velocity = Vec2::new(0, -5);
    g.players[1].velocity = Vec2::new(0, -5);
    assert_eq!(g.resolve_collisions(&cfg).0, None);
    placed(&mut g, Vec2::new(0, GROUND_Y + 20_000), Vec2::new(10_000, GROUND_Y));
    g.players[0].velocity = Vec2::new(0, 5);
    assert_eq!(g.resolve_collisions(&cfg).0, None);
    assert_eq!(g.players[0].score, 0);
    assert_eq!(g.players[1].score, 0);
    assert!(g.blood_particles.is_empty());
}

#[test]
fn no_kill_out_of_reach() {
    let cfg = SimConfig::standard();
    let mut g = game_scene();
    placed(&mut g, Vec2::new(0, GROUND_Y + 60_000), Vec2::new(0, GROUND_Y));
    g.players[0].velocity = Vec2::new(0, -5);
    assert_eq!(g.resolve_collisions(&cfg).0, None);
    assert_eq!(g.players[0].score, 0);
}

#[test]
fn standing_players_apart_never_kill() {
    let cfg = SimConfig::standard();
    let mut g = game_scene();
    placed(&mut g, Vec2::new(100_000, GROUND_Y), Vec2::new(-100_000, GROUND_Y));
    for _ in 0..100 {
        let ev = g.update(&cfg);
        assert_eq!(ev.kill, None);
    }
    assert_eq!(g.players[0].score, 0);
    assert_eq!(g.players[1].score, 0);
    assert_eq!(g.players[0].position, Vec2::new(100_000, GROUND_Y));
    assert_eq!(g.players[1].position, Vec2::new(-100_000, GROUND_Y));
}

#[test]
fn falling_onto_a_standing_player_kills_once() {
    let cfg = SimConfig::standard();
    let mut g = game_scene();
    placed(&mut g, Vec2::new(100_000, GROUND_Y), Vec2::new(-100_000, GROUND_Y));
    for _ in 0..100 {
        g.update(&cfg);
    }
    g.players[0].position = Vec2::new(-100_000, GROUND_Y + 40_000);
    g.players[0].velocity = Vec2::new(0, -1_000);
    let (kill, _) = g.resolve_collisions(&cfg);
    assert_eq!(kill, Some((0, 1)));
    assert_eq!(g.players[0].score, 1);
    assert_eq!(g.players[1].score, 0);
    assert_eq!(g.players[1].position.y, GROUND_Y);
}

#[test]
fn no_simulation_outside_the_game_scene() {
    let cfg = SimConfig::standard();
    let mut g = Game::new(controls1(), controls2(), CONFIRM, CREDITS);
    g.players[0].position = Vec2::new(0, 0);
    let ev = g.update(&cfg);
    assert!(ev.jumps.is_empty() && ev.kill.is_none() && ev.pickups.is_empty());
    assert_eq!(g.players[0].position, Vec2::new(0, 0));
}

#[test]
fn scene_changes_by_key() {
    let mut g = Game::new(controls1(), controls2(), CONFIRM, CREDITS);
    assert_eq!(g.scene, Scene::Intro);
    g.key_down(UP1);
    assert_eq!(g.scene, Scene::Intro);
    assert_eq!(g.players[0].input_axis, Vec2::new(0, 0));
    g.key_down(CREDITS);
    assert_eq!(g.scene, Scene::Credits);
    g.key_down(CREDITS);
    assert_eq!(g.scene, Scene::Intro);
    g.key_down(CREDITS);
    assert_eq!(g.scene, Scene::Credits);
    g.key_down(CONFIRM);
    assert_eq!(g.scene, Scene::Game);
    g.key_down(CREDITS);
    assert_eq!(g.scene, Scene::Game);
}

#[test]
fn keys_steer_their_own_player() {
    let mut g = game_scene();
    g.key_down(LEFT2);
    assert_eq!(g.players[1].input_axis, Vec2::new(-1, 0));
    assert_eq!(g.players[1].facing, Facing::Left);
    assert_eq!(g.players[0].input_axis, Vec2::new(0, 0));
    g.key_down(RIGHT2);
    g.key_up(LEFT2);
    assert_eq!(g.players[1].input_axis, Vec2::new(1, 0));
    g.key_up(RIGHT2);
    assert_eq!(g.players[1].input_axis, Vec2::new(0, 0));
    g.key_down(UP1);
    assert_eq!(g.players[0].input_axis, Vec2::new(0, 1));
    g.key_up(UP1);
    assert_eq!(g.players[0].input_axis, Vec2::new(0, 0));
}

#[test]
fn jump_is_reported_in_the_tick() {
    let cfg = SimConfig::standard();
    let mut g = game_scene();
    g.key_down(UP2);
    let ev = g.update(&cfg);
    assert_eq!(ev.jumps, vec![1]);
    assert!(g.players[1].position.y > GROUND_Y);
}

#[test]
fn spawner_emits_once_after_its_cooldown() {
    let mut f = Factory::new();
    f.position = Vec2::new(0, 300_000);
    f.cooldown = 100_010;
    for _ in 0..6 {
        assert!(f.spawn(TICK).is_none());
    }
    assert_eq!(f.cooldown, 100_010 - 6 * TICK);
    let b = f.spawn(TICK).expect("one bonus");
    assert_eq!(b.position, Vec2::new(0, 300_000));
    assert!(b.velocity.x >= -10_000 && b.velocity.x < 10_000);
    assert_eq!(b.velocity.y, 10_000);
    assert!(f.cooldown >= 0 && f.cooldown < MAX_COOLDOWN);
    assert!(f.shows_alt_image());
}

#[test]
fn spawner_waits_outside_the_band() {
    let mut f = Factory::new();
    f.position = Vec2::new(450_000, 300_000);
    f.cooldown = 0;
    assert!(f.spawn(TICK).is_none());
    assert_eq!(f.cooldown, -TICK);
    f.position = Vec2::new(399_999, 300_000);
    assert!(f.spawn(TICK).is_some());
}

#[test]
fn spawn_with_uses_the_given_draws() {
    let mut f = Factory::new();
    f.position = Vec2::new(10, 300_000);
    f.cooldown = 1;
    let b = f.spawn_with(TICK, 12_345, BonusType::Velocity2, Vec2::new(7, 10_000)).unwrap();
    assert_eq!(b.tag, BonusType::Velocity2);
    assert_eq!(b.velocity, Vec2::new(7, 10_000));
    assert_eq!(f.cooldown, 12_345);
    assert_eq!(f.alt_image_cooldown, 1_000_000);
}

#[test]
fn factory_descends_then_patrols() {
    let mut f = Factory::new();
    f.update_with(TICK, -1000, 0, -1_000_000);
    assert_eq!(f.position, Vec2::new(0, 1_100_000 - TICK / 50));
    let mut g = Factory::new();
    g.position = Vec2::new(1_699_000, 300_000);
    g.rotation = 0;
    g.rotation_velocity = 0;
    g.update_with(1_000_000, -1000, 0, -1_000_000);
    assert_eq!(g.position, Vec2::new(1_849_000, 300_000));
    assert_eq!(g.velocity.x, -150_000);
    assert_eq!(g.rotation, 0);
    assert_eq!(g.rotation_velocity, 0);
    let mut h = Factory::new();
    h.position = Vec2::new(0, 300_000);
    h.rotation = 300_000;
    h.rotation_velocity = 0;
    h.update_with(TICK, -1000, 1, -1_000_000);
    assert_eq!(h.rotation, 300_000);
    assert_eq!(h.rotation_velocity, -10_000);
}

#[test]
fn factory_stops_at_the_patrol_height() {
    let mut f = Factory::new();
    f.position = Vec2::new(0, 300_001);
    f.update_with(TICK, -1000, 0, -1_000_000);
    assert_eq!(f.position, Vec2::new(0, 300_000));
}

#[test]
fn factory_update_draws_within_bounds() {
    let mut f = Factory::new();
    f.position = Vec2::new(1_700_000, 300_000);
    f.velocity = Vec2::new(1_000_000, 0);
    f.update(TICK);
    assert!(f.velocity.x <= -700_000 && f.velocity.x >= -1_200_000);
}

#[test]
fn bonus_falls_then_bounces() {
    let cfg = SimConfig::standard();
    let mut b = Bonus::new(BonusType::GiveOnePoint, Vec2::new(0, 0), Vec2::new(1_000, 0));
    b.update(&cfg);
    assert_eq!(b.velocity, Vec2::new(1_000, -833));
    assert_eq!(b.position, Vec2::new(1_000, -833));
    assert_eq!(b.rotation, 8333);
    let mut c = Bonus::new(BonusType::GiveOnePoint, Vec2::new(0, GROUND_Y - 40_000), Vec2::new(1_000, -20_000));
    c.update(&cfg);
    assert_eq!(c.velocity, Vec2::new(1_000, 18_000));
    let mut d = Bonus::new(BonusType::GiveOnePoint, Vec2::new(0, GROUND_Y - 40_000), Vec2::new(1_000, -5_000));
    d.update(&cfg);
    assert_eq!(d.velocity, Vec2::new(0, 4_500));
}

#[test]
fn bonus_mirrors_past_a_side() {
    let cfg = SimConfig::standard();
    let mut b = Bonus::new(BonusType::GiveOnePoint, Vec2::new(510_000, 0), Vec2::new(2_000, 0));
    b.update(&cfg);
    assert_eq!(b.position.x, -508_000);
}

#[test]
fn random_bonus_is_in_range() {
    for _ in 0..50 {
        let b = Bonus::random(None);
        assert!(b.position.x >= -250_000 && b.position.x < 250_000);
        assert_eq!(b.position.y, 500_000);
        assert!(b.velocity.x >= -10_000 && b.velocity.x < 10_000);
        let c = Bonus::random(Some(Vec2::new(3, 4)));
        assert_eq!(c.position, Vec2::new(3, 4));
    }
}

#[test]
fn particles_fall_and_vanish() {
    let cfg = SimConfig::standard();
    let mut ps = vec![
        Blood { position: Vec2::new(0, 0), size: Vec2::new(25_000, 25_000), velocity: Vec2::new(100, 0) },
        Blood { position: Vec2::new(0, -499_000), size: Vec2::new(25_000, 25_000), velocity: Vec2::new(0, 0) },
    ];
    update_blood(&mut ps, &cfg);
    assert_eq!(ps.len(), 1);
    assert_eq!(ps[0].velocity, Vec2::new(100, -1000));
    assert_eq!(ps[0].position, Vec2::new(100, -1000));
}

#[test]
fn labels_rise_and_expire() {
    let cfg = SimConfig::standard();
    let mut ts = vec![
        BonusText::new(BonusType::Freeze, Vec2::new(0, 0)),
        BonusText { tag: BonusType::GiveOnePoint, position: Vec2::new(0, 0), cooldown: 10 },
    ];
    update_texts(&mut ts, &cfg);
    assert_eq!(ts.len(), 1);
    assert_eq!(ts[0].position, Vec2::new(0, 1666));
    assert_eq!(ts[0].cooldown, 1_000_000 - TICK);
}

#[test]
fn poses_follow_velocity() {
    let mut p = player();
    assert_eq!(p.next_pose(), (PlayerAnimationStatus::Standing, 0));
    p.velocity = Vec2::new(0, -1);
    assert_eq!(p.animation_status(), PlayerAnimationStatus::Falling);
    p.velocity = Vec2::new(0, 1);
    assert_eq!(p.animation_status(), PlayerAnimationStatus::Jumping);
    p.velocity = Vec2::new(5, 0);
    assert_eq!(p.next_pose(), (PlayerAnimationStatus::Walking, 1));
    p.walk_time = 190_000;
    assert_eq!(p.next_pose(), (PlayerAnimationStatus::Walking, 0));
    p.walk_time = 390_000;
    assert_eq!(p.next_pose(), (PlayerAnimationStatus::Walking, 0));
    assert_eq!(p.walk_time, 0);
}

#[test]
fn tint_and_drawn_size() {
    let mut p = player();
    assert_eq!(p.tint(), Tint::Plain);
    p.mutations.push(speed());
    assert_eq!(p.tint(), Tint::Boosted);
    p.mutations.push(Mutation { duration: 1, size_factor: 2500, velocity_factor: Vec2::new(1000, 1000), active: true });
    assert_eq!(p.size_mutated(), Vec2::new(250_000, 250_000));
    assert_eq!(p.draw_position(), Vec2::new(250_000, GROUND_Y + 100_000));
}

#[test]
fn screen_maps_positions_to_pixels() {
    let s = Screen::new();
    assert_eq!((s.view_width, s.view_height), (320, 200));
    assert_eq!(s.position_to_pixel(Vec2::new(0, 0)), Vec2::new(160, 100));
    assert_eq!(s.position_to_pixel(Vec2::new(-500_000, 500_000)), Vec2::new(0, 0));
    assert_eq!(s.position_to_pixel(Vec2::new(0, GROUND_Y)), Vec2::new(160, 166));
    assert_eq!(s.size_to_pixel(Vec2::new(100_000, 100_000)), Vec2::new(32, 20));
    assert!(is_on_top(Vec2::new(0, 0), Vec2::new(0, GROUND_Y), &s));
    assert!(!is_on_top(Vec2::new(0, GROUND_Y), Vec2::new(0, GROUND_Y), &s));
    assert!(!is_on_top(Vec2::new(0, -331_000), Vec2::new(0, GROUND_Y), &s));
    assert_eq!(s.position_to_pixel(Vec2::new(0, 502_500)).y, 0);
    assert!(!is_on_top(Vec2::new(0, 502_500), Vec2::new(0, 500_000), &s));
    assert_eq!(s.position_to_pixel(Vec2::new(-502_500, 0)).x, 0);
}

#[test]
fn fps_refreshes_once_a_second() {
    let mut f = Fps::new();
    assert!(!f.update(600_000));
    assert_eq!(f.cooldown, 400_000);
    assert!(!f.update(400_000));
    assert!(f.update(1));
    assert_eq!(f.cooldown, 1_000_000);
}

#[test]
fn integer_helpers() {
    assert_eq!(floor_div(-7, 2), -4);
    assert_eq!(floor_div(7, 2), 3);
    assert!(is_closer_than(Vec2::new(0, 0), Vec2::new(3, 4), 6));
    assert!(!is_closer_than(Vec2::new(0, 0), Vec2::new(3, 4), 5));
}
