use tower_defense::combat::{select_target, Shot, ShotTarget};
use tower_defense::game::{find_enemy, game_over, resolve_shots, Game, Gold, Lifes};
use tower_defense::path::{classify, Enemy, SPAWN_X, SPAWN_Y};
use tower_defense::timer::{Timer, TimerMode};
use tower_defense::tower::TowerType;
use tower_defense::wave::{GameState, WaveControl};

fn enemy(id: u64, x: i64, y: i64, segment: u8) -> Enemy {
    Enemy { id, life: 60, speed: 75_000, x, y, segment, archetype: 0 }
}

fn shot_at(id: u64, target: &Enemy, x: i64, y: i64) -> Shot {
    Shot {
        id,
        damage: 500,
        target: Some(ShotTarget { enemy_id: target.id, x: target.x, y: target.y }),
        x,
        y,
        animation_timer: Timer::new(50, TimerMode::Repeating),
        frame: 0,
    }
}

#[test]
fn enemies_follow_the_route() {
    assert_eq!(classify(SPAWN_X, SPAWN_Y), 1);
    assert_eq!(classify(260_000, 0), 2);
    assert_eq!(classify(0, -205_000), 3);
    assert_eq!(classify(-230_000, -205_001), 3);
    assert_eq!(classify(-230_001, -205_001), 4);
    assert_eq!(classify(-300_000, 0), 4);
    assert_eq!(classify(-300_000, 70_000), 5);
    assert_eq!(classify(-455_000, 0), 6);
    assert_eq!(classify(-455_000, -375_000), 0);

    let mut e = enemy(0, SPAWN_X, SPAWN_Y, 0);
    e.move_along_path(1000);
    assert_eq!((e.x, e.y, e.segment), (SPAWN_X - 75_000, SPAWN_Y, 0));
    let mut e = enemy(0, 260_000, 0, 0);
    e.move_along_path(20);
    assert_eq!((e.x, e.y, e.segment), (260_000, -1_500, 1));
    let mut e = enemy(0, -300_000, 0, 2);
    e.move_along_path(20);
    assert_eq!((e.x, e.y, e.segment), (-300_000, 1_500, 3));
}

#[test]
fn furthest_leg_is_targeted_first() {
    let enemies = vec![enemy(1, 100_000, 0, 1), enemy(2, 50_000, -205_000, 2)];
    assert_eq!(select_target(100_000, -100_000, &enemies), Some(1));
}

#[test]
fn closer_to_turn_wins_on_same_leg() {
    // both on leg 1, whose turning point is (260, -205)
    let enemies = vec![enemy(1, 260_000, -100_000, 1), enemy(2, 260_000, -150_000, 1)];
    assert_eq!(select_target(200_000, -120_000, &enemies), Some(1));
}

#[test]
fn equal_distances_pick_the_earlier_enemy() {
    let enemies = vec![enemy(1, 260_000, -100_000, 1), enemy(2, 260_000, -100_000, 1)];
    assert_eq!(select_target(200_000, -100_000, &enemies), Some(0));
    let swapped = vec![enemy(2, 260_000, -100_000, 1), enemy(1, 260_000, -100_000, 1)];
    assert_eq!(select_target(200_000, -100_000, &swapped), Some(0));
}

#[test]
fn nothing_in_range_means_no_target() {
    let enemies = vec![enemy(1, 600_000, 70_000, 0), enemy(2, 0, 0, 0)];
    assert_eq!(select_target(0, 0, &enemies), None);
    assert_eq!(select_target(0, 0, &Vec::new()), None);
}

#[test]
fn breached_enemies_cost_one_life_each() {
    let mut enemies = vec![
        enemy(1, -455_000, -375_000, 5),
        enemy(2, -455_000, -100_000, 5),
        enemy(3, -455_000, -400_000, 5),
    ];
    let mut lifes = Lifes(30);
    assert!(!game_over(&mut enemies, &mut lifes));
    assert_eq!(lifes, Lifes(28));
    assert_eq!(enemies.len(), 1);
    assert_eq!(enemies[0].id, 2);

    let mut last = vec![enemy(4, -455_000, -380_000, 5), enemy(5, -455_000, -390_000, 5)];
    let mut one = Lifes(1);
    assert!(game_over(&mut last, &mut one));
    assert_eq!(one, Lifes(0));
}

#[test]
fn projectile_deals_damage_once_then_vanishes() {
    let target = enemy(7, 0, 0, 0);
    let mut enemies = vec![Enemy { life: 1000, ..target }];
    let mut shots = vec![shot_at(3, &target, 0, 0)];
    let mut gold = Gold(95);
    let mut all_hits = Vec::new();
    for _ in 0..20 {
        let hits = resolve_shots(&mut enemies, &mut shots, &mut gold, 0, 50);
        all_hits.extend(hits);
    }
    assert_eq!(all_hits, vec![3]);
    assert!(shots.is_empty());
    assert_eq!(enemies[0].life, 500);
    assert_eq!(gold, Gold(95));
}

#[test]
fn kill_pays_the_wave_reward() {
    let target = enemy(7, 0, 0, 0);
    let mut enemies = vec![target];
    let mut shots = vec![shot_at(3, &target, 0, 0)];
    let mut gold = Gold(95);
    let mut all_hits = Vec::new();
    for _ in 0..10 {
        all_hits.extend(resolve_shots(&mut enemies, &mut shots, &mut gold, 2, 50));
    }
    assert_eq!(all_hits, vec![3]);
    assert!(enemies.is_empty());
    assert_eq!(gold, Gold(101));
}

#[test]
fn projectile_of_a_dead_target_lands_without_damage() {
    let target = enemy(7, 0, 0, 0);
    let bystander = enemy(8, 10_000, 0, 0);
    let mut enemies = vec![bystander];
    let mut shots = vec![shot_at(4, &target, 0, 100_000)];
    let mut gold = Gold(10);
    let hits = resolve_shots(&mut enemies, &mut shots, &mut gold, 0, 20);
    assert!(hits.is_empty());
    assert_eq!(shots.len(), 1);
    assert_eq!((shots[0].x, shots[0].y), (0, 86_000));
    let mut total = 0;
    for _ in 0..20 {
        total += resolve_shots(&mut enemies, &mut shots, &mut gold, 0, 20).len();
    }
    assert_eq!(total, 0);
    assert!(shots.is_empty());
    assert_eq!(enemies[0].life, 60);
    assert_eq!(gold, Gold(10));
}

#[test]
fn projectile_leaving_the_field_is_discarded() {
    let target = enemy(7, 900_000, 0, 0);
    let mut enemies: Vec<Enemy> = Vec::new();
    let mut shots = vec![shot_at(4, &target, 790_000, 0)];
    let mut gold = Gold(0);
    let hits = resolve_shots(&mut enemies, &mut shots, &mut gold, 0, 20);
    assert!(hits.is_empty());
    assert!(shots.is_empty());
}

#[test]
fn find_enemy_by_id() {
    let enemies = vec![enemy(2, 0, 0, 0), enemy(5, 0, 0, 0), enemy(9, 0, 0, 0)];
    assert_eq!(find_enemy(&enemies, 5), Some(1));
    assert_eq!(find_enemy(&enemies, 4), None);
}

#[test]
fn spawning_stops_at_the_quota() {
    let mut w = WaveControl::new(4);
    let mut spawned = 0;
    for _ in 0..100 {
        if let Some(sp) = w.spawn_wave(1500) {
            assert_eq!(sp.life, 60);
            assert_eq!(sp.speed, 75_000);
            spawned += 1;
        }
        assert!(w.spawned_count_in_wave <= 25);
    }
    assert_eq!(spawned, 25);
    assert_eq!(w.spawned_count_in_wave, 25);
}

#[test]
fn first_wave_released_after_cooldown() {
    let mut w = WaveControl::new(4);
    assert_eq!(w.control_first_wave(14_000), None);
    assert_eq!(w.control_first_wave(1_000), Some(GameState::Attacking));
    assert!(w.time_between_waves.paused);
    assert_eq!(w.time_between_waves.elapsed_ms, 0);
}

#[test]
fn game_over_reset_restores_the_director() {
    let mut w = WaveControl::new(4);
    w.wave_control(15_000, false);
    w.spawn_wave(1500);
    w.reset_wave_control_on_game_over();
    assert_eq!(w.wave_count, 0);
    assert_eq!(w.spawned_count_in_wave, 0);
    assert!(!w.first_wave_spawned);
    assert!(!w.time_between_waves.paused);
}

#[test]
fn phase_cycle_through_a_wave() {
    let mut g = Game::new(4);
    g.add_tower(560_000, 53_000, TowerType::Electric, 3);
    assert_eq!(g.state, GameState::Building);
    assert_eq!(g.lifes, Lifes(30));
    assert_eq!(g.gold, Gold(95));
    assert_eq!(g.wave_control.wave_count, 0);

    let mut ticks = 0;
    while g.state == GameState::Building {
        g.tick(20);
        ticks += 1;
    }
    assert_eq!(ticks, 750);
    assert_eq!(g.state, GameState::Attacking);

    let mut guard = 0;
    let mut last_gold = g.gold.0;
    while g.state == GameState::Attacking {
        g.tick(20);
        assert!(g.gold.0 >= last_gold);
        last_gold = g.gold.0;
        guard += 1;
        assert!(guard < 10_000);
    }
    assert_eq!(g.state, GameState::Building);
    assert_eq!(g.wave_control.spawned_count_in_wave, 25);
    assert!(g.enemies.is_empty());
    assert!(g.shots.is_empty());
    assert_eq!(g.lifes, Lifes(30));
    assert_eq!(g.gold, Gold(95 + 25 * 2));

    let mut started = None;
    while g.state == GameState::Building {
        let r = g.tick(20);
        if r.wave_started.is_some() {
            started = r.wave_started;
        }
    }
    assert_eq!(started, Some(1));
    assert_eq!(g.wave_control.wave_count, 1);
    assert_eq!(g.wave_control.spawned_count_in_wave, 0);
    assert_eq!(g.state, GameState::Attacking);
}

#[test]
fn breach_takes_a_life_and_last_one_ends_the_game() {
    let mut g = Game::new(4);
    g.state = GameState::Attacking;
    g.enemies.push(enemy(0, -455_000, -374_000, 5));
    g.next_enemy_id = 1;
    g.tick(20);
    assert_eq!(g.lifes, Lifes(29));
    assert!(g.enemies.is_empty());
    assert_eq!(g.state, GameState::Attacking);

    g.lifes = Lifes(1);
    g.enemies.push(enemy(1, -455_000, -374_000, 5));
    g.next_enemy_id = 2;
    g.tick(20);
    assert_eq!(g.lifes, Lifes(0));
    assert_eq!(g.state, GameState::GameOver);

    for _ in 0..200 {
        let r = g.tick(1500);
        assert!(r.hits.is_empty());
    }
    assert_eq!(g.state, GameState::GameOver);
    assert!(g.enemies.is_empty());
    assert_eq!(g.wave_control.spawned_count_in_wave, 0);
}

#[test]
fn second_projectile_at_a_killed_enemy_deals_nothing() {
    let target = enemy(7, 0, 0, 0);
    let mut enemies = vec![target];
    // the first projectile is already at its target, the second still far
    let mut shots = vec![shot_at(1, &target, 0, 0), shot_at(2, &target, 0, 150_000)];
    let mut gold = Gold(0);
    let mut all_hits = Vec::new();
    for _ in 0..40 {
        all_hits.extend(resolve_shots(&mut enemies, &mut shots, &mut gold, 0, 20));
    }
    assert_eq!(all_hits, vec![1]);
    assert!(enemies.is_empty());
    assert!(shots.is_empty());
    assert_eq!(gold, Gold(2));
}
