use tower_defense::combat::{integer_sqrt, kill_reward};
use tower_defense::timer::{Timer, TimerMode};
use tower_defense::tower::TowerType;
use tower_defense::wave::{enemy_life, enemy_speed};

#[test]
fn repeating_timer_counts_completed_intervals() {
    let mut t = Timer::new(1500, TimerMode::Repeating);
    t.tick(1000);
    assert!(!t.just_finished());
    assert_eq!(t.elapsed_ms, 1000);
    t.tick(3500);
    assert!(t.just_finished());
    assert_eq!(t.times_finished_this_tick, 3);
    assert_eq!(t.elapsed_ms, 0);
    t.tick(10);
    assert!(!t.just_finished());
}

#[test]
fn once_timer_stops_when_finished() {
    let mut t = Timer::new(15_000, TimerMode::Once);
    t.tick(20_000);
    assert!(t.just_finished());
    assert_eq!(t.elapsed_ms, 15_000);
    t.tick(20);
    assert!(!t.just_finished());
    assert!(t.finished);
    t.reset();
    assert_eq!(t.elapsed_ms, 0);
    assert!(!t.finished);
}

#[test]
fn paused_timer_does_not_advance() {
    let mut t = Timer::new(100, TimerMode::Once);
    t.pause();
    t.tick(500);
    assert!(!t.just_finished());
    assert_eq!(t.elapsed_ms, 0);
    t.unpause();
    t.tick(100);
    assert!(t.just_finished());
}

#[test]
fn enemy_life_doubles_each_wave() {
    assert_eq!(enemy_life(0), 60);
    assert_eq!(enemy_life(1), 120);
    assert_eq!(enemy_life(2), 240);
    assert_eq!(enemy_life(3), 480);
    assert_eq!(enemy_life(10), 61_440);
    assert_eq!(enemy_life(11), 65_535);
    assert_eq!(enemy_life(255), 65_535);
}

#[test]
fn enemy_speed_grows_five_percent_and_caps() {
    assert_eq!(enemy_speed(0), 75_000);
    assert_eq!(enemy_speed(1), 78_750);
    assert_eq!(enemy_speed(2), 82_687);
    assert_eq!(enemy_speed(40), 300_000);
    assert_eq!(enemy_speed(255), 300_000);
}

#[test]
fn difficulty_never_drops_between_waves() {
    for w in 0u8..=254 {
        assert!(enemy_life(w + 1) >= enemy_life(w));
        assert!(enemy_speed(w + 1) >= enemy_speed(w));
    }
}

#[test]
fn tower_cost_by_level() {
    assert_eq!(TowerType::Lich.to_cost(1), 40);
    assert_eq!(TowerType::Lich.to_cost(2), 68);
    assert_eq!(TowerType::Lich.to_cost(3), 88);
    assert_eq!(TowerType::Zigurat.to_cost(1), 100);
    assert_eq!(TowerType::Zigurat.to_cost(3), 220);
    assert_eq!(TowerType::Electric.to_cost(2), 304);
    assert_eq!(TowerType::Electric.to_cost(0), 180);
}

#[test]
fn tower_damage_and_interval_by_level() {
    let lich1 = TowerType::Lich.to_tower_data(1);
    assert_eq!(lich1.attack_damage, 27);
    assert_eq!(lich1.attack_speed.duration_ms, 425);
    assert_eq!(lich1.level, 1);
    let lich2 = TowerType::Lich.to_tower_data(2);
    assert_eq!(lich2.attack_damage, 49);
    assert_eq!(lich2.attack_speed.duration_ms, 361);
    let lich3 = TowerType::Lich.to_tower_data(3);
    assert_eq!(lich3.attack_damage, 87);
    assert_eq!(lich3.attack_speed.duration_ms, 307);
    let zig2 = TowerType::Zigurat.to_tower_data(2);
    assert_eq!(zig2.attack_damage, 130);
    assert_eq!(zig2.attack_speed.duration_ms, 289);
    let elec3 = TowerType::Electric.to_tower_data(3);
    assert_eq!(elec3.attack_damage, 500);
    assert_eq!(elec3.attack_speed.duration_ms, 737);
    assert_eq!(elec3.tower_type, TowerType::Electric);
}

#[test]
fn kill_reward_formula() {
    assert_eq!(kill_reward(0, 0), 2);
    assert_eq!(kill_reward(0, 3), 8);
    assert_eq!(kill_reward(1, 0), 2);
    assert_eq!(kill_reward(4, 0), 4);
    assert_eq!(kill_reward(5, 1), 6);
    assert_eq!(kill_reward(65_535, 255), 26_726);
}

#[test]
fn integer_square_root() {
    assert_eq!(integer_sqrt(0), 0);
    assert_eq!(integer_sqrt(15), 3);
    assert_eq!(integer_sqrt(16), 4);
    assert_eq!(integer_sqrt(1_000_000_000_000_000_000_000_000), 1_000_000_000_000);
    assert_eq!(integer_sqrt(8_000_000_000_000_000_000_000_000), 2_828_427_124_746);
}
