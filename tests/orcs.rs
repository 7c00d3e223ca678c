use tower_defense::archetypes::enemy_archetypes;
use tower_defense::orcs::{
    follow_player_and_attack, spawn_orcs, OrcUnit, Orcs, OrcsAnimation, OrcsAnimationState,
};

fn orc_at(x: i64, y: i64) -> OrcUnit {
    OrcUnit {
        x,
        y,
        stats: Orcs::default(),
        animation: OrcsAnimation::default(),
        facing_left: false,
    }
}

#[test]
fn orcs_start_in_a_row() {
    let orcs = spawn_orcs();
    assert_eq!(orcs.len(), 10);
    for (i, o) in orcs.iter().enumerate() {
        assert_eq!(o.x, 150_000 * i as i64);
        assert_eq!(o.y, -125_000);
        assert_eq!(o.stats.life, 100);
        assert_eq!(o.stats.attack_damage, 10);
        assert_eq!(o.animation.state, OrcsAnimationState::Idle);
    }
}

#[test]
fn orc_walks_towards_a_nearby_player() {
    let mut orcs = vec![orc_at(0, 0)];
    follow_player_and_attack(&mut orcs, Some((-100_000, 0)), 1000);
    assert_eq!(orcs[0].animation.state, OrcsAnimationState::Walk);
    assert_eq!((orcs[0].x, orcs[0].y), (-125_000, 0));
    assert!(orcs[0].facing_left);
}

#[test]
fn orc_attacks_close_and_idles_far() {
    let mut orcs = vec![orc_at(0, 0), orc_at(1_000_000, 0)];
    follow_player_and_attack(&mut orcs, Some((30_000, 40_000)), 20);
    assert_eq!(orcs[0].animation.state, OrcsAnimationState::Attack);
    assert_eq!((orcs[0].x, orcs[0].y), (0, 0));
    assert_eq!(orcs[1].animation.state, OrcsAnimationState::Idle);
    assert_eq!((orcs[1].x, orcs[1].y), (1_000_000, 0));
}

#[test]
fn crowded_orcs_push_apart() {
    // player straight north of both; the two orcs stand 10 units apart
    let mut orcs = vec![orc_at(0, 0), orc_at(10_000, 0)];
    follow_player_and_attack(&mut orcs, Some((5_000, 200_000)), 100);
    // pull (nearly north) plus twice the push to the west / east
    assert!(orcs[0].x < 0);
    assert!(orcs[1].x > 10_000);
    assert!(orcs[0].facing_left);
    assert!(!orcs[1].facing_left);
}

#[test]
fn no_player_leaves_orcs_alone() {
    let mut orcs = vec![orc_at(0, 0)];
    follow_player_and_attack(&mut orcs, None, 1000);
    assert_eq!((orcs[0].x, orcs[0].y), (0, 0));
    assert_eq!(orcs[0].animation.state, OrcsAnimationState::Idle);
}

#[test]
fn animation_cycles_through_its_frames() {
    let mut a = OrcsAnimation::default();
    a.state = OrcsAnimationState::Walk;
    assert_eq!(a.animate_orcs(3, 50), 3);
    assert_eq!(a.animate_orcs(3, 50), 4);
    assert_eq!(a.animate_orcs(7, 100), 0);
    assert_eq!(a.animate_orcs(9, 100), 0);
    // the idle run was not touched
    assert_eq!(a.idle.timer.elapsed_ms, 0);
}

#[test]
fn four_enemy_templates() {
    let t = enemy_archetypes();
    assert_eq!(t.len(), 4);
    assert_eq!(t[0].sheet, "enemies/orcs.png");
    assert_eq!((t[0].tile_width, t[0].tile_height, t[0].columns, t[0].rows), (48, 48, 8, 6));
    assert_eq!((t[1].walk.first, t[1].walk.last), (0, 6));
    assert_eq!((t[3].death.first, t[3].death.last, t[3].death.timer.duration_ms), (55, 62, 100));
}
