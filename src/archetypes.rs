//! The enemy templates, one per wave: sprite sheet layout and animation runs.
use vstd::prelude::*;
use crate::orcs::AnimateSprite;
use crate::timer::{Timer, TimerMode};

verus! {

/// How an enemy template is drawn: the grid of its sprite sheet and the
/// frames of its walking and dying animations.
#[derive(Clone, Copy, Debug)]
pub struct EnemyArchetype {
    /// Path of the sprite sheet among the game's assets.
    pub sheet: &'static str,
    pub tile_width: u32,
    pub tile_height: u32,
    pub columns: u32,
    pub rows: u32,
    pub walk: AnimateSprite,
    pub death: AnimateSprite,
}

/// Layout and animation numbers of a template, in order: tile width and
/// height, columns, rows, walk first and last frame and frame time, death
/// first and last frame and frame time.
pub open spec fn archetype_numbers(a: EnemyArchetype) -> Seq<int> {
    seq![
        a.tile_width as int, a.tile_height as int, a.columns as int, a.rows as int,
        a.walk.first as int, a.walk.last as int, a.walk.timer.duration_ms as int,
        a.death.first as int, a.death.last as int, a.death.timer.duration_ms as int,
    ]
}

fn archetype(
    sheet: &'static str,
    tile: (u32, u32),
    grid: (u32, u32),
    walk: (usize, usize, u64),
    death: (usize, usize, u64),
) -> (r: EnemyArchetype)
    requires
        walk.2 > 0,
        death.2 > 0,
    ensures
        archetype_numbers(r) == seq![
            tile.0 as int, tile.1 as int, grid.0 as int, grid.1 as int,
            walk.0 as int, walk.1 as int, walk.2 as int,
            death.0 as int, death.1 as int, death.2 as int,
        ],
        r.walk.timer == Timer::new_spec(walk.2, TimerMode::Repeating),
        r.death.timer == Timer::new_spec(death.2, TimerMode::Repeating),
        r.sheet == sheet,
{
    EnemyArchetype {
        sheet,
        tile_width: tile.0,
        tile_height: tile.1,
        columns: grid.0,
        rows: grid.1,
        walk: AnimateSprite { first: walk.0, last: walk.1, timer: Timer::new(walk.2, TimerMode::Repeating) },
        death: AnimateSprite { first: death.0, last: death.1, timer: Timer::new(death.2, TimerMode::Repeating) },
    }
}

/// The enemy templates, wave by wave: orcs, soldiers, leaf bugs, fire bugs.
pub fn enemy_archetypes() -> (r: Vec<EnemyArchetype>)
    ensures
        r@.len() == 4,
        archetype_numbers(r@[0]) == seq![48int, 48, 8, 6, 8, 15, 100, 40, 43, 250],
        archetype_numbers(r@[1]) == seq![43int, 31, 7, 6, 0, 6, 100, 40, 43, 250],
        archetype_numbers(r@[2]) == seq![64int, 64, 8, 9, 40, 47, 100, 55, 62, 100],
        archetype_numbers(r@[3]) == seq![128int, 64, 11, 9, 55, 62, 100, 55, 62, 100],
{
    let mut r: Vec<EnemyArchetype> = Vec::new();
    r.push(archetype("enemies/orcs.png", (48, 48), (8, 6), (8, 15, 100), (40, 43, 250)));
    r.push(archetype("enemies/soldier.png", (43, 31), (7, 6), (0, 6, 100), (40, 43, 250)));
    r.push(archetype("enemies/Leafbug.png", (64, 64), (8, 9), (40, 47, 100), (55, 62, 100)));
    r.push(archetype("enemies/Firebug.png", (128, 64), (11, 9), (55, 62, 100), (55, 62, 100)));
    r
}

} // verus!
