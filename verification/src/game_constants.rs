use vstd::prelude::*;

verus! {

/// The parameters of map generation for one group of levels.
pub struct MapGenSetting {
    pub chunk_min_side_len: usize,
    pub chunk_max_side_len: usize,
    pub max_n_tiles_per_chunk: usize,
}

/// The whole map cannot take more than ~25 kb (1/2 byte per tile).
pub const MAX_N_TILES_IN_WHOLE_MAP: usize = 25 * 2048;

pub const MAX_N_NPCS: usize = 20;

/// The side of the square screen of the console, in pixels.
pub const SCREEN_WIDTH_PX: usize = 160;

pub const SCREEN_HEIGHT_PX: usize = 160;

pub const TILE_WIDTH_PX: usize = 5;

pub const TILE_HEIGHT_PX: usize = 5;

pub const X_LEFT_BOUND: i32 = -5000;

pub const X_RIGHT_BOUND: i32 = 5000;

pub const Y_LOWER_BOUND: i32 = -5000;

pub const Y_UPPER_BOUND: i32 = 5000;

pub const COUNTDOWN_TIMER_START: u32 = 60 * 60;

pub const START_DIFFICULTY_LEVEL: u32 = 1;

pub const LEVELS_PER_MOOD: usize = 5;

pub const N_MAP_GEN_SETTINGS: usize = 3;

/// The table of map generation settings, by index (taken modulo its length).
pub open spec fn spec_map_gen_setting(i: usize) -> MapGenSetting {
    if i % 3 == 0 {
        MapGenSetting { chunk_min_side_len: 6, chunk_max_side_len: 50, max_n_tiles_per_chunk: 400 }
    } else if i % 3 == 1 {
        MapGenSetting { chunk_min_side_len: 6, chunk_max_side_len: 25, max_n_tiles_per_chunk: 2000 }
    } else {
        MapGenSetting { chunk_min_side_len: 6, chunk_max_side_len: 12, max_n_tiles_per_chunk: 800 }
    }
}

/// Returns the map generation setting at `i` in the table of settings.
pub fn map_gen_setting(i: usize) -> (s: MapGenSetting)
    requires
        i < N_MAP_GEN_SETTINGS,
    ensures
        s == spec_map_gen_setting(i),
{
    if i == 0 {
        MapGenSetting { chunk_min_side_len: 6, chunk_max_side_len: 50, max_n_tiles_per_chunk: 400 }
    } else if i == 1 {
        MapGenSetting { chunk_min_side_len: 6, chunk_max_side_len: 25, max_n_tiles_per_chunk: 2000 }
    } else {
        MapGenSetting { chunk_min_side_len: 6, chunk_max_side_len: 12, max_n_tiles_per_chunk: 800 }
    }
}

} // verus!
