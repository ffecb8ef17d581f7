//! Level setup: the moods of a level, its bonus time, and the generation of
//! its map and of the animals to find.
use vstd::prelude::*;
use crate::game_constants::{
    spec_map_gen_setting, map_gen_setting, COUNTDOWN_TIMER_START, LEVELS_PER_MOOD, MAX_N_NPCS,
    N_MAP_GEN_SETTINGS, START_DIFFICULTY_LEVEL,
};
use crate::spritesheet::PresetSprites;
use crate::mapchunk::{MapChunk, TileAlignedBoundingBox};
use crate::game_map::{
    bound_fits, lemma_cells_determine_tiles, lemma_link_cells_len, lemma_link_prefix_cells, link_cells, linkable, GameMap,
};
use crate::collision::{chunk_in_world, map_in_world};
use crate::game_constants::MAX_N_TILES_IN_WHOLE_MAP;
use crate::rng::{lemma_rng_steps_add, rng_draw, rng_steps_from, GameRng};

verus! {

/// The seed of a speedrun: how many numbers its generators draw before play.
pub type RunSeed = u32;

/// Games are either random, or fixed-seed for speedrunning.
pub enum RunType {
    Random,
    Speedrun(RunSeed),
}

pub struct GameSettings {
    pub run_type: RunType,
}

/// The number of songs; song 0 is the title and victory music.
pub const N_SONGS: usize = 6;

/// The number of color palettes.
pub const N_PALETTES: usize = 9;

/// The number of tilesets.
pub const N_TILESETS: usize = 9;

/// The look and sound of a level.
pub struct LevelMoods {
    pub song_idx: usize,
    pub pallette_idx: usize,
    pub tileset_idx: usize,
    pub map_gen_settings_idx: usize,
}

/// Every five levels the mood changes: each table is walked in turn (the
/// songs skipping song 0).
pub open spec fn spec_level_moods(difficulty_level: u32) -> LevelMoods {
    let mood = ((difficulty_level - 1) / 5) as usize;
    LevelMoods {
        song_idx: (1 + mood % 5) as usize,
        pallette_idx: (mood % 9) as usize,
        tileset_idx: (mood % 9) as usize,
        map_gen_settings_idx: (mood % 3) as usize,
    }
}

/// The song, palette, tileset and map generation setting of a level.
pub fn level_moods(difficulty_level: u32) -> (m: LevelMoods)
    requires
        difficulty_level >= 1,
    ensures
        m == spec_level_moods(difficulty_level),
        m.song_idx < N_SONGS,
        m.pallette_idx < N_PALETTES,
        m.tileset_idx < N_TILESETS,
        m.map_gen_settings_idx < N_MAP_GEN_SETTINGS,
{
    let mood = (difficulty_level as usize - 1) / LEVELS_PER_MOOD;
    LevelMoods {
        song_idx: 1 + mood % (N_SONGS - 1),
        pallette_idx: mood % N_PALETTES,
        tileset_idx: mood % N_TILESETS,
        map_gen_settings_idx: mood % N_MAP_GEN_SETTINGS,
    }
}

/// The number of animals to find on a level: one, plus one for every three
/// levels, plus zero to two at random, at most `MAX_N_NPCS`.
pub open spec fn spec_npc_count(difficulty_level: u32, draw: u64) -> u32 {
    let n = 1 + difficulty_level / 3 + (draw as u32) % 3;
    if n <= 20 {
        n as u32
    } else {
        20
    }
}

/// The number of animals to find, from the level and a world-generation draw.
pub fn npc_count(difficulty_level: u32, draw: u64) -> (n: u32)
    ensures
        n == spec_npc_count(difficulty_level, draw),
        1 <= n <= MAX_N_NPCS,
{
    let n = 1 + difficulty_level / 3 + (draw as u32) % 3;
    if n <= MAX_N_NPCS as u32 {
        n
    } else {
        MAX_N_NPCS as u32
    }
}

/// The countdown and score at the start of a level.
pub struct LevelStart {
    pub countdown_and_score_bonus: u32,
    pub countdown_timer_msec: u32,
    pub score: u32,
    pub new_game: bool,
}

/// The countdown cap: 99 seconds and 59 frames.
pub const MAX_COUNTDOWN: u32 = 100 * 60 - 1;

/// The bonus of a level: four seconds, plus one for every three levels
/// (counting up to level 20), sixty frames (or points) to a second.
pub open spec fn spec_level_bonus(difficulty_level: u32) -> int {
    let d = if difficulty_level <= 20 { difficulty_level } else { 20 };
    (4 + d / 3) * 60
}

/// The countdown and score bonus of a level (see `spec_level_bonus`).
pub fn level_bonus(difficulty_level: u32) -> (b: u32)
    ensures
        b == spec_level_bonus(difficulty_level),
        240 <= b <= 600,
{
    let d = if difficulty_level <= 20 {
        difficulty_level
    } else {
        20
    };
    (4 + d / 3) * 60
}

/// A level grants its bonus to the countdown (capped) and to the score; the
/// first level instead starts a new game, with a full countdown and no score.
pub open spec fn spec_level_start(difficulty_level: u32, countdown_timer_msec: u32, score: u32) -> LevelStart {
    let bonus = spec_level_bonus(difficulty_level);
    let sum = (countdown_timer_msec + bonus) % 0x1_0000_0000;
    let countdown = if sum <= MAX_COUNTDOWN {
        sum
    } else {
        MAX_COUNTDOWN as int
    };
    if difficulty_level == START_DIFFICULTY_LEVEL {
        LevelStart {
            countdown_and_score_bonus: bonus as u32,
            countdown_timer_msec: COUNTDOWN_TIMER_START,
            score: 0,
            new_game: true,
        }
    } else {
        LevelStart {
            countdown_and_score_bonus: bonus as u32,
            countdown_timer_msec: countdown as u32,
            score: ((score + bonus) % 0x1_0000_0000) as u32,
            new_game: false,
        }
    }
}

/// The countdown, score and bonus at the start of a level (the sums wrap
/// around in 32 bits).
pub fn level_start(difficulty_level: u32, countdown_timer_msec: u32, score: u32) -> (s: LevelStart)
    ensures
        s == spec_level_start(difficulty_level, countdown_timer_msec, score),
{
    let bonus = level_bonus(difficulty_level);
    let mut countdown = countdown_timer_msec.wrapping_add(bonus);
    if countdown > MAX_COUNTDOWN {
        countdown = MAX_COUNTDOWN;
    }
    let new_score = score.wrapping_add(bonus);
    if difficulty_level == START_DIFFICULTY_LEVEL {
        LevelStart {
            countdown_and_score_bonus: bonus,
            countdown_timer_msec: COUNTDOWN_TIMER_START,
            score: 0,
            new_game: true,
        }
    } else {
        LevelStart {
            countdown_and_score_bonus: bonus,
            countdown_timer_msec: countdown,
            score: new_score,
            new_game: false,
        }
    }
}

/// The kind of animal chosen by a draw: four kinds of kitten with 20% each,
/// a pig with 10%, a bird with 8%, and a lizard otherwise.
pub open spec fn spec_npc_preset(draw: u64) -> PresetSprites {
    let x = draw % 1000;
    if x <= 200 {
        PresetSprites::Kitty1
    } else if x <= 400 {
        PresetSprites::Kitty2
    } else if x <= 600 {
        PresetSprites::Kitty3
    } else if x <= 800 {
        PresetSprites::Kitty4
    } else if x <= 900 {
        PresetSprites::Pig
    } else if x <= 980 {
        PresetSprites::BirdIsntReal
    } else {
        PresetSprites::Lizard
    }
}

/// The kind of an animal, from a world-generation draw.
pub fn npc_preset(draw: u64) -> (p: PresetSprites)
    ensures
        p == spec_npc_preset(draw),
{
    let x = draw % 1000;
    if x <= 200 {
        PresetSprites::Kitty1
    } else if x <= 400 {
        PresetSprites::Kitty2
    } else if x <= 600 {
        PresetSprites::Kitty3
    } else if x <= 800 {
        PresetSprites::Kitty4
    } else if x <= 900 {
        PresetSprites::Pig
    } else if x <= 980 {
        PresetSprites::BirdIsntReal
    } else {
        PresetSprites::Lizard
    }
}

/// The tiles that a wall may be corrupted into.
pub open spec fn is_corrupt_material(m: u8) -> bool {
    9 <= m <= 15
}

/// A wall tile: the normal material, or (with chance 52/255, the draw's low
/// byte modulo 255 being at most 51, that is at most 255 times the
/// corruption chance of 0.2) the corrupted one.
pub open spec fn spec_get_material(normal: u8, corrupt: u8, draw: u64) -> u8 {
    if (draw as u8) % 255 > 51 {
        normal
    } else {
        corrupt
    }
}

/// A wall tile from a world-generation draw.
pub fn get_material(normal: u8, corrupt: u8, draw: u64) -> (m: u8)
    ensures
        m == spec_get_material(normal, corrupt, draw),
{
    if (draw as u8) % 255 > 51 {
        return normal;
    }
    corrupt
}

/// The corrupted material chosen by a draw.
pub open spec fn spec_corrupt_material(draw: u64) -> u8 {
    (9 + (draw as usize) % 7) as u8
}

/// The corrupted material that a wall segment uses, from a world-generation draw.
pub fn corrupt_material(draw: u64) -> (m: u8)
    ensures
        m == spec_corrupt_material(draw),
        is_corrupt_material(m),
{
    let corrupt_materials: [u8; 7] = [9, 10, 11, 12, 13, 14, 15];
    let i = draw as usize % 7;
    let m = corrupt_materials[i];
    assert(corrupt_materials@[i as int] == 9 + i);
    m
}


/// A chunk location well inside the `i32` range: its edges within 2^20 tiles
/// of the origin, its sizes non-negative.
pub open spec fn location_small(b: TileAlignedBoundingBox) -> bool {
    &&& -0x10_0000 <= b.x
    &&& b.x + b.width <= 0x10_0000
    &&& -0x10_0000 <= b.y
    &&& b.y + b.height <= 0x10_0000
}

pub open spec fn spec_min(a: int, b: int) -> int {
    if a <= b { a } else { b }
}

/// If `b1` lies right on top of `b2` (or else right to the left of it), they
/// share at least `side_len` tiles along that side.
pub open spec fn spec_one_side_shares(b1: TileAlignedBoundingBox, b2: TileAlignedBoundingBox, side_len: int) -> bool {
    if b1.y + b1.height == b2.y {
        spec_min(b1.x + b1.width - b2.x, b2.x + b2.width - b1.x) >= side_len
    } else if b1.x + b1.width == b2.x {
        spec_min(b1.y + b1.height - b2.y, b2.y + b2.height - b1.y) >= side_len
    } else {
        true
    }
}

/// Two chunk locations that lie against each other share at least `side_len`
/// tiles along the side where they do.
pub open spec fn spec_shares_enough(b1: TileAlignedBoundingBox, b2: TileAlignedBoundingBox, side_len: int) -> bool {
    spec_one_side_shares(b1, b2, side_len) && spec_one_side_shares(b2, b1, side_len)
}

fn do_for_one_side(b1: &TileAlignedBoundingBox, b2: &TileAlignedBoundingBox, side_len: usize) -> (r: bool)
    requires
        location_small(*b1),
        location_small(*b2),
        side_len <= 0x10_0000,
    ensures
        r == spec_one_side_shares(*b1, *b2, side_len as int),
{
    if b1.y + b1.height as i32 == b2.y {
        let a = b1.x + b1.width as i32 - b2.x;
        let b = b2.x + b2.width as i32 - b1.x;
        let m = if a <= b {
            a
        } else {
            b
        };
        if m >= side_len as i32 {
            return true;
        } else {
            return false;
        }
    }
    if b1.x + b1.width as i32 == b2.x {
        let a = b1.y + b1.height as i32 - b2.y;
        let b = b2.y + b2.height as i32 - b1.y;
        let m = if a <= b {
            a
        } else {
            b
        };
        if m >= side_len as i32 {
            return true;
        } else {
            return false;
        }
    }
    true
}

/// Whether two chunk locations that lie against each other share at least
/// `side_len` tiles along the side where they do.
pub fn shares_enough_axes_with_other_bounds(
    potential_bound: &TileAlignedBoundingBox,
    source_bound: &TileAlignedBoundingBox,
    side_len: usize,
) -> (r: bool)
    requires
        location_small(*potential_bound),
        location_small(*source_bound),
        side_len <= 0x10_0000,
    ensures
        r == spec_shares_enough(*potential_bound, *source_bound, side_len as int),
{
    do_for_one_side(potential_bound, source_bound, side_len) && do_for_one_side(
        source_bound,
        potential_bound,
        side_len,
    )
}

/// Whether two chunk locations overlap (sharing an edge is no overlap).
pub open spec fn spec_locations_overlap(a: TileAlignedBoundingBox, b: TileAlignedBoundingBox) -> bool {
    &&& a.y + a.height > b.y
    &&& a.y < b.y + b.height
    &&& a.x + a.width > b.x
    &&& a.x < b.x + b.width
}

/// A candidate location may be taken: it shares enough wall with its source
/// location, and with every location taken so far it neither overlaps nor
/// shares too little wall.
pub open spec fn spec_viable(
    locations: Seq<TileAlignedBoundingBox>,
    source: int,
    candidate: TileAlignedBoundingBox,
    side_len: int,
) -> bool {
    &&& spec_shares_enough(locations[source], candidate, side_len)
    &&& forall|i: int|
        0 <= i < locations.len() ==> !spec_locations_overlap(candidate, #[trigger] locations[i])
            && spec_shares_enough(locations[i], candidate, side_len)
}

/// Whether a candidate location may be taken (see `spec_viable`).
pub fn is_viable_spot(
    locations: &Vec<TileAlignedBoundingBox>,
    source: usize,
    candidate: &TileAlignedBoundingBox,
    side_len: usize,
) -> (r: bool)
    requires
        source < locations@.len(),
        forall|i: int| 0 <= i < locations@.len() ==> location_small(#[trigger] locations@[i]),
        location_small(*candidate),
        side_len <= 0x10_0000,
    ensures
        r == spec_viable(locations@, source as int, *candidate, side_len as int),
{
    let mut is_viable_spot = true;
    if !shares_enough_axes_with_other_bounds(&locations[source], candidate, side_len) {
        is_viable_spot = false;
    }
    let n = locations.len();
    let mut i: usize = 0;
    while i < n
        invariant
            n == locations@.len(),
            0 <= i <= n,
            source < n,
            forall|i: int| 0 <= i < locations@.len() ==> location_small(#[trigger] locations@[i]),
            location_small(*candidate),
            side_len <= 0x10_0000,
            is_viable_spot == (spec_shares_enough(locations@[source as int], *candidate, side_len as int)
                && forall|j: int|
                0 <= j < i ==> !spec_locations_overlap(*candidate, #[trigger] locations@[j])
                    && spec_shares_enough(locations@[j], *candidate, side_len as int)),
        decreases n - i,
    {
        let other_bound = &locations[i];
        if candidate.y + candidate.height as i32 > other_bound.y {
            if candidate.y < other_bound.y + other_bound.height as i32 {
                if candidate.x + candidate.width as i32 > other_bound.x {
                    if candidate.x < other_bound.x + other_bound.width as i32 {
                        is_viable_spot = false;
                    }
                }
            }
        }
        if !shares_enough_axes_with_other_bounds(other_bound, candidate, side_len) {
            is_viable_spot = false;
        }
        i = i + 1;
    }
    is_viable_spot
}

/// Truncating remainder (the sign of the dividend), as Rust's `%` on signed integers.
pub open spec fn trunc_rem(a: int, b: int) -> int {
    if a >= 0 {
        a % b
    } else {
        -((-a) % b)
    }
}

/// The location of a new chunk of `w` by `h` tiles placed against `rand_bound`:
/// below it or above it (`vertical`), or right or left of it, shifted along
/// that side by `r_offs`.
pub open spec fn spec_candidate_location(
    rand_bound: TileAlignedBoundingBox,
    vertical: bool,
    positive: bool,
    r_offs: int,
    w: usize,
    h: usize,
) -> TileAlignedBoundingBox {
    if vertical {
        if positive {
            TileAlignedBoundingBox { x: (rand_bound.x + r_offs) as i32, y: (rand_bound.y + rand_bound.height) as i32, width: w, height: h }
        } else {
            TileAlignedBoundingBox { x: (rand_bound.x + r_offs) as i32, y: (rand_bound.y - h) as i32, width: w, height: h }
        }
    } else {
        if positive {
            TileAlignedBoundingBox { x: (rand_bound.x + rand_bound.width) as i32, y: (rand_bound.y + r_offs) as i32, width: w, height: h }
        } else {
            TileAlignedBoundingBox { x: (rand_bound.x - w) as i32, y: (rand_bound.y + r_offs) as i32, width: w, height: h }
        }
    }
}


/// Two chunk locations lie against each other and share at least `side_len`
/// tiles along that side.
pub open spec fn spec_connected(a: TileAlignedBoundingBox, b: TileAlignedBoundingBox, side_len: int) -> bool {
    ||| (a.y + a.height == b.y || b.y + b.height == a.y) && spec_min(a.x + a.width - b.x, b.x + b.width - a.x) >= side_len
    ||| (a.x + a.width == b.x || b.x + b.width == a.x) && spec_min(a.y + a.height - b.y, b.y + b.height - a.y) >= side_len
}

/// The number of tiles of the locations `1..k` (the first location is not counted).
pub open spec fn placed_area(locations: Seq<TileAlignedBoundingBox>, k: int) -> int
    decreases k,
{
    if k <= 1 {
        0
    } else {
        placed_area(locations, k - 1) + locations[k - 1].width * locations[k - 1].height
    }
}

/// The first chunk of every map.
pub open spec fn origin_location() -> TileAlignedBoundingBox {
    TileAlignedBoundingBox { x: 0, y: 0, width: 32, height: 32 }
}

/// How many candidates are tried for one chunk before the map is taken as
/// full. At one candidate a nanosecond this takes centuries, so in practice
/// the search for a place goes on until one is found, as the game's
/// placement does.
pub const MAX_CHUNK_PLACEMENT_ATTEMPTS: u64 = 0xffff_ffff_ffff_ffff;

/// The properties of a list of chunk locations made by `place_chunk_locations`
/// with setting `setting_idx`.
pub open spec fn locations_ok(locations: Seq<TileAlignedBoundingBox>, setting_idx: usize) -> bool {
    let s = spec_map_gen_setting(setting_idx);
    &&& locations.len() >= 1
    &&& locations[0] == origin_location()
    &&& forall|i: int|
        0 <= i < locations.len() ==> location_small(#[trigger] locations[i]) && bound_fits(locations[i])
            && locations[i].width >= 6 && locations[i].height >= 6
    &&& forall|i: int|
        1 <= i < locations.len() ==> s.chunk_min_side_len <= (#[trigger] locations[i]).width
            < s.chunk_max_side_len && s.chunk_min_side_len <= locations[i].height < s.chunk_max_side_len
            && locations[i].width * locations[i].height <= s.max_n_tiles_per_chunk
    &&& forall|i: int, j: int|
        0 <= i < j < locations.len() ==> !spec_locations_overlap(#[trigger] locations[j], #[trigger] locations[i])
            && spec_shares_enough(locations[i], locations[j], s.chunk_min_side_len as int)
    &&& all_connected(locations, s.chunk_min_side_len as int)
}

/// Location `j` is connected to an earlier location.
pub open spec fn connected_to_earlier(locations: Seq<TileAlignedBoundingBox>, j: int, side_len: int) -> bool {
    exists|i: int| 0 <= i < j && #[trigger] spec_connected(locations[i], locations[j], side_len)
}

/// Every location but the first is connected to an earlier one.
pub open spec fn all_connected(locations: Seq<TileAlignedBoundingBox>, side_len: int) -> bool {
    forall|j: int| 1 <= j < locations.len() ==> #[trigger] connected_to_earlier(locations, j, side_len)
}

/// `path` leads from the origin location (index 0) to location `j` through
/// locations that lie against each other, sharing at least `side_len` tiles.
pub open spec fn is_path_to(locations: Seq<TileAlignedBoundingBox>, path: Seq<int>, j: int, side_len: int) -> bool {
    &&& path.len() >= 1
    &&& path[0] == 0
    &&& path.last() == j
    &&& forall|k: int| 0 <= k < path.len() ==> 0 <= #[trigger] path[k] < locations.len()
    &&& forall|k: int|
        0 <= k < path.len() - 1 ==> spec_connected(locations[#[trigger] path[k]], locations[path[k + 1]], side_len)
}

proof fn path_to_origin(locations: Seq<TileAlignedBoundingBox>, j: int, side_len: int) -> (path: Seq<int>)
    requires
        0 <= j < locations.len(),
        all_connected(locations, side_len),
    ensures
        is_path_to(locations, path, j, side_len),
    decreases j,
{
    if j == 0 {
        seq![0int]
    } else {
        assert(connected_to_earlier(locations, j, side_len));
        let i = choose|i: int| 0 <= i < j && #[trigger] spec_connected(locations[i], locations[j], side_len);
        let prefix = path_to_origin(locations, i, side_len);
        let path = prefix.push(j);
        assert forall|k: int| 0 <= k < path.len() - 1 implies spec_connected(
            locations[#[trigger] path[k]],
            locations[path[k + 1]],
            side_len,
        ) by {
            if k < prefix.len() - 1 {
                assert(path[k] == prefix[k] && path[k + 1] == prefix[k + 1]);
            } else {
                assert(path[k] == i && path[k + 1] == j);
            }
        }
        assert forall|k: int| 0 <= k < path.len() implies 0 <= #[trigger] path[k] < locations.len() by {
            if k < prefix.len() {
                assert(path[k] == prefix[k]);
            }
        }
        path
    }
}

/// The chunks of a generated map form one connected whole: every location
/// is reached from the origin location through a chain of locations that
/// lie against each other and share at least `side_len` tiles of wall.
pub proof fn law_every_chunk_reaches_origin(locations: Seq<TileAlignedBoundingBox>, side_len: int, j: int)
    requires
        all_connected(locations, side_len),
        0 <= j < locations.len(),
    ensures
        exists|path: Seq<int>| is_path_to(locations, path, j, side_len),
{
    let path = path_to_origin(locations, j, side_len);
    assert(is_path_to(locations, path, j, side_len));
}

proof fn lemma_placed_area_grows(locations: Seq<TileAlignedBoundingBox>, b: TileAlignedBoundingBox)
    requires
        locations.len() >= 1,
    ensures
        placed_area(locations.push(b), locations.len() + 1int) == placed_area(locations, locations.len() as int) + b.width * b.height,
        forall|k: int| k <= locations.len() ==> placed_area(locations.push(b), k) == placed_area(locations, k),
{
    assert forall|k: int| k <= locations.len() implies placed_area(locations.push(b), k) == placed_area(locations, k) by {
        lemma_placed_area_prefix(locations, b, k);
    }
}

proof fn lemma_placed_area_prefix(locations: Seq<TileAlignedBoundingBox>, b: TileAlignedBoundingBox, k: int)
    requires
        k <= locations.len(),
    ensures
        placed_area(locations.push(b), k) == placed_area(locations, k),
    decreases k,
{
    if k > 1 {
        lemma_placed_area_prefix(locations, b, k - 1);
    }
}

/// The shift of a new chunk along the side of its source: the draw, taken
/// as `i32`, with truncating remainder modulo `min_side_len`, less half of
/// `min_side_len`.
pub open spec fn spec_chunk_offset(draw: u64, min_side_len: usize) -> int {
    trunc_rem((draw as i32) as int, min_side_len as int) - (min_side_len / 2) as int
}

fn chunk_offset(draw: u64, min_side_len: usize) -> (r: i32)
    requires
        1 <= min_side_len <= 100,
    ensures
        r == spec_chunk_offset(draw, min_side_len),
        -(min_side_len as int) - ((min_side_len / 2) as int) < r,
        r < min_side_len,
{
    let v = draw as i32;
    let m = min_side_len as i32;
    let rem: i32 = if v >= 0 {
        v % m
    } else {
        let a: i64 = -(v as i64);
        let q: i64 = a % (m as i64);
        -(q as i32)
    };
    rem - (min_side_len / 2) as i32
}

/// The location of a new chunk placed against `rand_bound` (see `spec_candidate_location`).
pub fn candidate_location(
    rand_bound: &TileAlignedBoundingBox,
    vertical: bool,
    positive: bool,
    r_offs: i32,
    w: usize,
    h: usize,
) -> (b: TileAlignedBoundingBox)
    requires
        location_small(*rand_bound),
        -100 <= r_offs <= 100,
        w <= 100,
        h <= 100,
    ensures
        b == spec_candidate_location(*rand_bound, vertical, positive, r_offs as int, w, h),
{
    if vertical {
        if positive {
            TileAlignedBoundingBox::init(
                rand_bound.x + r_offs,
                rand_bound.y + rand_bound.height as i32,
                w,
                h,
            )
        } else {
            TileAlignedBoundingBox::init(rand_bound.x + r_offs, rand_bound.y - h as i32, w, h)
        }
    } else {
        if positive {
            TileAlignedBoundingBox::init(
                rand_bound.x + rand_bound.width as i32,
                rand_bound.y + r_offs,
                w,
                h,
            )
        } else {
            TileAlignedBoundingBox::init(rand_bound.x - w as i32, rand_bound.y + r_offs, w, h)
        }
    }
}

/// A candidate that shares enough wall with its source is connected to it.
pub proof fn lemma_candidate_connected(
    rb: TileAlignedBoundingBox,
    vertical: bool,
    positive: bool,
    r_offs: int,
    w: usize,
    h: usize,
    side_len: int,
)
    requires
        rb.height >= 6,
        rb.width >= 6,
        w >= 1,
        h >= 1,
        side_len >= 1,
        -8 <= r_offs <= 2,
        location_small(rb),
        w <= 100,
        h <= 100,
        spec_shares_enough(rb, spec_candidate_location(rb, vertical, positive, r_offs, w, h), side_len),
    ensures
        spec_connected(rb, spec_candidate_location(rb, vertical, positive, r_offs, w, h), side_len),
{
}

/// A location within `bound` tiles of the origin, with sides of at most 50.
pub open spec fn within_box(b: TileAlignedBoundingBox, bound: int) -> bool {
    &&& -bound <= b.x
    &&& b.x + b.width <= bound
    &&& -bound <= b.y
    &&& b.y + b.height <= bound
    &&& b.width <= 50
    &&& b.height <= 50
}

/// What placing chunks keeps true of the locations so far and the map's
/// tile count: the locations are as `locations_ok` says, the tile count is
/// their placed area within the map budget, and every location lies within
/// 60 tiles per location of the origin.
#[verifier::opaque]
pub open spec fn placement_inv(locations: Seq<TileAlignedBoundingBox>, num_tiles: usize, setting_idx: usize) -> bool {
    &&& locations_ok(locations, setting_idx)
    &&& num_tiles == placed_area(locations, locations.len() as int)
    &&& num_tiles <= MAX_N_TILES_IN_WHOLE_MAP
    &&& 36 * (locations.len() - 1) <= num_tiles
    &&& forall|i: int|
        0 <= i < locations.len() ==> within_box(#[trigger] locations[i], 32 + 60 * (locations.len() - 1))
}

/// The outcome of one try at placing a chunk.
pub enum PlacementStep {
    Placed,
    NotPlaced,
    Stop,
    /// The chunk was to be placed, but no space could be had for the list.
    Refused,
}

/// The settings table: every chunk side is at least 6 and below 50 tiles,
/// and at most 2000 tiles to a chunk.
proof fn lemma_setting_facts(setting_idx: usize)
    requires
        setting_idx < N_MAP_GEN_SETTINGS,
    ensures
        spec_map_gen_setting(setting_idx).chunk_min_side_len == 6,
        spec_map_gen_setting(setting_idx).chunk_max_side_len <= 50,
        spec_map_gen_setting(setting_idx).chunk_max_side_len > 6,
        spec_map_gen_setting(setting_idx).max_n_tiles_per_chunk <= 2000,
{
}

/// What a try at placing a chunk needs from the invariant: the locations so
/// far lie within the bounds that `location_small` asks for.
proof fn lemma_inv_facts(locations: Seq<TileAlignedBoundingBox>, num_tiles: usize, setting_idx: usize)
    requires
        placement_inv(locations, num_tiles, setting_idx),
    ensures
        1 <= locations.len() <= 1423,
        num_tiles <= MAX_N_TILES_IN_WHOLE_MAP,
        forall|i: int|
            0 <= i < locations.len() ==> within_box(#[trigger] locations[i], 32 + 60 * (locations.len() - 1))
                && location_small(locations[i]) && locations[i].width >= 6 && locations[i].height >= 6,
{
    reveal(placement_inv);
}

proof fn lemma_push_pairwise(
    locations: Seq<TileAlignedBoundingBox>,
    b: TileAlignedBoundingBox,
    side_len: int,
)
    requires
        forall|i: int, j: int|
            0 <= i < j < locations.len() ==> !spec_locations_overlap(#[trigger] locations[j], #[trigger] locations[i])
                && spec_shares_enough(locations[i], locations[j], side_len),
        forall|i: int|
            0 <= i < locations.len() ==> !spec_locations_overlap(b, #[trigger] locations[i])
                && spec_shares_enough(locations[i], b, side_len),
    ensures
        forall|i: int, j: int|
            0 <= i < j < locations.push(b).len() ==> !spec_locations_overlap(#[trigger] locations.push(b)[j], #[trigger] locations.push(b)[i])
                && spec_shares_enough(locations.push(b)[i], locations.push(b)[j], side_len),
{
    let nl = locations.push(b);
    assert forall|i: int, j: int|
        0 <= i < j < nl.len() implies !spec_locations_overlap(#[trigger] nl[j], #[trigger] nl[i])
            && spec_shares_enough(nl[i], nl[j], side_len) by {
        assert(nl[i] == locations[i]);
        if j < locations.len() {
            assert(nl[j] == locations[j]);
        }
    }
}

proof fn lemma_push_connected(
    locations: Seq<TileAlignedBoundingBox>,
    b: TileAlignedBoundingBox,
    source: int,
    side_len: int,
)
    requires
        0 <= source < locations.len(),
        spec_connected(locations[source], b, side_len),
        all_connected(locations, side_len),
    ensures
        all_connected(locations.push(b), side_len),
{
    let nl = locations.push(b);
    assert forall|j: int| 1 <= j < nl.len() implies #[trigger] connected_to_earlier(nl, j, side_len) by {
        if j < locations.len() {
            assert(connected_to_earlier(locations, j, side_len));
            let i = choose|i: int| 0 <= i < j && #[trigger] spec_connected(locations[i], locations[j], side_len);
            assert(nl[i] == locations[i]);
            assert(nl[j] == locations[j]);
            assert(spec_connected(nl[i], nl[j], side_len));
        } else {
            assert(nl[source] == locations[source]);
            assert(nl[j] == b);
            assert(spec_connected(nl[source], nl[j], side_len));
        }
    }
}

proof fn lemma_push_location(
    locations: Seq<TileAlignedBoundingBox>,
    num_tiles: usize,
    setting_idx: usize,
    source: int,
    b: TileAlignedBoundingBox,
)
    requires
        setting_idx < N_MAP_GEN_SETTINGS,
        placement_inv(locations, num_tiles, setting_idx),
        0 <= source < locations.len(),
        spec_map_gen_setting(setting_idx).chunk_min_side_len <= b.width < spec_map_gen_setting(setting_idx).chunk_max_side_len,
        spec_map_gen_setting(setting_idx).chunk_min_side_len <= b.height < spec_map_gen_setting(setting_idx).chunk_max_side_len,
        b.width * b.height <= spec_map_gen_setting(setting_idx).max_n_tiles_per_chunk,
        num_tiles + b.width * b.height <= MAX_N_TILES_IN_WHOLE_MAP,
        spec_connected(locations[source], b, 6),
        spec_viable(locations, source, b, 6),
        within_box(b, 32 + 60 * (locations.len() as int)),
    ensures
        placement_inv(locations.push(b), (num_tiles + b.width * b.height) as usize, setting_idx),
{
    reveal(placement_inv);
    lemma_setting_facts(setting_idx);
    let nl = locations.push(b);
    assert(b.width * b.height >= 36) by (nonlinear_arith)
        requires
            b.width >= 6,
            b.height >= 6,
    ;
    lemma_placed_area_grows(locations, b);
    lemma_push_pairwise(locations, b, 6);
    lemma_push_connected(locations, b, source, 6);
    assert(nl[0] == locations[0]);
    assert forall|i: int| 0 <= i < nl.len() implies location_small(#[trigger] nl[i]) && bound_fits(nl[i])
        && nl[i].width >= 6 && nl[i].height >= 6 by {
        if i < locations.len() {
            assert(nl[i] == locations[i]);
        }
    }
    assert forall|i: int| 1 <= i < nl.len() implies spec_map_gen_setting(setting_idx).chunk_min_side_len <= (#[trigger] nl[i]).width
        < spec_map_gen_setting(setting_idx).chunk_max_side_len && spec_map_gen_setting(setting_idx).chunk_min_side_len <= nl[i].height
        < spec_map_gen_setting(setting_idx).chunk_max_side_len && nl[i].width * nl[i].height
        <= spec_map_gen_setting(setting_idx).max_n_tiles_per_chunk by {
        if i < locations.len() {
            assert(nl[i] == locations[i]);
        }
    }
    assert forall|i: int| 0 <= i < nl.len() implies within_box(#[trigger] nl[i], 32 + 60 * (nl.len() - 1)) by {
        if i < locations.len() {
            assert(nl[i] == locations[i]);
        }
    }
}

/// One try at placing a chunk from stream state `s`, when space for the
/// list can be had: draws a width and a height (each `min + draw % (max -
/// min)`); a chunk of more tiles than the setting allows is not placed, and
/// one that would pass the map budget stops the placement. Otherwise draws a
/// shift, a source location (`draw % len`), a direction and a side (each
/// `draw % 2 == 1`), and places the candidate location if it is viable.
/// Gives the outcome, the locations, the tile count and the stream state
/// after the try.
pub open spec fn spec_try_place(
    locations: Seq<TileAlignedBoundingBox>,
    num_tiles: int,
    s: u128,
    setting_idx: usize,
) -> (PlacementStep, Seq<TileAlignedBoundingBox>, int, u128) {
    let st = spec_map_gen_setting(setting_idx);
    let min = st.chunk_min_side_len;
    let max = st.chunk_max_side_len;
    let w = (min + (rng_draw(s, 0) as usize) % ((max - min) as usize)) as usize;
    let h = (min + (rng_draw(s, 1) as usize) % ((max - min) as usize)) as usize;
    if h * w > st.max_n_tiles_per_chunk {
        (PlacementStep::NotPlaced, locations, num_tiles, rng_steps_from(s, 2))
    } else if num_tiles + w * h > MAX_N_TILES_IN_WHOLE_MAP {
        (PlacementStep::Stop, locations, num_tiles, rng_steps_from(s, 2))
    } else {
        let r_offs = spec_chunk_offset(rng_draw(s, 2), min);
        let source = (rng_draw(s, 3) % (locations.len() as u64)) as int;
        let vertical = rng_draw(s, 4) % 2 == 1;
        let positive = rng_draw(s, 5) % 2 == 1;
        let candidate = spec_candidate_location(locations[source], vertical, positive, r_offs, w, h);
        if spec_viable(locations, source, candidate, min as int) {
            (PlacementStep::Placed, locations.push(candidate), num_tiles + h * w, rng_steps_from(s, 6))
        } else {
            (PlacementStep::NotPlaced, locations, num_tiles, rng_steps_from(s, 6))
        }
    }
}

/// Tries to place one chunk, at most `MAX_CHUNK_PLACEMENT_ATTEMPTS` tries in
/// all, `attempts` of them done: whether a chunk was placed (otherwise the
/// placement ends), and the locations, tile count and stream state after.
pub open spec fn spec_place_chunk(
    locations: Seq<TileAlignedBoundingBox>,
    num_tiles: int,
    s: u128,
    setting_idx: usize,
    attempts: int,
) -> (bool, Seq<TileAlignedBoundingBox>, int, u128)
    decreases MAX_CHUNK_PLACEMENT_ATTEMPTS - attempts,
{
    if attempts >= MAX_CHUNK_PLACEMENT_ATTEMPTS {
        (false, locations, num_tiles, s)
    } else {
        let t = spec_try_place(locations, num_tiles, s, setting_idx);
        match t.0 {
            PlacementStep::NotPlaced => spec_place_chunk(t.1, t.2, t.3, setting_idx, attempts + 1),
            PlacementStep::Placed => (true, t.1, t.2, t.3),
            _ => (false, t.1, t.2, t.3),
        }
    }
}

/// Places chunks one after another while the tile count is below
/// `max_n_tiles_in_map`: the locations, tile count and stream state at the end.
pub open spec fn spec_place_all(
    locations: Seq<TileAlignedBoundingBox>,
    num_tiles: int,
    s: u128,
    setting_idx: usize,
    max_n_tiles_in_map: u32,
) -> (Seq<TileAlignedBoundingBox>, int, u128)
    decreases MAX_N_TILES_IN_WHOLE_MAP - num_tiles,
{
    if num_tiles >= max_n_tiles_in_map {
        (locations, num_tiles, s)
    } else {
        let p = spec_place_chunk(locations, num_tiles, s, setting_idx, 0);
        if p.0 && num_tiles < p.2 <= MAX_N_TILES_IN_WHOLE_MAP {
            spec_place_all(p.1, p.2, p.3, setting_idx, max_n_tiles_in_map)
        } else {
            (p.1, p.2, p.3)
        }
    }
}

/// Placing one chunk adds one location where a chunk was placed, and none
/// otherwise.
proof fn lemma_place_chunk_len(
    locations: Seq<TileAlignedBoundingBox>,
    num_tiles: int,
    s: u128,
    setting_idx: usize,
    attempts: int,
)
    ensures
        spec_place_chunk(locations, num_tiles, s, setting_idx, attempts).1.len() == locations.len() + (if spec_place_chunk(
            locations,
            num_tiles,
            s,
            setting_idx,
            attempts,
        ).0 {
            1int
        } else {
            0int
        }),
    decreases MAX_CHUNK_PLACEMENT_ATTEMPTS - attempts,
{
    if attempts < MAX_CHUNK_PLACEMENT_ATTEMPTS {
        let t = spec_try_place(locations, num_tiles, s, setting_idx);
        if t.0 == PlacementStep::NotPlaced {
            lemma_place_chunk_len(t.1, t.2, t.3, setting_idx, attempts + 1);
        }
    }
}

/// A round of placement that placed no chunk leaves the locations and the
/// tile count as they were; one that placed a chunk added its tiles, staying
/// within the whole-map budget.
proof fn lemma_place_chunk_outcome(
    locations: Seq<TileAlignedBoundingBox>,
    num_tiles: int,
    s: u128,
    setting_idx: usize,
    attempts: int,
)
    requires
        setting_idx < N_MAP_GEN_SETTINGS,
    ensures
        ({
            let p = spec_place_chunk(locations, num_tiles, s, setting_idx, attempts);
            &&& !p.0 ==> p.1 == locations && p.2 == num_tiles
            &&& p.0 ==> num_tiles < p.2 <= MAX_N_TILES_IN_WHOLE_MAP
        }),
    decreases MAX_CHUNK_PLACEMENT_ATTEMPTS - attempts,
{
    if attempts < MAX_CHUNK_PLACEMENT_ATTEMPTS {
        lemma_setting_facts(setting_idx);
        let t = spec_try_place(locations, num_tiles, s, setting_idx);
        if t.0 == PlacementStep::NotPlaced {
            lemma_place_chunk_outcome(t.1, t.2, t.3, setting_idx, attempts + 1);
        } else if t.0 == PlacementStep::Placed {
            let st = spec_map_gen_setting(setting_idx);
            let min = st.chunk_min_side_len;
            let max = st.chunk_max_side_len;
            let w = (min + (rng_draw(s, 0) as usize) % ((max - min) as usize)) as usize;
            let h = (min + (rng_draw(s, 1) as usize) % ((max - min) as usize)) as usize;
            assert(w >= 6 && h >= 6);
            assert(h * w >= 36) by (nonlinear_arith)
                requires
                    w >= 6,
                    h >= 6,
            ;
            assert(w * h == h * w) by (nonlinear_arith);
        }
    }
}

/// A round of placement keeps trying: a try that found no place for its
/// chunk is followed by another try from the stream state after it, with the
/// same locations and tile count, for as long as fewer than 2^64 - 1 tries
/// have been made.
pub proof fn law_placement_round_keeps_trying(
    locations: Seq<TileAlignedBoundingBox>,
    num_tiles: int,
    s: u128,
    setting_idx: usize,
    attempts: int,
)
    requires
        0 <= attempts,
        attempts + 1 < 0xffff_ffff_ffff_ffff,
        spec_try_place(locations, num_tiles, s, setting_idx).0 == PlacementStep::NotPlaced,
    ensures
        spec_place_chunk(locations, num_tiles, s, setting_idx, attempts) == spec_place_chunk(
            locations,
            num_tiles,
            spec_try_place(locations, num_tiles, s, setting_idx).3,
            setting_idx,
            attempts + 1,
        ),
{
}

/// Placement goes on until the map reaches its tile budget
/// `max_n_tiles_in_map`: wherever it ends below the budget, it ends on a
/// round that placed no chunk (a chunk that would pass the whole-map budget,
/// or no place found for one), begun from the final locations and tile count
/// and handing on the final stream state.
pub proof fn law_placement_fills_budget(
    locations: Seq<TileAlignedBoundingBox>,
    num_tiles: int,
    s: u128,
    setting_idx: usize,
    max_n_tiles_in_map: u32,
)
    requires
        setting_idx < N_MAP_GEN_SETTINGS,
    ensures
        ({
            let r = spec_place_all(locations, num_tiles, s, setting_idx, max_n_tiles_in_map);
            r.1 >= max_n_tiles_in_map || exists|s_round: u128|
                #[trigger] spec_place_chunk(r.0, r.1, s_round, setting_idx, 0) == (false, r.0, r.1, r.2)
        }),
    decreases MAX_N_TILES_IN_WHOLE_MAP - num_tiles,
{
    if num_tiles < max_n_tiles_in_map {
        let p = spec_place_chunk(locations, num_tiles, s, setting_idx, 0);
        lemma_place_chunk_outcome(locations, num_tiles, s, setting_idx, 0);
        if p.0 {
            law_placement_fills_budget(p.1, p.2, p.3, setting_idx, max_n_tiles_in_map);
            assert(spec_place_all(locations, num_tiles, s, setting_idx, max_n_tiles_in_map) == spec_place_all(
                p.1,
                p.2,
                p.3,
                setting_idx,
                max_n_tiles_in_map,
            ));
        } else {
            let r = spec_place_all(locations, num_tiles, s, setting_idx, max_n_tiles_in_map);
            assert(r == (locations, num_tiles, p.3));
            assert(spec_place_chunk(r.0, r.1, s, setting_idx, 0) == (false, r.0, r.1, r.2));
        }
    }
}

/// Placing chunks never removes a location.
proof fn lemma_place_all_grows(
    locations: Seq<TileAlignedBoundingBox>,
    num_tiles: int,
    s: u128,
    setting_idx: usize,
    max_n_tiles_in_map: u32,
)
    ensures
        spec_place_all(locations, num_tiles, s, setting_idx, max_n_tiles_in_map).0.len() >= locations.len(),
    decreases MAX_N_TILES_IN_WHOLE_MAP - num_tiles,
{
    if num_tiles < max_n_tiles_in_map {
        let p = spec_place_chunk(locations, num_tiles, s, setting_idx, 0);
        lemma_place_chunk_len(locations, num_tiles, s, setting_idx, 0);
        if p.0 && num_tiles < p.2 <= MAX_N_TILES_IN_WHOLE_MAP {
            lemma_place_all_grows(p.1, p.2, p.3, setting_idx, max_n_tiles_in_map);
        }
    }
}

/// A map placed from the origin alone holds a second location unless its
/// tile budget is zero or no place was found for the first chunk after it.
proof fn lemma_place_all_second_location(s: u128, setting_idx: usize, max_n_tiles_in_map: u32)
    ensures
        max_n_tiles_in_map > 0 && spec_place_chunk(seq![origin_location()], 0, s, setting_idx, 0).0
            ==> spec_place_all(seq![origin_location()], 0, s, setting_idx, max_n_tiles_in_map).0.len() >= 2,
{
    let l = seq![origin_location()];
    let p = spec_place_chunk(l, 0, s, setting_idx, 0);
    lemma_place_chunk_len(l, 0, s, setting_idx, 0);
    if max_n_tiles_in_map > 0 && p.0 && 0 < p.2 <= MAX_N_TILES_IN_WHOLE_MAP {
        lemma_place_all_grows(p.1, p.2, p.3, setting_idx, max_n_tiles_in_map);
    }
}

/// Draws the width and then the height of a new chunk, each in `min..max`.
fn draw_chunk_size(rng: &mut GameRng, min: usize, max: usize) -> (r: (usize, usize))
    requires
        1 <= min < max <= 50,
    ensures
        min <= r.0 < max,
        min <= r.1 < max,
        r.1 * r.0 <= 2500,
        r.0 * r.1 == r.1 * r.0,
        r.0 == (min + (rng_draw(old(rng).worldgen_state(), 0) as usize) % ((max - min) as usize)),
        r.1 == (min + (rng_draw(old(rng).worldgen_state(), 1) as usize) % ((max - min) as usize)),
        final(rng).worldgen_state() == rng_steps_from(old(rng).worldgen_state(), 2),
        old(rng).worldgen_only(*final(rng)),
{
    let ghost s0 = rng.worldgen_state();
    let chunk_wid: usize = min + (draw_next(rng, Ghost(s0), Ghost(0)) as usize % (max - min));
    let chunk_hei: usize = min + (draw_next(rng, Ghost(s0), Ghost(1)) as usize % (max - min));
    proof {
        reveal_with_fuel(rng_steps_from, 1);
        assert(rng_steps_from(s0, 0) == s0);
    }
    assert(chunk_hei * chunk_wid <= 2500 && chunk_wid * chunk_hei == chunk_hei * chunk_wid) by (nonlinear_arith)
        requires
            chunk_hei <= 50,
            chunk_wid <= 50,
    ;
    (chunk_wid, chunk_hei)
}

/// Draws a shift, a source location, a direction and a side, and makes the
/// candidate location of a `w` by `h` chunk against the source.
fn draw_candidate(
    rng: &mut GameRng,
    locations: &Vec<TileAlignedBoundingBox>,
    w: usize,
    h: usize,
    min_side_len: usize,
    Ghost(bound): Ghost<int>,
) -> (r: (usize, TileAlignedBoundingBox, bool, bool, i32))
    requires
        min_side_len == 6,
        1 <= locations@.len(),
        0 <= bound <= 0x8_0000,
        6 <= w <= 50,
        6 <= h <= 50,
        forall|i: int| 0 <= i < locations@.len() ==> within_box(#[trigger] locations@[i], bound),
    ensures
        r.0 < locations@.len(),
        -8 <= r.4 <= 2,
        r.1 == spec_candidate_location(locations@[r.0 as int], r.2, r.3, r.4 as int, w, h),
        within_box(r.1, bound + 60),
        location_small(r.1),
        r.4 == spec_chunk_offset(rng_draw(old(rng).worldgen_state(), 0), min_side_len),
        r.0 == (rng_draw(old(rng).worldgen_state(), 1) % (locations@.len() as u64)) as int,
        r.2 == (rng_draw(old(rng).worldgen_state(), 2) % 2 == 1),
        r.3 == (rng_draw(old(rng).worldgen_state(), 3) % 2 == 1),
        final(rng).worldgen_state() == rng_steps_from(old(rng).worldgen_state(), 4),
        old(rng).worldgen_only(*final(rng)),
{
    let ghost s0 = rng.worldgen_state();
    proof {
        assert(rng_steps_from(s0, 0) == s0);
    }
    let r_offs_1 = chunk_offset(draw_next(rng, Ghost(s0), Ghost(0)), min_side_len);
    let n_locations = locations.len();
    let random_chunk_from_list_i = (draw_next(rng, Ghost(s0), Ghost(1)) % n_locations as u64) as usize;
    let vertical_stack = draw_next(rng, Ghost(s0), Ghost(2)) % 2 == 1;
    let positive_stack = draw_next(rng, Ghost(s0), Ghost(3)) % 2 == 1;
    assert(within_box(locations@[random_chunk_from_list_i as int], bound));
    let new_chunk_location = candidate_location(
        &locations[random_chunk_from_list_i],
        vertical_stack,
        positive_stack,
        r_offs_1,
        w,
        h,
    );
    (random_chunk_from_list_i, new_chunk_location, vertical_stack, positive_stack, r_offs_1)
}

/// The draws of a try, taken after the first two, are the draws from 2 on.
proof fn lemma_draws_from_two(s0: u128)
    ensures
        forall|k: nat| #[trigger] rng_draw(rng_steps_from(s0, 2), k) == rng_draw(s0, 2 + k),
        rng_steps_from(rng_steps_from(s0, 2), 4) == rng_steps_from(s0, 6),
{
    assert forall|k: nat| #[trigger] rng_draw(rng_steps_from(s0, 2), k) == rng_draw(s0, 2 + k) by {
        lemma_draw_after(s0, 2, k);
    }
    lemma_rng_steps_add(s0, 2, 4);
}

/// One try at placing a chunk (see `spec_try_place`); `Refused` where the
/// chunk was to be placed but no space could be had for the list, with the
/// locations and tile count unchanged.
fn try_place_one(
    rng: &mut GameRng,
    setting_idx: usize,
    locations: &mut Vec<TileAlignedBoundingBox>,
    map: &mut GameMap,
) -> (step: PlacementStep)
    requires
        setting_idx < N_MAP_GEN_SETTINGS,
        placement_inv(old(locations)@, old(map).num_tiles, setting_idx),
    ensures
        final(map).chunks@ == old(map).chunks@,
        placement_inv(final(locations)@, final(map).num_tiles, setting_idx),
        step is Placed ==> final(map).num_tiles > old(map).num_tiles,
        !(step is Placed) ==> final(map).num_tiles == old(map).num_tiles,
        old(rng).worldgen_only(*final(rng)),
        ({
            let t = spec_try_place(old(locations)@, old(map).num_tiles as int, old(rng).worldgen_state(), setting_idx);
            &&& final(rng).worldgen_state() == t.3
            &&& step is Refused ==> t.0 is Placed && final(locations)@ == old(locations)@
            &&& !(step is Refused) ==> step == t.0 && final(locations)@ == t.1 && final(map).num_tiles == t.2
        }),
{
    let ghost s0 = rng.worldgen_state();
    let setting = map_gen_setting(setting_idx);
    let map_chunk_min_side_len = setting.chunk_min_side_len;
    let map_chunk_max_side_len = setting.chunk_max_side_len;
    let max_n_tiles_in_chunk = setting.max_n_tiles_per_chunk;
    proof {
        lemma_setting_facts(setting_idx);
        lemma_inv_facts(locations@, map.num_tiles, setting_idx);
    }
    let (chunk_wid, chunk_hei) = draw_chunk_size(rng, map_chunk_min_side_len, map_chunk_max_side_len);
    if chunk_hei * chunk_wid > max_n_tiles_in_chunk {
        return PlacementStep::NotPlaced;
    }
    if !map.try_fit_chunk_into(chunk_wid, chunk_hei) {
        return PlacementStep::Stop;
    }
    let ghost len = locations@.len();
    let (random_chunk_from_list_i, new_chunk_location, vertical_stack, positive_stack, r_offs_1) =
        draw_candidate(
        rng,
        locations,
        chunk_wid,
        chunk_hei,
        map_chunk_min_side_len,
        Ghost(32 + 60 * (len - 1)),
    );
    proof {
        lemma_draws_from_two(s0);
    }
    let ghost rb = locations@[random_chunk_from_list_i as int];
    if !is_viable_spot(locations, random_chunk_from_list_i, &new_chunk_location, map_chunk_min_side_len) {
        return PlacementStep::NotPlaced;
    }
    match locations.try_reserve(1) {
        Ok(_) => {
            proof {
                lemma_candidate_connected(
                    rb,
                    vertical_stack,
                    positive_stack,
                    r_offs_1 as int,
                    chunk_wid,
                    chunk_hei,
                    6,
                );
                lemma_push_location(
                    locations@,
                    map.num_tiles,
                    setting_idx,
                    random_chunk_from_list_i as int,
                    new_chunk_location,
                );
            }
            assert(chunk_hei * chunk_wid >= 36) by (nonlinear_arith)
                requires
                    chunk_hei >= 6,
                    chunk_wid >= 6,
            ;
            locations.push(new_chunk_location);
            map.num_tiles = map.num_tiles + chunk_hei * chunk_wid;
            PlacementStep::Placed
        },
        Err(_) => PlacementStep::Refused,
    }
}

/// The locations of the chunks of a map (see `place_chunk_locations`).
pub struct ChunkPlacement {
    pub locations: Vec<TileAlignedBoundingBox>,
    /// No space was refused along the way, so that the locations are the
    /// ones `spec_place_all` gives.
    pub complete: bool,
}

/// Places the chunks of a new map, each against a randomly chosen earlier
/// chunk, until the map's tile count reaches `max_n_tiles_in_map`, the map
/// budget is used up, or no place is found for a chunk after
/// `MAX_CHUNK_PLACEMENT_ATTEMPTS` tries. The first location is always the 32
/// by 32 origin chunk. The map's tile count becomes the number of tiles of the
/// other locations. Where space is refused for the list midway, the placement
/// ends there (and is not `complete`); `None` when no space could be had for
/// the list at all.
pub fn place_chunk_locations(
    rng: &mut GameRng,
    setting_idx: usize,
    max_n_tiles_in_map: u32,
    map: &mut GameMap,
) -> (r: Option<ChunkPlacement>)
    requires
        setting_idx < N_MAP_GEN_SETTINGS,
        old(map).num_tiles == 0,
    ensures
        final(map).chunks@ == old(map).chunks@,
        match r {
            Some(p) => {
                &&& locations_ok(p.locations@, setting_idx)
                &&& final(map).num_tiles == placed_area(p.locations@, p.locations@.len() as int)
                &&& final(map).num_tiles <= MAX_N_TILES_IN_WHOLE_MAP
                &&& p.locations@.len() <= 1423
                &&& forall|i: int| 0 <= i < p.locations@.len() ==> location_small(#[trigger] p.locations@[i])
                &&& p.complete ==> spec_place_all(
                    seq![origin_location()],
                    0,
                    old(rng).worldgen_state(),
                    setting_idx,
                    max_n_tiles_in_map,
                ) == (p.locations@, final(map).num_tiles as int, final(rng).worldgen_state())
                &&& p.complete ==> final(map).num_tiles >= max_n_tiles_in_map || exists|s_round: u128|
                    #[trigger] spec_place_chunk(p.locations@, final(map).num_tiles as int, s_round, setting_idx, 0)
                        == (false, p.locations@, final(map).num_tiles as int, final(rng).worldgen_state())
            },
            None => final(map).num_tiles == 0 && final(rng).worldgen_state() == old(rng).worldgen_state(),
        },
        old(rng).worldgen_only(*final(rng)),
{
    let ghost s0 = rng.worldgen_state();
    let mut current_chunk_locations: Vec<TileAlignedBoundingBox> = Vec::new();
    match current_chunk_locations.try_reserve(1) {
        Ok(_) => {
            current_chunk_locations.push(TileAlignedBoundingBox::init(0, 0, 32, 32));
        },
        Err(_) => {
            return None;
        },
    }
    let mut tile_count: u32 = 0;
    let mut stop = false;
    let mut complete = true;
    let ghost target = spec_place_all(seq![origin_location()], 0, s0, setting_idx, max_n_tiles_in_map);
    proof {
        reveal(placement_inv);
        assert(current_chunk_locations@[0] == origin_location());
        assert(current_chunk_locations@ =~= seq![origin_location()]);
    }
    while !stop && tile_count < max_n_tiles_in_map
        invariant
            setting_idx < N_MAP_GEN_SETTINGS,
            map.chunks@ == old(map).chunks@,
            placement_inv(current_chunk_locations@, map.num_tiles, setting_idx),
            tile_count as int == map.num_tiles,
            old(rng).worldgen_only(*rng),
            complete && !stop ==> target == spec_place_all(
                current_chunk_locations@,
                map.num_tiles as int,
                rng.worldgen_state(),
                setting_idx,
                max_n_tiles_in_map,
            ),
            complete && stop ==> target == (current_chunk_locations@, map.num_tiles as int, rng.worldgen_state()),
        decreases (if tile_count >= max_n_tiles_in_map { 0 } else { max_n_tiles_in_map - tile_count }),
            (if stop { 0int } else { 1int }),
    {
        let ghost tc0 = tile_count;
        let ghost l0 = current_chunk_locations@;
        let ghost s_start = rng.worldgen_state();
        let ghost p = spec_place_chunk(l0, tc0 as int, s_start, setting_idx, 0);
        let ghost c0 = complete;
        let mut attempts: u64 = 0;
        let mut placed = false;
        while !placed && !stop
            invariant
                c0 ==> target == spec_place_all(l0, tc0 as int, s_start, setting_idx, max_n_tiles_in_map),
                complete ==> c0,
                tc0 < max_n_tiles_in_map,
                !(placed && stop),
                setting_idx < N_MAP_GEN_SETTINGS,
                map.chunks@ == old(map).chunks@,
                placement_inv(current_chunk_locations@, map.num_tiles, setting_idx),
                placed ==> map.num_tiles > tc0,
                !placed ==> map.num_tiles == tc0,
                old(rng).worldgen_only(*rng),
                attempts <= MAX_CHUNK_PLACEMENT_ATTEMPTS,
                p == spec_place_chunk(l0, tc0 as int, s_start, setting_idx, 0),
                complete && !placed && !stop ==> p == spec_place_chunk(
                    current_chunk_locations@,
                    map.num_tiles as int,
                    rng.worldgen_state(),
                    setting_idx,
                    attempts as int,
                ),
                complete && (placed || stop) ==> p == (
                    placed,
                    current_chunk_locations@,
                    map.num_tiles as int,
                    rng.worldgen_state(),
                ),
            decreases MAX_CHUNK_PLACEMENT_ATTEMPTS - attempts, (if stop { 0int } else { 1int }),
        {
            if attempts >= MAX_CHUNK_PLACEMENT_ATTEMPTS {
                stop = true;
            } else {
                attempts = attempts + 1;
                match try_place_one(rng, setting_idx, &mut current_chunk_locations, map) {
                    PlacementStep::Placed => {
                        placed = true;
                    },
                    PlacementStep::NotPlaced => {},
                    PlacementStep::Stop => {
                        stop = true;
                    },
                    PlacementStep::Refused => {
                        stop = true;
                        complete = false;
                    },
                }
            }
        }
        proof {
            lemma_inv_facts(current_chunk_locations@, map.num_tiles, setting_idx);
            reveal(placement_inv);
            if complete {
                assert(target == spec_place_all(l0, tc0 as int, s_start, setting_idx, max_n_tiles_in_map));
                assert(p.0 ==> tc0 < p.2 <= MAX_N_TILES_IN_WHOLE_MAP);
                if stop {
                    assert(!p.0);
                    assert(spec_place_all(l0, tc0 as int, s_start, setting_idx, max_n_tiles_in_map) == (p.1, p.2, p.3));
                }
            }
        }
        tile_count = map.num_tiles as u32;
    }
    proof {
        lemma_inv_facts(current_chunk_locations@, map.num_tiles, setting_idx);
        reveal(placement_inv);
        law_placement_fills_budget(seq![origin_location()], 0, s0, setting_idx, max_n_tiles_in_map);
    }
    Some(ChunkPlacement { locations: current_chunk_locations, complete })
}


/// The wall material drawn for row `row` (left wall when `right` is false,
/// right wall otherwise) of a chunk whose walls draw from state `s0`: each
/// row draws a corrupted material, then the chance of the left and of the
/// right tile.
pub open spec fn side_wall_material(s0: u128, row: int, right: bool) -> u8 {
    let base = 3 * (row - 1);
    let corrupt = spec_corrupt_material(rng_draw(s0, base as nat));
    if right {
        spec_get_material(3, corrupt, rng_draw(s0, (base + 2) as nat))
    } else {
        spec_get_material(7, corrupt, rng_draw(s0, (base + 1) as nat))
    }
}

/// The wall material drawn for column `col` (top wall when `bottom` is
/// false, bottom wall otherwise) of an `h`-row chunk whose walls draw from
/// state `s0`: the columns draw after the rows, three draws each.
pub open spec fn top_bottom_wall_material(s0: u128, h: int, col: int, bottom: bool) -> u8 {
    let base = 3 * (h - 2) + 3 * (col - 1);
    let corrupt = spec_corrupt_material(rng_draw(s0, base as nat));
    if bottom {
        spec_get_material(5, corrupt, rng_draw(s0, (base + 2) as nat))
    } else {
        spec_get_material(1, corrupt, rng_draw(s0, (base + 1) as nat))
    }
}

/// The number of world-generation draws that building the walls of a `w` by
/// `h` chunk takes.
pub open spec fn wall_draws(w: int, h: int) -> int {
    3 * (h - 2) + 3 * (w - 2)
}

/// The tile at column `x`, row `y` of a freshly built `w` by `h` chunk whose
/// walls draw from state `s0`: the corners are fixed pieces (8 top left, 2
/// top right, 6 bottom left, 4 bottom right), each wall tile is its side's
/// material (7 left, 3 right, 1 top, 5 bottom) or the corrupted one that its
/// draws give, and the inside is empty.
pub open spec fn spec_built_cell(w: int, h: int, s0: u128, x: int, y: int) -> u8 {
    if x == 0 && y == 0 {
        8
    } else if x == w - 1 && y == h - 1 {
        4
    } else if x == w - 1 && y == 0 {
        2
    } else if x == 0 && y == h - 1 {
        6
    } else if x == 0 {
        side_wall_material(s0, y, false)
    } else if x == w - 1 {
        side_wall_material(s0, y, true)
    } else if y == 0 {
        top_bottom_wall_material(s0, h, x, false)
    } else if y == h - 1 {
        top_bottom_wall_material(s0, h, x, true)
    } else {
        0
    }
}

/// The tile at column `x`, row `y` while the walls are being built: the side
/// walls of the rows before `rows_done` and the top and bottom walls of the
/// columns before `cols_done` are laid, all else is empty.
pub open spec fn walls_partial_ok(w: int, h: int, s0: u128, rows_done: int, cols_done: int, x: int, y: int, v: u8) -> bool {
    if (x == 0 || x == w - 1) && 1 <= y < rows_done && y < h - 1 {
        v == side_wall_material(s0, y, x != 0)
    } else if (y == 0 || y == h - 1) && 1 <= x < cols_done && x < w - 1 {
        v == top_bottom_wall_material(s0, h, x, y != 0)
    } else {
        v == 0
    }
}

/// The tile slots `cells` of a `w` by `h` chunk while its walls are built
/// (see `walls_partial_ok`), every spare slot past the tiles being empty.
#[verifier::opaque]
pub open spec fn cells_partial_ok(cells: Seq<u8>, w: int, h: int, s0: u128, rows_done: int, cols_done: int) -> bool {
    &&& w * h <= cells.len()
    &&& forall|x: int, y: int|
        0 <= x < w && 0 <= y < h ==> walls_partial_ok(w, h, s0, rows_done, cols_done, x, y, #[trigger] cells[y * w + x])
    &&& forall|i: int| w * h <= i < cells.len() ==> #[trigger] cells[i] == 0
}

/// The tile slots of a finished chunk (see `spec_built_cell`).
pub open spec fn cells_built_ok(cells: Seq<u8>, w: int, h: int, s0: u128) -> bool {
    &&& w * h <= cells.len()
    &&& forall|x: int, y: int|
        0 <= x < w && 0 <= y < h ==> #[trigger] cells[y * w + x] == spec_built_cell(w, h, s0, x, y)
    &&& forall|i: int| w * h <= i < cells.len() ==> #[trigger] cells[i] == 0
}

proof fn lemma_small_material(v: u8)
    requires
        v <= 15,
    ensures
        v & 0x0f == v,
{
    assert(v <= 15 ==> v & 0x0f == v) by (bit_vector);
}

/// Positions of a `w`-wide grid: distinct columns or rows have distinct
/// row-major indices, all below `w * h`.
proof fn lemma_grid_index(w: int, h: int, x: int, y: int, x0: int, y0: int)
    requires
        0 <= x < w,
        0 <= y < h,
        0 <= x0 < w,
        0 <= y0 < h,
    ensures
        (y * w + x == y0 * w + x0) <==> (x == x0 && y == y0),
        0 <= y * w + x < w * h,
{
    assert((y * w + x == y0 * w + x0) ==> (x == x0 && y == y0)) by (nonlinear_arith)
        requires
            0 <= x < w,
            0 <= x0 < w,
            0 <= y,
            0 <= y0,
    ;
    assert(0 <= y * w + x < w * h) by (nonlinear_arith)
        requires
            0 <= x < w,
            0 <= y < h,
    ;
}

proof fn lemma_fresh_cells(tiles: Seq<u8>, w: int, h: int, s0: u128)
    requires
        forall|i: int| 0 <= i < tiles.len() ==> tiles[i] == 0,
        w >= 1,
        h >= 1,
        w * h <= 2 * tiles.len(),
    ensures
        cells_partial_ok(Seq::new((2 * tiles.len()) as nat, |i: int| crate::mapchunk::nibble(tiles, i)), w, h, s0, 1, 1),
{
    reveal(cells_partial_ok);
    let cells = Seq::new((2 * tiles.len()) as nat, |i: int| crate::mapchunk::nibble(tiles, i));
    assert(0u8 & 0x0f == 0u8) by (bit_vector);
    assert((0u8 >> 4u8) & 0x0f == 0u8) by (bit_vector);
    assert forall|i: int| 0 <= i < cells.len() implies #[trigger] cells[i] == 0 by {
        assert(tiles[i / 2] == 0);
    }
    assert forall|x: int, y: int| 0 <= x < w && 0 <= y < h implies walls_partial_ok(
        w,
        h,
        s0,
        1,
        1,
        x,
        y,
        #[trigger] cells[y * w + x],
    ) by {
        lemma_grid_index(w, h, x, y, 0, 0);
    }
}

proof fn lemma_row_step(c0: Seq<u8>, w: int, h: int, s0: u128, row: int)
    requires
        3 <= w,
        3 <= h,
        1 <= row < h - 1,
        cells_partial_ok(c0, w, h, s0, row, 1),
    ensures
        cells_partial_ok(
            c0.update(row * w, side_wall_material(s0, row, false)).update(
                row * w + w - 1,
                side_wall_material(s0, row, true),
            ),
            w,
            h,
            s0,
            row + 1,
            1,
        ),
{
    reveal(cells_partial_ok);
    let c2 = c0.update(row * w, side_wall_material(s0, row, false)).update(
        row * w + w - 1,
        side_wall_material(s0, row, true),
    );
    lemma_grid_index(w, h, 0, row, 0, row);
    lemma_grid_index(w, h, w - 1, row, 0, row);
    assert forall|x: int, y: int| 0 <= x < w && 0 <= y < h implies walls_partial_ok(
        w,
        h,
        s0,
        row + 1,
        1,
        x,
        y,
        #[trigger] c2[y * w + x],
    ) by {
        lemma_grid_index(w, h, x, y, 0, row);
        lemma_grid_index(w, h, x, y, w - 1, row);
        assert(walls_partial_ok(w, h, s0, row, 1, x, y, c0[y * w + x]));
    }
    assert forall|i: int| w * h <= i < c2.len() implies #[trigger] c2[i] == 0 by {
        assert(c0[i] == 0);
    }
}

proof fn lemma_col_step(c0: Seq<u8>, w: int, h: int, s0: u128, col: int)
    requires
        3 <= w,
        3 <= h,
        1 <= col < w - 1,
        cells_partial_ok(c0, w, h, s0, h - 1, col),
    ensures
        cells_partial_ok(
            c0.update(col, top_bottom_wall_material(s0, h, col, false)).update(
                (h - 1) * w + col,
                top_bottom_wall_material(s0, h, col, true),
            ),
            w,
            h,
            s0,
            h - 1,
            col + 1,
        ),
{
    reveal(cells_partial_ok);
    let c2 = c0.update(col, top_bottom_wall_material(s0, h, col, false)).update(
        (h - 1) * w + col,
        top_bottom_wall_material(s0, h, col, true),
    );
    lemma_grid_index(w, h, col, 0, col, 0);
    lemma_grid_index(w, h, col, h - 1, col, 0);
    assert(0 * w + col == col) by (nonlinear_arith);
    assert forall|x: int, y: int| 0 <= x < w && 0 <= y < h implies walls_partial_ok(
        w,
        h,
        s0,
        h - 1,
        col + 1,
        x,
        y,
        #[trigger] c2[y * w + x],
    ) by {
        lemma_grid_index(w, h, x, y, col, 0);
        lemma_grid_index(w, h, x, y, col, h - 1);
        assert(walls_partial_ok(w, h, s0, h - 1, col, x, y, c0[y * w + x]));
    }
    assert forall|i: int| w * h <= i < c2.len() implies #[trigger] c2[i] == 0 by {
        assert(c0[i] == 0);
    }
}

proof fn lemma_corners_step(c0: Seq<u8>, w: int, h: int, s0: u128)
    requires
        3 <= w,
        3 <= h,
        cells_partial_ok(c0, w, h, s0, h - 1, w - 1),
    ensures
        cells_built_ok(
            c0.update(0, 8).update((h - 1) * w + w - 1, 4).update(w - 1, 2).update((h - 1) * w, 6),
            w,
            h,
            s0,
        ),
{
    reveal(cells_partial_ok);
    let c4 = c0.update(0, 8).update((h - 1) * w + w - 1, 4).update(w - 1, 2).update((h - 1) * w, 6);
    assert(0 * w + 0 == 0 && 0 * w + (w - 1) == w - 1 && (h - 1) * w + 0 == (h - 1) * w) by (nonlinear_arith);
    lemma_grid_index(w, h, 0, 0, 0, 0);
    lemma_grid_index(w, h, w - 1, h - 1, 0, 0);
    lemma_grid_index(w, h, w - 1, 0, 0, 0);
    lemma_grid_index(w, h, 0, h - 1, 0, 0);
    assert forall|x: int, y: int| 0 <= x < w && 0 <= y < h implies #[trigger] c4[y * w + x] == spec_built_cell(
        w,
        h,
        s0,
        x,
        y,
    ) by {
        lemma_grid_index(w, h, x, y, 0, 0);
        lemma_grid_index(w, h, x, y, w - 1, h - 1);
        lemma_grid_index(w, h, x, y, w - 1, 0);
        lemma_grid_index(w, h, x, y, 0, h - 1);
        assert(walls_partial_ok(w, h, s0, h - 1, w - 1, x, y, c0[y * w + x]));
    }
    assert forall|i: int| w * h <= i < c4.len() implies #[trigger] c4[i] == 0 by {
        assert(c0[i] == 0);
    }
}

/// The tile slots of a chunk freshly built at `b` whose walls draw from
/// state `s0`: its tiles (see `spec_built_cell`), then empty spare slots.
pub open spec fn spec_fresh_cells(b: TileAlignedBoundingBox, s0: u128) -> Seq<u8> {
    let w = b.width as int;
    let h = b.height as int;
    Seq::new(
        (2 * ((w * h) / 2 + 2)) as nat,
        |i: int| if i < w * h { spec_built_cell(w, h, s0, i % w, i / w) } else { 0u8 },
    )
}

/// The slots of a finished chunk with the storage that `initialize` gives
/// are `spec_fresh_cells`.
proof fn lemma_fresh_cells_exact(cells: Seq<u8>, b: TileAlignedBoundingBox, s0: u128)
    requires
        b.width >= 1,
        b.height >= 1,
        cells.len() == 2 * ((b.width * b.height) / 2 + 2),
        cells_built_ok(cells, b.width as int, b.height as int, s0),
    ensures
        cells == spec_fresh_cells(b, s0),
{
    let w = b.width as int;
    let h = b.height as int;
    let f = spec_fresh_cells(b, s0);
    assert forall|i: int| 0 <= i < cells.len() implies cells[i] == f[i] by {
        if i < w * h {
            let x = i % w;
            let y = i / w;
            assert(0 <= x < w && 0 <= y < h && y * w + x == i) by (nonlinear_arith)
                requires
                    w >= 1,
                    0 <= i < w * h,
                    x == i % w,
                    y == i / w,
            ;
            assert(cells[y * w + x] == spec_built_cell(w, h, s0, x, y));
        } else {
            assert(cells[i] == 0);
        }
    }
    assert(cells =~= f);
}

/// The tile slots of the first `k` chunks built at `locations` (in order,
/// each linked to those before it) with walls drawn from state `s0`, and the
/// stream state after their walls.
pub open spec fn spec_built_map(locations: Seq<TileAlignedBoundingBox>, s0: u128, k: nat) -> (Seq<Seq<u8>>, u128)
    decreases k,
{
    if k == 0 {
        (Seq::empty(), s0)
    } else {
        let prev = spec_built_map(locations, s0, (k - 1) as nat);
        let b = locations[k - 1];
        let linked = link_cells(b, spec_fresh_cells(b, prev.1), locations, prev.0, (k - 1) as nat);
        (
            linked.1.push(linked.0),
            rng_steps_from(prev.1, wall_draws(b.width as int, b.height as int) as nat),
        )
    }
}

/// Draw `k` after stepping `a` times from `s0` is draw `a + k` from `s0`.
proof fn lemma_draw_after(s0: u128, a: nat, k: nat)
    ensures
        rng_draw(rng_steps_from(s0, a), k) == rng_draw(s0, a + k),
{
    lemma_rng_steps_add(s0, a, k + 1);
}

/// One world-generation draw from a stream in state `rng_steps_from(s0, a)`.
fn draw_next(rng: &mut GameRng, Ghost(s0): Ghost<u128>, Ghost(a): Ghost<nat>) -> (d: u64)
    requires
        old(rng).worldgen_state() == rng_steps_from(s0, a),
    ensures
        d == rng_draw(s0, a),
        final(rng).worldgen_state() == rng_steps_from(s0, a + 1),
        old(rng).worldgen_only(*final(rng)),
{
    let d = rng.next_for_worldgen();
    proof {
        lemma_draw_after(s0, a, 0);
        reveal_with_fuel(rng_steps_from, 2);
    }
    d
}

/// Writes wall tile `v` at in-range column `x`, row `y`.
fn set_wall_tile(chunk: &mut MapChunk, x: usize, y: usize, v: u8)
    requires
        old(chunk).wf(),
        x < old(chunk).bound.width,
        y < old(chunk).bound.height,
        v <= 15,
    ensures
        final(chunk).bound == old(chunk).bound,
        final(chunk).wf(),
        final(chunk).tiles@.len() == old(chunk).tiles@.len(),
        final(chunk).cells() == old(chunk).cells().update(y * old(chunk).bound.width + x, v),
{
    proof {
        chunk.lemma_cell_index(x as int, y as int, x as int, y as int);
        lemma_small_material(v);
    }
    chunk.set_tile(x, y, v);
}

/// Lays the left and right wall tiles of row `row`, drawing a corrupted
/// material and one chance for each side.
fn build_side_walls(chunk: &mut MapChunk, row: usize, rng: &mut GameRng, Ghost(s0): Ghost<u128>)
    requires
        old(chunk).wf(),
        3 <= old(chunk).bound.width <= 50,
        3 <= old(chunk).bound.height <= 50,
        1 <= row < old(chunk).bound.height - 1,
        cells_partial_ok(old(chunk).cells(), old(chunk).bound.width as int, old(chunk).bound.height as int, s0, row as int, 1),
        old(rng).worldgen_state() == rng_steps_from(s0, (3 * (row - 1)) as nat),
    ensures
        final(chunk).wf(),
        final(chunk).bound == old(chunk).bound,
        cells_partial_ok(final(chunk).cells(), old(chunk).bound.width as int, old(chunk).bound.height as int, s0, row + 1, 1),
        final(chunk).tiles@.len() == old(chunk).tiles@.len(),
        final(rng).worldgen_state() == rng_steps_from(s0, (3 * row) as nat),
        old(rng).worldgen_only(*final(rng)),
{
    let w = chunk.bound.width;
    let h = chunk.bound.height;
    let ghost base: nat = (3 * (row - 1)) as nat;
    let corrupt = corrupt_material(draw_next(rng, Ghost(s0), Ghost(base)));
    let left_material = get_material(7, corrupt, draw_next(rng, Ghost(s0), Ghost(base + 1)));
    let right_material = get_material(3, corrupt, draw_next(rng, Ghost(s0), Ghost(base + 2)));
    proof {
        assert(left_material == side_wall_material(s0, row as int, false));
        assert(right_material == side_wall_material(s0, row as int, true));
        lemma_row_step(chunk.cells(), w as int, h as int, s0, row as int);
        assert(row * w + 0 == row * w);
    }
    set_wall_tile(chunk, 0, row, left_material);
    set_wall_tile(chunk, w - 1, row, right_material);
}

/// Lays the top and bottom wall tiles of column `col`, drawing a corrupted
/// material and one chance for each side.
fn build_top_bottom_walls(chunk: &mut MapChunk, col: usize, rng: &mut GameRng, Ghost(s0): Ghost<u128>)
    requires
        old(chunk).wf(),
        3 <= old(chunk).bound.width <= 50,
        3 <= old(chunk).bound.height <= 50,
        1 <= col < old(chunk).bound.width - 1,
        cells_partial_ok(old(chunk).cells(), old(chunk).bound.width as int, old(chunk).bound.height as int, s0, old(chunk).bound.height - 1, col as int),
        old(rng).worldgen_state() == rng_steps_from(s0, (3 * (old(chunk).bound.height - 2) + 3 * (col - 1)) as nat),
    ensures
        final(chunk).wf(),
        final(chunk).bound == old(chunk).bound,
        cells_partial_ok(final(chunk).cells(), old(chunk).bound.width as int, old(chunk).bound.height as int, s0, old(chunk).bound.height - 1, col + 1),
        final(chunk).tiles@.len() == old(chunk).tiles@.len(),
        final(rng).worldgen_state() == rng_steps_from(s0, (3 * (old(chunk).bound.height - 2) + 3 * col) as nat),
        old(rng).worldgen_only(*final(rng)),
{
    let w = chunk.bound.width;
    let h = chunk.bound.height;
    let ghost base: nat = (3 * (h - 2) + 3 * (col - 1)) as nat;
    let corrupt = corrupt_material(draw_next(rng, Ghost(s0), Ghost(base)));
    let top_material = get_material(1, corrupt, draw_next(rng, Ghost(s0), Ghost(base + 1)));
    let bottom_material = get_material(5, corrupt, draw_next(rng, Ghost(s0), Ghost(base + 2)));
    proof {
        assert(top_material == top_bottom_wall_material(s0, h as int, col as int, false));
        assert(bottom_material == top_bottom_wall_material(s0, h as int, col as int, true));
        lemma_col_step(chunk.cells(), w as int, h as int, s0, col as int);
        assert(0 * w + col == col) by (nonlinear_arith);
    }
    set_wall_tile(chunk, col, 0, top_material);
    set_wall_tile(chunk, col, h - 1, bottom_material);
}

/// The chunk at `location`, initialized and walled in: see `spec_built_cell`
/// for its tiles, whose wall materials come from the next `wall_draws`
/// world-generation draws. `None` when no space could be had for its tiles
/// (then nothing is drawn).
pub fn build_chunk(location: TileAlignedBoundingBox, rng: &mut GameRng) -> (r: Option<MapChunk>)
    requires
        3 <= location.width <= 50,
        3 <= location.height <= 50,
    ensures
        r matches Some(c) ==> {
            &&& c.bound == location
            &&& c.wf()
            &&& c.tiles@.len() == (location.width * location.height) / 2 + 2
            &&& cells_built_ok(c.cells(), c.bound.width as int, c.bound.height as int, old(rng).worldgen_state())
            &&& c.cells() == spec_fresh_cells(location, old(rng).worldgen_state())
            &&& final(rng).worldgen_state() == rng_steps_from(
                old(rng).worldgen_state(),
                wall_draws(location.width as int, location.height as int) as nat,
            )
        },
        r is None ==> final(rng).worldgen_state() == old(rng).worldgen_state(),
        old(rng).worldgen_only(*final(rng)),
{
    let ghost s0 = rng.worldgen_state();
    let mut chunk = MapChunk::init();
    chunk.bound = location;
    assert(location.width * location.height <= 2500) by (nonlinear_arith)
        requires
            location.width <= 50,
            location.height <= 50,
    ;
    if !chunk.initialize() {
        return None;
    }
    let w = chunk.bound.width;
    let h = chunk.bound.height;
    proof {
        lemma_fresh_cells(chunk.tiles@, w as int, h as int, s0);
    }
    let mut row: usize = 1;
    while row < h - 1
        invariant
            chunk.wf(),
            chunk.bound == location,
            w == location.width,
            h == location.height,
            3 <= w <= 50,
            3 <= h <= 50,
            1 <= row <= h - 1,
            cells_partial_ok(chunk.cells(), w as int, h as int, s0, row as int, 1),
            chunk.tiles@.len() == (w * h) / 2 + 2,
            rng.worldgen_state() == rng_steps_from(s0, (3 * (row - 1)) as nat),
            old(rng).worldgen_only(*rng),
            s0 == old(rng).worldgen_state(),
        decreases h - 1 - row,
    {
        build_side_walls(&mut chunk, row, rng, Ghost(s0));
        row = row + 1;
    }
    let mut col: usize = 1;
    while col < w - 1
        invariant
            chunk.wf(),
            chunk.bound == location,
            w == location.width,
            h == location.height,
            3 <= w <= 50,
            3 <= h <= 50,
            1 <= col <= w - 1,
            cells_partial_ok(chunk.cells(), w as int, h as int, s0, h - 1, col as int),
            chunk.tiles@.len() == (w * h) / 2 + 2,
            rng.worldgen_state() == rng_steps_from(s0, (3 * (h - 2) + 3 * (col - 1)) as nat),
            old(rng).worldgen_only(*rng),
            s0 == old(rng).worldgen_state(),
        decreases w - 1 - col,
    {
        build_top_bottom_walls(&mut chunk, col, rng, Ghost(s0));
        col = col + 1;
    }
    proof {
        lemma_corners_step(chunk.cells(), w as int, h as int, s0);
        assert(0 * w + 0 == 0 && 0 * w + (w - 1) == w - 1 && (h - 1) * w + 0 == (h - 1) * w) by (nonlinear_arith);
    }
    set_wall_tile(&mut chunk, 0, 0, 8);
    set_wall_tile(&mut chunk, w - 1, h - 1, 4);
    set_wall_tile(&mut chunk, w - 1, 0, 2);
    set_wall_tile(&mut chunk, 0, h - 1, 6);
    proof {
        lemma_fresh_cells_exact(chunk.cells(), location, s0);
    }
    Some(chunk)
}


/// Draws the kind of each of `n` animals, one world-generation draw each.
pub fn draw_npc_presets(rng: &mut GameRng, n: u32) -> (presets: Vec<PresetSprites>)
    ensures
        presets@.len() == n,
        forall|i: int|
            0 <= i < n ==> #[trigger] presets@[i] == spec_npc_preset(rng_draw(old(rng).worldgen_state(), i as nat)),
        final(rng).worldgen_state() == rng_steps_from(old(rng).worldgen_state(), n as nat),
        old(rng).worldgen_only(*final(rng)),
{
    let mut presets: Vec<PresetSprites> = Vec::new();
    let mut i: u32 = 0;
    while i < n
        invariant
            i <= n,
            presets@.len() == i,
            forall|j: int|
                0 <= j < i ==> #[trigger] presets@[j] == spec_npc_preset(rng_draw(old(rng).worldgen_state(), j as nat)),
            rng.worldgen_state() == rng_steps_from(old(rng).worldgen_state(), i as nat),
            old(rng).worldgen_only(*rng),
        decreases n - i,
    {
        let draw = rng.next_for_worldgen();
        presets.push(npc_preset(draw));
        i = i + 1;
    }
    presets
}

/// Draws the chunk of each of `n` animals among the `n_chunks` chunks of a
/// map, never the first (the origin chunk): one world-generation draw each.
pub fn draw_spawn_chunks(rng: &mut GameRng, n: usize, n_chunks: usize) -> (spawns: Vec<usize>)
    requires
        n_chunks >= 2,
    ensures
        spawns@.len() == n,
        forall|i: int|
            0 <= i < n ==> #[trigger] spawns@[i] == (rng_draw(old(rng).worldgen_state(), i as nat) as usize) % (
            n_chunks - 1) as usize + 1,
        forall|i: int| 0 <= i < n ==> 1 <= #[trigger] spawns@[i] < n_chunks,
        final(rng).worldgen_state() == rng_steps_from(old(rng).worldgen_state(), n as nat),
        old(rng).worldgen_only(*final(rng)),
{
    let mut spawns: Vec<usize> = Vec::new();
    let mut i: usize = 0;
    while i < n
        invariant
            n_chunks >= 2,
            i <= n,
            spawns@.len() == i,
            forall|j: int|
                0 <= j < i ==> #[trigger] spawns@[j] == (rng_draw(old(rng).worldgen_state(), j as nat) as usize) % (
                n_chunks - 1) as usize + 1,
            forall|j: int| 0 <= j < i ==> 1 <= #[trigger] spawns@[j] < n_chunks,
            rng.worldgen_state() == rng_steps_from(old(rng).worldgen_state(), i as nat),
            old(rng).worldgen_only(*rng),
        decreases n - i,
    {
        let draw = rng.next_for_worldgen();
        let c = draw as usize % (n_chunks - 1) + 1;
        spawns.push(c);
        i = i + 1;
    }
    spawns
}

/// Builds the chunk at each location in turn (see `build_chunk`) and adds it
/// to the map, linking it to the chunks it touches; stops at the first chunk
/// for which no space could be had. The chunks added lie at the first
/// locations, in order.
pub fn build_map_chunks(locations: &Vec<TileAlignedBoundingBox>, rng: &mut GameRng, map: &mut GameMap)
    requires
        old(map).chunks@.len() == 0,
        forall|i: int|
            0 <= i < locations@.len() ==> 3 <= (#[trigger] locations@[i]).width <= 50 && 3 <= locations@[i].height
                <= 50 && bound_fits(locations@[i]),
    ensures
        final(map).num_tiles == old(map).num_tiles,
        final(map).chunks@.len() <= locations@.len(),
        forall|i: int|
            0 <= i < final(map).chunks@.len() ==> (#[trigger] final(map).chunks@[i]).bound == locations@[i]
                && linkable(&final(map).chunks@[i]) && final(map).chunks@[i].tiles@.len() == (
                locations@[i].width * locations@[i].height) / 2 + 2,
        ({
            let built = spec_built_map(locations@, old(rng).worldgen_state(), final(map).chunks@.len() as nat);
            &&& final(rng).worldgen_state() == built.1
            &&& forall|i: int|
                0 <= i < final(map).chunks@.len() ==> (#[trigger] final(map).chunks@[i]).cells() == built.0[i]
        }),
        old(rng).worldgen_only(*final(rng)),
{
    let ghost s0 = rng.worldgen_state();
    let mut i: usize = 0;
    while i < locations.len()
        invariant
            forall|k: int|
                0 <= k < locations@.len() ==> 3 <= (#[trigger] locations@[k]).width <= 50 && 3
                    <= locations@[k].height <= 50 && bound_fits(locations@[k]),
            i <= locations@.len(),
            map.num_tiles == old(map).num_tiles,
            map.chunks@.len() == i,
            forall|k: int|
                0 <= k < map.chunks@.len() ==> (#[trigger] map.chunks@[k]).bound == locations@[k]
                    && linkable(&map.chunks@[k]) && map.chunks@[k].tiles@.len() == (locations@[k].width
                    * locations@[k].height) / 2 + 2,
            s0 == old(rng).worldgen_state(),
            spec_built_map(locations@, s0, i as nat).0.len() == i,
            rng.worldgen_state() == spec_built_map(locations@, s0, i as nat).1,
            forall|k: int|
                0 <= k < map.chunks@.len() ==> (#[trigger] map.chunks@[k]).cells() == spec_built_map(
                    locations@,
                    s0,
                    i as nat,
                ).0[k],
            old(rng).worldgen_only(*rng),
        decreases locations@.len() - i,
    {
        let l = &locations[i];
        let location = TileAlignedBoundingBox::init(l.x, l.y, l.width, l.height);
        let ghost prev = spec_built_map(locations@, s0, i as nat);
        let ghost old_chunks = map.chunks@;
        match build_chunk(location, rng) {
            Some(chunk) => {
                proof {
                    lemma_link_prefix_cells(
                        chunk.bound,
                        chunk.cells(),
                        old_chunks,
                        locations@,
                        prev.0,
                        i as nat,
                    );
                }
                map.add_chunk(chunk);
                proof {
                    let next = spec_built_map(locations@, s0, (i + 1) as nat);
                    lemma_link_cells_len(
                        locations@[i as int],
                        spec_fresh_cells(locations@[i as int], prev.1),
                        locations@,
                        prev.0,
                        i as nat,
                    );
                    assert(next.0.len() == i + 1);
                    assert forall|k: int| 0 <= k < map.chunks@.len() implies (#[trigger] map.chunks@[k]).cells()
                        == next.0[k] by {}
                }
            },
            None => {
                return;
            },
        }
        i = i + 1;
    }
}

/// Where the animals of a level are placed.
pub enum NpcSpawns {
    /// No space could be had for the chunk locations: the map stays empty and
    /// no animal is placed.
    NoMap,
    /// Fewer than two chunks could be built, so no chunk but the origin could
    /// take the animals.
    TooFewChunks,
    /// The chunk of each animal, never the origin chunk.
    Chunks(Vec<usize>),
}

/// What generating a level's world gives besides the map.
pub struct WorldGen {
    /// The number of animals to find.
    pub total_npcs_to_find: u32,
    /// The kind of each animal.
    pub npc_presets: Vec<PresetSprites>,
    /// The locations placed for the chunks of the map (see
    /// `place_chunk_locations`).
    pub chunk_locations: Vec<TileAlignedBoundingBox>,
    /// Where the animals are placed.
    pub spawns: NpcSpawns,
    /// No space was refused while the locations were placed (see
    /// `ChunkPlacement`).
    pub placement_complete: bool,
}

/// The stream state once the number of animals and their kinds are drawn
/// from state `s0` on level `difficulty_level`.
pub open spec fn state_after_animals(s0: u128, difficulty_level: u32) -> u128 {
    rng_steps_from(s0, (1 + spec_npc_count(difficulty_level, rng_draw(s0, 0))) as nat)
}

/// The kinds drawn after the first draw are the draws from 1 on.
proof fn lemma_presets_after_first_draw(s0: u128, s1: u128, presets: Seq<PresetSprites>, n: u32)
    requires
        s1 == crate::rng::rng_step(s0),
        forall|i: int| 0 <= i < n ==> #[trigger] presets[i] == spec_npc_preset(rng_draw(s1, i as nat)),
    ensures
        rng_draw(s0, 0) == crate::rng::rng_output(s1),
        forall|i: int| 0 <= i < n ==> #[trigger] presets[i] == spec_npc_preset(rng_draw(s0, (i + 1) as nat)),
{
    assert(s1 == rng_steps_from(s0, 1)) by {
        reveal_with_fuel(rng_steps_from, 2);
    }
    assert forall|i: int| 0 <= i < n implies #[trigger] presets[i] == spec_npc_preset(rng_draw(s0, (i + 1) as nat)) by {
        lemma_rng_steps_add(s0, 1, (i + 1) as nat);
    }
}

/// Placed locations have the sizes that `build_map_chunks` takes.
proof fn lemma_locations_buildable(locations: Seq<TileAlignedBoundingBox>, setting_idx: usize)
    requires
        setting_idx < N_MAP_GEN_SETTINGS,
        locations_ok(locations, setting_idx),
    ensures
        forall|i: int|
            0 <= i < locations.len() ==> 3 <= (#[trigger] locations[i]).width <= 50 && 3 <= locations[i].height
                <= 50 && bound_fits(locations[i]) && location_small(locations[i]),
{
    lemma_setting_facts(setting_idx);
    assert forall|i: int| 0 <= i < locations.len() implies 3 <= (#[trigger] locations[i]).width <= 50 && 3
        <= locations[i].height <= 50 && bound_fits(locations[i]) && location_small(locations[i]) by {
        if i > 0 {
        }
    }
}

/// Chunks built at small locations lie within the game world.
proof fn lemma_built_map_in_world(locations: Seq<TileAlignedBoundingBox>, chunks: Seq<MapChunk>)
    requires
        locations.len() <= 1423,
        chunks.len() <= locations.len(),
        forall|i: int| 0 <= i < locations.len() ==> location_small(#[trigger] locations[i]),
        forall|i: int|
            0 <= i < chunks.len() ==> (#[trigger] chunks[i]).bound == locations[i] && linkable(&chunks[i]),
    ensures
        chunks.len() <= 0x10_0000,
        forall|i: int| 0 <= i < chunks.len() ==> chunk_in_world(#[trigger] &chunks[i]),
{
    assert forall|i: int| 0 <= i < chunks.len() implies chunk_in_world(#[trigger] &chunks[i]) by {
        assert(location_small(locations[i]));
    }
}

/// Whether `w` and `map` are what generating a level's world gives from
/// world-generation state `s0` where no space was refused for the chunk
/// locations: the animals drawn first, then the locations that
/// `spec_place_all` gives, the chunks that `spec_built_map` gives at the first
/// of them, and the chunk of each animal.
pub open spec fn generated_from(
    s0: u128,
    difficulty_level: u32,
    setting_idx: usize,
    max_n_tiles_in_map: u32,
    w: WorldGen,
    map: GameMap,
) -> bool {
    let p = spec_place_all(
        seq![origin_location()],
        0,
        state_after_animals(s0, difficulty_level),
        setting_idx,
        max_n_tiles_in_map,
    );
    let b = spec_built_map(p.0, p.2, map.chunks@.len() as nat);
    &&& w.total_npcs_to_find == spec_npc_count(difficulty_level, rng_draw(s0, 0))
    &&& w.npc_presets@.len() == w.total_npcs_to_find
    &&& forall|i: int|
        0 <= i < w.total_npcs_to_find ==> #[trigger] w.npc_presets@[i] == spec_npc_preset(
            rng_draw(s0, (i + 1) as nat),
        )
    &&& w.chunk_locations@ == p.0
    &&& map.num_tiles == p.1
    &&& map.chunks@.len() <= p.0.len()
    &&& forall|i: int|
        0 <= i < map.chunks@.len() ==> (#[trigger] map.chunks@[i]).bound == p.0[i] && map.chunks@[i].tiles@.len()
            == (p.0[i].width * p.0[i].height) / 2 + 2 && map.chunks@[i].cells() == b.0[i]
    &&& match w.spawns {
        NpcSpawns::Chunks(spawns) => {
            &&& map.chunks@.len() >= 2
            &&& spawns@.len() == w.total_npcs_to_find
            &&& forall|i: int|
                0 <= i < spawns@.len() ==> #[trigger] spawns@[i] == (rng_draw(b.1, i as nat) as usize) % (
                map.chunks@.len() - 1) as usize + 1
        },
        NpcSpawns::TooFewChunks => map.chunks@.len() < 2,
        NpcSpawns::NoMap => false,
    }
}

/// A level's world is determined by the world-generation state it starts
/// from: two worlds generated from the same state, level, setting and tile
/// budget, where in both no space was refused for the locations and as many
/// chunks were built, have the same animals, chunk locations, tile count,
/// chunks (bounds and tile bytes) and placement of the animals.
pub proof fn law_world_determined_by_state(
    s0: u128,
    difficulty_level: u32,
    setting_idx: usize,
    max_n_tiles_in_map: u32,
    w1: WorldGen,
    map1: GameMap,
    w2: WorldGen,
    map2: GameMap,
)
    requires
        generated_from(s0, difficulty_level, setting_idx, max_n_tiles_in_map, w1, map1),
        generated_from(s0, difficulty_level, setting_idx, max_n_tiles_in_map, w2, map2),
        map1.chunks@.len() == map2.chunks@.len(),
    ensures
        w1.total_npcs_to_find == w2.total_npcs_to_find,
        w1.npc_presets@ == w2.npc_presets@,
        w1.chunk_locations@ == w2.chunk_locations@,
        map1.num_tiles == map2.num_tiles,
        map1.chunks@.len() == map2.chunks@.len(),
        forall|i: int|
            0 <= i < map1.chunks@.len() ==> (#[trigger] map1.chunks@[i]).bound == map2.chunks@[i].bound
                && map1.chunks@[i].tiles@ == map2.chunks@[i].tiles@,
        match (w1.spawns, w2.spawns) {
            (NpcSpawns::Chunks(a), NpcSpawns::Chunks(b)) => a@ == b@,
            (NpcSpawns::TooFewChunks, NpcSpawns::TooFewChunks) => true,
            _ => false,
        },
{
    assert(w1.npc_presets@ =~= w2.npc_presets@);
    assert forall|i: int| 0 <= i < map1.chunks@.len() implies (#[trigger] map1.chunks@[i]).bound
        == map2.chunks@[i].bound && map1.chunks@[i].tiles@ == map2.chunks@[i].tiles@ by {
        lemma_cells_determine_tiles(map1.chunks@[i], map2.chunks@[i]);
    }
    match (w1.spawns, w2.spawns) {
        (NpcSpawns::Chunks(a), NpcSpawns::Chunks(b)) => {
            assert(a@ =~= b@);
        },
        _ => {},
    }
}

/// Generates the world of a level into `map`, which is emptied first: draws
/// the number of animals to find and their kinds, places the chunk locations
/// with map generation setting `setting_idx` up to `max_n_tiles_in_map` tiles,
/// builds and links the chunks, and draws the chunk of each animal. All draws
/// come from the world-generation stream, in that order.
pub fn generate_world(
    rng: &mut GameRng,
    difficulty_level: u32,
    setting_idx: usize,
    max_n_tiles_in_map: u32,
    map: &mut GameMap,
) -> (w: WorldGen)
    requires
        setting_idx < N_MAP_GEN_SETTINGS,
    ensures
        w.total_npcs_to_find == spec_npc_count(difficulty_level, rng_draw(old(rng).worldgen_state(), 0)),
        w.npc_presets@.len() == w.total_npcs_to_find,
        forall|i: int|
            0 <= i < w.total_npcs_to_find ==> #[trigger] w.npc_presets@[i] == spec_npc_preset(
                rng_draw(old(rng).worldgen_state(), (i + 1) as nat),
            ),
        map_in_world(final(map)),
        final(map).num_tiles <= MAX_N_TILES_IN_WHOLE_MAP,
        forall|i: int|
            0 <= i < final(map).chunks@.len() ==> linkable(#[trigger] &final(map).chunks@[i])
                && final(map).chunks@[i].tiles@.len() == (final(map).chunks@[i].bound.width
                * final(map).chunks@[i].bound.height) / 2 + 2,
        match w.spawns {
            NpcSpawns::NoMap => {
                &&& w.chunk_locations@.len() == 0
                &&& final(map).chunks@.len() == 0
                &&& final(map).num_tiles == 0
            },
            NpcSpawns::TooFewChunks => final(map).chunks@.len() < 2,
            NpcSpawns::Chunks(spawns) => {
                &&& final(map).chunks@.len() >= 2
                &&& spawns@.len() == w.total_npcs_to_find
                &&& forall|i: int| 0 <= i < spawns@.len() ==> 1 <= #[trigger] spawns@[i] < final(map).chunks@.len()
            },
        },
        !(w.spawns is NoMap) ==> {
            &&& locations_ok(w.chunk_locations@, setting_idx)
            &&& final(map).num_tiles == placed_area(w.chunk_locations@, w.chunk_locations@.len() as int)
            &&& final(map).chunks@.len() <= w.chunk_locations@.len()
            &&& forall|i: int|
                0 <= i < final(map).chunks@.len() ==> (#[trigger] final(map).chunks@[i]).bound
                    == w.chunk_locations@[i]
        },
        w.placement_complete && !(w.spawns is NoMap) && w.chunk_locations@.len() < 2 ==> max_n_tiles_in_map == 0
            || !spec_place_chunk(
            seq![origin_location()],
            0,
            state_after_animals(old(rng).worldgen_state(), difficulty_level),
            setting_idx,
            0,
        ).0,
        w.placement_complete && !(w.spawns is NoMap) ==> generated_from(
            old(rng).worldgen_state(),
            difficulty_level,
            setting_idx,
            max_n_tiles_in_map,
            w,
            *final(map),
        ),
        w.placement_complete && !(w.spawns is NoMap) ==> {
            let p = spec_place_all(
                seq![origin_location()],
                0,
                state_after_animals(old(rng).worldgen_state(), difficulty_level),
                setting_idx,
                max_n_tiles_in_map,
            );
            let b = spec_built_map(p.0, p.2, final(map).chunks@.len() as nat);
            final(rng).worldgen_state() == match w.spawns {
                NpcSpawns::Chunks(_) => rng_steps_from(b.1, w.total_npcs_to_find as nat),
                _ => b.1,
            }
        },
        old(rng).worldgen_only(*final(rng)),
{
    map.num_tiles = 0;
    map.chunks = Vec::new();
    let ghost s0 = rng.worldgen_state();
    let total_npcs_to_find = npc_count(difficulty_level, rng.next_for_worldgen());
    let ghost s1 = rng.worldgen_state();
    let npc_presets = draw_npc_presets(rng, total_npcs_to_find);
    proof {
        lemma_presets_after_first_draw(s0, s1, npc_presets@, total_npcs_to_find);
    }
    let ghost s2 = rng.worldgen_state();
    proof {
        lemma_rng_steps_add(s0, 1, total_npcs_to_find as nat);
        assert(s1 == rng_steps_from(s0, 1)) by {
            reveal_with_fuel(rng_steps_from, 2);
        }
        assert(s2 == state_after_animals(s0, difficulty_level));
    }
    let placement = match place_chunk_locations(rng, setting_idx, max_n_tiles_in_map, map) {
        Some(placement) => placement,
        None => {
            return WorldGen {
                total_npcs_to_find,
                npc_presets,
                chunk_locations: Vec::new(),
                spawns: NpcSpawns::NoMap,
                placement_complete: false,
            };
        },
    };
    let placement_complete = placement.complete;
    let chunk_locations = placement.locations;
    proof {
        lemma_locations_buildable(chunk_locations@, setting_idx);
        lemma_place_all_second_location(s2, setting_idx, max_n_tiles_in_map);
    }
    build_map_chunks(&chunk_locations, rng, map);
    proof {
        lemma_built_map_in_world(chunk_locations@, map.chunks@);
    }
    let n_chunks = map.chunks.len();
    if n_chunks < 2 {
        return WorldGen {
            total_npcs_to_find,
            npc_presets,
            chunk_locations,
            spawns: NpcSpawns::TooFewChunks,
            placement_complete,
        };
    }
    let spawns = draw_spawn_chunks(rng, npc_presets.len(), n_chunks);
    WorldGen { total_npcs_to_find, npc_presets, chunk_locations, spawns: NpcSpawns::Chunks(spawns), placement_complete }
}

} // verus!
