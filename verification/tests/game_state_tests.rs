use kittygame::game_map::GameMap;
use kittygame::game_constants::MAX_N_TILES_IN_WHOLE_MAP;
use kittygame::game_state::{
    build_chunk, corrupt_material, draw_npc_presets, draw_spawn_chunks, generate_world, get_material, level_moods,
    level_start, npc_count, npc_preset, place_chunk_locations, shares_enough_axes_with_other_bounds, NpcSpawns,
    RunType,
};
use kittygame::mapchunk::TileAlignedBoundingBox;
use kittygame::rng::{GameRng, Rng};
use kittygame::spritesheet::PresetSprites;

const FIRST_DRAWS: [u64; 3] = [1927044742856111753, 18350566728609081220, 17084582724934462269];

#[test]
fn moods_change_every_five_levels() {
    let m = level_moods(1);
    assert_eq!((m.song_idx, m.pallette_idx, m.tileset_idx, m.map_gen_settings_idx), (1, 0, 0, 0));
    let m = level_moods(5);
    assert_eq!((m.song_idx, m.pallette_idx, m.tileset_idx, m.map_gen_settings_idx), (1, 0, 0, 0));
    let m = level_moods(6);
    assert_eq!((m.song_idx, m.pallette_idx, m.tileset_idx, m.map_gen_settings_idx), (2, 1, 1, 1));
    let m = level_moods(26);
    assert_eq!((m.song_idx, m.pallette_idx, m.tileset_idx, m.map_gen_settings_idx), (1, 5, 5, 2));
}

#[test]
fn animals_to_find() {
    assert_eq!(npc_count(3, FIRST_DRAWS[0]), 2);
    assert_eq!(npc_count(1, FIRST_DRAWS[2]), 2);
    assert_eq!(npc_count(60, FIRST_DRAWS[1]), 20);
    assert_eq!(npc_count(0, 0), 1);
}

#[test]
fn level_start_bonus() {
    let s = level_start(1, 100, 77);
    assert_eq!((s.countdown_and_score_bonus, s.countdown_timer_msec, s.score, s.new_game), (240, 3600, 0, true));
    let s = level_start(2, 1000, 50);
    assert_eq!((s.countdown_and_score_bonus, s.countdown_timer_msec, s.score, s.new_game), (240, 1240, 290, false));
    let s = level_start(30, 5900, 0);
    assert_eq!((s.countdown_and_score_bonus, s.countdown_timer_msec, s.score, s.new_game), (600, 5999, 600, false));
}

#[test]
fn animal_kinds_by_draw() {
    assert!(matches!(npc_preset(0), PresetSprites::Kitty1));
    assert!(matches!(npc_preset(200), PresetSprites::Kitty1));
    assert!(matches!(npc_preset(201), PresetSprites::Kitty2));
    assert!(matches!(npc_preset(600), PresetSprites::Kitty3));
    assert!(matches!(npc_preset(601), PresetSprites::Kitty4));
    assert!(matches!(npc_preset(1900), PresetSprites::Pig));
    assert!(matches!(npc_preset(901), PresetSprites::BirdIsntReal));
    assert!(matches!(npc_preset(981), PresetSprites::Lizard));
    assert!(matches!(npc_preset(FIRST_DRAWS[0]), PresetSprites::Kitty4));
}

#[test]
fn wall_materials() {
    assert_eq!(get_material(7, 12, 52), 7);
    assert_eq!(get_material(7, 12, 51), 12);
    assert_eq!(get_material(7, 12, 255), 12);
    assert_eq!(get_material(7, 12, 256 + 100), 7);
    assert_eq!(corrupt_material(0), 9);
    assert_eq!(corrupt_material(6), 15);
    assert_eq!(corrupt_material(7), 9);
}

#[test]
fn locations_share_enough_side() {
    let a = TileAlignedBoundingBox::init(0, 0, 10, 10);
    assert!(shares_enough_axes_with_other_bounds(&a, &TileAlignedBoundingBox::init(3, 10, 10, 10), 6));
    assert!(!shares_enough_axes_with_other_bounds(&a, &TileAlignedBoundingBox::init(5, 10, 10, 10), 6));
    assert!(!shares_enough_axes_with_other_bounds(&TileAlignedBoundingBox::init(10, 5, 10, 10), &a, 6));
    assert!(shares_enough_axes_with_other_bounds(&a, &TileAlignedBoundingBox::init(40, 40, 10, 10), 6));
}

#[test]
fn built_chunk_has_walls_and_corners() {
    let mut rng = GameRng::Random(Rng::new());
    let chunk = build_chunk(TileAlignedBoundingBox::init(4, -2, 7, 6), &mut rng).unwrap();
    assert_eq!((chunk.bound.x, chunk.bound.y, chunk.bound.width, chunk.bound.height), (4, -2, 7, 6));
    assert_eq!(chunk.get_tile(0, 0), 8);
    assert_eq!(chunk.get_tile(6, 0), 2);
    assert_eq!(chunk.get_tile(0, 5), 6);
    assert_eq!(chunk.get_tile(6, 5), 4);
    for y in 1..5 {
        let l = chunk.get_tile(0, y);
        let r = chunk.get_tile(6, y);
        assert!(l == 7 || (9..=15).contains(&l));
        assert!(r == 3 || (9..=15).contains(&r));
        for x in 1..6 {
            assert_eq!(chunk.get_tile(x, y), 0);
        }
    }
    for x in 1..6 {
        let t = chunk.get_tile(x, 0);
        let b = chunk.get_tile(x, 5);
        assert!(t == 1 || (9..=15).contains(&t));
        assert!(b == 5 || (9..=15).contains(&b));
    }
}

#[test]
fn presets_and_spawns_follow_the_draws() {
    let mut rng = GameRng::FixedSeed(Rng::new(), Rng::new());
    let presets = draw_npc_presets(&mut rng, 3);
    assert!(matches!(presets[0], PresetSprites::Kitty4));
    assert!(matches!(presets[1], PresetSprites::Kitty2));
    assert!(matches!(presets[2], PresetSprites::Kitty2));
    let mut rng = GameRng::FixedSeed(Rng::new(), Rng::new());
    let spawns = draw_spawn_chunks(&mut rng, 3, 5);
    let expected: Vec<usize> = FIRST_DRAWS.iter().map(|d| (*d as usize) % 4 + 1).collect();
    assert_eq!(spawns, expected);
}

#[test]
fn placed_locations_start_at_origin_and_do_not_overlap() {
    let mut rng = GameRng::FixedSeed(Rng::new_from_seed(3), Rng::new());
    let mut map = GameMap::create_map();
    let placement = place_chunk_locations(&mut rng, 0, 2000, &mut map).unwrap();
    assert!(placement.complete);
    let locations = placement.locations;
    let l0 = &locations[0];
    assert_eq!((l0.x, l0.y, l0.width, l0.height), (0, 0, 32, 32));
    let area: usize = locations[1..].iter().map(|l| l.width * l.height).sum();
    assert_eq!(map.num_tiles, area);
    assert!(map.num_tiles >= 2000 || locations.len() > 1);
    for (i, a) in locations.iter().enumerate() {
        if i > 0 {
            // every later location lies against an earlier one, sharing at least 6 tiles
            let touches = locations[..i].iter().any(|b| {
                let share_x = (a.x + a.width as i32).min(b.x + b.width as i32) - a.x.max(b.x);
                let share_y = (a.y + a.height as i32).min(b.y + b.height as i32) - a.y.max(b.y);
                ((a.y + a.height as i32 == b.y || b.y + b.height as i32 == a.y) && share_x >= 6)
                    || ((a.x + a.width as i32 == b.x || b.x + b.width as i32 == a.x) && share_y >= 6)
            });
            assert!(touches);
            assert!(a.width >= 6 && a.width < 50 && a.height >= 6 && a.height < 50);
            assert!(a.width * a.height <= 400);
        }
        for b in &locations[..i] {
            let overlap = a.x < b.x + b.width as i32
                && b.x < a.x + a.width as i32
                && a.y < b.y + b.height as i32
                && b.y < a.y + a.height as i32;
            assert!(!overlap);
        }
    }
}

#[test]
fn same_seed_same_world() {
    let run = |input_seed: u32| {
        let mut rng = GameRng::FixedSeed(Rng::new_from_seed(9), Rng::new_from_seed(input_seed));
        let mut map = GameMap::create_map();
        let w = generate_world(&mut rng, 4, 0, 1500, &mut map);
        assert!(w.placement_complete);
        let bounds: Vec<(i32, i32, usize, usize)> =
            map.chunks.iter().map(|c| (c.bound.x, c.bound.y, c.bound.width, c.bound.height)).collect();
        let tiles: Vec<Vec<u8>> = map.chunks.iter().map(|c| c.tiles.clone()).collect();
        let spawns = match w.spawns {
            NpcSpawns::Chunks(s) => s,
            _ => Vec::new(),
        };
        (w.total_npcs_to_find, bounds, tiles, spawns, map.num_tiles)
    };
    let a = run(9);
    let b = run(12345);
    assert_eq!(a, b);
}

#[test]
fn generated_world_is_consistent() {
    let mut rng = GameRng::Random(Rng::new());
    let mut map = GameMap::create_map();
    let w = generate_world(&mut rng, 3, 1, 2000, &mut map);
    // the first draw sets the number of animals, the next ones their kinds
    assert_eq!(w.total_npcs_to_find, npc_count(3, FIRST_DRAWS[0]));
    assert_eq!(w.npc_presets.len() as u32, w.total_npcs_to_find);
    assert!(matches!(w.npc_presets[0], PresetSprites::Kitty2));
    assert!(matches!(w.npc_presets[1], PresetSprites::Kitty2));
    let c0 = &map.chunks[0];
    assert_eq!((c0.bound.x, c0.bound.y, c0.bound.width, c0.bound.height), (0, 0, 32, 32));
    assert_eq!(map.chunks.len(), w.chunk_locations.len());
    assert!(map.num_tiles <= MAX_N_TILES_IN_WHOLE_MAP);
    for c in &map.chunks {
        assert_eq!(c.tiles.len(), c.bound.width * c.bound.height / 2 + 2);
    }
    match w.spawns {
        NpcSpawns::Chunks(s) => {
            assert_eq!(s.len() as u32, w.total_npcs_to_find);
            for c in s {
                assert!(c >= 1 && c < map.chunks.len());
            }
        },
        _ => panic!("expected the animals to be placed"),
    }
}

#[test]
fn run_types() {
    let r = RunType::Speedrun(4);
    assert!(matches!(r, RunType::Speedrun(4)));
    assert!(matches!(RunType::Random, RunType::Random));
}

#[test]
fn no_room_for_more_than_the_origin() {
    let mut rng = GameRng::Random(Rng::new());
    let mut map = GameMap::create_map();
    let w = generate_world(&mut rng, 1, 0, 0, &mut map);
    assert!(matches!(w.spawns, NpcSpawns::TooFewChunks));
    assert!(w.placement_complete);
    assert_eq!(map.chunks.len(), 1);
    assert_eq!(map.num_tiles, 0);
    assert_eq!(w.chunk_locations.len(), 1);
}

#[test]
fn level_bonus_grows_every_three_levels() {
    use_bonus(1, 240);
    use_bonus(3, 300);
    use_bonus(20, 600);
    use_bonus(100, 600);
}

fn use_bonus(level: u32, expected: u32) {
    assert_eq!(kittygame::game_state::level_bonus(level), expected);
}

#[test]
fn origin_chunk_is_walled() {
    let mut rng = GameRng::FixedSeed(Rng::new(), Rng::new());
    let mut map = GameMap::create_map();
    generate_world(&mut rng, 1, 2, 0, &mut map);
    let c = &map.chunks[0];
    assert_eq!(c.get_tile(0, 0), 8);
    assert_eq!(c.get_tile(31, 31), 4);
    assert_eq!(c.get_tile(15, 15), 0);
}

#[test]
fn level_start_sums_wrap_around() {
    let s = level_start(2, u32::MAX - 100, u32::MAX - 100);
    assert_eq!((s.countdown_and_score_bonus, s.countdown_timer_msec, s.score, s.new_game), (240, 139, 139, false));
}
