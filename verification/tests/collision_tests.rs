use kittygame::collision::{
    check_absolue_bound_partially_inside_tile_aligned_bound, check_absolute_bounding_box_partially_inside_another,
    check_absolute_point_inside_tile_aligned_bound, collect_player_npc_hits, collide_with_map,
    raycast_axis_aligned, AbsoluteBoundingBox,
};
use kittygame::entities::KittyStates;
use kittygame::game_map::GameMap;
use kittygame::mapchunk::{MapChunk, TileAlignedBoundingBox};

fn chunk_at(x: i32, y: i32, w: usize, h: usize) -> MapChunk {
    let mut chunk = MapChunk::init();
    chunk.bound = TileAlignedBoundingBox::init(x, y, w, h);
    assert!(chunk.initialize());
    chunk
}

fn bx(x: i32, y: i32, w: u32, h: u32) -> AbsoluteBoundingBox<i32, u32> {
    AbsoluteBoundingBox { x, y, width: w, height: h }
}

#[test]
fn point_strictly_inside_bound() {
    let bound = TileAlignedBoundingBox::init(1, 1, 2, 2); // pixels 5..15
    assert!(check_absolute_point_inside_tile_aligned_bound(6, 6, &bound));
    assert!(check_absolute_point_inside_tile_aligned_bound(14, 14, &bound));
    assert!(!check_absolute_point_inside_tile_aligned_bound(5, 6, &bound));
    assert!(!check_absolute_point_inside_tile_aligned_bound(15, 10, &bound));
    assert!(!check_absolute_point_inside_tile_aligned_bound(10, 15, &bound));
}

#[test]
fn box_corner_inside_bound() {
    let bound = TileAlignedBoundingBox::init(1, 1, 2, 2);
    assert!(check_absolue_bound_partially_inside_tile_aligned_bound(&bx(0, 0, 6, 6), &bound));
    assert!(check_absolue_bound_partially_inside_tile_aligned_bound(&bx(12, 0, 5, 6), &bound));
    assert!(!check_absolue_bound_partially_inside_tile_aligned_bound(&bx(20, 20, 2, 2), &bound));
    // a box that covers the whole bound has no corner inside it
    assert!(!check_absolue_bound_partially_inside_tile_aligned_bound(&bx(0, 0, 30, 30), &bound));
}

#[test]
fn boxes_overlap_unless_only_touching() {
    assert!(check_absolute_bounding_box_partially_inside_another(&bx(0, 0, 5, 5), &bx(4, 4, 5, 5)));
    assert!(!check_absolute_bounding_box_partially_inside_another(&bx(0, 0, 5, 5), &bx(5, 0, 5, 5)));
    assert!(!check_absolute_bounding_box_partially_inside_another(&bx(0, 0, 5, 5), &bx(0, -5, 5, 5)));
}

#[test]
fn ray_outside_chunk_is_free() {
    let chunk = chunk_at(0, 0, 4, 4);
    let r = raycast_axis_aligned(true, true, (100, 100), 7, &chunk);
    assert_eq!((r.allowable_displacement, r.collided, r.backed_up), (7, false, false));
}

#[test]
fn ray_stops_on_solid_tile_within_reach() {
    let mut chunk = chunk_at(0, 0, 4, 4);
    chunk.set_tile(2, 1, 1); // pixels x 10..15, y 5..10
    // a horizontal ray runs one pixel above its start: through y = 7
    let r = raycast_axis_aligned(true, true, (2, 8), 20, &chunk);
    assert_eq!((r.allowable_displacement, r.collided, r.backed_up), (0, true, false));
    let short = raycast_axis_aligned(true, true, (2, 8), 5, &chunk);
    assert_eq!((short.allowable_displacement, short.collided, short.backed_up), (5, false, false));
}

#[test]
fn ray_starting_in_solid_backs_out() {
    let mut chunk = chunk_at(0, 0, 4, 4);
    chunk.set_tile(1, 3, 2);
    chunk.set_tile(1, 2, 2);
    // vertical ray going down, starting inside the solid column: it backs up
    // to the empty tile above and reports a collision
    let r = raycast_axis_aligned(false, true, (7, 16), 3, &chunk);
    assert_eq!((r.allowable_displacement, r.collided, r.backed_up), (0, true, true));
    // backing out of the chunk's edge reports no collision
    let mut edge = chunk_at(0, 0, 4, 4);
    edge.set_tile(0, 0, 2);
    let e = raycast_axis_aligned(false, true, (2, 2), 4, &edge);
    assert_eq!((e.allowable_displacement, e.collided, e.backed_up), (4, false, true));
}

#[test]
fn falling_character_lands_on_floor() {
    let mut chunk = chunk_at(0, 0, 10, 10);
    for x in 0..10 {
        chunk.set_tile(x, 9, 5);
    }
    let mut map = GameMap::create_map();
    map.chunks.push(chunk);
    let r = collide_with_map(&map, &bx(20, 34, 6, 8), 0, 5, KittyStates::Walking(3));
    assert_eq!((r.dx, r.dy), (0, 0));
    assert!(r.touching_ground && r.stopped_y && !r.stopped_x && r.inside_some_chunk);
    assert!(r.state == KittyStates::Walking(3));
}

#[test]
fn character_outside_every_chunk_moves_freely() {
    let mut map = GameMap::create_map();
    map.chunks.push(chunk_at(0, 0, 10, 10));
    let r = collide_with_map(&map, &bx(1000, 1000, 6, 8), 3, -2, KittyStates::Sleeping);
    assert_eq!((r.dx, r.dy), (3, -2));
    assert!(!r.inside_some_chunk && !r.touching_ground && !r.stopped_x && !r.stopped_y);
}

#[test]
fn player_npc_hits_in_order() {
    let players = vec![Some(bx(0, 0, 10, 10)), None, Some(bx(100, 100, 10, 10))];
    let npcs = vec![bx(50, 50, 5, 5), bx(5, 5, 5, 5), bx(105, 95, 5, 10), bx(2, 2, 2, 2)];
    let hits = collect_player_npc_hits(&players, &npcs);
    assert_eq!(hits, vec![(0, 1), (0, 3), (2, 2)]);
}

#[test]
fn player_npc_hits_capped_at_ten() {
    let players = vec![Some(bx(0, 0, 10, 10))];
    let npcs: Vec<AbsoluteBoundingBox<i32, u32>> = (0..12).map(|_| bx(1, 1, 2, 2)).collect();
    let hits = collect_player_npc_hits(&players, &npcs);
    assert_eq!(hits.len(), 10);
    assert_eq!(hits[9], (0, 9));
}

#[test]
fn running_into_a_wall_stops_the_character() {
    let mut chunk = chunk_at(0, 0, 10, 10);
    for y in 0..10 {
        chunk.set_tile(6, y, 7);
    }
    let mut map = GameMap::create_map();
    map.chunks.push(chunk);
    // the right edge of the character is at x = 25, the wall starts at x = 30
    let r = collide_with_map(&map, &bx(19, 20, 8, 8), 8, -1, KittyStates::JumpingUp(20));
    assert_eq!(r.dx, 0);
    assert!(r.stopped_x);
    assert!(r.state == KittyStates::HuggingWall(true));
    let free = collide_with_map(&map, &bx(19, 20, 8, 8), 2, -1, KittyStates::JumpingUp(20));
    assert_eq!(free.dx, 2);
    assert!(!free.stopped_x);
}
