use kittygame::game_map::GameMap;
use kittygame::mapchunk::{MapChunk, TileAlignedBoundingBox};

fn chunk_at(x: i32, y: i32, w: usize, h: usize) -> MapChunk {
    let mut chunk = MapChunk::init();
    chunk.bound = TileAlignedBoundingBox::init(x, y, w, h);
    assert!(chunk.initialize());
    chunk
}

fn row(chunk: &MapChunk, y: usize) -> Vec<u8> {
    (0..chunk.bound.width).map(|x| chunk.get_tile(x, y)).collect()
}

fn column(chunk: &MapChunk, x: usize) -> Vec<u8> {
    (0..chunk.bound.height).map(|y| chunk.get_tile(x, y)).collect()
}

#[test]
fn new_map_is_empty() {
    let map = GameMap::create_map();
    assert_eq!(map.chunks.len(), 0);
    assert_eq!(map.num_tiles, 0);
}

#[test]
fn chunk_fits_within_whole_map_budget() {
    let mut map = GameMap::create_map();
    map.num_tiles = 51000;
    assert!(map.try_fit_chunk_into(10, 20));
    assert!(!map.try_fit_chunk_into(10, 21));
    assert_eq!(map.num_tiles, 51000);
}

#[test]
fn stacked_chunks_open_their_shared_wall() {
    let mut upper = chunk_at(0, 0, 4, 4);
    let mut lower = chunk_at(0, 4, 4, 4);
    for x in 0..4 {
        upper.set_tile(x, 3, 5);
        lower.set_tile(x, 0, 1);
    }
    let mut map = GameMap::create_map();
    map.add_chunk(upper);
    map.add_chunk(lower);
    assert_eq!(map.chunks.len(), 2);
    assert_eq!(row(&map.chunks[0], 3), vec![9, 0, 0, 9]);
    assert_eq!(row(&map.chunks[1], 0), vec![9, 0, 0, 9]);
    // the other walls are untouched
    assert_eq!(row(&map.chunks[0], 0), vec![0, 0, 0, 0]);
    assert_eq!(map.num_tiles, 0);
}

#[test]
fn side_by_side_chunks_open_their_shared_wall() {
    let mut left = chunk_at(0, 0, 3, 5);
    let mut right = chunk_at(3, 2, 4, 5);
    for y in 0..5 {
        left.set_tile(2, y, 3);
        right.set_tile(0, y, 7);
    }
    let mut map = GameMap::create_map();
    map.add_chunk(left);
    map.add_chunk(right);
    // shared rows: absolute 2..5; left rows 2,3,4 (4 is its last), right rows 0,1,2
    assert_eq!(column(&map.chunks[0], 2), vec![3, 3, 9, 0, 9]);
    assert_eq!(column(&map.chunks[1], 0), vec![9, 0, 9, 7, 7]);
}

#[test]
fn far_apart_chunks_are_not_linked() {
    let mut a = chunk_at(0, 0, 4, 4);
    let mut b = chunk_at(10, 10, 4, 4);
    a.set_tile(1, 3, 5);
    b.set_tile(1, 0, 1);
    let mut map = GameMap::create_map();
    map.add_chunk(a);
    map.add_chunk(b);
    assert_eq!(map.chunks[0].get_tile(1, 3), 5);
    assert_eq!(map.chunks[1].get_tile(1, 0), 1);
}

#[test]
fn linking_leaves_interiors_alone() {
    let mut upper = chunk_at(0, 0, 5, 5);
    let mut lower = chunk_at(-2, 5, 7, 4);
    for y in 1..4 {
        for x in 1..4 {
            upper.set_tile(x, y, 12);
        }
    }
    for y in 1..3 {
        for x in 1..6 {
            lower.set_tile(x, y, 13);
        }
    }
    let mut map = GameMap::create_map();
    map.add_chunk(upper);
    map.add_chunk(lower);
    for y in 1..4 {
        for x in 1..4 {
            assert_eq!(map.chunks[0].get_tile(x, y), 12);
        }
    }
    for y in 1..3 {
        for x in 1..6 {
            assert_eq!(map.chunks[1].get_tile(x, y), 13);
        }
    }
    // the shared wall (absolute columns 0..5) was opened
    assert_eq!(row(&map.chunks[0], 4), vec![9, 0, 0, 0, 9]);
    assert_eq!(row(&map.chunks[1], 0), vec![0, 0, 9, 0, 0, 0, 9]);
}

fn walled(x: i32, y: i32) -> MapChunk {
    let mut c = chunk_at(x, y, 4, 4);
    for i in 0..4 {
        c.set_tile(i, 0, 1);
        c.set_tile(i, 3, 5);
        c.set_tile(0, i, 7);
        c.set_tile(3, i, 3);
    }
    c
}

#[test]
fn adding_is_linking_then_appending() {
    let mut linked = GameMap::create_map();
    linked.add_chunk(walled(0, 0));
    linked.add_chunk(walled(4, 0));
    linked.num_tiles = 32;
    let mut added = GameMap::create_map();
    added.add_chunk(walled(0, 0));
    added.add_chunk(walled(4, 0));
    added.num_tiles = 32;

    let mut chunk = walled(0, 4);
    linked.link_chunk_to_touching_chunks(&mut chunk);
    added.add_chunk(walled(0, 4));

    assert_eq!(added.num_tiles, linked.num_tiles);
    assert_eq!(added.chunks.len(), linked.chunks.len() + 1);
    for i in 0..linked.chunks.len() {
        assert_eq!(added.chunks[i].tiles, linked.chunks[i].tiles);
        assert_eq!(added.chunks[i].bound.x, linked.chunks[i].bound.x);
    }
    assert_eq!(added.chunks[2].tiles, chunk.tiles);
    assert_eq!(row(&chunk, 0), vec![9, 0, 0, 9]);
    assert_eq!(row(&added.chunks[0], 3), vec![9, 0, 0, 9]);
}
