use kittygame::mapchunk::{MapChunk, OutOfChunkBound, TileAlignedBoundingBox};

fn chunk_at(x: i32, y: i32, w: usize, h: usize) -> MapChunk {
    let mut chunk = MapChunk::init();
    chunk.bound = TileAlignedBoundingBox::init(x, y, w, h);
    assert!(chunk.initialize());
    chunk
}

#[test]
fn bounding_box_init_keeps_fields() {
    let b = TileAlignedBoundingBox::init(-3, 7, 12, 5);
    assert_eq!((b.x, b.y, b.width, b.height), (-3, 7, 12, 5));
}

#[test]
fn fresh_chunk_is_one_by_one_and_empty() {
    let chunk = MapChunk::init();
    assert_eq!(chunk.tiles.len(), 0);
    assert_eq!((chunk.bound.x, chunk.bound.y, chunk.bound.width, chunk.bound.height), (1, 1, 1, 1));
}

#[test]
fn initialize_gives_half_a_byte_per_tile_plus_two() {
    let chunk = chunk_at(0, 0, 4, 3);
    assert_eq!(chunk.tiles, vec![0u8; 8]);
    let odd = chunk_at(0, 0, 5, 3);
    assert_eq!(odd.tiles.len(), 15 / 2 + 2);
}

#[test]
fn set_tile_packs_two_tiles_per_byte() {
    let mut chunk = chunk_at(0, 0, 4, 3);
    chunk.set_tile(1, 0, 7);
    assert_eq!(chunk.tiles[0], 0x70);
    chunk.set_tile(0, 0, 0x1f);
    assert_eq!(chunk.tiles[0], 0x7f);
    assert_eq!(chunk.get_tile(0, 0), 15);
    assert_eq!(chunk.get_tile(1, 0), 7);
    assert_eq!(chunk.get_tile(2, 0), 0);
}

#[test]
fn get_after_set_leaves_other_tiles() {
    let mut chunk = chunk_at(0, 0, 4, 3);
    for y in 0..3 {
        for x in 0..4 {
            chunk.set_tile(x, y, ((x + 4 * y) % 16) as u8);
        }
    }
    chunk.set_tile(2, 1, 11);
    for y in 0..3 {
        for x in 0..4 {
            let expected = if (x, y) == (2, 1) { 11 } else { ((x + 4 * y) % 16) as u8 };
            assert_eq!(chunk.get_tile(x, y), expected);
        }
    }
}

#[test]
fn coordinates_are_clamped_into_the_chunk() {
    let mut chunk = chunk_at(0, 0, 4, 3);
    assert_eq!(chunk.clamp_coords(10, 10), (3, 2));
    assert_eq!(chunk.clamp_coords(2, 1), (2, 1));
    chunk.set_tile(10, 10, 3);
    assert_eq!(chunk.get_tile(3, 2), 3);
    assert_eq!(chunk.get_tile(100, 2), 3);
}

#[test]
fn tile_index_inside_bound() {
    let chunk = chunk_at(5, 5, 4, 3);
    assert!(chunk.is_tile_idx_inside_tile_aligned_bound(0, 0));
    assert!(chunk.is_tile_idx_inside_tile_aligned_bound(3, 2));
    assert!(!chunk.is_tile_idx_inside_tile_aligned_bound(-1, 0));
    assert!(!chunk.is_tile_idx_inside_tile_aligned_bound(4, 0));
    assert!(!chunk.is_tile_idx_inside_tile_aligned_bound(0, 3));
}

#[test]
fn tile_by_absolute_pixel() {
    // the chunk starts at pixel (10, 5)
    let mut chunk = chunk_at(2, 1, 4, 3);
    chunk.set_tile(0, 0, 6);
    chunk.set_tile(3, 2, 9);
    assert!(matches!(chunk.get_tile_abs(12, 6), Ok(6)));
    assert!(matches!(chunk.get_tile_abs(29, 19), Ok(9)));
    // a pixel less than one tile left of the chunk is read as column 0
    // (the relative coordinate is truncated toward zero)
    assert!(matches!(chunk.get_tile_abs(9, 6), Ok(6)));
    assert!(matches!(chunk.get_tile_abs(4, 6), Err(OutOfChunkBound::OUT)));
    assert!(matches!(chunk.get_tile_abs(30, 6), Err(OutOfChunkBound::OUT)));
    assert!(matches!(chunk.get_tile_abs(12, 20), Err(OutOfChunkBound::OUT)));
}

#[test]
fn tiles_read_and_written_with_only_their_byte_stored() {
    let mut chunk = MapChunk::init();
    chunk.bound = TileAlignedBoundingBox::init(0, 0, 4, 4);
    chunk.tiles = vec![0x21];
    assert_eq!(chunk.get_tile(0, 0), 1);
    assert_eq!(chunk.get_tile(1, 0), 2);
    chunk.set_tile(1, 0, 9);
    assert_eq!(chunk.tiles, vec![0x91]);
    assert_eq!(chunk.get_tile(1, 0), 9);
    assert_eq!(chunk.get_tile(0, 0), 1);
}
