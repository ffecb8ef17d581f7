//! Map chunks: rectangles of tiles, stored two tiles to a byte.
use vstd::prelude::*;
use std::collections::TryReserveError;
use crate::game_constants::{TILE_HEIGHT_PX, TILE_WIDTH_PX};

verus! {

/// A rectangle on the tile grid: its corner (in tiles) and its size (in tiles).
pub struct TileAlignedBoundingBox {
    pub x: i32,
    pub y: i32,
    pub width: usize,
    pub height: usize,
}

impl TileAlignedBoundingBox {
    pub fn init(x: i32, y: i32, w: usize, h: usize) -> (b: Self)
        ensures
            b == (TileAlignedBoundingBox { x: x, y: y, width: w, height: h }),
    {
        return TileAlignedBoundingBox { x: x, y: y, width: w, height: h };
    }
}

/// A chunk of the map. Tile `i` of the chunk (row-major, `width` tiles to a
/// row) is the low nibble of byte `i / 2` when `i` is even, and its high
/// nibble when `i` is odd.
pub struct MapChunk {
    pub tiles: Vec<u8>,
    pub bound: TileAlignedBoundingBox,
}

pub enum OutOfChunkBound {
    OUT,
}

/// Tile `i` of a packed tile array.
pub open spec fn nibble(tiles: Seq<u8>, i: int) -> u8 {
    if i % 2 == 0 {
        tiles[i / 2] & 0x0f
    } else {
        (tiles[i / 2] >> 4u8) & 0x0f
    }
}

/// The packed tile array with tile `i` replaced by the low four bits of `val`.
pub open spec fn set_nibble(tiles: Seq<u8>, i: int, val: u8) -> Seq<u8> {
    let b = tiles[i / 2];
    if i % 2 == 0 {
        tiles.update(i / 2, (b & 0xf0) | (val & 0x0f))
    } else {
        tiles.update(i / 2, (b & 0x0f) | ((val & 0x0f) << 4u8))
    }
}

/// `v` restricted to the range `lo..=hi`.
pub open spec fn clamp_spec(v: int, lo: int, hi: int) -> int {
    if v < lo {
        lo
    } else if v > hi {
        hi
    } else {
        v
    }
}

/// Truncating division (rounding toward zero), as Rust's `/` on signed integers.
pub open spec fn trunc_div(n: int, d: int) -> int {
    if n >= 0 {
        n / d
    } else {
        -((-n) / d)
    }
}

/// Wraps `num::clamp` on `usize`: `input` restricted to `min..=max`.
/// `num::clamp` asserts (in debug builds) that `min <= max`, so that is required.
#[verifier::external_body]
fn clamp_usize(input: usize, min: usize, max: usize) -> (r: usize)
    requires
        min <= max,
    ensures
        r == clamp_spec(input as int, min as int, max as int),
{
    num::clamp(input, min, max)
}

/// Wraps `Vec::try_reserve_exact`: whether the allocator grants the space is
/// not stated; the contents of the vector are unchanged either way.
#[verifier::external_body]
fn try_reserve_exact_bytes(v: &mut Vec<u8>, additional: usize) -> (r: Result<(), TryReserveError>)
    ensures
        final(v)@ == old(v)@,
{
    v.try_reserve_exact(additional)
}

impl MapChunk {
    /// The chunk's size is positive, its tile count fits in memory, and its
    /// byte array holds every tile.
    pub open spec fn wf(&self) -> bool {
        &&& self.bound.width >= 1
        &&& self.bound.height >= 1
        &&& self.bound.width * self.bound.height <= usize::MAX
        &&& (self.bound.width * self.bound.height - 1) / 2 < self.tiles@.len()
    }

    /// The number of tiles of the chunk.
    pub open spec fn n_tiles(&self) -> int {
        self.bound.width * self.bound.height
    }

    /// Tile `i` of the chunk.
    pub open spec fn tile(&self, i: int) -> u8 {
        nibble(self.tiles@, i)
    }

    /// Every tile slot of the byte array, two to a byte, in order.
    pub open spec fn cells(&self) -> Seq<u8> {
        Seq::new((2 * self.tiles@.len()) as nat, |i: int| nibble(self.tiles@, i))
    }

    /// The byte that holds the tile at column `x`, row `y` (both clamped into
    /// the chunk) is in storage, and the tile's index fits in `usize`.
    pub open spec fn tile_stored(&self, x: int, y: int) -> bool {
        &&& self.bound.width >= 1
        &&& self.bound.height >= 1
        &&& self.cell_index(x, y) <= usize::MAX
        &&& self.cell_index(x, y) / 2 < self.tiles@.len()
    }

    /// The index of the tile at column `x`, row `y`, both clamped into the chunk.
    pub open spec fn cell_index(&self, x: int, y: int) -> int {
        clamp_spec(y, 0, self.bound.height - 1) * self.bound.width + clamp_spec(
            x,
            0,
            self.bound.width - 1,
        )
    }

    /// Whether column `x`, row `y` lie inside the chunk, the size taken as `i32`.
    pub open spec fn spec_inside(&self, x: int, y: int) -> bool {
        &&& x >= 0
        &&& x < (self.bound.width as i32)
        &&& y >= 0
        &&& y < (self.bound.height as i32)
    }

    /// The tile column (or row) that absolute pixel coordinate `a` falls into,
    /// for a chunk corner at tile coordinate `origin`.
    pub open spec fn rel_tile_coord(a: int, origin: int) -> int {
        trunc_div(a - origin * 5, 5)
    }

    /// The tile under absolute pixel `(ax, ay)`, or `None` outside the chunk.
    pub open spec fn tile_at_abs(&self, ax: int, ay: int) -> Option<u8> {
        let rx = Self::rel_tile_coord(ax, self.bound.x as int);
        let ry = Self::rel_tile_coord(ay, self.bound.y as int);
        if self.spec_inside(rx, ry) {
            Some(self.tile(self.cell_index(rx, ry)))
        } else {
            None
        }
    }

    /// The pixel arithmetic for absolute point `(ax, ay)` fits in `i32`.
    pub open spec fn abs_point_fits(&self, ax: int, ay: int) -> bool {
        &&& i32::MIN <= self.bound.x * 5 <= i32::MAX
        &&& i32::MIN <= self.bound.y * 5 <= i32::MAX
        &&& i32::MIN <= ax - self.bound.x * 5 <= i32::MAX
        &&& i32::MIN <= ay - self.bound.y * 5 <= i32::MAX
    }

    /// The pixel rectangle of the chunk, with a margin of two tiles on every
    /// side, lies inside the `i32` range and spans less than half of it.
    pub open spec fn pixel_region_fits(&self) -> bool {
        let x0 = self.bound.x * 5;
        let x1 = (self.bound.x + self.bound.width) * 5;
        let y0 = self.bound.y * 5;
        let y1 = (self.bound.y + self.bound.height) * 5;
        &&& x0 - 10 >= i32::MIN
        &&& x1 + 10 <= i32::MAX
        &&& y0 - 10 >= i32::MIN
        &&& y1 + 10 <= i32::MAX
        &&& x1 - x0 + 20 <= i32::MAX
        &&& y1 - y0 + 20 <= i32::MAX
    }

    /// A pixel that lies on a tile of the chunk lies in the chunk's pixel
    /// rectangle widened by less than one tile on the low sides.
    pub proof fn lemma_tile_at_abs_in_region(&self, ax: int, ay: int)
        requires
            self.pixel_region_fits(),
            self.tile_at_abs(ax, ay) is Some,
        ensures
            self.bound.x * 5 - 5 < ax < (self.bound.x + self.bound.width) * 5,
            self.bound.y * 5 - 5 < ay < (self.bound.y + self.bound.height) * 5,
    {
        let nx = ax - self.bound.x * 5;
        let ny = ay - self.bound.y * 5;
        assert(self.bound.width < 0x8000_0000);
        assert(self.bound.height < 0x8000_0000);
        assert((self.bound.width as i32) as int == self.bound.width as int);
        assert((self.bound.height as i32) as int == self.bound.height as int);
        assert(nx < self.bound.width * 5) by (nonlinear_arith)
            requires
                nx >= 0 ==> nx / 5 < self.bound.width,
                nx < 0 ==> nx < self.bound.width * 5,
        ;
        assert(ny < self.bound.height * 5) by (nonlinear_arith)
            requires
                ny >= 0 ==> ny / 5 < self.bound.height,
                ny < 0 ==> ny < self.bound.height * 5,
        ;
    }

    /// An empty chunk, one tile in size, at tile `(1, 1)`, with no storage.
    pub fn init() -> (chunk: Self)
        ensures
            chunk.tiles@.len() == 0,
            chunk.bound == (TileAlignedBoundingBox { x: 1, y: 1, width: 1, height: 1 }),
    {
        let chunk = MapChunk {
            tiles: Vec::new(),
            bound: TileAlignedBoundingBox { y: 1, x: 1, width: 1, height: 1 },
        };
        chunk
    }

    /// Clamps a column and a row into the chunk.
    pub fn clamp_coords(&self, x: usize, y: usize) -> (r: (usize, usize))
        requires
            self.bound.width >= 1,
            self.bound.height >= 1,
        ensures
            r.0 == clamp_spec(x as int, 0, self.bound.width - 1),
            r.1 == clamp_spec(y as int, 0, self.bound.height - 1),
    {
        let clamped_x = clamp_usize(x, 0, self.bound.width - 1);
        let clamped_y = clamp_usize(y, 0, self.bound.height - 1);
        (clamped_x, clamped_y)
    }

    fn logical_index(&self, x: usize, y: usize) -> (i: usize)
        requires
            self.tile_stored(x as int, y as int),
        ensures
            i == self.cell_index(x as int, y as int),
            0 <= i < self.n_tiles(),
            i / 2 < self.tiles@.len(),
    {
        let clamped_coords = self.clamp_coords(x, y);
        let w = self.bound.width;
        let h = self.bound.height;
        let cx = clamped_coords.0;
        let cy = clamped_coords.1;
        assert(cy * w + cx < w * h && cy * w + cx >= 0 && cy * w <= cy * w + cx) by (nonlinear_arith)
            requires
                cy <= h - 1,
                cx <= w - 1,
                w >= 1,
                h >= 1,
        ;
        cy * w + cx
    }

    /// Writes the low four bits of `val` as the tile at column `x`, row `y`
    /// (both clamped into the chunk).
    pub fn set_tile(&mut self, x: usize, y: usize, val: u8)
        requires
            old(self).tile_stored(x as int, y as int),
        ensures
            final(self).bound == old(self).bound,
            final(self).tiles@ == set_nibble(
                old(self).tiles@,
                old(self).cell_index(x as int, y as int),
                val,
            ),
            final(self).tiles@.len() == old(self).tiles@.len(),
            old(self).wf() ==> final(self).wf(),
            final(self).cells() == old(self).cells().update(
                old(self).cell_index(x as int, y as int),
                val & 0x0f,
            ),
    {
        let logical_idx = self.logical_index(x, y);
        let actual_idx = logical_idx / 2;
        let mut prior: u8 = self.tiles[actual_idx];
        if logical_idx % 2 == 0 {
            prior &= 0xf0;
            prior |= val & 0x0f;
            self.tiles.set(actual_idx, prior);
        } else {
            let b = prior;
            prior &= 0x0f;
            prior |= (((val as u32) << 4u32) & 0xf0) as u8;
            assert(prior == (b & 0x0f) | ((val & 0x0f) << 4u8)) by (bit_vector)
                requires
                    prior == (b & 0x0f) | (((val as u32) << 4u32) & 0xf0) as u8,
            ;
            self.tiles.set(actual_idx, prior);
        }
        proof {
            lemma_cells_after_set(old(self).tiles@, logical_idx as int, val);
        }
    }

    /// The tile at column `x`, row `y` (both clamped into the chunk).
    pub fn get_tile(&self, x: usize, y: usize) -> (r: u8)
        requires
            self.tile_stored(x as int, y as int),
        ensures
            r == self.tile(self.cell_index(x as int, y as int)),
            r < 16,
    {
        let logical_idx = self.logical_index(x, y);
        let actual_idx: usize = logical_idx / 2;
        let current: u8 = self.tiles[actual_idx];
        if logical_idx % 2 == 0 {
            assert(current & 0x0f < 16) by (bit_vector);
            current & 0x0f
        } else {
            let r = (((current as u32) >> 4u32) & 0x0f) as u8;
            assert(r == (current >> 4u8) & 0x0f && r < 16) by (bit_vector)
                requires
                    r == (((current as u32) >> 4u32) & 0x0f) as u8,
            ;
            r
        }
    }

    /// Whether column `x`, row `y` lie inside the chunk.
    pub fn is_tile_idx_inside_tile_aligned_bound(&self, x: i32, y: i32) -> (r: bool)
        ensures
            r == self.spec_inside(x as int, y as int),
    {
        if x >= 0 {
            if x < self.bound.width as i32 {
                if y >= 0 {
                    if y < self.bound.height as i32 {
                        return true;
                    }
                }
            }
        }
        false
    }

    /// The tile under the absolute pixel `(abs_x, abs_y)`, or `OUT` when the
    /// pixel is outside the chunk.
    pub fn get_tile_abs(&self, abs_x: i32, abs_y: i32) -> (r: Result<u8, OutOfChunkBound>)
        requires
            self.abs_point_fits(abs_x as int, abs_y as int),
            ({
                let rx = Self::rel_tile_coord(abs_x as int, self.bound.x as int);
                let ry = Self::rel_tile_coord(abs_y as int, self.bound.y as int);
                self.spec_inside(rx, ry) ==> self.tile_stored(rx, ry)
            }),
        ensures
            match r {
                Ok(t) => self.tile_at_abs(abs_x as int, abs_y as int) == Some(t),
                Err(_) => self.tile_at_abs(abs_x as int, abs_y as int) is None,
            },
    {
        let rel_x = tile_coord_toward_zero(abs_x - self.bound.x * TILE_WIDTH_PX as i32);
        let rel_y = tile_coord_toward_zero(abs_y - self.bound.y * TILE_HEIGHT_PX as i32);
        if self.is_tile_idx_inside_tile_aligned_bound(rel_x, rel_y) {
            return Result::Ok(self.get_tile(rel_x as usize, rel_y as usize));
        }
        return Result::Err(OutOfChunkBound::OUT);
    }

    /// Clears the chunk and gives it storage for every tile (plus two spare
    /// bytes), all tiles zero. Returns `false`, with no storage left, when the
    /// allocator refuses the space.
    pub fn initialize(&mut self) -> (ok: bool)
        requires
            old(self).bound.width * old(self).bound.height <= usize::MAX,
            (old(self).bound.width * old(self).bound.height) / 2 + 2 <= usize::MAX,
        ensures
            final(self).bound == old(self).bound,
            ok ==> final(self).tiles@ == Seq::new(
                ((old(self).bound.width * old(self).bound.height) / 2 + 2) as nat,
                |i: int| 0u8,
            ),
            !ok ==> final(self).tiles@.len() == 0,
            ok && old(self).bound.width >= 1 && old(self).bound.height >= 1 ==> final(self).wf(),
    {
        self.tiles.clear();
        let n_bytes_for_chunk_storage = (self.bound.width * self.bound.height) / 2 + 2;
        match try_reserve_exact_bytes(&mut self.tiles, n_bytes_for_chunk_storage) {
            Ok(_) => {
                let mut i: usize = 0;
                while i < n_bytes_for_chunk_storage
                    invariant
                        i <= n_bytes_for_chunk_storage,
                        self.bound == old(self).bound,
                        n_bytes_for_chunk_storage == (self.bound.width * self.bound.height) / 2 + 2,
                        self.tiles@ == Seq::new(i as nat, |j: int| 0u8),
                    decreases n_bytes_for_chunk_storage - i,
                {
                    self.tiles.push(0);
                    i = i + 1;
                }
                return true;
            },
            Err(_) => {
                return false;
            },
        }
    }
}


proof fn lemma_byte_nibbles(b: u8, val: u8)
    ensures
        ((b & 0xf0) | (val & 0x0f)) & 0x0f == val & 0x0f,
        (((b & 0xf0) | (val & 0x0f)) >> 4u8) & 0x0f == (b >> 4u8) & 0x0f,
        ((b & 0x0f) | ((val & 0x0f) << 4u8)) & 0x0f == b & 0x0f,
        (((b & 0x0f) | ((val & 0x0f) << 4u8)) >> 4u8) & 0x0f == val & 0x0f,
{
    assert(((b & 0xf0) | (val & 0x0f)) & 0x0f == val & 0x0f) by (bit_vector);
    assert((((b & 0xf0) | (val & 0x0f)) >> 4u8) & 0x0f == (b >> 4u8) & 0x0f) by (bit_vector);
    assert(((b & 0x0f) | ((val & 0x0f) << 4u8)) & 0x0f == b & 0x0f) by (bit_vector);
    assert((((b & 0x0f) | ((val & 0x0f) << 4u8)) >> 4u8) & 0x0f == val & 0x0f) by (bit_vector);
}

/// Writing tile `i` of a packed array changes tile `i` to the low four bits of
/// the value written and leaves every other tile, and the length, as it was.
pub proof fn lemma_nibble_after_set(tiles: Seq<u8>, i: int, val: u8, j: int)
    requires
        0 <= i < 2 * tiles.len(),
        0 <= j < 2 * tiles.len(),
    ensures
        set_nibble(tiles, i, val).len() == tiles.len(),
        nibble(set_nibble(tiles, i, val), j) == if i == j {
            val & 0x0f
        } else {
            nibble(tiles, j)
        },
{
    lemma_byte_nibbles(tiles[i / 2], val);
}

/// Writing tile `i` of a packed array updates slot `i` of its tile slots.
pub proof fn lemma_cells_after_set(tiles: Seq<u8>, i: int, val: u8)
    requires
        0 <= i < 2 * tiles.len(),
    ensures
        Seq::new((2 * set_nibble(tiles, i, val).len()) as nat, |j: int| nibble(set_nibble(tiles, i, val), j))
            =~= Seq::new((2 * tiles.len()) as nat, |j: int| nibble(tiles, j)).update(i, val & 0x0f),
{
    assert forall|j: int| 0 <= j < 2 * tiles.len() implies nibble(set_nibble(tiles, i, val), j) == if i == j {
        val & 0x0f
    } else {
        nibble(tiles, j)
    } by {
        lemma_nibble_after_set(tiles, i, val, j);
    }
    lemma_nibble_after_set(tiles, i, val, i);
}

impl MapChunk {
    /// A well-formed chunk holds every tile in storage.
    pub proof fn lemma_wf_stores_every_tile(&self)
        requires
            self.wf(),
        ensures
            forall|x: int, y: int| #[trigger] self.tile_stored(x, y),
    {
        assert forall|x: int, y: int| #[trigger] self.tile_stored(x, y) by {
            self.lemma_cell_index(x, y, x, y);
        }
    }

    /// Every clamped column and row lands on one of the chunk's tiles, and
    /// distinct columns or rows inside the chunk land on distinct tiles.
    pub proof fn lemma_cell_index(&self, x: int, y: int, x2: int, y2: int)
        requires
            self.bound.width >= 1,
            self.bound.height >= 1,
        ensures
            0 <= self.cell_index(x, y) < self.n_tiles(),
            0 <= x < self.bound.width && 0 <= y < self.bound.height && 0 <= x2 < self.bound.width
                && 0 <= y2 < self.bound.height ==> (self.cell_index(x, y) == self.cell_index(x2, y2)
                <==> (x == x2 && y == y2)),
    {
        let w = self.bound.width as int;
        let h = self.bound.height as int;
        let cx = clamp_spec(x, 0, w - 1);
        let cy = clamp_spec(y, 0, h - 1);
        assert(0 <= cy * w + cx < w * h) by (nonlinear_arith)
            requires
                0 <= cy <= h - 1,
                0 <= cx <= w - 1,
                w >= 1,
        ;
        if 0 <= x < w && 0 <= y < h && 0 <= x2 < w && 0 <= y2 < h {
            assert(y * w + x == y2 * w + x2 ==> x == x2 && y == y2) by (nonlinear_arith)
                requires
                    0 <= x < w,
                    0 <= x2 < w,
                    0 <= y,
                    0 <= y2,
            ;
        }
    }

    /// What a read gives back of a write: after `set_tile(x, y, val)` the tile
    /// at `(x, y)` reads as the low four bits of `val`, every tile at another
    /// position reads as before, and the chunk stays well formed.
    pub proof fn law_get_after_set(before: MapChunk, after: MapChunk, x: int, y: int, val: u8, x2: int, y2: int)
        requires
            before.wf(),
            after.bound == before.bound,
            after.tiles@ == set_nibble(before.tiles@, before.cell_index(x, y), val),
        ensures
            after.wf(),
            after.tile(after.cell_index(x, y)) == val & 0x0f,
            before.cell_index(x2, y2) != before.cell_index(x, y) ==> after.tile(after.cell_index(x2, y2))
                == before.tile(before.cell_index(x2, y2)),
    {
        before.lemma_cell_index(x, y, x2, y2);
        before.lemma_cell_index(x2, y2, x, y);
        let i = before.cell_index(x, y);
        let j = before.cell_index(x2, y2);
        lemma_nibble_after_set(before.tiles@, i, val, i);
        lemma_nibble_after_set(before.tiles@, i, val, j);
    }
}

/// Divides a pixel offset by the tile size, rounding toward zero, exactly in
/// integers. For every offset below 2^24 in magnitude this is also what
/// dividing in single-precision floating point and truncating gives.
fn tile_coord_toward_zero(n: i32) -> (q: i32)
    ensures
        q == trunc_div(n as int, 5),
{
    if n >= 0 {
        n / 5
    } else {
        let m: i64 = -(n as i64);
        let q: i64 = m / 5;
        (-q) as i32
    }
}

} // verus!
