//! The map: a list of chunks, where chunks that touch are opened into one
//! another along the shared part of their walls.
use vstd::prelude::*;
use crate::game_constants::MAX_N_TILES_IN_WHOLE_MAP;
use crate::mapchunk::{clamp_spec, nibble, MapChunk, TileAlignedBoundingBox};

verus! {

pub struct GameMap {
    pub chunks: Vec<MapChunk>,
    pub num_tiles: usize,
}

/// The side of a chunk whose wall is opened.
pub enum ChunkSide {
    Top,
    Bottom,
    Left,
    Right,
}

/// The sizes and far edges of a chunk fit in `i32`.
pub open spec fn bound_fits(b: TileAlignedBoundingBox) -> bool {
    &&& b.width <= i32::MAX
    &&& b.height <= i32::MAX
    &&& b.x + b.width <= i32::MAX
    &&& b.y + b.height <= i32::MAX
}

/// `upper` lies right on top of `lower` and they share part of a column range.
pub open spec fn touches_vertically(upper: TileAlignedBoundingBox, lower: TileAlignedBoundingBox) -> bool {
    &&& upper.y + upper.height == lower.y
    &&& upper.x + upper.width > lower.x
    &&& upper.x < lower.x + lower.width
}

/// `left` lies right beside `right` and they share part of a row range.
pub open spec fn touches_horizontally(left: TileAlignedBoundingBox, right: TileAlignedBoundingBox) -> bool {
    &&& left.x + left.width == right.x
    &&& left.y + left.height > right.y
    &&& left.y < right.y + right.height
}

pub open spec fn spec_max(a: int, b: int) -> int {
    if a >= b { a } else { b }
}

pub open spec fn spec_min(a: int, b: int) -> int {
    if a <= b { a } else { b }
}

/// Whether the side of `b` that faces `ob` touches it.
pub open spec fn side_touches(side: ChunkSide, b: TileAlignedBoundingBox, ob: TileAlignedBoundingBox) -> bool {
    match side {
        ChunkSide::Top => touches_vertically(ob, b),
        ChunkSide::Bottom => touches_vertically(b, ob),
        ChunkSide::Left => touches_horizontally(ob, b),
        ChunkSide::Right => touches_horizontally(b, ob),
    }
}

/// The first absolute column (or row) that `b` and `ob` share along `side`.
pub open spec fn side_lo(side: ChunkSide, b: TileAlignedBoundingBox, ob: TileAlignedBoundingBox) -> int {
    match side {
        ChunkSide::Top | ChunkSide::Bottom => spec_max(b.x as int, ob.x as int),
        ChunkSide::Left | ChunkSide::Right => spec_max(b.y as int, ob.y as int),
    }
}

/// One past the last absolute column (or row) that `b` and `ob` share along `side`.
pub open spec fn side_hi(side: ChunkSide, b: TileAlignedBoundingBox, ob: TileAlignedBoundingBox) -> int {
    match side {
        ChunkSide::Top | ChunkSide::Bottom => spec_min(b.x + b.width, ob.x + ob.width),
        ChunkSide::Left | ChunkSide::Right => spec_min(b.y + b.height, ob.y + ob.height),
    }
}

/// The tile of `b` on `side` at absolute column (or row) `k`.
pub open spec fn side_index(side: ChunkSide, b: TileAlignedBoundingBox, k: int) -> int {
    match side {
        ChunkSide::Top => k - b.x,
        ChunkSide::Bottom => (b.height - 1) * b.width + (k - b.x),
        ChunkSide::Left => (k - b.y) * b.width,
        ChunkSide::Right => (k - b.y) * b.width + (b.width - 1),
    }
}

/// The tile written at absolute column (or row) `k` of an opened wall: a
/// solid block (9) where `k` is at an end of either chunk's side, and empty (0)
/// elsewhere.
pub open spec fn opening_tile(side: ChunkSide, b: TileAlignedBoundingBox, ob: TileAlignedBoundingBox, k: int) -> u8 {
    let edge = match side {
        ChunkSide::Top | ChunkSide::Bottom => k - b.x == 0 || k - b.x == b.width - 1 || k - ob.x == 0
            || k - ob.x == ob.width - 1,
        ChunkSide::Left | ChunkSide::Right => k - b.y == 0 || k - b.y == b.height - 1 || k - ob.y == 0
            || k - ob.y == ob.height - 1,
    };
    if edge {
        9
    } else {
        0
    }
}

/// `cells` with the wall of `b` on `side` rewritten for every absolute column
/// (or row) `k` in `lo..hi`, in increasing order.
pub open spec fn rewrite_side(
    cells: Seq<u8>,
    side: ChunkSide,
    b: TileAlignedBoundingBox,
    ob: TileAlignedBoundingBox,
    lo: int,
    hi: int,
) -> Seq<u8>
    decreases hi - lo,
{
    if hi <= lo {
        cells
    } else {
        rewrite_side(cells, side, b, ob, lo, hi - 1).update(
            side_index(side, b, hi - 1),
            opening_tile(side, b, ob, hi - 1),
        )
    }
}

/// The tile slots of `b` after its wall on `side` is opened toward `ob`, if
/// that side touches `ob`.
pub open spec fn open_side(side: ChunkSide, b: TileAlignedBoundingBox, ob: TileAlignedBoundingBox, cells: Seq<u8>) -> Seq<u8> {
    if side_touches(side, b, ob) {
        rewrite_side(cells, side, b, ob, side_lo(side, b, ob), side_hi(side, b, ob))
    } else {
        cells
    }
}

/// The tile slots of a chunk `cb` and another chunk `ob` after the four
/// openings that linking performs between them, in their order.
pub open spec fn fuse_pair(
    cb: TileAlignedBoundingBox,
    ob: TileAlignedBoundingBox,
    c_cells: Seq<u8>,
    o_cells: Seq<u8>,
) -> (Seq<u8>, Seq<u8>) {
    let c1 = open_side(ChunkSide::Top, cb, ob, c_cells);
    let o1 = open_side(ChunkSide::Bottom, ob, cb, o_cells);
    let o2 = open_side(ChunkSide::Top, ob, cb, o1);
    let c2 = open_side(ChunkSide::Bottom, cb, ob, c1);
    let c3 = open_side(ChunkSide::Left, cb, ob, c2);
    let o3 = open_side(ChunkSide::Right, ob, cb, o2);
    let o4 = open_side(ChunkSide::Left, ob, cb, o3);
    let c4 = open_side(ChunkSide::Right, cb, ob, c3);
    (c4, o4)
}

/// The tile slots of a new chunk `cb` and of the map's first `n` chunks after
/// linking the new chunk to them one by one.
pub open spec fn link_prefix(
    cb: TileAlignedBoundingBox,
    c_cells: Seq<u8>,
    chunks: Seq<MapChunk>,
    n: nat,
) -> (Seq<u8>, Seq<Seq<u8>>)
    decreases n,
{
    if n == 0 {
        (c_cells, Seq::new(chunks.len(), |i: int| chunks[i].cells()))
    } else {
        let prev = link_prefix(cb, c_cells, chunks, (n - 1) as nat);
        let fused = fuse_pair(cb, chunks[n - 1].bound, prev.0, prev.1[n - 1]);
        (fused.0, prev.1.update(n - 1, fused.1))
    }
}

/// `link_prefix` over the chunks' bounds and tile slots given apart: the
/// tile slots of a new chunk `cb` and of the first `n` chunks (with bounds
/// `bounds` and slots `cells`) after linking the new chunk to them one by one.
pub open spec fn link_cells(
    cb: TileAlignedBoundingBox,
    c_cells: Seq<u8>,
    bounds: Seq<TileAlignedBoundingBox>,
    cells: Seq<Seq<u8>>,
    n: nat,
) -> (Seq<u8>, Seq<Seq<u8>>)
    decreases n,
{
    if n == 0 {
        (c_cells, cells)
    } else {
        let prev = link_cells(cb, c_cells, bounds, cells, (n - 1) as nat);
        let fused = fuse_pair(cb, bounds[n - 1], prev.0, prev.1[n - 1]);
        (fused.0, prev.1.update(n - 1, fused.1))
    }
}

/// Linking keeps one slot list per chunk.
pub proof fn lemma_link_cells_len(
    cb: TileAlignedBoundingBox,
    c_cells: Seq<u8>,
    bounds: Seq<TileAlignedBoundingBox>,
    cells: Seq<Seq<u8>>,
    n: nat,
)
    requires
        n <= cells.len(),
    ensures
        link_cells(cb, c_cells, bounds, cells, n).1.len() == cells.len(),
    decreases n,
{
    if n > 0 {
        lemma_link_cells_len(cb, c_cells, bounds, cells, (n - 1) as nat);
    }
}

/// Linking chunks is linking their bounds and tile slots.
pub proof fn lemma_link_prefix_cells(
    cb: TileAlignedBoundingBox,
    c_cells: Seq<u8>,
    chunks: Seq<MapChunk>,
    bounds: Seq<TileAlignedBoundingBox>,
    cells: Seq<Seq<u8>>,
    n: nat,
)
    requires
        n <= chunks.len(),
        bounds.len() >= chunks.len(),
        cells.len() == chunks.len(),
        forall|i: int| 0 <= i < chunks.len() ==> #[trigger] bounds[i] == chunks[i].bound,
        forall|i: int| 0 <= i < chunks.len() ==> #[trigger] cells[i] == chunks[i].cells(),
    ensures
        link_prefix(cb, c_cells, chunks, n) == link_cells(cb, c_cells, bounds, cells, n),
    decreases n,
{
    if n == 0 {
        assert(Seq::new(chunks.len(), |i: int| chunks[i].cells()) =~= cells);
    } else {
        lemma_link_prefix_cells(cb, c_cells, chunks, bounds, cells, (n - 1) as nat);
    }
}

/// Linking keeps one slot list per chunk of the map.
pub proof fn lemma_link_prefix_len(cb: TileAlignedBoundingBox, c_cells: Seq<u8>, chunks: Seq<MapChunk>, n: nat)
    requires
        n <= chunks.len(),
    ensures
        link_prefix(cb, c_cells, chunks, n).1.len() == chunks.len(),
    decreases n,
{
    if n > 0 {
        lemma_link_prefix_len(cb, c_cells, chunks, (n - 1) as nat);
    }
}

/// Column `x`, row `y` lies inside the walls of a chunk with bound `b`.
pub open spec fn interior_cell(b: TileAlignedBoundingBox, x: int, y: int) -> bool {
    0 < x < b.width - 1 && 0 < y < b.height - 1
}

/// The slot of an interior tile lies among the chunk's tiles.
proof fn lemma_interior_index(b: TileAlignedBoundingBox, x: int, y: int)
    requires
        interior_cell(b, x, y),
    ensures
        b.width <= y * b.width + x < b.width * b.height,
{
    let w = b.width as int;
    let h = b.height as int;
    assert(w <= y * w + x < w * h) by (nonlinear_arith)
        requires
            0 < x < w - 1,
            0 < y < h - 1,
    ;
}

/// The slot that opening a side writes at absolute column (or row) `k`
/// lies on that side's wall: never on an interior tile.
proof fn lemma_side_index_on_wall(side: ChunkSide, b: TileAlignedBoundingBox, ob: TileAlignedBoundingBox, k: int, x: int, y: int)
    requires
        side_lo(side, b, ob) <= k < side_hi(side, b, ob),
        interior_cell(b, x, y),
    ensures
        0 <= side_index(side, b, k) < b.width * b.height,
        side_index(side, b, k) != y * b.width + x,
{
    let w = b.width as int;
    let h = b.height as int;
    lemma_interior_index(b, x, y);
    match side {
        ChunkSide::Top => {
            let j = k - b.x;
            assert(0 <= j < w);
            assert(j < w * h) by (nonlinear_arith)
                requires
                    0 <= j < w,
                    h >= 1,
            ;
        },
        ChunkSide::Bottom => {
            let j = k - b.x;
            assert(0 <= j < w);
            assert(0 <= (h - 1) * w + j < w * h && (h - 1) * w + j != y * w + x) by (nonlinear_arith)
                requires
                    0 <= j < w,
                    0 < x < w - 1,
                    0 < y < h - 1,
            ;
        },
        ChunkSide::Left => {
            let r = k - b.y;
            assert(0 <= r < h);
            assert(0 <= r * w < w * h && r * w != y * w + x) by (nonlinear_arith)
                requires
                    0 <= r < h,
                    0 < x < w - 1,
                    0 < y < h - 1,
            ;
        },
        ChunkSide::Right => {
            let r = k - b.y;
            assert(0 <= r < h);
            assert(0 <= r * w + (w - 1) < w * h && r * w + (w - 1) != y * w + x) by (nonlinear_arith)
                requires
                    0 <= r < h,
                    0 < x < w - 1,
                    0 < y < h - 1,
            ;
        },
    }
}

/// Rewriting part of a side keeps the number of slots and every interior tile.
proof fn lemma_rewrite_side_keeps(
    cells: Seq<u8>,
    side: ChunkSide,
    b: TileAlignedBoundingBox,
    ob: TileAlignedBoundingBox,
    lo: int,
    hi: int,
    x: int,
    y: int,
)
    requires
        cells.len() >= b.width * b.height,
        b.width >= 1,
        b.height >= 1,
        side_lo(side, b, ob) <= lo,
        hi <= side_hi(side, b, ob),
    ensures
        rewrite_side(cells, side, b, ob, lo, hi).len() == cells.len(),
        interior_cell(b, x, y) ==> rewrite_side(cells, side, b, ob, lo, hi)[y * b.width + x] == cells[y * b.width
            + x],
    decreases hi - lo,
{
    if hi > lo {
        lemma_rewrite_side_keeps(cells, side, b, ob, lo, hi - 1, x, y);
        if hi - 1 >= lo {
            if interior_cell(b, x, y) {
                lemma_side_index_on_wall(side, b, ob, hi - 1, x, y);
                lemma_interior_index(b, x, y);
            } else {
                lemma_side_index_on_wall_any(side, b, ob, hi - 1);
            }
        }
    }
}

/// The slot that opening a side writes lies among the chunk's tiles.
proof fn lemma_side_index_on_wall_any(side: ChunkSide, b: TileAlignedBoundingBox, ob: TileAlignedBoundingBox, k: int)
    requires
        side_lo(side, b, ob) <= k < side_hi(side, b, ob),
        b.width >= 1,
        b.height >= 1,
    ensures
        0 <= side_index(side, b, k) < b.width * b.height,
{
    let w = b.width as int;
    let h = b.height as int;
    match side {
        ChunkSide::Top => {
            let j = k - b.x;
            assert(0 <= j < w * h) by (nonlinear_arith)
                requires
                    0 <= j < w,
                    h >= 1,
            ;
        },
        ChunkSide::Bottom => {
            let j = k - b.x;
            assert(0 <= (h - 1) * w + j < w * h) by (nonlinear_arith)
                requires
                    0 <= j < w,
                    h >= 1,
            ;
        },
        ChunkSide::Left => {
            let r = k - b.y;
            assert(0 <= r * w < w * h) by (nonlinear_arith)
                requires
                    0 <= r < h,
                    w >= 1,
            ;
        },
        ChunkSide::Right => {
            let r = k - b.y;
            assert(0 <= r * w + (w - 1) < w * h) by (nonlinear_arith)
                requires
                    0 <= r < h,
                    w >= 1,
            ;
        },
    }
}

/// Two different columns (or rows) of one side are different slots.
proof fn lemma_side_index_injective(side: ChunkSide, b: TileAlignedBoundingBox, k1: int, k2: int)
    requires
        k1 != k2,
        b.width >= 1,
    ensures
        side_index(side, b, k1) != side_index(side, b, k2),
{
    let w = b.width as int;
    match side {
        ChunkSide::Left => {
            assert((k1 - b.y) * w != (k2 - b.y) * w) by (nonlinear_arith)
                requires
                    k1 != k2,
                    w >= 1,
            ;
        },
        ChunkSide::Right => {
            assert((k1 - b.y) * w != (k2 - b.y) * w) by (nonlinear_arith)
                requires
                    k1 != k2,
                    w >= 1,
            ;
        },
        _ => {},
    }
}

/// Rewriting part of a wall writes the opening tile at each rewritten
/// column (or row).
proof fn lemma_rewrite_side_at(
    cells: Seq<u8>,
    side: ChunkSide,
    b: TileAlignedBoundingBox,
    ob: TileAlignedBoundingBox,
    lo: int,
    hi: int,
    k: int,
)
    requires
        cells.len() >= b.width * b.height,
        b.width >= 1,
        b.height >= 1,
        side_lo(side, b, ob) <= lo <= k < hi <= side_hi(side, b, ob),
    ensures
        rewrite_side(cells, side, b, ob, lo, hi).len() == cells.len(),
        rewrite_side(cells, side, b, ob, lo, hi)[side_index(side, b, k)] == opening_tile(side, b, ob, k),
    decreases hi - lo,
{
    lemma_rewrite_side_keeps(cells, side, b, ob, lo, hi - 1, 0, 0);
    lemma_side_index_on_wall_any(side, b, ob, hi - 1);
    if k < hi - 1 {
        lemma_rewrite_side_at(cells, side, b, ob, lo, hi - 1, k);
        lemma_side_index_injective(side, b, hi - 1, k);
        lemma_side_index_on_wall_any(side, b, ob, k);
    }
}

/// Linking two chunks of which one lies right on top of the other, their
/// column ranges overlapping (whichever starts further left), opens the
/// upper chunk's bottom wall and the lower chunk's top wall along every
/// shared column: each such tile becomes a solid block (9) where the column
/// is at an end of either chunk, and empty (0) elsewhere. `cb` is the chunk
/// being linked, `ob` the chunk of the map, each with tile slots laid out
/// row by row.
pub proof fn law_link_opens_stacked_walls(
    cb: TileAlignedBoundingBox,
    ob: TileAlignedBoundingBox,
    c_cells: Seq<u8>,
    o_cells: Seq<u8>,
    x: int,
)
    requires
        cb.width >= 1,
        cb.height >= 1,
        ob.width >= 1,
        ob.height >= 1,
        c_cells.len() >= cb.width * cb.height,
        o_cells.len() >= ob.width * ob.height,
        ob.y + ob.height == cb.y || cb.y + cb.height == ob.y,
        cb.x <= x < cb.x + cb.width,
        ob.x <= x < ob.x + ob.width,
    ensures
        ({
            let f = fuse_pair(cb, ob, c_cells, o_cells);
            let t: u8 = if x == cb.x || x == cb.x + cb.width - 1 || x == ob.x || x == ob.x + ob.width - 1 {
                9
            } else {
                0
            };
            &&& ob.y + ob.height == cb.y ==> f.0[x - cb.x] == t && f.1[(ob.height - 1) * ob.width + (x - ob.x)] == t
            &&& cb.y + cb.height == ob.y ==> f.0[(cb.height - 1) * cb.width + (x - cb.x)] == t && f.1[x - ob.x] == t
        }),
{
    if ob.y + ob.height == cb.y {
        lemma_rewrite_side_at(
            c_cells,
            ChunkSide::Top,
            cb,
            ob,
            side_lo(ChunkSide::Top, cb, ob),
            side_hi(ChunkSide::Top, cb, ob),
            x,
        );
        lemma_rewrite_side_at(
            o_cells,
            ChunkSide::Bottom,
            ob,
            cb,
            side_lo(ChunkSide::Bottom, ob, cb),
            side_hi(ChunkSide::Bottom, ob, cb),
            x,
        );
    } else {
        lemma_rewrite_side_at(
            c_cells,
            ChunkSide::Bottom,
            cb,
            ob,
            side_lo(ChunkSide::Bottom, cb, ob),
            side_hi(ChunkSide::Bottom, cb, ob),
            x,
        );
        lemma_rewrite_side_at(
            o_cells,
            ChunkSide::Top,
            ob,
            cb,
            side_lo(ChunkSide::Top, ob, cb),
            side_hi(ChunkSide::Top, ob, cb),
            x,
        );
    }
}

/// Linking two chunks of which one lies right beside the other, their row
/// ranges overlapping (whichever starts higher), opens the left chunk's right
/// wall and the right chunk's left wall along every shared row: each such
/// tile becomes a solid block (9) where the row is at an end of either chunk,
/// and empty (0) elsewhere. `cb` is the chunk being linked, `ob` the chunk of
/// the map, each with tile slots laid out row by row.
pub proof fn law_link_opens_side_by_side_walls(
    cb: TileAlignedBoundingBox,
    ob: TileAlignedBoundingBox,
    c_cells: Seq<u8>,
    o_cells: Seq<u8>,
    y: int,
)
    requires
        cb.width >= 1,
        cb.height >= 1,
        ob.width >= 1,
        ob.height >= 1,
        c_cells.len() >= cb.width * cb.height,
        o_cells.len() >= ob.width * ob.height,
        ob.x + ob.width == cb.x || cb.x + cb.width == ob.x,
        cb.y <= y < cb.y + cb.height,
        ob.y <= y < ob.y + ob.height,
    ensures
        ({
            let f = fuse_pair(cb, ob, c_cells, o_cells);
            let t: u8 = if y == cb.y || y == cb.y + cb.height - 1 || y == ob.y || y == ob.y + ob.height - 1 {
                9
            } else {
                0
            };
            &&& ob.x + ob.width == cb.x ==> f.0[(y - cb.y) * cb.width] == t && f.1[(y - ob.y) * ob.width + (
            ob.width - 1)] == t
            &&& cb.x + cb.width == ob.x ==> f.0[(y - cb.y) * cb.width + (cb.width - 1)] == t && f.1[(y - ob.y)
                * ob.width] == t
        }),
{
    let c2 = open_side(ChunkSide::Bottom, cb, ob, open_side(ChunkSide::Top, cb, ob, c_cells));
    let o2 = open_side(ChunkSide::Top, ob, cb, open_side(ChunkSide::Bottom, ob, cb, o_cells));
    assert(c2 == c_cells);
    assert(o2 == o_cells);
    if ob.x + ob.width == cb.x {
        lemma_rewrite_side_at(
            c_cells,
            ChunkSide::Left,
            cb,
            ob,
            side_lo(ChunkSide::Left, cb, ob),
            side_hi(ChunkSide::Left, cb, ob),
            y,
        );
        let o3 = open_side(ChunkSide::Right, ob, cb, o_cells);
        lemma_rewrite_side_at(
            o_cells,
            ChunkSide::Right,
            ob,
            cb,
            side_lo(ChunkSide::Right, ob, cb),
            side_hi(ChunkSide::Right, ob, cb),
            y,
        );
        assert(open_side(ChunkSide::Left, ob, cb, o3) == o3);
        assert(open_side(ChunkSide::Right, cb, ob, open_side(ChunkSide::Left, cb, ob, c_cells)) == open_side(
            ChunkSide::Left,
            cb,
            ob,
            c_cells,
        ));
    } else {
        let c3 = open_side(ChunkSide::Left, cb, ob, c_cells);
        assert(c3 == c_cells);
        lemma_rewrite_side_at(
            c_cells,
            ChunkSide::Right,
            cb,
            ob,
            side_lo(ChunkSide::Right, cb, ob),
            side_hi(ChunkSide::Right, cb, ob),
            y,
        );
        let o3 = open_side(ChunkSide::Right, ob, cb, o_cells);
        assert(o3 == o_cells);
        lemma_rewrite_side_at(
            o_cells,
            ChunkSide::Left,
            ob,
            cb,
            side_lo(ChunkSide::Left, ob, cb),
            side_hi(ChunkSide::Left, ob, cb),
            y,
        );
    }
}

/// Opening a side keeps the number of slots and every interior tile.
proof fn lemma_open_side_keeps(side: ChunkSide, b: TileAlignedBoundingBox, ob: TileAlignedBoundingBox, cells: Seq<u8>, x: int, y: int)
    requires
        cells.len() >= b.width * b.height,
        b.width >= 1,
        b.height >= 1,
    ensures
        open_side(side, b, ob, cells).len() == cells.len(),
        interior_cell(b, x, y) ==> open_side(side, b, ob, cells)[y * b.width + x] == cells[y * b.width + x],
{
    if side_touches(side, b, ob) {
        lemma_rewrite_side_keeps(cells, side, b, ob, side_lo(side, b, ob), side_hi(side, b, ob), x, y);
    }
}

/// Fusing two chunks keeps the number of slots of each and every interior tile.
proof fn lemma_fuse_pair_keeps(
    cb: TileAlignedBoundingBox,
    ob: TileAlignedBoundingBox,
    c_cells: Seq<u8>,
    o_cells: Seq<u8>,
    x: int,
    y: int,
    x2: int,
    y2: int,
)
    requires
        c_cells.len() >= cb.width * cb.height,
        o_cells.len() >= ob.width * ob.height,
        cb.width >= 1,
        cb.height >= 1,
        ob.width >= 1,
        ob.height >= 1,
    ensures
        fuse_pair(cb, ob, c_cells, o_cells).0.len() == c_cells.len(),
        fuse_pair(cb, ob, c_cells, o_cells).1.len() == o_cells.len(),
        interior_cell(cb, x, y) ==> fuse_pair(cb, ob, c_cells, o_cells).0[y * cb.width + x] == c_cells[y
            * cb.width + x],
        interior_cell(ob, x2, y2) ==> fuse_pair(cb, ob, c_cells, o_cells).1[y2 * ob.width + x2] == o_cells[y2
            * ob.width + x2],
{
    let c1 = open_side(ChunkSide::Top, cb, ob, c_cells);
    lemma_open_side_keeps(ChunkSide::Top, cb, ob, c_cells, x, y);
    let o1 = open_side(ChunkSide::Bottom, ob, cb, o_cells);
    lemma_open_side_keeps(ChunkSide::Bottom, ob, cb, o_cells, x2, y2);
    let o2 = open_side(ChunkSide::Top, ob, cb, o1);
    lemma_open_side_keeps(ChunkSide::Top, ob, cb, o1, x2, y2);
    let c2 = open_side(ChunkSide::Bottom, cb, ob, c1);
    lemma_open_side_keeps(ChunkSide::Bottom, cb, ob, c1, x, y);
    let c3 = open_side(ChunkSide::Left, cb, ob, c2);
    lemma_open_side_keeps(ChunkSide::Left, cb, ob, c2, x, y);
    let o3 = open_side(ChunkSide::Right, ob, cb, o2);
    lemma_open_side_keeps(ChunkSide::Right, ob, cb, o2, x2, y2);
    lemma_open_side_keeps(ChunkSide::Left, ob, cb, o3, x2, y2);
    lemma_open_side_keeps(ChunkSide::Right, cb, ob, c3, x, y);
}

/// Linking keeps the number of slots of every chunk and every interior tile.
proof fn lemma_link_prefix_keeps(
    cb: TileAlignedBoundingBox,
    c_cells: Seq<u8>,
    chunks: Seq<MapChunk>,
    n: nat,
    x: int,
    y: int,
)
    requires
        n <= chunks.len(),
        c_cells.len() >= cb.width * cb.height,
        cb.width >= 1,
        cb.height >= 1,
        forall|i: int|
            0 <= i < chunks.len() ==> (#[trigger] chunks[i]).cells().len() >= chunks[i].bound.width
                * chunks[i].bound.height && chunks[i].bound.width >= 1 && chunks[i].bound.height >= 1,
    ensures
        link_prefix(cb, c_cells, chunks, n).0.len() == c_cells.len(),
        link_prefix(cb, c_cells, chunks, n).1.len() == chunks.len(),
        interior_cell(cb, x, y) ==> link_prefix(cb, c_cells, chunks, n).0[y * cb.width + x] == c_cells[y
            * cb.width + x],
        forall|i: int|
            0 <= i < chunks.len() ==> (#[trigger] link_prefix(cb, c_cells, chunks, n).1[i]).len()
                == chunks[i].cells().len(),
        forall|i: int|
            0 <= i < chunks.len() && interior_cell(chunks[i].bound, x, y) ==> (#[trigger] link_prefix(
                cb,
                c_cells,
                chunks,
                n,
            ).1[i])[y * chunks[i].bound.width + x] == chunks[i].cells()[y * chunks[i].bound.width + x],
    decreases n,
{
    if n > 0 {
        lemma_link_prefix_keeps(cb, c_cells, chunks, (n - 1) as nat, x, y);
        let prev = link_prefix(cb, c_cells, chunks, (n - 1) as nat);
        let ob = chunks[n - 1].bound;
        assert(prev.1[n - 1].len() == chunks[n - 1].cells().len());
        lemma_fuse_pair_keeps(cb, ob, prev.0, prev.1[n - 1], x, y, x, y);
    }
}

/// A well-formed chunk has a slot for each of its tiles.
proof fn lemma_wf_cells_len(c: MapChunk)
    requires
        c.wf(),
    ensures
        c.cells().len() >= c.bound.width * c.bound.height,
{
}

/// Linking a new chunk `chunk` to the chunks of a map rewrites wall tiles
/// only: every tile inside the walls of the new chunk, and of each chunk of
/// the map, is left as it was (`x`, `y` being a column and a row).
pub proof fn law_link_keeps_interiors(chunk: MapChunk, chunks: Seq<MapChunk>, j: int, x: int, y: int)
    requires
        chunk.wf(),
        forall|i: int| 0 <= i < chunks.len() ==> (#[trigger] chunks[i]).wf(),
    ensures
        interior_cell(chunk.bound, x, y) ==> link_prefix(chunk.bound, chunk.cells(), chunks, chunks.len()).0[y
            * chunk.bound.width + x] == chunk.cells()[y * chunk.bound.width + x],
        0 <= j < chunks.len() && interior_cell(chunks[j].bound, x, y) ==> link_prefix(
            chunk.bound,
            chunk.cells(),
            chunks,
            chunks.len(),
        ).1[j][y * chunks[j].bound.width + x] == chunks[j].cells()[y * chunks[j].bound.width + x],
{
    lemma_wf_cells_len(chunk);
    assert forall|i: int| 0 <= i < chunks.len() implies (#[trigger] chunks[i]).cells().len()
        >= chunks[i].bound.width * chunks[i].bound.height && chunks[i].bound.width >= 1
        && chunks[i].bound.height >= 1 by {
        lemma_wf_cells_len(chunks[i]);
    }
    lemma_link_prefix_keeps(chunk.bound, chunk.cells(), chunks, chunks.len(), x, y);
}

/// A chunk that linking can work on.
pub open spec fn linkable(c: &MapChunk) -> bool {
    c.wf() && bound_fits(c.bound)
}


/// Opens the top wall of `chunk` and the bottom wall of `other` where `other`
/// lies right on top of `chunk`: along their shared columns, the tiles become
/// empty, except solid blocks at the ends of either wall.
fn fuse_horizontal(chunk: &mut MapChunk, other: &mut MapChunk)
    requires
        linkable(old(chunk)),
        linkable(old(other)),
    ensures
        final(chunk).bound == old(chunk).bound,
        final(other).bound == old(other).bound,
        final(chunk).tiles@.len() == old(chunk).tiles@.len(),
        final(other).tiles@.len() == old(other).tiles@.len(),
        final(chunk).cells() == open_side(ChunkSide::Top, old(chunk).bound, old(other).bound, old(chunk).cells()),
        final(other).cells() == open_side(ChunkSide::Bottom, old(other).bound, old(chunk).bound, old(other).cells()),
{
    let ghost cb = chunk.bound;
    let ghost ob = other.bound;
    let ghost c_cells = chunk.cells();
    let ghost o_cells = other.cells();
    if other.bound.y + other.bound.height as i32 == chunk.bound.y && other.bound.x
        + other.bound.width as i32 > chunk.bound.x && other.bound.x < chunk.bound.x
        + chunk.bound.width as i32 {
        let min_x: i32 = if chunk.bound.x >= other.bound.x {
            chunk.bound.x
        } else {
            other.bound.x
        };
        let c_end: i32 = chunk.bound.x + chunk.bound.width as i32;
        let o_end: i32 = other.bound.x + other.bound.width as i32;
        let max_x: i32 = if c_end <= o_end {
            c_end
        } else {
            o_end
        };
        let mut absolute_coord_x: i32 = min_x;
        while absolute_coord_x < max_x
            invariant
                linkable(chunk),
                linkable(other),
                chunk.bound == cb,
                other.bound == ob,
                chunk.tiles@.len() == old(chunk).tiles@.len(),
                other.tiles@.len() == old(other).tiles@.len(),
                min_x == side_lo(ChunkSide::Top, cb, ob),
                min_x == side_lo(ChunkSide::Bottom, ob, cb),
                max_x == side_hi(ChunkSide::Top, cb, ob),
                max_x == side_hi(ChunkSide::Bottom, ob, cb),
                min_x <= absolute_coord_x <= max_x,
                chunk.cells() == rewrite_side(c_cells, ChunkSide::Top, cb, ob, min_x as int, absolute_coord_x as int),
                other.cells() == rewrite_side(o_cells, ChunkSide::Bottom, ob, cb, min_x as int, absolute_coord_x as int),
            decreases max_x - absolute_coord_x,
        {
            let ghost before_c = chunk.cells();
            let ghost before_o = other.cells();
            let rel_chunk_x: i32 = absolute_coord_x - chunk.bound.x;
            let rel_other_chunk_x: i32 = absolute_coord_x - other.bound.x;
            let ghost ci = side_index(ChunkSide::Top, cb, absolute_coord_x as int);
            let ghost oi = side_index(ChunkSide::Bottom, ob, absolute_coord_x as int);
            proof {
                assert(0 <= rel_chunk_x < chunk.bound.width);
                assert(0 <= rel_other_chunk_x < other.bound.width);
                assert(0 * chunk.bound.width == 0) by (nonlinear_arith);
                chunk.lemma_cell_index(rel_chunk_x as int, 0, 0, 0);
                other.lemma_cell_index(rel_other_chunk_x as int, other.bound.height - 1, 0, 0);
            }
            assert(chunk.cell_index(rel_chunk_x as int, 0) == ci);
            assert(other.cell_index(rel_other_chunk_x as int, other.bound.height - 1) == oi);
            if rel_chunk_x > 0 && rel_chunk_x < chunk.bound.width as i32 - 1 {
                chunk.set_tile(rel_chunk_x as usize, 0 as usize, 0);
            }
            if rel_other_chunk_x > 0 && rel_other_chunk_x < other.bound.width as i32 - 1 {
                other.set_tile(
                    rel_other_chunk_x as usize,
                    other.bound.height as usize - 1,
                    0,
                )
            }
            if rel_other_chunk_x == 0 || rel_other_chunk_x == other.bound.width as i32 - 1
                || rel_chunk_x == 0 || rel_chunk_x == chunk.bound.width as i32 - 1 {
                chunk.set_tile(rel_chunk_x as usize, 0 as usize, 9);
                other.set_tile(rel_other_chunk_x as usize, other.bound.height as usize - 1, 9)
            }
            assert(9u8 & 0x0f == 9u8) by (bit_vector);
            assert(0u8 & 0x0f == 0u8) by (bit_vector);
            let ghost v = opening_tile(ChunkSide::Top, cb, ob, absolute_coord_x as int);
            assert(v == opening_tile(ChunkSide::Bottom, ob, cb, absolute_coord_x as int));
            assert(chunk.cells() =~= before_c.update(ci, v));
            assert(other.cells() =~= before_o.update(oi, v));
            absolute_coord_x = absolute_coord_x + 1;
        }
    }
}


/// Opens the left wall of `chunk` and the right wall of `other` where `other`
/// lies right beside `chunk` on its left: along their shared rows, the tiles
/// become empty, except solid blocks at the ends of either wall.
fn fuse_vertical(chunk: &mut MapChunk, other: &mut MapChunk)
    requires
        linkable(old(chunk)),
        linkable(old(other)),
    ensures
        final(chunk).bound == old(chunk).bound,
        final(other).bound == old(other).bound,
        final(chunk).tiles@.len() == old(chunk).tiles@.len(),
        final(other).tiles@.len() == old(other).tiles@.len(),
        final(chunk).cells() == open_side(ChunkSide::Left, old(chunk).bound, old(other).bound, old(chunk).cells()),
        final(other).cells() == open_side(ChunkSide::Right, old(other).bound, old(chunk).bound, old(other).cells()),
{
    let ghost cb = chunk.bound;
    let ghost ob = other.bound;
    let ghost c_cells = chunk.cells();
    let ghost o_cells = other.cells();
    if other.bound.x + other.bound.width as i32 == chunk.bound.x && other.bound.y
        + other.bound.height as i32 > chunk.bound.y && other.bound.y < chunk.bound.y
        + chunk.bound.height as i32 {
        let min_y: i32 = if chunk.bound.y >= other.bound.y {
            chunk.bound.y
        } else {
            other.bound.y
        };
        let c_end: i32 = chunk.bound.y + chunk.bound.height as i32;
        let o_end: i32 = other.bound.y + other.bound.height as i32;
        let max_y: i32 = if c_end <= o_end {
            c_end
        } else {
            o_end
        };
        let mut absolute_coord_y: i32 = min_y;
        while absolute_coord_y < max_y
            invariant
                linkable(chunk),
                linkable(other),
                chunk.bound == cb,
                other.bound == ob,
                chunk.tiles@.len() == old(chunk).tiles@.len(),
                other.tiles@.len() == old(other).tiles@.len(),
                min_y == side_lo(ChunkSide::Left, cb, ob),
                min_y == side_lo(ChunkSide::Right, ob, cb),
                max_y == side_hi(ChunkSide::Left, cb, ob),
                max_y == side_hi(ChunkSide::Right, ob, cb),
                min_y <= absolute_coord_y <= max_y,
                chunk.cells() == rewrite_side(c_cells, ChunkSide::Left, cb, ob, min_y as int, absolute_coord_y as int),
                other.cells() == rewrite_side(o_cells, ChunkSide::Right, ob, cb, min_y as int, absolute_coord_y as int),
            decreases max_y - absolute_coord_y,
        {
            let ghost before_c = chunk.cells();
            let ghost before_o = other.cells();
            let rel_chunk_y: i32 = absolute_coord_y - chunk.bound.y;
            let rel_other_chunk_y: i32 = absolute_coord_y - other.bound.y;
            let ghost ci = side_index(ChunkSide::Left, cb, absolute_coord_y as int);
            let ghost oi = side_index(ChunkSide::Right, ob, absolute_coord_y as int);
            proof {
                assert(0 <= rel_chunk_y < chunk.bound.height);
                assert(0 <= rel_other_chunk_y < other.bound.height);
                chunk.lemma_cell_index(0, rel_chunk_y as int, 0, 0);
                other.lemma_cell_index(other.bound.width - 1, rel_other_chunk_y as int, 0, 0);
            }
            assert(chunk.cell_index(0, rel_chunk_y as int) == ci);
            assert(other.cell_index(other.bound.width - 1, rel_other_chunk_y as int) == oi);
            if rel_chunk_y > 0 && rel_chunk_y < chunk.bound.height as i32 - 1 {
                chunk.set_tile(0, rel_chunk_y as usize, 0);
            }
            if rel_other_chunk_y > 0 && rel_other_chunk_y < other.bound.height as i32 - 1 {
                other.set_tile(other.bound.width as usize - 1, rel_other_chunk_y as usize, 0)
            }
            if rel_other_chunk_y == 0 || rel_other_chunk_y == other.bound.height as i32 - 1
                || rel_chunk_y == 0 || rel_chunk_y == chunk.bound.height as i32 - 1 {
                chunk.set_tile(0, rel_chunk_y as usize, 9);
                other.set_tile(other.bound.width as usize - 1, rel_other_chunk_y as usize, 9)
            }
            assert(9u8 & 0x0f == 9u8) by (bit_vector);
            assert(0u8 & 0x0f == 0u8) by (bit_vector);
            let ghost v = opening_tile(ChunkSide::Left, cb, ob, absolute_coord_y as int);
            assert(v == opening_tile(ChunkSide::Right, ob, cb, absolute_coord_y as int));
            assert(chunk.cells() =~= before_c.update(ci, v));
            assert(other.cells() =~= before_o.update(oi, v));
            absolute_coord_y = absolute_coord_y + 1;
        }
    }
}


/// `after` and `after_chunk` are the chunks `chunks` of a map and a new
/// chunk `chunk` after linking the new chunk to every chunk of the map: the
/// bounds and storage sizes are kept, and the tile slots are those that
/// `link_prefix` gives.
pub open spec fn linked_result(chunks: Seq<MapChunk>, chunk: MapChunk, after: Seq<MapChunk>, after_chunk: MapChunk) -> bool {
    let l = link_prefix(chunk.bound, chunk.cells(), chunks, chunks.len());
    &&& after.len() == chunks.len()
    &&& after_chunk.bound == chunk.bound
    &&& after_chunk.tiles@.len() == chunk.tiles@.len()
    &&& after_chunk.cells() == l.0
    &&& forall|i: int|
        0 <= i < chunks.len() ==> (#[trigger] after[i]).bound == chunks[i].bound && after[i].tiles@.len()
            == chunks[i].tiles@.len() && after[i].cells() == l.1[i]
}

/// What linking `chunk` into the map `before` gives: the map `after` (its
/// tile count unchanged) and the chunk `after_chunk`.
pub open spec fn link_post(before: GameMap, chunk: MapChunk, after: GameMap, after_chunk: MapChunk) -> bool {
    &&& after.num_tiles == before.num_tiles
    &&& linked_result(before.chunks@, chunk, after.chunks@, after_chunk)
}

/// What adding `chunk` to the map `before` gives: the map `after`, with its
/// tile count unchanged and one chunk more: the map's chunks as linking
/// leaves them, then the new chunk as linking leaves it.
pub open spec fn add_post(before: GameMap, chunk: MapChunk, after: GameMap) -> bool {
    &&& after.num_tiles == before.num_tiles
    &&& after.chunks@.len() == before.chunks@.len() + 1
    &&& linked_result(before.chunks@, chunk, after.chunks@.drop_last(), after.chunks@.last())
}

/// Tile slots determine the bytes that pack them.
pub proof fn lemma_cells_determine_tiles(a: MapChunk, b: MapChunk)
    requires
        a.tiles@.len() == b.tiles@.len(),
        a.cells() == b.cells(),
    ensures
        a.tiles@ == b.tiles@,
{
    assert forall|k: int| 0 <= k < a.tiles@.len() implies a.tiles@[k] == b.tiles@[k] by {
        let x: u8 = a.tiles@[k];
        let y: u8 = b.tiles@[k];
        assert((2 * k) / 2 == k && (2 * k + 1) / 2 == k && (2 * k) % 2 == 0 && (2 * k + 1) % 2 == 1);
        assert(a.cells()[2 * k] == nibble(a.tiles@, 2 * k));
        assert(b.cells()[2 * k] == nibble(b.tiles@, 2 * k));
        assert(a.cells()[2 * k + 1] == nibble(a.tiles@, 2 * k + 1));
        assert(b.cells()[2 * k + 1] == nibble(b.tiles@, 2 * k + 1));
        assert(x & 0x0f == y & 0x0f);
        assert((x >> 4u8) & 0x0f == (y >> 4u8) & 0x0f);
        assert(x == y) by (bit_vector)
            requires
                x & 0x0f == y & 0x0f,
                (x >> 4u8) & 0x0f == (y >> 4u8) & 0x0f,
        ;
    }
    assert(a.tiles@ =~= b.tiles@);
}

/// Adding a chunk to a map is linking it to the map's chunks and then
/// appending it: for `linked` and `linked_chunk` as linking `chunk` into
/// `before` leaves them, the map after adding `chunk` to `before` keeps the
/// tile count and holds exactly the chunks of `linked`, then `linked_chunk`,
/// with the same bounds and the same tile bytes.
pub proof fn law_add_is_link_then_push(
    before: GameMap,
    chunk: MapChunk,
    linked: GameMap,
    linked_chunk: MapChunk,
    added: GameMap,
)
    requires
        link_post(before, chunk, linked, linked_chunk),
        add_post(before, chunk, added),
    ensures
        added.num_tiles == linked.num_tiles,
        added.chunks@.len() == linked.chunks@.len() + 1,
        forall|i: int|
            0 <= i < linked.chunks@.len() ==> (#[trigger] added.chunks@[i]).bound == linked.chunks@[i].bound
                && added.chunks@[i].tiles@ == linked.chunks@[i].tiles@,
        added.chunks@.last().bound == linked_chunk.bound,
        added.chunks@.last().tiles@ == linked_chunk.tiles@,
{
    let n = before.chunks@.len();
    assert forall|i: int| 0 <= i < linked.chunks@.len() implies (#[trigger] added.chunks@[i]).bound
        == linked.chunks@[i].bound && added.chunks@[i].tiles@ == linked.chunks@[i].tiles@ by {
        assert(added.chunks@.drop_last()[i] == added.chunks@[i]);
        lemma_cells_determine_tiles(added.chunks@[i], linked.chunks@[i]);
    }
    lemma_cells_determine_tiles(added.chunks@.last(), linked_chunk);
}

impl GameMap {
    /// Whether a chunk of `width` by `height` tiles would keep the map within
    /// its tile budget. The map itself is left unchanged.
    pub fn try_fit_chunk_into(&mut self, width: usize, height: usize) -> (r: bool)
        requires
            width * height <= usize::MAX,
            old(self).num_tiles + width * height <= usize::MAX,
        ensures
            *final(self) == *old(self),
            r == (old(self).num_tiles + width * height <= MAX_N_TILES_IN_WHOLE_MAP),
    {
        let new_tile_size = width * height;
        let new_prospective_size = self.num_tiles + new_tile_size;
        if new_prospective_size <= MAX_N_TILES_IN_WHOLE_MAP {
            return true;
        }
        false
    }

    /// Links `chunk` to every chunk of the map in turn: between the two,
    /// each wall that touches the other is opened along the shared part
    /// (see `fuse_pair`). Sizes and positions of all chunks are unchanged.
    pub fn link_chunk_to_touching_chunks(&mut self, chunk: &mut MapChunk)
        requires
            linkable(old(chunk)),
            forall|i: int| 0 <= i < old(self).chunks@.len() ==> linkable(#[trigger] &old(self).chunks@[i]),
        ensures
            link_post(*old(self), *old(chunk), *final(self), *final(chunk)),
            final(self).chunks@.len() == old(self).chunks@.len(),
            final(chunk).bound == old(chunk).bound,
            final(chunk).tiles@.len() == old(chunk).tiles@.len(),
            forall|i: int|
                0 <= i < final(self).chunks@.len() ==> (#[trigger] final(self).chunks@[i]).bound
                    == old(self).chunks@[i].bound && final(self).chunks@[i].tiles@.len()
                    == old(self).chunks@[i].tiles@.len(),
    {
        let ghost cb = chunk.bound;
        let ghost c_cells = chunk.cells();
        let ghost chunks0 = self.chunks@;
        let n = self.chunks.len();
        let mut i: usize = 0;
        while i < n
            invariant
                n == self.chunks@.len(),
                n == chunks0.len(),
                0 <= i <= n,
                self.num_tiles == old(self).num_tiles,
                chunk.bound == cb,
                chunk.tiles@.len() == old(chunk).tiles@.len(),
                linkable(chunk),
                forall|j: int|
                    0 <= j < n ==> (#[trigger] self.chunks@[j]).bound == chunks0[j].bound
                        && self.chunks@[j].tiles@.len() == chunks0[j].tiles@.len() && linkable(
                        &self.chunks@[j],
                    ),
                chunk.cells() == link_prefix(cb, c_cells, chunks0, i as nat).0,
                forall|j: int|
                    0 <= j < n ==> (#[trigger] self.chunks@[j]).cells() == link_prefix(
                        cb,
                        c_cells,
                        chunks0,
                        i as nat,
                    ).1[j],
            decreases n - i,
        {
            let ghost prev = link_prefix(cb, c_cells, chunks0, i as nat);
            proof {
                lemma_link_prefix_len(cb, c_cells, chunks0, i as nat);
                lemma_link_prefix_len(cb, c_cells, chunks0, (i + 1) as nat);
            }
            let ghost ob = self.chunks@[i as int].bound;
            fuse_horizontal(chunk, &mut self.chunks[i]);
            fuse_horizontal(&mut self.chunks[i], chunk);
            fuse_vertical(chunk, &mut self.chunks[i]);
            fuse_vertical(&mut self.chunks[i], chunk);
            assert(link_prefix(cb, c_cells, chunks0, (i + 1) as nat) == {
                let fused = fuse_pair(cb, chunks0[i as int].bound, prev.0, prev.1[i as int]);
                (fused.0, prev.1.update(i as int, fused.1))
            });
            i = i + 1;
        }
    }

    /// Links `chunk` to the map's chunks, then appends it.
    pub fn add_chunk(&mut self, chunk: MapChunk)
        requires
            linkable(&chunk),
            forall|i: int| 0 <= i < old(self).chunks@.len() ==> linkable(#[trigger] &old(self).chunks@[i]),
        ensures
            add_post(*old(self), chunk, *final(self)),
            forall|i: int|
                0 <= i < final(self).chunks@.len() ==> linkable(#[trigger] &final(self).chunks@[i]),
            forall|i: int|
                0 <= i < old(self).chunks@.len() ==> (#[trigger] final(self).chunks@[i]).bound
                    == old(self).chunks@[i].bound && final(self).chunks@[i].tiles@.len()
                    == old(self).chunks@[i].tiles@.len() && final(self).chunks@[i].cells() == link_prefix(
                    chunk.bound,
                    chunk.cells(),
                    old(self).chunks@,
                    old(self).chunks@.len(),
                ).1[i],
            final(self).chunks@.last().bound == chunk.bound,
            final(self).chunks@.last().tiles@.len() == chunk.tiles@.len(),
            final(self).chunks@.last().cells() == link_prefix(
                chunk.bound,
                chunk.cells(),
                old(self).chunks@,
                old(self).chunks@.len(),
            ).0,
    {
        let ghost before = *self;
        let mut chunk = chunk;
        let ghost c0 = chunk;
        self.link_chunk_to_touching_chunks(&mut chunk);
        let ghost linked = self.chunks@;
        self.chunks.push(chunk);
        proof {
            assert(self.chunks@.drop_last() =~= linked);
            assert(self.chunks@.last() == chunk);
        }
    }

    /// An empty map.
    pub fn create_map() -> (map: GameMap)
        ensures
            map.chunks@.len() == 0,
            map.num_tiles == 0,
    {
        let chunks: Vec<MapChunk> = Vec::new();
        let map = GameMap { chunks: chunks, num_tiles: 0 };
        map
    }
}

} // verus!
