//! Collision checks between rectangles, and ray casts against the tiles of a chunk.
use vstd::prelude::*;
use crate::game_constants::{TILE_HEIGHT_PX, TILE_WIDTH_PX};
use crate::mapchunk::{MapChunk, TileAlignedBoundingBox};
use crate::entities::{
    spec_state_after_ceiling_hit, spec_state_after_wall_hit, state_after_ceiling_hit,
    state_after_wall_hit, KittyStates,
};
use crate::game_map::GameMap;

verus! {

/// A rectangle in pixel coordinates: its corner and its size.
#[derive(Clone)]
pub struct AbsoluteBoundingBox<P, W> {
    pub x: P,
    pub y: P,
    pub width: W,
    pub height: W,
}

/// The pixel edges of a tile-aligned rectangle fit in `i32`, with the sizes
/// taken as `i32`.
pub open spec fn tile_bound_pixels_fit(bound: &TileAlignedBoundingBox) -> bool {
    &&& i32::MIN <= bound.x * 5 <= i32::MAX
    &&& i32::MIN <= (bound.width as i32) * 5 <= i32::MAX
    &&& i32::MIN <= bound.x * 5 + (bound.width as i32) * 5 <= i32::MAX
    &&& i32::MIN <= bound.y * 5 <= i32::MAX
    &&& i32::MIN <= (bound.height as i32) * 5 <= i32::MAX
    &&& i32::MIN <= bound.y * 5 + (bound.height as i32) * 5 <= i32::MAX
}

/// Whether pixel `(x, y)` lies strictly inside the pixel rectangle of `bound`.
pub open spec fn spec_point_inside(x: int, y: int, bound: &TileAlignedBoundingBox) -> bool {
    let left = bound.x * 5;
    let right = left + (bound.width as i32) * 5;
    let lower = bound.y * 5;
    let upper = lower + (bound.height as i32) * 5;
    left < x < right && lower < y < upper
}

/// Whether pixel `(x, y)` lies strictly inside the pixel rectangle of the
/// tile-aligned `bound`.
pub fn check_absolute_point_inside_tile_aligned_bound(
    x: i32,
    y: i32,
    bound: &TileAlignedBoundingBox,
) -> (r: bool)
    requires
        tile_bound_pixels_fit(bound),
    ensures
        r == spec_point_inside(x as int, y as int, bound),
{
    let bound_absolute_left_x: i32 = bound.x * TILE_WIDTH_PX as i32;
    let bound_absolute_right_x: i32 = bound_absolute_left_x + bound.width as i32
        * TILE_WIDTH_PX as i32;
    let bound_absolute_lower_y: i32 = bound.y * TILE_HEIGHT_PX as i32;
    let bound_absolute_upper_y: i32 = bound_absolute_lower_y + bound.height as i32
        * TILE_HEIGHT_PX as i32;

    if x > bound_absolute_left_x {
        if x < bound_absolute_right_x {
            if y > bound_absolute_lower_y {
                if y < bound_absolute_upper_y {
                    return true;
                }
            }
        }
    }
    false
}

/// The far corners of a pixel rectangle fit in `i32`.
pub open spec fn abs_bound_corners_fit(b: &AbsoluteBoundingBox<i32, u32>) -> bool {
    &&& b.x + (b.width as i32) <= i32::MAX
    &&& b.x + (b.width as i32) >= i32::MIN
    &&& b.y + (b.height as i32) <= i32::MAX
    &&& b.y + (b.height as i32) >= i32::MIN
}

/// Whether at least one corner of `b` lies strictly inside `bound`.
pub open spec fn spec_corner_inside(b: &AbsoluteBoundingBox<i32, u32>, bound: &TileAlignedBoundingBox) -> bool {
    let right = b.x + (b.width as i32);
    let upper = b.y + (b.height as i32);
    ||| spec_point_inside(b.x as int, b.y as int, bound)
    ||| spec_point_inside(right, b.y as int, bound)
    ||| spec_point_inside(b.x as int, upper, bound)
    ||| spec_point_inside(right, upper, bound)
}

/// Whether a corner of the pixel rectangle lies strictly inside the tile-aligned one.
pub fn check_absolue_bound_partially_inside_tile_aligned_bound(
    absolute_bound: &AbsoluteBoundingBox<i32, u32>,
    tile_aligned_bound: &TileAlignedBoundingBox,
) -> (r: bool)
    requires
        abs_bound_corners_fit(absolute_bound),
        tile_bound_pixels_fit(tile_aligned_bound),
    ensures
        r == spec_corner_inside(absolute_bound, tile_aligned_bound),
{
    let lowerleft = (absolute_bound.x, absolute_bound.y);
    let lowerright = (absolute_bound.x + absolute_bound.width as i32, absolute_bound.y);
    let upperleft = (absolute_bound.x, absolute_bound.y + absolute_bound.height as i32);
    let upperright = (
        absolute_bound.x + absolute_bound.width as i32,
        absolute_bound.y + absolute_bound.height as i32,
    );
    if !check_absolute_point_inside_tile_aligned_bound(lowerleft.0, lowerleft.1, tile_aligned_bound) {
        if !check_absolute_point_inside_tile_aligned_bound(
            lowerright.0,
            lowerright.1,
            tile_aligned_bound,
        ) {
            if !check_absolute_point_inside_tile_aligned_bound(
                upperleft.0,
                upperleft.1,
                tile_aligned_bound,
            ) {
                if !check_absolute_point_inside_tile_aligned_bound(
                    upperright.0,
                    upperright.1,
                    tile_aligned_bound,
                ) {
                    return false;
                }
            }
        }
    }
    true
}

/// Whether two pixel rectangles overlap (sharing an edge is no overlap).
pub open spec fn spec_boxes_overlap(b: &AbsoluteBoundingBox<i32, u32>, o: &AbsoluteBoundingBox<i32, u32>) -> bool {
    &&& b.x + (b.width as i32) > o.x
    &&& b.x < o.x + (o.width as i32)
    &&& b.y + (b.height as i32) > o.y
    &&& b.y < o.y + (o.height as i32)
}

/// Whether two pixel rectangles overlap.
pub fn check_absolute_bounding_box_partially_inside_another(
    bound: &AbsoluteBoundingBox<i32, u32>,
    other: &AbsoluteBoundingBox<i32, u32>,
) -> (r: bool)
    requires
        abs_bound_corners_fit(bound),
        abs_bound_corners_fit(other),
    ensures
        r == spec_boxes_overlap(bound, other),
{
    bound.x + bound.width as i32 > other.x && bound.x < other.x + other.width as i32 && bound.y
        + bound.height as i32 > other.y && bound.y < other.y + other.height as i32
}


/// The outcome of a ray cast: how far the caller may move along the ray,
/// whether the ray ended on a solid tile, and whether it started inside one
/// and had to back out.
pub struct CollisionResult {
    pub allowable_displacement: i32,
    pub collided: bool,
    pub backed_up: bool,
}

/// The point that a ray cast examines at signed step `u` from its start: a
/// horizontal ray runs one pixel above `start`, a vertical one through it.
pub open spec fn ray_point(horizontal: bool, positive: bool, start: (i32, i32), u: int) -> (int, int) {
    let d: int = if positive { u } else { -u };
    if horizontal {
        (start.0 + d, start.1 - 1)
    } else {
        (start.0 as int, start.1 + d)
    }
}

/// The tile under the point at step `u` of a ray, `None` outside the chunk.
pub open spec fn ray_status(chunk: &MapChunk, horizontal: bool, positive: bool, start: (i32, i32), u: int) -> Option<u8> {
    let p = ray_point(horizontal, positive, start, u);
    chunk.tile_at_abs(p.0, p.1)
}

/// A solid tile: one that is present and not empty.
pub open spec fn is_solid(s: Option<u8>) -> bool {
    s matches Some(t) && t != 0
}

pub open spec fn spec_abs(v: int) -> int {
    if v < 0 { -v } else { v }
}

/// What a ray cast gives back. If the start is outside the chunk, the whole
/// displacement is allowed. If the start is on a solid tile, the ray backs
/// out step by step; at the first non-solid point it stops, with no collision
/// and the whole displacement allowed if that point is outside the chunk, and
/// with a collision and displacement zero if it is an empty tile. Otherwise
/// the ray goes forward step by step; at the first point that is outside the
/// chunk, solid, or more than `|displacement|` steps away, it stops, with a
/// collision and displacement zero on a solid tile, and with no collision and
/// the whole displacement allowed in the other cases.
pub open spec fn raycast_spec(
    chunk: &MapChunk,
    horizontal: bool,
    positive: bool,
    start: (i32, i32),
    disp: i32,
    r: CollisionResult,
) -> bool {
    let free = CollisionResult { allowable_displacement: disp, collided: false, backed_up: false };
    if ray_status(chunk, horizontal, positive, start, 0) is None {
        r == free
    } else if is_solid(ray_status(chunk, horizontal, positive, start, 0)) {
        exists|k: int|
            #![trigger ray_status(chunk, horizontal, positive, start, -k)]
            {
                &&& k >= 1
                &&& forall|i: int|
                    1 <= i < k ==> #[trigger] is_solid(ray_status(chunk, horizontal, positive, start, -i))
                &&& !is_solid(ray_status(chunk, horizontal, positive, start, -k))
                &&& r == if ray_status(chunk, horizontal, positive, start, -k) is None {
                    CollisionResult { allowable_displacement: disp, collided: false, backed_up: true }
                } else {
                    CollisionResult { allowable_displacement: 0, collided: true, backed_up: true }
                }
            }
    } else {
        exists|k: int|
            #![trigger ray_status(chunk, horizontal, positive, start, k)]
            {
                &&& k >= 1
                &&& forall|i: int|
                    1 <= i < k ==> #[trigger] ray_status(chunk, horizontal, positive, start, i) == Some(0u8) && i
                        <= spec_abs(disp as int)
                &&& (ray_status(chunk, horizontal, positive, start, k) != Some(0u8) || k > spec_abs(disp as int))
                &&& r == if is_solid(ray_status(chunk, horizontal, positive, start, k)) {
                    CollisionResult { allowable_displacement: 0, collided: true, backed_up: false }
                } else {
                    free
                }
            }
    }
}

/// The ray's first point is within the `i32` range of the chunk's arithmetic,
/// the chunk's pixel rectangle fits, and the displacement's magnitude is taken
/// only where it fits in `i32`.
pub open spec fn raycast_fits(
    chunk: &MapChunk,
    horizontal: bool,
    positive: bool,
    start: (i32, i32),
    disp: i32,
) -> bool {
    let p = ray_point(horizontal, positive, start, 0);
    &&& chunk.pixel_region_fits()
    &&& i32::MIN <= p.1
    &&& chunk.abs_point_fits(p.0, p.1)
    &&& disp == i32::MIN ==> ray_status(chunk, horizontal, positive, start, 0) != Some(0u8)
}

/// A pixel within two tiles of the chunk's pixel rectangle.
pub open spec fn near_region(chunk: &MapChunk, ax: int, ay: int) -> bool {
    &&& chunk.bound.x * 5 - 10 <= ax <= (chunk.bound.x + chunk.bound.width) * 5 + 10
    &&& chunk.bound.y * 5 - 10 <= ay <= (chunk.bound.y + chunk.bound.height) * 5 + 10
}

/// Looks up the tile under the point at step `u` of a ray whose point lies
/// near the chunk.
fn ray_probe(
    chunk: &MapChunk,
    horizontal: bool,
    positive: bool,
    abs_start_pt: (i32, i32),
    u: i32,
) -> (r: Result<u8, crate::mapchunk::OutOfChunkBound>)
    requires
        chunk.wf(),
        chunk.pixel_region_fits(),
        i32::MIN <= abs_start_pt.1 - 1,
        i32::MIN < u,
        near_region(
            chunk,
            ray_point(horizontal, positive, abs_start_pt, u as int).0,
            ray_point(horizontal, positive, abs_start_pt, u as int).1,
        ),
    ensures
        match r {
            Ok(t) => ray_status(chunk, horizontal, positive, abs_start_pt, u as int) == Some(t),
            Err(_) => ray_status(chunk, horizontal, positive, abs_start_pt, u as int) is None,
        },
{
    let ray: i32 = if positive { u } else { -u };
    let px: i32 = if horizontal { abs_start_pt.0 + ray } else { abs_start_pt.0 };
    let py: i32 = if horizontal { abs_start_pt.1 - 1 } else { abs_start_pt.1 + ray };
    proof {
        chunk.lemma_wf_stores_every_tile();
    }
    chunk.get_tile_abs(px, py)
}

/// Casts a ray from `abs_start_pt` along one axis, in the positive or negative
/// direction, for `ray_displacement` pixels, against the tiles of `chunk`.
pub fn raycast_axis_aligned(
    horizontal: bool,
    positive: bool,
    abs_start_pt: (i32, i32),
    ray_displacement: i32,
    chunk: &MapChunk,
) -> (r: CollisionResult)
    requires
        chunk.wf(),
        raycast_fits(chunk, horizontal, positive, abs_start_pt, ray_displacement),
    ensures
        raycast_spec(chunk, horizontal, positive, abs_start_pt, ray_displacement, r),
{
    let start_pt: (i32, i32) = if horizontal {
        (abs_start_pt.0, abs_start_pt.1 - 1)
    } else {
        (abs_start_pt.0, abs_start_pt.1)
    };
    let free = CollisionResult {
        allowable_displacement: ray_displacement,
        collided: false,
        backed_up: false,
    };
    proof {
        chunk.lemma_wf_stores_every_tile();
    }
    let first = chunk.get_tile_abs(start_pt.0, start_pt.1);
    let first_tile: u8 = match first {
        Err(_) => {
            return free;
        },
        Ok(tile) => tile,
    };
    proof {
        let p0 = ray_point(horizontal, positive, abs_start_pt, 0);
        chunk.lemma_tile_at_abs_in_region(p0.0, p0.1);
    }
    if first_tile != 0 {
        // Started on a solid tile: back out until a non-solid point.
        let mut k: i32 = 1;
        loop
            invariant
                chunk.wf(),
                raycast_fits(chunk, horizontal, positive, abs_start_pt, ray_displacement),
                is_solid(ray_status(chunk, horizontal, positive, abs_start_pt, 0)),
                1 <= k,
                forall|i: int|
                    0 <= i < k ==> #[trigger] is_solid(
                        ray_status(chunk, horizontal, positive, abs_start_pt, -i),
                    ),
                near_region(
                    chunk,
                    ray_point(horizontal, positive, abs_start_pt, -k).0,
                    ray_point(horizontal, positive, abs_start_pt, -k).1,
                ),
                k <= (if horizontal { chunk.bound.width * 5 } else { chunk.bound.height * 5 }) + 5,
                chunk.bound.x * 5 - 5 < ray_point(horizontal, positive, abs_start_pt, 0).0 < (chunk.bound.x + chunk.bound.width) * 5,
                chunk.bound.y * 5 - 5 < ray_point(horizontal, positive, abs_start_pt, 0).1 < (chunk.bound.y + chunk.bound.height) * 5,
            decreases
                (if horizontal { (chunk.bound.width * 5) } else { (chunk.bound.height * 5) }) + 6 - k,
        {
            let status = ray_probe(chunk, horizontal, positive, abs_start_pt, -k);
            match status {
                Err(_) => {
                    return CollisionResult {
                        allowable_displacement: ray_displacement,
                        collided: false,
                        backed_up: true,
                    };
                },
                Ok(tile) => {
                    if tile == 0 {
                        return CollisionResult {
                            allowable_displacement: 0,
                            collided: true,
                            backed_up: true,
                        };
                    }
                },
            }
            proof {
                let pp = ray_point(horizontal, positive, abs_start_pt, -k);
                chunk.lemma_tile_at_abs_in_region(pp.0, pp.1);
            }
            k = k + 1;
        }
    } else {
        // Started on an empty tile: go forward until something stops the ray.
        let d: i32 = if ray_displacement < 0 { -ray_displacement } else { ray_displacement };
        let mut k: i32 = 1;
        loop
            invariant
                chunk.wf(),
                raycast_fits(chunk, horizontal, positive, abs_start_pt, ray_displacement),
                ray_status(chunk, horizontal, positive, abs_start_pt, 0) == Some(0u8),
                d == spec_abs(ray_displacement as int),
                1 <= k <= d + 1,
                forall|i: int|
                    1 <= i < k ==> #[trigger] ray_status(chunk, horizontal, positive, abs_start_pt, i)
                        == Some(0u8) && i <= d,
                near_region(
                    chunk,
                    ray_point(horizontal, positive, abs_start_pt, k as int).0,
                    ray_point(horizontal, positive, abs_start_pt, k as int).1,
                ),
            decreases d + 1 - k,
        {
            let status = ray_probe(chunk, horizontal, positive, abs_start_pt, k);
            match status {
                Err(_) => {
                    proof {
                        let kk = k as int;
                        assert(ray_status(chunk, horizontal, positive, abs_start_pt, kk) is None);
                        assert(!is_solid(ray_status(chunk, horizontal, positive, abs_start_pt, kk)));
                        assert(forall|i: int|
                            1 <= i < kk ==> #[trigger] ray_status(chunk, horizontal, positive, abs_start_pt, i)
                                == Some(0u8) && i <= spec_abs(ray_displacement as int));
                    }
                    return CollisionResult { allowable_displacement: ray_displacement, collided: false, backed_up: false };
                },
                Ok(tile) => {
                    if tile != 0 {
                        return CollisionResult {
                            allowable_displacement: 0,
                            collided: true,
                            backed_up: false,
                        };
                    }
                },
            }
            if k > d {
                proof {
                    let kk = k as int;
                    assert(!is_solid(ray_status(chunk, horizontal, positive, abs_start_pt, kk)));
                }
                return CollisionResult { allowable_displacement: ray_displacement, collided: false, backed_up: false };
            }
            proof {
                let pp = ray_point(horizontal, positive, abs_start_pt, k as int);
                chunk.lemma_tile_at_abs_in_region(pp.0, pp.1);
            }
            k = k + 1;
        }
    }
}


/// The result of a ray cast, as `raycast_spec` pins it down.
pub open spec fn raycast_value(
    chunk: &MapChunk,
    horizontal: bool,
    positive: bool,
    start: (i32, i32),
    disp: i32,
) -> CollisionResult {
    choose|r: CollisionResult| raycast_spec(chunk, horizontal, positive, start, disp, r)
}

/// A ray cast has one result: `raycast_spec` holds of at most one value.
pub proof fn lemma_raycast_spec_unique(
    chunk: &MapChunk,
    horizontal: bool,
    positive: bool,
    start: (i32, i32),
    disp: i32,
    r1: CollisionResult,
    r2: CollisionResult,
)
    requires
        raycast_spec(chunk, horizontal, positive, start, disp, r1),
        raycast_spec(chunk, horizontal, positive, start, disp, r2),
    ensures
        r1 == r2,
{
    if ray_status(chunk, horizontal, positive, start, 0) is None {
    } else if is_solid(ray_status(chunk, horizontal, positive, start, 0)) {
        let k1 = choose|k: int|
            #![trigger ray_status(chunk, horizontal, positive, start, -k)]
            {
                &&& k >= 1
                &&& forall|i: int|
                    1 <= i < k ==> #[trigger] is_solid(ray_status(chunk, horizontal, positive, start, -i))
                &&& !is_solid(ray_status(chunk, horizontal, positive, start, -k))
                &&& r1 == if ray_status(chunk, horizontal, positive, start, -k) is None {
                    CollisionResult { allowable_displacement: disp, collided: false, backed_up: true }
                } else {
                    CollisionResult { allowable_displacement: 0, collided: true, backed_up: true }
                }
            };
        let k2 = choose|k: int|
            #![trigger ray_status(chunk, horizontal, positive, start, -k)]
            {
                &&& k >= 1
                &&& forall|i: int|
                    1 <= i < k ==> #[trigger] is_solid(ray_status(chunk, horizontal, positive, start, -i))
                &&& !is_solid(ray_status(chunk, horizontal, positive, start, -k))
                &&& r2 == if ray_status(chunk, horizontal, positive, start, -k) is None {
                    CollisionResult { allowable_displacement: disp, collided: false, backed_up: true }
                } else {
                    CollisionResult { allowable_displacement: 0, collided: true, backed_up: true }
                }
            };
        if k1 < k2 {
            assert(is_solid(ray_status(chunk, horizontal, positive, start, -k1)));
        } else if k2 < k1 {
            assert(is_solid(ray_status(chunk, horizontal, positive, start, -k2)));
        }
    } else {
        let d = spec_abs(disp as int);
        let free = CollisionResult { allowable_displacement: disp, collided: false, backed_up: false };
        let k1 = choose|k: int|
            #![trigger ray_status(chunk, horizontal, positive, start, k)]
            {
                &&& k >= 1
                &&& forall|i: int|
                    1 <= i < k ==> #[trigger] ray_status(chunk, horizontal, positive, start, i) == Some(0u8) && i <= d
                &&& (ray_status(chunk, horizontal, positive, start, k) != Some(0u8) || k > d)
                &&& r1 == if is_solid(ray_status(chunk, horizontal, positive, start, k)) {
                    CollisionResult { allowable_displacement: 0, collided: true, backed_up: false }
                } else {
                    free
                }
            };
        let k2 = choose|k: int|
            #![trigger ray_status(chunk, horizontal, positive, start, k)]
            {
                &&& k >= 1
                &&& forall|i: int|
                    1 <= i < k ==> #[trigger] ray_status(chunk, horizontal, positive, start, i) == Some(0u8) && i <= d
                &&& (ray_status(chunk, horizontal, positive, start, k) != Some(0u8) || k > d)
                &&& r2 == if is_solid(ray_status(chunk, horizontal, positive, start, k)) {
                    CollisionResult { allowable_displacement: 0, collided: true, backed_up: false }
                } else {
                    free
                }
            };
        if k1 < k2 {
            assert(ray_status(chunk, horizontal, positive, start, k1) == Some(0u8) && k1 <= d);
        } else if k2 < k1 {
            assert(ray_status(chunk, horizontal, positive, start, k2) == Some(0u8) && k2 <= d);
        }
    }
}

/// Casts a ray, as `raycast_axis_aligned`, and names its one result.
fn raycast_checked(
    horizontal: bool,
    positive: bool,
    abs_start_pt: (i32, i32),
    ray_displacement: i32,
    chunk: &MapChunk,
) -> (r: CollisionResult)
    requires
        chunk.wf(),
        raycast_fits(chunk, horizontal, positive, abs_start_pt, ray_displacement),
    ensures
        r == raycast_value(chunk, horizontal, positive, abs_start_pt, ray_displacement),
        raycast_spec(chunk, horizontal, positive, abs_start_pt, ray_displacement, r),
{
    let r = raycast_axis_aligned(horizontal, positive, abs_start_pt, ray_displacement, chunk);
    proof {
        let v = raycast_value(chunk, horizontal, positive, abs_start_pt, ray_displacement);
        assert(raycast_spec(chunk, horizontal, positive, abs_start_pt, ray_displacement, v));
        lemma_raycast_spec_unique(chunk, horizontal, positive, abs_start_pt, ray_displacement, r, v);
    }
    r
}


/// A pixel coordinate within the bounds of the game world as far as the
/// collision arithmetic is concerned (well beyond the ±5000 pixels that
/// characters are clamped to).
pub open spec fn world_coord(v: int) -> bool {
    -0x100_0000 <= v <= 0x100_0000
}

/// A displacement within the bounds that the collision arithmetic handles.
pub open spec fn world_displacement(v: int) -> bool {
    -0x400_0000 <= v <= 0x400_0000
}

/// A well-formed chunk whose pixel rectangle lies within the game world.
pub open spec fn chunk_in_world(c: &MapChunk) -> bool {
    &&& c.wf()
    &&& world_coord(c.bound.x * 5)
    &&& world_coord((c.bound.x + c.bound.width) * 5)
    &&& world_coord(c.bound.y * 5)
    &&& world_coord((c.bound.y + c.bound.height) * 5)
}

/// A character's rectangle within the game world.
pub open spec fn box_in_world(b: &AbsoluteBoundingBox<i32, u32>) -> bool {
    &&& world_coord(b.x as int)
    &&& world_coord(b.y as int)
    &&& world_coord(b.x + b.width)
    &&& world_coord(b.y + b.height)
}

/// What the tiles of the map do to a character's movement in one frame.
pub struct MovementCollision {
    /// The horizontal displacement allowed.
    pub dx: i32,
    /// The vertical displacement allowed.
    pub dy: i32,
    pub state: KittyStates,
    /// The character stands on (or hangs from) something.
    pub touching_ground: bool,
    /// The character ran into a wall: its horizontal speed stops.
    pub stopped_x: bool,
    /// The character hit a floor or ceiling: its vertical speed stops.
    pub stopped_y: bool,
    /// The character overlaps at least one chunk.
    pub inside_some_chunk: bool,
}

pub open spec fn spec_sign(v: int) -> int {
    if v > 0 {
        1
    } else if v < 0 {
        -1
    } else {
        0
    }
}

/// The collision of a character with rectangle `cb` against one chunk, given
/// the outcome so far. Two
/// vertical rays (from the left and right of the character, on the side it
/// moves toward) and two horizontal rays (from its lower and upper part)
/// decide the allowed displacement; a blocked upper ray with a free lower one
/// while falling lets the character hop up a ledge.
pub open spec fn spec_collide_with_chunk(
    chunk: &MapChunk,
    cb: AbsoluteBoundingBox<i32, u32>,
    o: MovementCollision,
) -> MovementCollision {
    let upper_y = (cb.y + (cb.height as i32) - 2) as i32;
    let lower_y = (cb.y + 1) as i32;
    let left_x = (cb.x + 1) as i32;
    let right_x = (cb.x + (cb.width as i32) - 2) as i32;
    let positive_y = o.dy > 0;
    let vert_y = if positive_y { upper_y } else { lower_y };
    let vl = raycast_value(chunk, false, positive_y, (left_x, vert_y), o.dy);
    let vr = raycast_value(chunk, false, positive_y, (right_x, vert_y), o.dy);
    let positive_x = o.dx > 0;
    let hx = if positive_x { right_x } else { left_x };
    let hl = raycast_value(chunk, true, positive_x, (hx, lower_y), o.dx);
    let hu = raycast_value(chunk, true, positive_x, (hx, upper_y), o.dx);
    let v_hit = vl.collided || vr.collided;
    let h_hit = hl.collided || hu.collided;
    let state1 = if v_hit && !positive_y {
        spec_state_after_ceiling_hit(o.state)
    } else {
        o.state
    };
    let dy1: int = if v_hit {
        if vl.backed_up {
            vl.allowable_displacement as int
        } else if vr.backed_up {
            vr.allowable_displacement as int
        } else {
            0
        }
    } else {
        o.dy as int
    };
    let ledge = h_hit && !hl.collided && positive_y;
    let wall = h_hit && !ledge;
    let dy2 = if ledge { dy1 - 5 } else { dy1 };
    let state2 = if wall { spec_state_after_wall_hit(state1) } else { state1 };
    let dx1: int = if h_hit {
        if hl.backed_up {
            hl.allowable_displacement as int
        } else if hu.backed_up {
            hu.allowable_displacement as int
        } else {
            spec_sign(hl.allowable_displacement as int) * spec_abs(
                hu.allowable_displacement - hl.allowable_displacement,
            )
        }
    } else {
        o.dx as int
    };
    MovementCollision {
        dx: dx1 as i32,
        dy: dy2 as i32,
        state: state2,
        touching_ground: o.touching_ground || v_hit,
        stopped_x: o.stopped_x || wall,
        stopped_y: o.stopped_y || v_hit,
        inside_some_chunk: true,
    }
}

/// Hopping up a ledge: while a character moves down (falls or walks on a
/// floor) into a tile that blocks the horizontal ray at its feet but not the
/// one at its head, the chunk lifts it by one tile height (5 pixels) from the
/// vertical outcome instead of stopping it: its horizontal speed is not
/// stopped and its state is not turned into wall hugging. Where a horizontal
/// ray is blocked otherwise (at the head, or while moving up), the character
/// runs into a wall: its horizontal speed stops and no lift happens.
pub proof fn law_ledge_hop(chunk: &MapChunk, cb: AbsoluteBoundingBox<i32, u32>, o: MovementCollision)
    ensures
        ({
            let r = spec_collide_with_chunk(chunk, cb, o);
            let head_y = (cb.y + 1) as i32;
            let feet_y = (cb.y + (cb.height as i32) - 2) as i32;
            let left_x = (cb.x + 1) as i32;
            let right_x = (cb.x + (cb.width as i32) - 2) as i32;
            let down = o.dy > 0;
            let vert_y = if down { feet_y } else { head_y };
            let vl = raycast_value(chunk, false, down, (left_x, vert_y), o.dy);
            let vr = raycast_value(chunk, false, down, (right_x, vert_y), o.dy);
            let front_x = if o.dx > 0 { right_x } else { left_x };
            let head = raycast_value(chunk, true, o.dx > 0, (front_x, head_y), o.dx);
            let feet = raycast_value(chunk, true, o.dx > 0, (front_x, feet_y), o.dx);
            let dy_vertical: int = if !vl.collided && !vr.collided {
                o.dy as int
            } else if vl.backed_up {
                vl.allowable_displacement as int
            } else if vr.backed_up {
                vr.allowable_displacement as int
            } else {
                0
            };
            &&& down && feet.collided && !head.collided ==> r.dy == (dy_vertical - 5) as i32 && r.stopped_x == o.stopped_x
                && r.state == o.state
            &&& (head.collided || (feet.collided && !down)) ==> r.stopped_x && r.dy == dy_vertical as i32
            &&& !head.collided && !feet.collided ==> r.dy == dy_vertical as i32 && r.dx == o.dx && r.stopped_x
                == o.stopped_x
        }),
{
}

/// A ray cast lets the caller move either the whole displacement or not at all.
pub proof fn lemma_raycast_allowable(
    chunk: &MapChunk,
    horizontal: bool,
    positive: bool,
    start: (i32, i32),
    disp: i32,
    r: CollisionResult,
)
    requires
        raycast_spec(chunk, horizontal, positive, start, disp, r),
    ensures
        r.allowable_displacement == 0 || r.allowable_displacement == disp,
{
}

/// The collision of a character against one chunk (see `spec_collide_with_chunk`).
pub fn collide_with_chunk(
    chunk: &MapChunk,
    cb: &AbsoluteBoundingBox<i32, u32>,
    o: MovementCollision,
) -> (r: MovementCollision)
    requires
        chunk_in_world(chunk),
        box_in_world(cb),
        world_displacement(o.dx as int),
        world_displacement(o.dy as int),
    ensures
        r == spec_collide_with_chunk(chunk, *cb, o),
        spec_abs(r.dx as int) <= spec_abs(o.dx as int) && (if o.dy < 0 {
            o.dy as int
        } else {
            0
        }) - 5 <= r.dy <= (if o.dy > 0 {
            o.dy as int
        } else {
            0
        }),
{
    let upper_y: i32 = cb.y + cb.height as i32 - 2;
    let lower_y: i32 = cb.y + 1;
    let left_x: i32 = cb.x + 1;
    let right_x: i32 = cb.x + cb.width as i32 - 2;
    let positive_y = o.dy > 0;
    let vert_y = if positive_y {
        upper_y
    } else {
        lower_y
    };
    let v_col_res_left = raycast_checked(false, positive_y, (left_x, vert_y), o.dy, chunk);
    let v_col_res_right = raycast_checked(false, positive_y, (right_x, vert_y), o.dy, chunk);
    let positive_x = o.dx > 0;
    let horizontal_x = if positive_x {
        right_x
    } else {
        left_x
    };
    let h_col_res_lower = raycast_checked(true, positive_x, (horizontal_x, lower_y), o.dx, chunk);
    let h_col_res_upper = raycast_checked(true, positive_x, (horizontal_x, upper_y), o.dx, chunk);
    proof {
        lemma_raycast_allowable(chunk, false, positive_y, (left_x, vert_y), o.dy, v_col_res_left);
        lemma_raycast_allowable(chunk, false, positive_y, (right_x, vert_y), o.dy, v_col_res_right);
        lemma_raycast_allowable(chunk, true, positive_x, (horizontal_x, lower_y), o.dx, h_col_res_lower);
        lemma_raycast_allowable(chunk, true, positive_x, (horizontal_x, upper_y), o.dx, h_col_res_upper);
    }

    let mut state = o.state;
    let mut dy: i32 = o.dy;
    let mut dx: i32 = o.dx;
    let mut touching_some_ground = o.touching_ground;
    let mut stopped_x = o.stopped_x;
    let mut stopped_y = o.stopped_y;

    if v_col_res_left.collided || v_col_res_right.collided {
        touching_some_ground = true;
        if positive_y == false {
            state = state_after_ceiling_hit(&state);
        }
        stopped_y = true;
        if v_col_res_left.backed_up {
            dy = v_col_res_left.allowable_displacement;
        } else if v_col_res_right.backed_up {
            dy = v_col_res_right.allowable_displacement;
        } else {
            let a = v_col_res_left.allowable_displacement;
            let sg = signum(a);
            let df = abs_diff(a, a);
            assert(sg * df == 0) by (nonlinear_arith)
                requires
                    df == 0,
            ;
            dy = sg * df;
        }
    }
    if h_col_res_lower.collided || h_col_res_upper.collided {
        if !h_col_res_lower.collided && positive_y {
            dy = dy - 5;
        } else {
            stopped_x = true;
            state = state_after_wall_hit(&state);
        }
        if h_col_res_lower.backed_up {
            dx = h_col_res_lower.allowable_displacement;
        } else if h_col_res_upper.backed_up {
            dx = h_col_res_upper.allowable_displacement;
        } else {
            let sg = signum(h_col_res_lower.allowable_displacement);
            let df = abs_diff(
                h_col_res_upper.allowable_displacement,
                h_col_res_lower.allowable_displacement,
            );
            assert(spec_abs(sg * df) <= df && -0x800_0000 <= sg * df <= 0x800_0000) by (nonlinear_arith)
                requires
                    -1 <= sg <= 1,
                    0 <= df <= 0x800_0000,
            ;
            dx = sg * df;
            assert(dx == spec_sign(h_col_res_lower.allowable_displacement as int) * spec_abs(
                h_col_res_upper.allowable_displacement - h_col_res_lower.allowable_displacement,
            ));
        }
    }
    MovementCollision {
        dx,
        dy,
        state,
        touching_ground: touching_some_ground,
        stopped_x,
        stopped_y,
        inside_some_chunk: true,
    }
}

/// The sign of `v`: 1, 0 or -1.
fn signum(v: i32) -> (r: i32)
    ensures
        r == spec_sign(v as int),
{
    if v > 0 {
        1
    } else if v < 0 {
        -1
    } else {
        0
    }
}

/// The distance between `a` and `b`, for values whose distance fits in `i32`.
fn abs_diff(a: i32, b: i32) -> (r: i32)
    requires
        spec_abs(a - b) <= i32::MAX,
    ensures
        r == spec_abs(a - b),
{
    if a >= b {
        a - b
    } else {
        b - a
    }
}


/// The outcome before any chunk has been looked at.
pub open spec fn initial_collision(dx: i32, dy: i32, state: KittyStates) -> MovementCollision {
    MovementCollision {
        dx,
        dy,
        state,
        touching_ground: false,
        stopped_x: false,
        stopped_y: false,
        inside_some_chunk: false,
    }
}

/// The collision of a character with rectangle `cb` against the first `n`
/// chunks, in order, each chunk that a corner of the character lies in
/// taking the outcome so far.
pub open spec fn spec_collide_with_map(
    chunks: Seq<MapChunk>,
    cb: AbsoluteBoundingBox<i32, u32>,
    o: MovementCollision,
    n: nat,
) -> MovementCollision
    decreases n,
{
    if n == 0 {
        o
    } else {
        let prev = spec_collide_with_map(chunks, cb, o, (n - 1) as nat);
        if spec_corner_inside(&cb, &chunks[n - 1].bound) {
            spec_collide_with_chunk(&chunks[n - 1], cb, prev)
        } else {
            prev
        }
    }
}

/// A map whose chunks all lie within the game world, and not absurdly many.
pub open spec fn map_in_world(map: &GameMap) -> bool {
    &&& map.chunks@.len() <= 0x10_0000
    &&& forall|i: int| 0 <= i < map.chunks@.len() ==> chunk_in_world(#[trigger] &map.chunks@[i])
}

/// The collision of a character with rectangle `char_bound`, moving by
/// `(dx, dy)` in state `state`, against the tiles of the map's chunks (see
/// `spec_collide_with_map`).
pub fn collide_with_map(
    map: &GameMap,
    char_bound: &AbsoluteBoundingBox<i32, u32>,
    dx: i32,
    dy: i32,
    state: KittyStates,
) -> (r: MovementCollision)
    requires
        map_in_world(map),
        box_in_world(char_bound),
        -0x100_0000 <= dx <= 0x100_0000,
        -0x100_0000 <= dy <= 0x100_0000,
    ensures
        r == spec_collide_with_map(
            map.chunks@,
            *char_bound,
            initial_collision(dx, dy, state),
            map.chunks@.len(),
        ),
        spec_abs(r.dx as int) <= spec_abs(dx as int) && r.dy <= (if dy > 0 {
            dy as int
        } else {
            0
        }),
{
    let mut o = MovementCollision {
        dx,
        dy,
        state,
        touching_ground: false,
        stopped_x: false,
        stopped_y: false,
        inside_some_chunk: false,
    };
    let n = map.chunks.len();
    let mut i: usize = 0;
    while i < n
        invariant
            n == map.chunks@.len(),
            map_in_world(map),
            box_in_world(char_bound),
            0 <= i <= n,
            -0x100_0000 <= dx <= 0x100_0000,
            -0x100_0000 <= dy <= 0x100_0000,
            spec_collide_with_map(
                map.chunks@,
                *char_bound,
                initial_collision(dx, dy, state),
                i as nat,
            ) == o,
            spec_abs(o.dx as int) <= spec_abs(dx as int),
            -0x100_0000 - 5 * i <= o.dy <= (if dy > 0 {
                dy as int
            } else {
                0
            }),
        decreases n - i,
    {
        let chunk = &map.chunks[i];
        assert(chunk_in_world(&map.chunks@[i as int]));
        assert(chunk.bound.width < 0x8000_0000);
        assert(chunk.bound.height < 0x8000_0000);
        if check_absolue_bound_partially_inside_tile_aligned_bound(char_bound, &chunk.bound) {
            o = collide_with_chunk(chunk, char_bound, o);
        }
        i = i + 1;
    }
    o
}


/// At most this many player/animal collisions are handled in one frame.
pub const N_PLAYER_NPC_COLLISIONS_TO_CHECK_AT_MOST: usize = 10;

/// Whether enabled player `i` overlaps animal `j`.
pub open spec fn spec_is_hit(
    players: Seq<Option<AbsoluteBoundingBox<i32, u32>>>,
    npcs: Seq<AbsoluteBoundingBox<i32, u32>>,
    i: int,
    j: int,
) -> bool {
    players[i] matches Some(p) && spec_boxes_overlap(&p, &npcs[j])
}

/// Every (player, animal) pair that overlaps, players in order and for each
/// the animals in order: those of the players before `i`, then those of
/// player `i` with the animals before `j`.
pub open spec fn hits_upto(
    players: Seq<Option<AbsoluteBoundingBox<i32, u32>>>,
    npcs: Seq<AbsoluteBoundingBox<i32, u32>>,
    i: nat,
    j: nat,
) -> Seq<(u8, u8)>
    decreases i, j,
{
    if j > 0 {
        hits_upto(players, npcs, i, (j - 1) as nat) + if spec_is_hit(players, npcs, i as int, j - 1) {
            seq![(i as u8, (j - 1) as u8)]
        } else {
            Seq::empty()
        }
    } else if i > 0 {
        hits_upto(players, npcs, (i - 1) as nat, npcs.len())
    } else {
        Seq::empty()
    }
}

/// The first `N_PLAYER_NPC_COLLISIONS_TO_CHECK_AT_MOST` of `all`.
pub open spec fn capped(all: Seq<(u8, u8)>) -> Seq<(u8, u8)> {
    if all.len() <= 10 {
        all
    } else {
        all.take(10)
    }
}

proof fn lemma_capped_push(a: Seq<(u8, u8)>, b: Seq<(u8, u8)>)
    requires
        b.len() <= 1,
    ensures
        capped(a + b) == if capped(a).len() < 10 {
            capped(a) + b
        } else {
            capped(a)
        },
{
    if a.len() >= 10 {
        assert((a + b).take(10) =~= a.take(10));
    } else {
        assert(a + b =~= capped(a) + b);
    }
}

/// The (player, animal) pairs that collide this frame, in order, at most
/// ten of them. `player_bounds` holds the rectangle of each enabled player
/// (`None` for a disabled one), `npc_bounds` that of each animal.
pub fn collect_player_npc_hits(
    player_bounds: &Vec<Option<AbsoluteBoundingBox<i32, u32>>>,
    npc_bounds: &Vec<AbsoluteBoundingBox<i32, u32>>,
) -> (hits: Vec<(u8, u8)>)
    requires
        forall|i: int|
            0 <= i < player_bounds@.len() ==> (#[trigger] player_bounds@[i] matches Some(b)
                ==> abs_bound_corners_fit(&b)),
        forall|j: int| 0 <= j < npc_bounds@.len() ==> abs_bound_corners_fit(#[trigger] &npc_bounds@[j]),
    ensures
        hits@ == capped(hits_upto(player_bounds@, npc_bounds@, player_bounds@.len(), 0)),
{
    let mut hits: Vec<(u8, u8)> = Vec::new();
    let np = player_bounds.len();
    let nn = npc_bounds.len();
    let mut i: usize = 0;
    while i < np
        invariant
            np == player_bounds@.len(),
            nn == npc_bounds@.len(),
            0 <= i <= np,
            forall|i: int|
                0 <= i < player_bounds@.len() ==> (#[trigger] player_bounds@[i] matches Some(b)
                    ==> abs_bound_corners_fit(&b)),
            forall|j: int| 0 <= j < npc_bounds@.len() ==> abs_bound_corners_fit(#[trigger] &npc_bounds@[j]),
            hits@ == capped(hits_upto(player_bounds@, npc_bounds@, i as nat, 0)),
        decreases np - i,
    {
        let mut j: usize = 0;
        while j < nn
            invariant
                np == player_bounds@.len(),
                nn == npc_bounds@.len(),
                0 <= i < np,
                0 <= j <= nn,
                forall|i: int|
                    0 <= i < player_bounds@.len() ==> (#[trigger] player_bounds@[i] matches Some(b)
                        ==> abs_bound_corners_fit(&b)),
                forall|j: int| 0 <= j < npc_bounds@.len() ==> abs_bound_corners_fit(#[trigger] &npc_bounds@[j]),
                hits@ == capped(hits_upto(player_bounds@, npc_bounds@, i as nat, j as nat)),
            decreases nn - j,
        {
            let did_hit = match &player_bounds[i] {
                Some(pb) => check_absolute_bounding_box_partially_inside_another(pb, &npc_bounds[j]),
                None => false,
            };
            let ghost prev = hits_upto(player_bounds@, npc_bounds@, i as nat, j as nat);
            let ghost b = if spec_is_hit(player_bounds@, npc_bounds@, i as int, j as int) {
                seq![(i as u8, j as u8)]
            } else {
                Seq::empty()
            };
            proof {
                lemma_capped_push(prev, b);
                assert(hits_upto(player_bounds@, npc_bounds@, i as nat, (j + 1) as nat) == prev + b);
            }
            if did_hit {
                if hits.len() < N_PLAYER_NPC_COLLISIONS_TO_CHECK_AT_MOST {
                    hits.push((i as u8, j as u8));
                }
            }
            j = j + 1;
        }
        assert(hits_upto(player_bounds@, npc_bounds@, (i + 1) as nat, 0) == hits_upto(
            player_bounds@,
            npc_bounds@,
            i as nat,
            nn as nat,
        ));
        i = i + 1;
    }
    hits
}

} // verus!
