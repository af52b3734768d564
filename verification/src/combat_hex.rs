//! Hexagonal board geometry on axial `(q, r)` coordinates.
//!
//! Every function that makes a new coordinate by arithmetic returns a
//! `Result` and refuses, with `HexError::Overflow`, a value outside `i32`;
//! measuring functions widen to `i64` and cannot overflow. Every collection
//! handed out is in ascending `(q, r)` order, or in an order fixed here.
use vstd::prelude::*;
use crate::order::{sort_by_order, sort_seq, total_order, antisymmetric, sorted_by, lemma_sort_seq, lemma_sort_seq_permutation};
use crate::text::str_eq;

verus! {

/// One hex tile, in axial coordinates. Tiles are ordered by `q`, then `r`.
#[derive(Clone, Copy, Debug, PartialEq, Eq, Structural, PartialOrd, Ord, Hash)]
pub struct HexCoord {
    pub q: i32,
    pub r: i32,
}

/// Every failure of the geometry functions.
#[derive(Clone, Copy, Debug, PartialEq, Eq, Structural)]
pub enum HexError {
    /// Checked arithmetic left the `i32` range.
    Overflow,
    /// `ring` or `range` was asked for a negative radius.
    NegativeRadius,
    /// `HexShape::new` got no offsets.
    EmptyShape,
    /// `HexShape::new` got an offset twice; the first repeated one, in input order.
    DuplicateOffset(HexCoord),
    /// `HexOccupancy::try_occupy` met a tile that is already taken.
    TileOccupied(HexCoord),
    /// `line` was asked for a path longer than `MAX_LINE_LENGTH` tiles; the distance.
    PathTooLong(i64),
}

pub open spec fn fits_i32(x: int) -> bool {
    i32::MIN <= x <= i32::MAX
}

pub open spec fn iabs(x: int) -> int {
    if x < 0 {
        -x
    } else {
        x
    }
}

pub open spec fn imax(a: int, b: int) -> int {
    if a >= b {
        a
    } else {
        b
    }
}

/// Axial distance of an offset: `max(|dq|, |dr|, |dq + dr|)`.
pub open spec fn axial_dist(dq: int, dr: int) -> int {
    imax(imax(iabs(dq), iabs(dr)), iabs(dq + dr))
}

pub open spec fn hex_distance(a: HexCoord, b: HexCoord) -> int {
    axial_dist(a.q - b.q, a.r - b.r)
}

/// The tile order: `q` first, then `r`.
pub open spec fn hex_lt(a: HexCoord, b: HexCoord) -> bool {
    a.q < b.q || (a.q == b.q && a.r < b.r)
}

/// The same order as a three-way comparison.
pub open spec fn hex_order(a: HexCoord, b: HexCoord) -> int {
    if hex_lt(a, b) {
        -1
    } else if a == b {
        0
    } else {
        1
    }
}

pub open spec fn strictly_sorted(s: Seq<HexCoord>) -> bool {
    forall|i: int, j: int| 0 <= i < j < s.len() ==> hex_lt(#[trigger] s[i], #[trigger] s[j])
}

/// The six neighbour offsets, in their fixed order.
pub open spec fn neighbor_dir(i: int) -> (int, int) {
    if i == 0 {
        (1, 0)
    } else if i == 1 {
        (1, -1)
    } else if i == 2 {
        (0, -1)
    } else if i == 3 {
        (-1, 0)
    } else if i == 4 {
        (-1, 1)
    } else {
        (0, 1)
    }
}

/// `c` moved by `(dq, dr)`, where that stays inside `i32`.
pub open spec fn offset_by(c: HexCoord, dq: int, dr: int) -> HexCoord {
    HexCoord { q: (c.q + dq) as i32, r: (c.r + dr) as i32 }
}

pub open spec fn offset_fits(c: HexCoord, dq: int, dr: int) -> bool {
    fits_i32(c.q + dq) && fits_i32(c.r + dr)
}

/// The six neighbour offsets as tiles, in their fixed order.
pub fn neighbor_directions() -> (d: [HexCoord; 6])
    ensures
        forall|i: int|
            0 <= i < 6 ==> d@[i].q == neighbor_dir(i).0 && d@[i].r == neighbor_dir(i).1,
{
    [
        HexCoord { q: 1, r: 0 },
        HexCoord { q: 1, r: -1 },
        HexCoord { q: 0, r: -1 },
        HexCoord { q: -1, r: 0 },
        HexCoord { q: -1, r: 1 },
        HexCoord { q: 0, r: 1 },
    ]
}

/// The tile order as a three-way comparison: -1, 0 or 1.
pub fn compare_hex(a: &HexCoord, b: &HexCoord) -> (r: i8)
    ensures
        r as int == hex_order(*a, *b),
{
    if a.q < b.q || (a.q == b.q && a.r < b.r) {
        -1
    } else if a.q == b.q && a.r == b.r {
        0
    } else {
        1
    }
}

fn axial_distance_i64(dq: i64, dr: i64) -> (d: i64)
    requires
        -0x1_0000_0000 <= dq <= 0x1_0000_0000,
        -0x1_0000_0000 <= dr <= 0x1_0000_0000,
    ensures
        d == axial_dist(dq as int, dr as int),
{
    let aq = if dq < 0 { -dq } else { dq };
    let ar = if dr < 0 { -dr } else { dr };
    let s = dq + dr;
    let as_ = if s < 0 { -s } else { s };
    let m = if aq >= ar { aq } else { ar };
    if m >= as_ { m } else { as_ }
}

impl HexCoord {
    /// `self - other`, widened to `i64`.
    fn delta_i64(self, other: Self) -> (d: (i64, i64))
        ensures
            d.0 == self.q - other.q,
            d.1 == self.r - other.r,
    {
        (self.q as i64 - other.q as i64, self.r as i64 - other.r as i64)
    }

    /// The axial distance between two tiles.
    pub fn distance(self, other: Self) -> (d: i64)
        ensures
            d == hex_distance(self, other),
    {
        let (dq, dr) = self.delta_i64(other);
        axial_distance_i64(dq, dr)
    }

    /// Whether `other` is one of the six tiles next to `self`.
    pub fn is_adjacent(self, other: Self) -> (b: bool)
        ensures
            b == (hex_distance(self, other) == 1),
    {
        let (dq, dr) = self.delta_i64(other);
        axial_distance_i64(dq, dr) == 1
    }

    /// Checked vector addition.
    fn checked_add(self, delta: HexCoord) -> (r: Result<HexCoord, HexError>)
        ensures
            offset_fits(self, delta.q as int, delta.r as int) ==> r == Ok::<HexCoord, HexError>(
                offset_by(self, delta.q as int, delta.r as int),
            ),
            !offset_fits(self, delta.q as int, delta.r as int) ==> r == Err::<HexCoord, HexError>(
                HexError::Overflow,
            ),
    {
        let q = match self.q.checked_add(delta.q) {
            Some(q) => q,
            None => {
                return Err(HexError::Overflow);
            },
        };
        let r = match self.r.checked_add(delta.r) {
            Some(r) => r,
            None => {
                return Err(HexError::Overflow);
            },
        };
        Ok(HexCoord { q, r })
    }

    /// The six adjacent tiles, in the order of `neighbor_directions`.
    pub fn neighbors(self) -> (r: Result<[HexCoord; 6], HexError>)
        ensures
            (forall|i: int| 0 <= i < 6 ==> offset_fits(self, neighbor_dir(i).0, neighbor_dir(i).1))
                <==> r is Ok,
            r is Err ==> r == Err::<[HexCoord; 6], HexError>(HexError::Overflow),
            r matches Ok(n) ==> forall|i: int|
                0 <= i < 6 ==> n@[i] == offset_by(self, neighbor_dir(i).0, neighbor_dir(i).1),
    {
        let d = neighbor_directions();
        assert(neighbor_dir(0) == (1int, 0int));
        assert(neighbor_dir(1) == (1int, -1int));
        assert(neighbor_dir(2) == (0int, -1int));
        assert(neighbor_dir(3) == (-1int, 0int));
        assert(neighbor_dir(4) == (-1int, 1int));
        assert(neighbor_dir(5) == (0int, 1int));
        assert((forall|i: int|
            0 <= i < 6 ==> offset_fits(self, neighbor_dir(i).0, neighbor_dir(i).1)) <==> (
        offset_fits(self, 1, 0) && offset_fits(self, 1, -1) && offset_fits(self, 0, -1)
            && offset_fits(self, -1, 0) && offset_fits(self, -1, 1) && offset_fits(self, 0, 1)));
        let a = self.checked_add(d[0])?;
        let b = self.checked_add(d[1])?;
        let c = self.checked_add(d[2])?;
        let e = self.checked_add(d[3])?;
        let f = self.checked_add(d[4])?;
        let g = self.checked_add(d[5])?;
        let out = [a, b, c, e, f, g];
        assert(forall|i: int|
            0 <= i < 6 ==> out@[i] == offset_by(self, neighbor_dir(i).0, neighbor_dir(i).1));
        Ok(out)
    }
}

/// The distance is symmetric, zero exactly between a tile and itself, and
/// obeys the triangle inequality.
pub proof fn lemma_distance_metric(a: HexCoord, b: HexCoord, c: HexCoord)
    ensures
        hex_distance(a, b) == hex_distance(b, a),
        hex_distance(a, b) >= 0,
        (hex_distance(a, b) == 0) <==> (a == b),
        hex_distance(a, c) <= hex_distance(a, b) + hex_distance(b, c),
{
}

/// Every neighbour of a tile is adjacent to it.
pub proof fn lemma_neighbors_adjacent(c: HexCoord, i: int)
    requires
        0 <= i < 6,
        offset_fits(c, neighbor_dir(i).0, neighbor_dir(i).1),
    ensures
        hex_distance(c, offset_by(c, neighbor_dir(i).0, neighbor_dir(i).1)) == 1,
{
}


/// Offsets in lexicographic `(dq, dr)` order.
pub open spec fn off_lt(a: (i64, i64), b: (i64, i64)) -> bool {
    a.0 < b.0 || (a.0 == b.0 && a.1 < b.1)
}

pub open spec fn offsets_sorted(s: Seq<(i64, i64)>) -> bool {
    forall|i: int, j: int| 0 <= i < j < s.len() ==> off_lt(#[trigger] s[i], #[trigger] s[j])
}

pub open spec fn in_disk(o: (i64, i64), radius: int) -> bool {
    axial_dist(o.0 as int, o.1 as int) <= radius
}

/// Every offset `(dq, dr)` within `radius` of the origin, in lexicographic order.
fn axial_disk_offsets(radius: i32) -> (res: Result<Vec<(i64, i64)>, HexError>)
    ensures
        radius < 0 ==> res == Err::<Vec<(i64, i64)>, HexError>(HexError::NegativeRadius),
        radius >= 0 ==> res is Ok,
        res matches Ok(v) ==> {
            &&& offsets_sorted(v@)
            &&& forall|o: (i64, i64)| #[trigger] v@.contains(o) <==> in_disk(o, radius as int)
        },
{
    if radius < 0 {
        return Err(HexError::NegativeRadius);
    }
    let radius = radius as i64;
    let mut offsets: Vec<(i64, i64)> = Vec::new();
    let mut dq: i64 = -radius;
    while dq <= radius
        invariant
            0 <= radius <= i32::MAX,
            -radius <= dq <= radius + 1,
            offsets_sorted(offsets@),
            forall|k: int|
                0 <= k < offsets@.len() ==> in_disk(#[trigger] offsets@[k], radius as int)
                    && offsets@[k].0 < dq,
            forall|o: (i64, i64)|
                in_disk(o, radius as int) && o.0 < dq ==> #[trigger] offsets@.contains(o),
        decreases radius + 1 - dq,
    {
        let r_min = if -radius >= -dq - radius { -radius } else { -dq - radius };
        let r_max = if radius <= -dq + radius { radius } else { -dq + radius };
        let mut dr: i64 = r_min;
        while dr <= r_max
            invariant
                0 <= radius <= i32::MAX,
                -radius <= dq <= radius,
                r_min == imax(-radius as int, -dq - radius),
                r_max == if radius <= -dq + radius { radius as int } else { -dq + radius },
                r_min <= dr <= r_max + 1,
                offsets_sorted(offsets@),
                forall|k: int|
                    0 <= k < offsets@.len() ==> in_disk(#[trigger] offsets@[k], radius as int)
                        && off_lt(offsets@[k], (dq, dr)),
                forall|o: (i64, i64)|
                    in_disk(o, radius as int) && off_lt(o, (dq, dr))
                        ==> #[trigger] offsets@.contains(o),
            decreases r_max + 1 - dr,
        {
            let ghost before = offsets@;
            offsets.push((dq, dr));
            proof {
                assert forall|o: (i64, i64)|
                    in_disk(o, radius as int) && off_lt(o, (dq, (dr + 1) as i64))
                        implies #[trigger] offsets@.contains(o) by {
                    if o == (dq, dr) {
                        assert(offsets@[before.len() as int] == o);
                    } else {
                        assert(before.contains(o));
                        let k = choose|k: int| 0 <= k < before.len() && before[k] == o;
                        assert(offsets@[k] == o);
                    }
                }
            }
            dr += 1;
        }
        proof {
            assert forall|o: (i64, i64)|
                in_disk(o, radius as int) && o.0 < dq + 1 implies #[trigger] offsets@.contains(o) by {
                if o.0 == dq {
                    assert(off_lt(o, (dq, dr)));
                } else {
                    assert(off_lt(o, (dq, dr)));
                }
            }
        }
        dq += 1;
    }
    proof {
        assert forall|o: (i64, i64)| #[trigger] offsets@.contains(o) <==> in_disk(o, radius as int) by {
            if offsets@.contains(o) {
                let k = choose|k: int| 0 <= k < offsets@.len() && offsets@[k] == o;
                assert(in_disk(offsets@[k], radius as int));
            }
            if in_disk(o, radius as int) {
                assert(o.0 < dq);
            }
        }
    }
    Ok(offsets)
}


pub open spec fn small_offset(o: (i64, i64)) -> bool {
    iabs(o.0 as int) <= i32::MAX && iabs(o.1 as int) <= i32::MAX
}

/// Whether every tile within `radius` of `center` has `i32` coordinates.
pub open spec fn disk_fits(center: HexCoord, radius: int) -> bool {
    fits_i32(center.q - radius) && fits_i32(center.q + radius) && fits_i32(center.r - radius)
        && fits_i32(center.r + radius)
}

/// `base + delta`, refused outside `i32`.
fn checked_offset(base: i32, delta: i64) -> (r: Result<i32, HexError>)
    requires
        iabs(delta as int) <= i32::MAX,
    ensures
        fits_i32(base + delta) ==> r == Ok::<i32, HexError>((base + delta) as i32),
        !fits_i32(base + delta) ==> r == Err::<i32, HexError>(HexError::Overflow),
{
    let v = base as i64 + delta;
    if v < i32::MIN as i64 || v > i32::MAX as i64 {
        Err(HexError::Overflow)
    } else {
        Ok(v as i32)
    }
}

/// `center` moved by each offset in turn. Sorted offsets give sorted tiles.
fn coords_from_offsets(center: HexCoord, offsets: &Vec<(i64, i64)>) -> (res: Result<
    Vec<HexCoord>,
    HexError,
>)
    requires
        offsets_sorted(offsets@),
        forall|k: int| 0 <= k < offsets@.len() ==> small_offset(#[trigger] offsets@[k]),
    ensures
        (forall|k: int|
            0 <= k < offsets@.len() ==> offset_fits(
                center,
                (#[trigger] offsets@[k]).0 as int,
                offsets@[k].1 as int,
            )) <==> res is Ok,
        res is Err ==> res == Err::<Vec<HexCoord>, HexError>(HexError::Overflow),
        res matches Ok(v) ==> {
            &&& v@.len() == offsets@.len()
            &&& forall|k: int|
                0 <= k < v@.len() ==> #[trigger] v@[k] == offset_by(
                    center,
                    offsets@[k].0 as int,
                    offsets@[k].1 as int,
                )
            &&& strictly_sorted(v@)
        },
{
    let mut tiles: Vec<HexCoord> = Vec::new();
    let n = offsets.len();
    let mut i: usize = 0;
    while i < n
        invariant
            n == offsets@.len(),
            i <= n,
            offsets_sorted(offsets@),
            forall|k: int| 0 <= k < offsets@.len() ==> small_offset(#[trigger] offsets@[k]),
            tiles@.len() == i,
            forall|k: int|
                0 <= k < i ==> offset_fits(center, (#[trigger] offsets@[k]).0 as int, offsets@[k].1 as int),
            forall|k: int|
                0 <= k < i ==> #[trigger] tiles@[k] == offset_by(
                    center,
                    offsets@[k].0 as int,
                    offsets@[k].1 as int,
                ),
        decreases n - i,
    {
        let (dq, dr) = offsets[i];
        assert(small_offset(offsets@[i as int]));
        let q = match checked_offset(center.q, dq) {
            Ok(q) => q,
            Err(e) => {
                return Err(e);
            },
        };
        let r = match checked_offset(center.r, dr) {
            Ok(r) => r,
            Err(e) => {
                return Err(e);
            },
        };
        tiles.push(HexCoord { q, r });
        i += 1;
    }
    proof {
        assert forall|a: int, b: int| 0 <= a < b < tiles@.len() implies hex_lt(
            #[trigger] tiles@[a],
            #[trigger] tiles@[b],
        ) by {
            assert(off_lt(offsets@[a], offsets@[b]));
        }
    }
    Ok(tiles)
}

pub open spec fn rel_offset(c: HexCoord, center: HexCoord) -> (i64, i64) {
    ((c.q - center.q) as i64, (c.r - center.r) as i64)
}

/// The tiles listed by `coords_from_offsets`, characterised by their offsets.
proof fn lemma_coords_membership(
    center: HexCoord,
    offsets: Seq<(i64, i64)>,
    tiles: Seq<HexCoord>,
    c: HexCoord,
)
    requires
        tiles.len() == offsets.len(),
        forall|k: int|
            0 <= k < tiles.len() ==> #[trigger] tiles[k] == offset_by(
                center,
                offsets[k].0 as int,
                offsets[k].1 as int,
            ),
        forall|k: int|
            0 <= k < offsets.len() ==> offset_fits(
                center,
                (#[trigger] offsets[k]).0 as int,
                offsets[k].1 as int,
            ),
    ensures
        tiles.contains(c) <==> offsets.contains(rel_offset(c, center)),
{
    if tiles.contains(c) {
        let k = choose|k: int| 0 <= k < tiles.len() && tiles[k] == c;
        assert(offsets[k] == rel_offset(c, center));
    }
    if offsets.contains(rel_offset(c, center)) {
        let k = choose|k: int| 0 <= k < offsets.len() && offsets[k] == rel_offset(c, center);
        assert(offset_fits(center, offsets[k].0 as int, offsets[k].1 as int));
        assert(tiles[k] == c);
    }
}

/// The tiles at exactly `radius` from `center`, in ascending order. A zero
/// radius gives `center` alone.
pub fn ring(center: HexCoord, radius: i32) -> (res: Result<Vec<HexCoord>, HexError>)
    ensures
        radius < 0 ==> res == Err::<Vec<HexCoord>, HexError>(HexError::NegativeRadius),
        radius >= 0 ==> (res is Ok <==> disk_fits(center, radius as int)),
        radius >= 0 && !disk_fits(center, radius as int) ==> res == Err::<Vec<HexCoord>, HexError>(
            HexError::Overflow,
        ),
        res matches Ok(v) ==> {
            &&& strictly_sorted(v@)
            &&& forall|c: HexCoord| #[trigger] v@.contains(c) <==> hex_distance(c, center) == radius
        },
{
    if radius < 0 {
        return Err(HexError::NegativeRadius);
    }
    if radius == 0 {
        let v = vec![center];
        proof {
            assert forall|c: HexCoord| #[trigger] v@.contains(c) <==> hex_distance(c, center)
                == radius by {
                if hex_distance(c, center) == 0 {
                    assert(v@[0] == c);
                }
            }
        }
        return Ok(v);
    }
    let radius_i64 = radius as i64;
    let offsets = axial_disk_offsets(radius)?;
    let mut boundary: Vec<(i64, i64)> = Vec::new();
    let n = offsets.len();
    let mut i: usize = 0;
    while i < n
        invariant
            n == offsets@.len(),
            i <= n,
            radius_i64 == radius,
            radius > 0,
            offsets_sorted(offsets@),
            forall|o: (i64, i64)| #[trigger] offsets@.contains(o) <==> in_disk(o, radius as int),
            offsets_sorted(boundary@),
            forall|k: int|
                0 <= k < boundary@.len() ==> in_disk(#[trigger] boundary@[k], radius as int)
                    && axial_dist(boundary@[k].0 as int, boundary@[k].1 as int) == radius
                    && (i < n ==> off_lt(boundary@[k], offsets@[i as int])),
            forall|k: int|
                0 <= k < i && axial_dist((#[trigger] offsets@[k]).0 as int, offsets@[k].1 as int)
                    == radius ==> boundary@.contains(offsets@[k]),
        decreases n - i,
    {
        let (dq, dr) = offsets[i];
        assert(offsets@.contains(offsets@[i as int]));
        if axial_distance_i64(dq, dr) == radius_i64 {
            let ghost before = boundary@;
            boundary.push((dq, dr));
            proof {
                assert forall|k: int|
                    0 <= k < i + 1 && axial_dist(
                        (#[trigger] offsets@[k]).0 as int,
                        offsets@[k].1 as int,
                    ) == radius implies boundary@.contains(offsets@[k]) by {
                    if k == i {
                        assert(boundary@[before.len() as int] == offsets@[k]);
                    } else {
                        let j = choose|j: int| 0 <= j < before.len() && before[j] == offsets@[k];
                        assert(boundary@[j] == offsets@[k]);
                    }
                }
            }
        }
        proof {
            if i + 1 < n {
                assert forall|k: int| 0 <= k < boundary@.len() implies off_lt(
                    #[trigger] boundary@[k],
                    offsets@[i + 1],
                ) by {
                    assert(off_lt(offsets@[i as int], offsets@[i + 1]));
                }
            }
        }
        i += 1;
    }
    proof {
        assert forall|k: int| 0 <= k < boundary@.len() implies small_offset(
            #[trigger] boundary@[k],
        ) by {
            assert(in_disk(boundary@[k], radius as int));
        }
        assert forall|o: (i64, i64)| #[trigger] boundary@.contains(o) <==> (in_disk(
            o,
            radius as int,
        ) && axial_dist(o.0 as int, o.1 as int) == radius) by {
            if boundary@.contains(o) {
                let k = choose|k: int| 0 <= k < boundary@.len() && boundary@[k] == o;
            }
            if in_disk(o, radius as int) && axial_dist(o.0 as int, o.1 as int) == radius {
                assert(offsets@.contains(o));
                let k = choose|k: int| 0 <= k < offsets@.len() && offsets@[k] == o;
            }
        }
    }
    let res = coords_from_offsets(center, &boundary);
    proof {
        let r = radius as int;
        if disk_fits(center, r) {
            assert forall|k: int| 0 <= k < boundary@.len() implies offset_fits(
                center,
                (#[trigger] boundary@[k]).0 as int,
                boundary@[k].1 as int,
            ) by {
                assert(in_disk(boundary@[k], r));
            }
        } else {
            let o: (i64, i64) = if !fits_i32(center.q + r) {
                (radius_i64, (-radius_i64) as i64)
            } else if !fits_i32(center.q - r) {
                ((-radius_i64) as i64, radius_i64)
            } else if !fits_i32(center.r + r) {
                (0i64, radius_i64)
            } else {
                (0i64, (-radius_i64) as i64)
            };
            assert(boundary@.contains(o));
            let k = choose|k: int| 0 <= k < boundary@.len() && boundary@[k] == o;
            assert(!offset_fits(center, boundary@[k].0 as int, boundary@[k].1 as int));
        }
        if res is Ok {
            let v = res->Ok_0;
            assert forall|c: HexCoord| #[trigger] v@.contains(c) <==> hex_distance(c, center)
                == radius by {
                lemma_coords_membership(center, boundary@, v@, c);
                let o = rel_offset(c, center);
                if hex_distance(c, center) == radius {
                    assert(boundary@.contains(o));
                }
            }
        }
    }
    res
}

/// The tiles within `radius` of `center`, centre and boundary included, in
/// ascending order.
pub fn range(center: HexCoord, radius: i32) -> (res: Result<Vec<HexCoord>, HexError>)
    ensures
        radius < 0 ==> res == Err::<Vec<HexCoord>, HexError>(HexError::NegativeRadius),
        radius >= 0 ==> (res is Ok <==> disk_fits(center, radius as int)),
        radius >= 0 && !disk_fits(center, radius as int) ==> res == Err::<Vec<HexCoord>, HexError>(
            HexError::Overflow,
        ),
        res matches Ok(v) ==> {
            &&& strictly_sorted(v@)
            &&& forall|c: HexCoord| #[trigger] v@.contains(c) <==> hex_distance(c, center) <= radius
        },
{
    let offsets = axial_disk_offsets(radius)?;
    proof {
        assert forall|k: int| 0 <= k < offsets@.len() implies small_offset(
            #[trigger] offsets@[k],
        ) by {
            assert(offsets@.contains(offsets@[k]));
        }
    }
    let res = coords_from_offsets(center, &offsets);
    proof {
        let r = radius as int;
        let ri = radius as i64;
        if disk_fits(center, r) {
            assert forall|k: int| 0 <= k < offsets@.len() implies offset_fits(
                center,
                (#[trigger] offsets@[k]).0 as int,
                offsets@[k].1 as int,
            ) by {
                assert(offsets@.contains(offsets@[k]));
            }
        } else {
            let o: (i64, i64) = if !fits_i32(center.q + r) {
                (ri, (-ri) as i64)
            } else if !fits_i32(center.q - r) {
                ((-ri) as i64, ri)
            } else if !fits_i32(center.r + r) {
                (0i64, ri)
            } else {
                (0i64, (-ri) as i64)
            };
            assert(offsets@.contains(o));
            let k = choose|k: int| 0 <= k < offsets@.len() && offsets@[k] == o;
            assert(!offset_fits(center, offsets@[k].0 as int, offsets@[k].1 as int));
        }
        if res is Ok {
            let v = res->Ok_0;
            assert forall|c: HexCoord| #[trigger] v@.contains(c) <==> hex_distance(c, center)
                <= radius by {
                lemma_coords_membership(center, offsets@, v@, c);
                let o = rel_offset(c, center);
                if hex_distance(c, center) <= radius {
                    assert(offsets@.contains(o));
                }
            }
        }
    }
    res
}


/// The longest path `line` hands out, in tiles. A bound on memory, not a rule
/// of the game.
pub const MAX_LINE_LENGTH: i64 = 65_536;

/// `num / d` rounded to the nearest integer, an exact half rounded up.
pub open spec fn round_half_up(num: int, d: int) -> int {
    if 2 * (num % d) >= d {
        num / d + 1
    } else {
        num / d
    }
}

/// Rounds the cube point `(xi, yi, zi) / n` to a tile: each axis rounded half
/// up, then the axis with the largest rounding error (ties: `x`, then `y`)
/// recomputed from the other two.
pub open spec fn cube_round(xi: int, yi: int, zi: int, n: int) -> (int, int, int) {
    let x = round_half_up(xi, n);
    let y = round_half_up(yi, n);
    let z = round_half_up(zi, n);
    let ex = iabs(xi - x * n);
    let ey = iabs(yi - y * n);
    let ez = iabs(zi - z * n);
    if ex >= ey && ex >= ez {
        (-y - z, y, z)
    } else if ey > ez {
        (x, -x - z, z)
    } else {
        (x, y, -x - y)
    }
}

/// Step `i` of `n` of the straight line from `from` to `to`.
pub open spec fn line_point(from: HexCoord, to: HexCoord, n: int, i: int) -> HexCoord {
    let x0 = from.q as int;
    let z0 = from.r as int;
    let y0 = -x0 - z0;
    let x1 = to.q as int;
    let z1 = to.r as int;
    let y1 = -x1 - z1;
    let c = cube_round(x0 * (n - i) + x1 * i, y0 * (n - i) + y1 * i, z0 * (n - i) + z1 * i, n);
    HexCoord { q: c.0 as i32, r: c.2 as i32 }
}

fn round_half_up_i64(num: i64, denom: i64) -> (r: i64)
    requires
        0 < denom < 0x1_0000,
        -0x4_0000_0000_0000 <= num <= 0x4_0000_0000_0000,
    ensures
        r == round_half_up(num as int, denom as int),
        num - denom <= r * denom <= num + denom,
        -0x4_0000_0001_0000 <= r <= 0x4_0000_0001_0000,
{
    let ghost q = num as int / denom as int;
    let ghost m = num as int % denom as int;
    proof {
        vstd::arithmetic::div_mod::lemma_fundamental_div_mod(num as int, denom as int);
        vstd::arithmetic::div_mod::lemma_mod_bound(num as int, denom as int);
        assert(q * denom == num - m) by (nonlinear_arith)
            requires
                num as int == denom * q + m,
        ;
        assert((q + 1) * denom == num - m + denom) by (nonlinear_arith)
            requires
                q * denom == num - m,
        ;
        assert(-0x4_0000_0000_0001 <= q <= 0x4_0000_0000_0000) by (nonlinear_arith)
            requires
                q * denom == num - m,
                0 <= m < denom,
                0 < denom,
                -0x4_0000_0000_0000 <= num <= 0x4_0000_0000_0000,
        ;
    }
    let qe = match num.checked_div_euclid(denom) {
        Some(v) => v,
        None => 0,
    };
    assert(qe == q);
    let rem = num - qe * denom;
    assert(rem == m);
    let r = if 2 * rem >= denom {
        qe + 1
    } else {
        qe
    };
    assert(-0x4_0000_0001_0000 <= r <= 0x4_0000_0001_0000) by (nonlinear_arith)
        requires
            num - denom <= r * denom <= num + denom,
            0 < denom < 0x1_0000,
            -0x4_0000_0000_0000 <= num <= 0x4_0000_0000_0000,
    ;
    r
}

fn abs_i64(v: i64) -> (r: i64)
    requires
        v > i64::MIN,
    ensures
        r == iabs(v as int),
{
    if v < 0 {
        -v
    } else {
        v
    }
}

fn cube_round_i64(xi: i64, yi: i64, zi: i64, n: i64) -> (c: (i64, i64, i64))
    requires
        0 < n < 0x1_0000,
        -0x4_0000_0000_0000 <= xi <= 0x4_0000_0000_0000,
        -0x4_0000_0000_0000 <= yi <= 0x4_0000_0000_0000,
        -0x4_0000_0000_0000 <= zi <= 0x4_0000_0000_0000,
    ensures
        c.0 == cube_round(xi as int, yi as int, zi as int, n as int).0,
        c.1 == cube_round(xi as int, yi as int, zi as int, n as int).1,
        c.2 == cube_round(xi as int, yi as int, zi as int, n as int).2,
{
    let mut x = round_half_up_i64(xi, n);
    let mut y = round_half_up_i64(yi, n);
    let mut z = round_half_up_i64(zi, n);
    let err_x = abs_i64(xi - x * n);
    let err_y = abs_i64(yi - y * n);
    let err_z = abs_i64(zi - z * n);
    if err_x >= err_y && err_x >= err_z {
        x = -y - z;
    } else if err_y > err_z {
        y = -x - z;
    } else {
        z = -x - y;
    }
    (x, y, z)
}

proof fn lemma_round_exact(a: int, n: int)
    requires
        n > 0,
    ensures
        round_half_up(a * n, n) == a,
        (a * n) - a * n == 0,
{
    vstd::arithmetic::div_mod::lemma_mod_multiples_basic(a, n);
    vstd::arithmetic::div_mod::lemma_div_multiples_vanish(a, n);
    assert(n * a == a * n) by (nonlinear_arith);
}

/// The line starts at `from` and ends at `to`.
pub proof fn lemma_line_endpoints(from: HexCoord, to: HexCoord, n: int)
    requires
        n > 0,
    ensures
        line_point(from, to, n, 0) == from,
        line_point(from, to, n, n) == to,
{
    let x0 = from.q as int;
    let z0 = from.r as int;
    let y0 = -x0 - z0;
    let x1 = to.q as int;
    let z1 = to.r as int;
    let y1 = -x1 - z1;
    assert(x0 * (n - 0) + x1 * 0 == x0 * n) by (nonlinear_arith);
    assert(y0 * (n - 0) + y1 * 0 == y0 * n) by (nonlinear_arith);
    assert(z0 * (n - 0) + z1 * 0 == z0 * n) by (nonlinear_arith);
    assert(x0 * (n - n) + x1 * n == x1 * n) by (nonlinear_arith);
    assert(y0 * (n - n) + y1 * n == y1 * n) by (nonlinear_arith);
    assert(z0 * (n - n) + z1 * n == z1 * n) by (nonlinear_arith);
    lemma_round_exact(x0, n);
    lemma_round_exact(y0, n);
    lemma_round_exact(z0, n);
    lemma_round_exact(x1, n);
    lemma_round_exact(y1, n);
    lemma_round_exact(z1, n);
}

/// The straight path from `from` to `to`, both ends included: one tile per
/// step of the distance, each the rounded cube interpolation (`line_point`).
/// A path of more than `MAX_LINE_LENGTH` tiles is refused before any tile is
/// computed.
pub fn line(from: HexCoord, to: HexCoord) -> (res: Result<Vec<HexCoord>, HexError>)
    ensures
        hex_distance(from, to) + 1 > MAX_LINE_LENGTH ==> res == Err::<Vec<HexCoord>, HexError>(
            HexError::PathTooLong(hex_distance(from, to) as i64),
        ),
        hex_distance(from, to) + 1 <= MAX_LINE_LENGTH ==> res is Ok,
        res matches Ok(v) ==> {
            &&& v@.len() == hex_distance(from, to) + 1
            &&& v@[0] == from
            &&& v@.last() == to
            &&& hex_distance(from, to) > 0 ==> forall|i: int|
                0 <= i < v@.len() ==> #[trigger] v@[i] == line_point(
                    from,
                    to,
                    hex_distance(from, to),
                    i,
                )
        },
{
    let steps = from.distance(to);
    if steps == 0 {
        proof {
            lemma_distance_metric(from, to, to);
        }
        return Ok(vec![from]);
    }
    if steps + 1 > MAX_LINE_LENGTH {
        return Err(HexError::PathTooLong(steps));
    }
    let x0 = from.q as i64;
    let z0 = from.r as i64;
    let x1 = to.q as i64;
    let z1 = to.r as i64;
    let y0 = -x0 - z0;
    let y1 = -x1 - z1;
    let n = steps;
    let mut path: Vec<HexCoord> = Vec::new();
    let mut i: i64 = 0;
    while i <= steps
        invariant
            0 < n == steps < 0x1_0000,
            steps == hex_distance(from, to),
            0 <= i <= steps + 1,
            x0 == from.q,
            z0 == from.r,
            x1 == to.q,
            z1 == to.r,
            y0 == -x0 - z0,
            y1 == -x1 - z1,
            path@.len() == i,
            forall|k: int|
                0 <= k < i ==> #[trigger] path@[k] == line_point(from, to, n as int, k),
        decreases steps + 1 - i,
    {
        proof {
            assert(-0x2_0000_0000 * 0x1_0000 <= x0 * (n - i) + x1 * i <= 0x2_0000_0000 * 0x1_0000)
                by (nonlinear_arith)
                requires
                    -0x8000_0000 <= x0 <= 0x8000_0000,
                    -0x8000_0000 <= x1 <= 0x8000_0000,
                    0 <= i <= n < 0x1_0000,
            ;
            assert(-0x2_0000_0000 * 0x1_0000 <= y0 * (n - i) + y1 * i <= 0x2_0000_0000 * 0x1_0000)
                by (nonlinear_arith)
                requires
                    -0x1_0000_0000 <= y0 <= 0x1_0000_0000,
                    -0x1_0000_0000 <= y1 <= 0x1_0000_0000,
                    0 <= i <= n < 0x1_0000,
            ;
            assert(-0x2_0000_0000 * 0x1_0000 <= z0 * (n - i) + z1 * i <= 0x2_0000_0000 * 0x1_0000)
                by (nonlinear_arith)
                requires
                    -0x8000_0000 <= z0 <= 0x8000_0000,
                    -0x8000_0000 <= z1 <= 0x8000_0000,
                    0 <= i <= n < 0x1_0000,
            ;
            assert(-0x8000_0000 * 0x1_0000 <= x0 * (n - i) <= 0x8000_0000 * 0x1_0000)
                by (nonlinear_arith)
                requires
                    -0x8000_0000 <= x0 <= 0x8000_0000,
                    0 <= i <= n < 0x1_0000,
            ;
            assert(-0x8000_0000 * 0x1_0000 <= x1 * i <= 0x8000_0000 * 0x1_0000) by (nonlinear_arith)
                requires
                    -0x8000_0000 <= x1 <= 0x8000_0000,
                    0 <= i <= n < 0x1_0000,
            ;
            assert(-0x1_0000_0000 * 0x1_0000 <= y0 * (n - i) <= 0x1_0000_0000 * 0x1_0000)
                by (nonlinear_arith)
                requires
                    -0x1_0000_0000 <= y0 <= 0x1_0000_0000,
                    0 <= i <= n < 0x1_0000,
            ;
            assert(-0x1_0000_0000 * 0x1_0000 <= y1 * i <= 0x1_0000_0000 * 0x1_0000)
                by (nonlinear_arith)
                requires
                    -0x1_0000_0000 <= y1 <= 0x1_0000_0000,
                    0 <= i <= n < 0x1_0000,
            ;
            assert(-0x8000_0000 * 0x1_0000 <= z0 * (n - i) <= 0x8000_0000 * 0x1_0000)
                by (nonlinear_arith)
                requires
                    -0x8000_0000 <= z0 <= 0x8000_0000,
                    0 <= i <= n < 0x1_0000,
            ;
            assert(-0x8000_0000 * 0x1_0000 <= z1 * i <= 0x8000_0000 * 0x1_0000) by (nonlinear_arith)
                requires
                    -0x8000_0000 <= z1 <= 0x8000_0000,
                    0 <= i <= n < 0x1_0000,
            ;
        }
        let xi = x0 * (n - i) + x1 * i;
        let yi = y0 * (n - i) + y1 * i;
        let zi = z0 * (n - i) + z1 * i;
        let (x, _y, z) = cube_round_i64(xi, yi, zi, n);
        path.push(HexCoord { q: x as i32, r: z as i32 });
        i += 1;
    }
    proof {
        lemma_line_endpoints(from, to, n as int);
        assert(path@[0] == line_point(from, to, n as int, 0));
        assert(path@[n as int] == line_point(from, to, n as int, n as int));
    }
    Ok(path)
}


/// The tile order as a spec closure, for the generic sort.
pub open spec fn hex_order_fn() -> spec_fn(HexCoord, HexCoord) -> int {
    |a: HexCoord, b: HexCoord| hex_order(a, b)
}

pub proof fn lemma_hex_order_total()
    ensures
        total_order(hex_order_fn()),
        antisymmetric(hex_order_fn()),
{
}

/// Whether position `j` repeats an earlier offset.
pub open spec fn dup_at(s: Seq<HexCoord>, j: int) -> bool {
    exists|k: int| 0 <= k < j && s[k] == s[j]
}

/// The first offset, in input order, that repeats an earlier one.
pub open spec fn first_dup_from(s: Seq<HexCoord>, j: int) -> Option<HexCoord>
    decreases s.len() - j,
{
    if j < 0 || j >= s.len() {
        None
    } else if dup_at(s, j) {
        Some(s[j])
    } else {
        first_dup_from(s, j + 1)
    }
}

pub open spec fn first_dup(s: Seq<HexCoord>) -> Option<HexCoord> {
    first_dup_from(s, 0)
}

proof fn lemma_first_dup_skip(s: Seq<HexCoord>, j: int)
    requires
        0 <= j <= s.len(),
        forall|i: int| 0 <= i < j ==> !dup_at(s, i),
    ensures
        first_dup(s) == first_dup_from(s, j),
    decreases j,
{
    if j > 0 {
        lemma_first_dup_skip(s, j - 1);
    }
}

/// The canonical form of a shape: its offsets sorted, not moved.
pub open spec fn canonical_shape(offsets: Seq<HexCoord>) -> Seq<HexCoord> {
    sort_seq(offsets, hex_order_fn())
}

/// The footprint of a large unit: fixed offsets from its anchor, sorted and
/// never moved, so that the author's choice of anchor is kept.
#[derive(Debug, PartialEq, Eq)]
pub struct HexShape {
    normalized_offsets: Vec<HexCoord>,
}

impl View for HexShape {
    type V = Seq<HexCoord>;

    closed spec fn view(&self) -> Seq<HexCoord> {
        self.normalized_offsets@
    }
}

impl Clone for HexShape {
    fn clone(&self) -> (r: Self)
        ensures
            r@ == self@,
    {
        proof {
            use_type_invariant(self);
        }
        let v = self.normalized_offsets.clone();
        assert(v@ =~= self.normalized_offsets@);
        HexShape { normalized_offsets: v }
    }
}

impl HexShape {
    #[verifier::type_invariant]
    spec fn shape_inv(self) -> bool {
        self.normalized_offsets@.len() > 0 && strictly_sorted(self.normalized_offsets@)
    }

    /// The shape with these offsets: refused when empty or when an offset
    /// repeats (the first repeat in input order is reported); otherwise the
    /// offsets sorted in tile order.
    pub fn new(offsets: Vec<HexCoord>) -> (res: Result<HexShape, HexError>)
        ensures
            offsets@.len() == 0 ==> res == Err::<HexShape, HexError>(HexError::EmptyShape),
            offsets@.len() > 0 && first_dup(offsets@) is Some ==> res == Err::<HexShape, HexError>(
                HexError::DuplicateOffset(first_dup(offsets@)->0),
            ),
            offsets@.len() > 0 && first_dup(offsets@) is None ==> res is Ok,
            res matches Ok(shape) ==> {
                &&& shape@ == canonical_shape(offsets@)
                &&& shape@.len() == offsets@.len()
                &&& strictly_sorted(shape@)
            },
    {
        if offsets.len() == 0 {
            return Err(HexError::EmptyShape);
        }
        let n = offsets.len();
        let mut j: usize = 0;
        while j < n
            invariant
                n == offsets@.len(),
                j <= n,
                forall|i: int| 0 <= i < j ==> !dup_at(offsets@, i),
            decreases n - j,
        {
            let mut k: usize = 0;
            while k < j
                invariant
                    n == offsets@.len(),
                    k <= j < n,
                    forall|i: int| 0 <= i < k ==> offsets@[i] != offsets@[j as int],
                    forall|i: int| 0 <= i < j ==> !dup_at(offsets@, i),
                decreases j - k,
            {
                if offsets[k] == offsets[j] {
                    proof {
                        assert(dup_at(offsets@, j as int));
                        lemma_first_dup_skip(offsets@, j as int);
                    }
                    return Err(HexError::DuplicateOffset(offsets[j]));
                }
                k += 1;
            }
            j += 1;
        }
        let ghost input = offsets@;
        proof {
            lemma_first_dup_skip(offsets@, n as int);
            assert(input.no_duplicates()) by {
                assert forall|a: int, b: int|
                    0 <= a < input.len() && 0 <= b < input.len() && a != b implies input[a]
                    != input[b] by {
                    if a < b {
                        assert(!dup_at(input, b));
                    } else {
                        assert(!dup_at(input, a));
                    }
                }
            }
        }
        let order = |a: &HexCoord, b: &HexCoord| -> (r: i8)
            ensures
                r as int == hex_order(*a, *b),
            { compare_hex(a, b) };
        let ghost so = hex_order_fn();
        let sorted = sort_by_order(offsets, order, Ghost(so));
        proof {
            lemma_hex_order_total();
            lemma_sort_seq(input, so);
            input.lemma_multiset_has_no_duplicates();
            sorted@.lemma_multiset_has_no_duplicates_conv();
            assert forall|a: int, b: int| 0 <= a < b < sorted@.len() implies hex_lt(
                #[trigger] sorted@[a],
                #[trigger] sorted@[b],
            ) by {
                assert(so(sorted@[a], sorted@[b]) <= 0);
                assert(sorted@[a] != sorted@[b]);
            }
        }
        Ok(HexShape { normalized_offsets: sorted })
    }

    /// The tiles this shape covers with its anchor at `anchor`, in tile order.
    pub fn tiles_at(&self, anchor: HexCoord) -> (res: Result<Vec<HexCoord>, HexError>)
        ensures
            (forall|k: int|
                0 <= k < self@.len() ==> offset_fits(
                    anchor,
                    (#[trigger] self@[k]).q as int,
                    self@[k].r as int,
                )) <==> res is Ok,
            res is Err ==> res == Err::<Vec<HexCoord>, HexError>(HexError::Overflow),
            res matches Ok(v) ==> {
                &&& v@.len() == self@.len()
                &&& forall|k: int|
                    0 <= k < v@.len() ==> #[trigger] v@[k] == offset_by(
                        anchor,
                        self@[k].q as int,
                        self@[k].r as int,
                    )
                &&& strictly_sorted(v@)
            },
    {
        proof {
            use_type_invariant(self);
        }
        let offsets = &self.normalized_offsets;
        let mut tiles: Vec<HexCoord> = Vec::new();
        let n = offsets.len();
        let mut i: usize = 0;
        while i < n
            invariant
                n == offsets@.len(),
                offsets@ == self@,
                i <= n,
                tiles@.len() == i,
                forall|k: int|
                    0 <= k < i ==> offset_fits(anchor, (#[trigger] offsets@[k]).q as int, offsets@[k].r as int),
                forall|k: int|
                    0 <= k < i ==> #[trigger] tiles@[k] == offset_by(
                        anchor,
                        offsets@[k].q as int,
                        offsets@[k].r as int,
                    ),
            decreases n - i,
        {
            let t = anchor.checked_add(offsets[i])?;
            tiles.push(t);
            i += 1;
        }
        proof {
            assert forall|a: int, b: int| 0 <= a < b < tiles@.len() implies hex_lt(
                #[trigger] tiles@[a],
                #[trigger] tiles@[b],
            ) by {
                assert(hex_lt(offsets@[a], offsets@[b]));
            }
        }
        Ok(tiles)
    }
}

/// Two shapes built from the same offsets in any order are the same shape.
pub proof fn lemma_shape_order_independent(a: Seq<HexCoord>, b: Seq<HexCoord>)
    requires
        a.to_multiset() == b.to_multiset(),
    ensures
        canonical_shape(a) == canonical_shape(b),
{
    lemma_hex_order_total();
    lemma_sort_seq_permutation(a, b, hex_order_fn());
}


pub open spec fn entries_sorted(s: Seq<(HexCoord, String)>) -> bool {
    forall|i: int, j: int| 0 <= i < j < s.len() ==> hex_lt(#[trigger] s[i].0, #[trigger] s[j].0)
}

pub open spec fn has_key(s: Seq<(HexCoord, String)>, k: HexCoord) -> bool {
    exists|i: int| 0 <= i < s.len() && #[trigger] s[i].0 == k
}

/// The map a sorted entry list stands for.
pub open spec fn entries_map(s: Seq<(HexCoord, String)>) -> Map<HexCoord, Seq<char>> {
    Map::new(
        |k: HexCoord| has_key(s, k),
        |k: HexCoord| s[choose|i: int| 0 <= i < s.len() && #[trigger] s[i].0 == k].1@,
    )
}

proof fn lemma_entries_at(s: Seq<(HexCoord, String)>, i: int)
    requires
        entries_sorted(s),
        0 <= i < s.len(),
    ensures
        entries_map(s).contains_key(s[i].0),
        entries_map(s)[s[i].0] == s[i].1@,
{
    assert(has_key(s, s[i].0));
    let j = choose|j: int| 0 <= j < s.len() && #[trigger] s[j].0 == s[i].0;
    if j != i {
        if j < i {
            assert(hex_lt(s[j].0, s[i].0));
        } else {
            assert(hex_lt(s[i].0, s[j].0));
        }
    }
}

/// The occupancy after every tile of `req` is given to `id`.
pub open spec fn occupy_map(m: Map<HexCoord, Seq<char>>, req: Seq<HexCoord>, id: Seq<char>) -> Map<
    HexCoord,
    Seq<char>,
> {
    Map::new(
        |k: HexCoord| m.contains_key(k) || req.contains(k),
        |k: HexCoord|
            if req.contains(k) {
                id
            } else {
                m[k]
            },
    )
}

/// The occupancy after every tile held by `id` is freed.
pub open spec fn vacate_map(m: Map<HexCoord, Seq<char>>, id: Seq<char>) -> Map<HexCoord, Seq<char>> {
    Map::new(|k: HexCoord| m.contains_key(k) && m[k] != id, |k: HexCoord| m[k])
}

/// Whether some tile of `req` is taken in `m`.
pub open spec fn any_taken(m: Map<HexCoord, Seq<char>>, req: Seq<HexCoord>) -> bool {
    exists|t: HexCoord| req.contains(t) && #[trigger] m.contains_key(t)
}

/// Which id stands on which tile. One tile holds one id; one id may hold
/// many tiles. Walked in tile order.
#[derive(Debug, PartialEq, Eq)]
pub struct HexOccupancy {
    tiles: Vec<(HexCoord, String)>,
}

impl View for HexOccupancy {
    type V = Map<HexCoord, Seq<char>>;

    closed spec fn view(&self) -> Map<HexCoord, Seq<char>> {
        entries_map(self.tiles@)
    }
}

fn clone_entries(v: &Vec<(HexCoord, String)>) -> (r: Vec<(HexCoord, String)>)
    ensures
        r@.len() == v@.len(),
        forall|i: int| 0 <= i < v@.len() ==> #[trigger] r@[i].0 == v@[i].0 && r@[i].1@ == v@[i].1@,
{
    let mut out: Vec<(HexCoord, String)> = Vec::new();
    let n = v.len();
    let mut i: usize = 0;
    while i < n
        invariant
            n == v@.len(),
            i <= n,
            out@.len() == i,
            forall|k: int| 0 <= k < i ==> #[trigger] out@[k].0 == v@[k].0 && out@[k].1@ == v@[k].1@,
        decreases n - i,
    {
        let (c, id) = &v[i];
        out.push((*c, id.clone()));
        i += 1;
    }
    out
}

proof fn lemma_entries_same_map(a: Seq<(HexCoord, String)>, b: Seq<(HexCoord, String)>)
    requires
        entries_sorted(a),
        a.len() == b.len(),
        forall|i: int| 0 <= i < a.len() ==> #[trigger] b[i].0 == a[i].0 && b[i].1@ == a[i].1@,
    ensures
        entries_sorted(b),
        entries_map(b) == entries_map(a),
{
    assert(entries_sorted(b)) by {
        assert forall|i: int, j: int| 0 <= i < j < b.len() implies hex_lt(
            #[trigger] b[i].0,
            #[trigger] b[j].0,
        ) by {
            assert(hex_lt(a[i].0, a[j].0));
        }
    }
    assert forall|k: HexCoord| has_key(a, k) <==> has_key(b, k) by {
        if has_key(a, k) {
            let i = choose|i: int| 0 <= i < a.len() && #[trigger] a[i].0 == k;
            assert(b[i].0 == k);
        }
        if has_key(b, k) {
            let i = choose|i: int| 0 <= i < b.len() && #[trigger] b[i].0 == k;
            assert(a[i].0 == k);
        }
    }
    assert forall|k: HexCoord| #[trigger]
        entries_map(a).contains_key(k) implies entries_map(b)[k] == entries_map(a)[k] by {
        let i = choose|i: int| 0 <= i < a.len() && #[trigger] a[i].0 == k;
        lemma_entries_at(a, i);
        lemma_entries_at(b, i);
    }
    assert(entries_map(b) =~= entries_map(a));
}

/// Where `c` stands in a sorted entry list: the index of its entry, or of
/// the first entry after it.
fn entry_position(v: &Vec<(HexCoord, String)>, c: HexCoord) -> (p: usize)
    requires
        entries_sorted(v@),
    ensures
        p <= v@.len(),
        forall|i: int| 0 <= i < p ==> hex_lt(#[trigger] v@[i].0, c),
        p < v@.len() ==> !hex_lt(v@[p as int].0, c),
{
    let n = v.len();
    let mut i: usize = 0;
    while i < n
        invariant
            n == v@.len(),
            i <= n,
            forall|k: int| 0 <= k < i ==> hex_lt(#[trigger] v@[k].0, c),
        decreases n - i,
    {
        let k = v[i].0;
        if !(k.q < c.q || (k.q == c.q && k.r < c.r)) {
            return i;
        }
        i += 1;
    }
    i
}

fn find_entry(v: &Vec<(HexCoord, String)>, c: HexCoord) -> (r: Option<usize>)
    requires
        entries_sorted(v@),
    ensures
        r matches Some(i) ==> i < v@.len() && v@[i as int].0 == c,
        r is None ==> !has_key(v@, c),
{
    let p = entry_position(v, c);
    if p < v.len() && v[p].0 == c {
        Some(p)
    } else {
        proof {
            if has_key(v@, c) {
                let i = choose|i: int| 0 <= i < v@.len() && #[trigger] v@[i].0 == c;
                if i < p {
                    assert(hex_lt(v@[i].0, c));
                } else if i > p {
                    assert(hex_lt(v@[p as int].0, v@[i].0));
                }
            }
        }
        None
    }
}

/// Gives tile `c` to `id`, keeping the list sorted.
fn insert_entry(v: &mut Vec<(HexCoord, String)>, c: HexCoord, id: &str)
    requires
        entries_sorted(old(v)@),
    ensures
        entries_sorted(final(v)@),
        entries_map(final(v)@) == entries_map(old(v)@).insert(c, id@),
{
    let ghost before = v@;
    let p = entry_position(v, c);
    if p < v.len() && v[p].0 == c {
        v.set(p, (c, id.to_owned()));
        proof {
            let after = v@;
            assert(entries_sorted(after)) by {
                assert forall|i: int, j: int| 0 <= i < j < after.len() implies hex_lt(
                    #[trigger] after[i].0,
                    #[trigger] after[j].0,
                ) by {
                    assert(hex_lt(before[i].0, before[j].0));
                }
            }
            assert forall|k: HexCoord| has_key(after, k) <==> (has_key(before, k) || k == c) by {
                if has_key(before, k) {
                    let i = choose|i: int| 0 <= i < before.len() && #[trigger] before[i].0 == k;
                    assert(after[i].0 == k);
                }
                if has_key(after, k) {
                    let i = choose|i: int| 0 <= i < after.len() && #[trigger] after[i].0 == k;
                    assert(before[i].0 == k);
                }
                if k == c {
                    assert(after[p as int].0 == k);
                }
            }
            assert forall|k: HexCoord| #[trigger]
                entries_map(after).contains_key(k) implies entries_map(after)[k] == entries_map(
                before,
            ).insert(c, id@)[k] by {
                let i = choose|i: int| 0 <= i < after.len() && #[trigger] after[i].0 == k;
                lemma_entries_at(after, i);
                if i != p {
                    lemma_entries_at(before, i);
                }
            }
            assert(entries_map(after) =~= entries_map(before).insert(c, id@));
        }
    } else {
        v.insert(p, (c, id.to_owned()));
        proof {
            let after = v@;
            assert(entries_sorted(after)) by {
                assert forall|i: int, j: int| 0 <= i < j < after.len() implies hex_lt(
                    #[trigger] after[i].0,
                    #[trigger] after[j].0,
                ) by {
                    if j < p {
                        assert(hex_lt(before[i].0, before[j].0));
                    } else if j == p {
                        assert(hex_lt(before[i].0, c));
                    } else if i == p {
                        assert(!hex_lt(before[p as int].0, c));
                        if j - 1 > p {
                            assert(hex_lt(before[p as int].0, before[j - 1].0));
                        }
                    } else if i < p {
                        assert(hex_lt(before[i].0, before[j - 1].0));
                    } else {
                        assert(hex_lt(before[i - 1].0, before[j - 1].0));
                    }
                }
            }
            assert forall|k: HexCoord| has_key(after, k) <==> (has_key(before, k) || k == c) by {
                if has_key(before, k) {
                    let i = choose|i: int| 0 <= i < before.len() && #[trigger] before[i].0 == k;
                    if i < p {
                        assert(after[i].0 == k);
                    } else {
                        assert(after[i + 1].0 == k);
                    }
                }
                if has_key(after, k) {
                    let i = choose|i: int| 0 <= i < after.len() && #[trigger] after[i].0 == k;
                    if i < p {
                        assert(before[i].0 == k);
                    } else if i > p {
                        assert(before[i - 1].0 == k);
                    }
                }
                if k == c {
                    assert(after[p as int].0 == k);
                }
            }
            assert forall|k: HexCoord| #[trigger]
                entries_map(after).contains_key(k) implies entries_map(after)[k] == entries_map(
                before,
            ).insert(c, id@)[k] by {
                let i = choose|i: int| 0 <= i < after.len() && #[trigger] after[i].0 == k;
                lemma_entries_at(after, i);
                if i < p {
                    lemma_entries_at(before, i);
                } else if i > p {
                    lemma_entries_at(before, i - 1);
                }
            }
            assert(entries_map(after) =~= entries_map(before).insert(c, id@));
        }
    }
}

impl Clone for HexOccupancy {
    fn clone(&self) -> (r: Self)
        ensures
            r@ == self@,
    {
        proof {
            use_type_invariant(self);
        }
        let v = clone_entries(&self.tiles);
        proof {
            lemma_entries_same_map(self.tiles@, v@);
        }
        HexOccupancy { tiles: v }
    }
}

impl Default for HexOccupancy {
    fn default() -> (r: Self)
        ensures
            r@ == Map::<HexCoord, Seq<char>>::empty(),
    {
        let r = HexOccupancy { tiles: Vec::new() };
        assert(r@ =~= Map::<HexCoord, Seq<char>>::empty());
        r
    }
}

impl HexOccupancy {
    #[verifier::type_invariant]
    spec fn occupancy_inv(self) -> bool {
        entries_sorted(self.tiles@)
    }

    /// An empty board.
    pub fn new() -> (r: Self)
        ensures
            r@ == Map::<HexCoord, Seq<char>>::empty(),
    {
        Self::default()
    }

    /// Gives every tile of `tiles` to `id`, all or nothing: when any of them
    /// is taken, nothing changes and the least taken one (in tile order) is
    /// reported. A tile listed twice is no conflict with itself.
    pub fn try_occupy(&mut self, tiles: &[HexCoord], id: &str) -> (res: Result<(), HexError>)
        ensures
            res is Err <==> any_taken(old(self)@, tiles@),
            res is Err ==> final(self)@ == old(self)@,
            res matches Err(e) ==> e matches HexError::TileOccupied(t) && tiles@.contains(t)
                && old(self)@.contains_key(t) && forall|u: HexCoord|
                tiles@.contains(u) && #[trigger] old(self)@.contains_key(u) ==> !hex_lt(u, t),
            res is Ok ==> final(self)@ == occupy_map(old(self)@, tiles@, id@),
    {
        proof {
            use_type_invariant(&*self);
        }
        let n = tiles.len();
        let mut best: Option<HexCoord> = None;
        let mut i: usize = 0;
        while i < n
            invariant
                n == tiles@.len(),
                i <= n,
                entries_sorted(self.tiles@),
                best is None <==> (forall|k: int|
                    0 <= k < i ==> !has_key(self.tiles@, #[trigger] tiles@[k])),
                best matches Some(b) ==> (exists|k: int| 0 <= k < i && #[trigger] tiles@[k] == b)
                    && has_key(self.tiles@, b) && forall|k: int|
                    0 <= k < i && has_key(self.tiles@, #[trigger] tiles@[k]) ==> !hex_lt(
                        tiles@[k],
                        b,
                    ),
            decreases n - i,
        {
            let t = tiles[i];
            if find_entry(&self.tiles, t).is_some() {
                let replace = match best {
                    None => true,
                    Some(b) => t.q < b.q || (t.q == b.q && t.r < b.r),
                };
                if replace {
                    best = Some(t);
                }
            }
            i += 1;
        }
        if let Some(b) = best {
            proof {
                let k = choose|k: int| 0 <= k < n && #[trigger] tiles@[k] == b;
                assert(tiles@.contains(b));
                assert(has_key(self.tiles@, b));
                assert(entries_map(self.tiles@).contains_key(b));
                assert forall|u: HexCoord|
                    tiles@.contains(u) && #[trigger] old(self)@.contains_key(u) implies !hex_lt(
                    u,
                    b,
                ) by {
                    let j = choose|j: int| 0 <= j < n && tiles@[j] == u;
                    assert(has_key(self.tiles@, tiles@[j]));
                }
            }
            return Err(HexError::TileOccupied(b));
        }
        proof {
            assert forall|t: HexCoord| !(tiles@.contains(t) && #[trigger] old(self)@.contains_key(
                t,
            )) by {
                if tiles@.contains(t) {
                    let j = choose|j: int| 0 <= j < n && tiles@[j] == t;
                    assert(!has_key(self.tiles@, tiles@[j]));
                }
            }
        }
        let ghost start = self@;
        let mut v = clone_entries(&self.tiles);
        proof {
            lemma_entries_same_map(self.tiles@, v@);
            assert(tiles@.take(0) =~= Seq::<HexCoord>::empty());
            assert(occupy_map(start, tiles@.take(0), id@) =~= start);
        }
        let mut j: usize = 0;
        while j < n
            invariant
                n == tiles@.len(),
                j <= n,
                entries_sorted(v@),
                entries_map(v@) == occupy_map(start, tiles@.take(j as int), id@),
            decreases n - j,
        {
            let ghost prev = entries_map(v@);
            insert_entry(&mut v, tiles[j], id);
            proof {
                let t = tiles@[j as int];
                assert(tiles@.take(j + 1) =~= tiles@.take(j as int).push(t));
                assert forall|k: HexCoord| #[trigger] tiles@.take(j + 1).contains(k) <==> (
                tiles@.take(j as int).contains(k) || k == t) by {
                    if tiles@.take(j + 1).contains(k) {
                        let x = choose|x: int|
                            0 <= x < j + 1 && #[trigger] tiles@.take(j + 1)[x] == k;
                        if x < j {
                            assert(tiles@.take(j as int)[x] == k);
                        }
                    }
                    if tiles@.take(j as int).contains(k) {
                        let x = choose|x: int| 0 <= x < j && #[trigger] tiles@.take(j as int)[x] == k;
                        assert(tiles@.take(j + 1)[x] == k);
                    }
                    if k == t {
                        assert(tiles@.take(j + 1)[j as int] == k);
                    }
                }
                assert(entries_map(v@) =~= occupy_map(start, tiles@.take(j + 1), id@));
            }
            j += 1;
        }
        assert(tiles@.take(n as int) =~= tiles@);
        self.tiles = v;
        Ok(())
    }

    /// Frees every tile that `id` holds; nothing happens when it holds none.
    pub fn vacate(&mut self, id: &str)
        ensures
            final(self)@ == vacate_map(old(self)@, id@),
    {
        proof {
            use_type_invariant(&*self);
        }
        let ghost before = self.tiles@;
        let mut kept: Vec<(HexCoord, String)> = Vec::new();
        let n = self.tiles.len();
        let mut i: usize = 0;
        while i < n
            invariant
                n == before.len(),
                self.tiles@ == before,
                entries_sorted(before),
                i <= n,
                entries_sorted(kept@),
                forall|k: int| 0 <= k < kept@.len() ==> has_key(before, #[trigger] kept@[k].0)
                    && kept@[k].1@ != id@ && entries_map(before)[kept@[k].0] == kept@[k].1@,
                forall|k: int|
                    0 <= k < kept@.len() ==> (i < n ==> hex_lt(#[trigger] kept@[k].0, before[i as int].0)),
                forall|k: int|
                    0 <= k < i && before[k].1@ != id@ ==> #[trigger] has_key(kept@, before[k].0),
            decreases n - i,
        {
            let (c, occupant) = &self.tiles[i];
            if !str_eq(occupant.as_str(), id) {
                let ghost prev = kept@;
                kept.push((*c, occupant.clone()));
                proof {
                    lemma_entries_at(before, i as int);
                    assert(has_key(before, before[i as int].0));
                    assert forall|k: int|
                        0 <= k < i + 1 && before[k].1@ != id@ implies #[trigger] has_key(
                        kept@,
                        before[k].0,
                    ) by {
                        if k == i {
                            assert(kept@[prev.len() as int].0 == before[k].0);
                        } else {
                            assert(has_key(prev, before[k].0));
                            let x = choose|x: int| 0 <= x < prev.len() && #[trigger] prev[x].0 == before[k].0;
                            assert(kept@[x].0 == before[k].0);
                        }
                    }
                }
            }
            proof {
                if i + 1 < n {
                    assert forall|k: int| 0 <= k < kept@.len() implies hex_lt(
                        #[trigger] kept@[k].0,
                        before[i + 1].0,
                    ) by {
                        assert(hex_lt(before[i as int].0, before[i + 1].0));
                    }
                }
            }
            i += 1;
        }
        proof {
            let m = entries_map(before);
            assert forall|k: HexCoord| #[trigger]
                entries_map(kept@).contains_key(k) <==> vacate_map(m, id@).contains_key(k) by {
                if has_key(kept@, k) {
                    let x = choose|x: int| 0 <= x < kept@.len() && #[trigger] kept@[x].0 == k;
                }
                if m.contains_key(k) && m[k] != id@ {
                    let x = choose|x: int| 0 <= x < before.len() && #[trigger] before[x].0 == k;
                    lemma_entries_at(before, x);
                }
            }
            assert forall|k: HexCoord| #[trigger]
                entries_map(kept@).contains_key(k) implies entries_map(kept@)[k] == vacate_map(
                m,
                id@,
            )[k] by {
                let x = choose|x: int| 0 <= x < kept@.len() && #[trigger] kept@[x].0 == k;
                lemma_entries_at(kept@, x);
            }
            assert(entries_map(kept@) =~= vacate_map(m, id@));
        }
        self.tiles = kept;
    }

    /// Who holds `coord`, if anyone.
    pub fn occupant_at(&self, coord: HexCoord) -> (r: Option<&str>)
        ensures
            r is Some <==> self@.contains_key(coord),
            r matches Some(s) ==> s@ == self@[coord],
    {
        proof {
            use_type_invariant(self);
        }
        match find_entry(&self.tiles, coord) {
            Some(i) => {
                proof {
                    lemma_entries_at(self.tiles@, i as int);
                }
                Some(self.tiles[i].1.as_str())
            },
            None => None,
        }
    }

    /// Whether nobody holds `coord`.
    pub fn is_free(&self, coord: HexCoord) -> (b: bool)
        ensures
            b == !self@.contains_key(coord),
    {
        proof {
            use_type_invariant(self);
        }
        find_entry(&self.tiles, coord).is_none()
    }

    /// Every held tile with its holder, in tile order.
    pub fn iter(&self) -> (r: Vec<(HexCoord, String)>)
        ensures
            entries_sorted(r@),
            entries_map(r@) == self@,
    {
        proof {
            use_type_invariant(self);
        }
        let v = clone_entries(&self.tiles);
        proof {
            lemma_entries_same_map(self.tiles@, v@);
        }
        v
    }
}

/// Giving fresh tiles to a new id and then vacating that id gives back the
/// board as it was.
pub proof fn lemma_occupy_then_vacate(
    m: Map<HexCoord, Seq<char>>,
    req: Seq<HexCoord>,
    id: Seq<char>,
)
    requires
        !any_taken(m, req),
        forall|k: HexCoord| #[trigger] m.contains_key(k) ==> m[k] != id,
    ensures
        vacate_map(occupy_map(m, req, id), id) == m,
{
    assert(vacate_map(occupy_map(m, req, id), id) =~= m);
}

} // verus!
