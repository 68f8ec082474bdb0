//! Inspecting a frame for defects tile by tile: where the square tiles that a
//! defect model looks at are laid over a frame so that they cover all of it,
//! the defect classes the model reports, and the summary of what it found.
use vstd::prelude::*;
use vstd::arithmetic::div_mod::lemma_fundamental_div_mod;
use crate::text::{text_equal, text_of};

verus! {

// ---------------------------------------------------------------------
// Tiling a frame
// ---------------------------------------------------------------------

/// The side, in pixels, of the square tiles a frame is inspected in.
pub const TILE_SIZE: usize = 512;

/// The step, in pixels, between neighbouring tiles; the overlap of about a
/// tenth of a tile keeps a streak on a tile boundary from being missed.
pub const TILE_STRIDE: usize = 460;

/// The start positions along one side of `extent` pixels of tiles of `tile`
/// pixels laid every `stride` pixels over the whole side: 0, stride,
/// 2·stride, … as long as a whole tile fits, then one tile flush with the far
/// edge when the last of those stops short of it. A side no longer than a
/// tile gets one tile, at 0.
pub open spec fn tile_origins_of(extent: int, tile: int, stride: int) -> Seq<int> {
    if extent <= tile {
        seq![0]
    } else {
        let last = extent - tile;
        let grid = Seq::new((last / stride + 1) as nat, |k: int| k * stride);
        if last % stride == 0 {
            grid
        } else {
            grid.push(last)
        }
    }
}

/// The positions of a `Vec<usize>` as integers.
pub open spec fn positions(v: Seq<usize>) -> Seq<int> {
    v.map_values(|o: usize| o as int)
}

/// The start positions along one side of `extent` pixels of the tiles of
/// `tile` pixels, laid every `stride` pixels, that cover that side.
pub fn tile_origins(extent: usize, tile: usize, stride: usize) -> (r: Vec<usize>)
    requires
        stride > 0,
    ensures
        positions(r@) == tile_origins_of(extent as int, tile as int, stride as int),
{
    let mut r: Vec<usize> = Vec::new();
    if extent <= tile {
        r.push(0);
        assert(positions(r@) =~= seq![0int]);
        return r;
    }
    let last = extent - tile;
    let q = last / stride;
    proof {
        lemma_fundamental_div_mod(last as int, stride as int);
    }
    let mut k: usize = 0;
    loop
        invariant_except_break
            positions(r@) =~= Seq::new(k as nat, |j: int| j * stride),
        invariant
            stride > 0,
            last == extent - tile,
            q == last / stride,
            last == stride * q + last % stride,
            k <= q,
        ensures
            positions(r@) =~= Seq::new((q + 1) as nat, |j: int| j * stride),
        decreases q - k,
    {
        assert(k * stride <= last) by (nonlinear_arith)
            requires
                k <= q,
                last == stride * q + last % stride,
                last % stride >= 0,
                stride > 0,
        ;
        let ghost before = r@;
        r.push(k * stride);
        assert(positions(r@) =~= positions(before).push(k * stride));
        if k == q {
            break;
        }
        k = k + 1;
    }
    if last % stride != 0 {
        let ghost before = r@;
        r.push(last);
        assert(positions(r@) =~= positions(before).push(last as int));
    }
    r
}

/// The tiles cover the side: with a step no longer than a tile, every pixel
/// of a side of `extent` pixels lies in one of the tiles laid by
/// `tile_origins_of`.
pub proof fn lemma_tiles_cover(extent: int, tile: int, stride: int, p: int)
    requires
        0 < stride <= tile,
        0 <= p < extent,
    ensures
        exists|i: int|
            0 <= i < tile_origins_of(extent, tile, stride).len() && #[trigger] tile_origins_of(
                extent,
                tile,
                stride,
            )[i] <= p < tile_origins_of(extent, tile, stride)[i] + tile,
{
    let o = tile_origins_of(extent, tile, stride);
    if extent <= tile {
        assert(o[0] <= p < o[0] + tile);
    } else {
        let last = extent - tile;
        let q = last / stride;
        let rem = last % stride;
        lemma_fundamental_div_mod(last, stride);
        lemma_fundamental_div_mod(p, stride);
        let k = p / stride;
        let pr = p % stride;
        assert(0 <= rem < stride && 0 <= pr < stride);
        if k <= q {
            assert(k >= 0) by (nonlinear_arith)
                requires
                    p == stride * k + pr,
                    p >= 0,
                    pr < stride,
                    stride > 0,
            ;
            assert(o[k] == k * stride);
            assert(o[k] <= p < o[k] + tile);
        } else {
            assert(p > last) by (nonlinear_arith)
                requires
                    k >= q + 1,
                    p == stride * k + pr,
                    last == stride * q + rem,
                    pr >= 0,
                    rem < stride,
                    stride > 0,
            ;
            if rem == 0 {
                assert(o[q] == q * stride);
                assert(o[q] <= p < o[q] + tile);
            } else {
                assert(o[q + 1] == last);
                assert(o[q + 1] <= p < o[q + 1] + tile);
            }
        }
    }
}

/// On a side at least a tile long every tile lies inside the side, the first
/// starts at its near edge, and the tiles come in strictly increasing order.
pub proof fn lemma_tiles_inside_in_order(extent: int, tile: int, stride: int)
    requires
        0 < stride,
        0 <= tile <= extent,
    ensures
        tile_origins_of(extent, tile, stride)[0] == 0,
        forall|i: int|
            0 <= i < tile_origins_of(extent, tile, stride).len() ==> 0 <= #[trigger] tile_origins_of(
                extent,
                tile,
                stride,
            )[i] && tile_origins_of(extent, tile, stride)[i] + tile <= extent,
        forall|i: int, j: int|
            0 <= i < j < tile_origins_of(extent, tile, stride).len() ==> #[trigger] tile_origins_of(
                extent,
                tile,
                stride,
            )[i] < #[trigger] tile_origins_of(extent, tile, stride)[j],
{
    let o = tile_origins_of(extent, tile, stride);
    if extent > tile {
        let last = extent - tile;
        let q = last / stride;
        let rem = last % stride;
        lemma_fundamental_div_mod(last, stride);
        assert(0 <= rem < stride);
        assert(q >= 0) by (nonlinear_arith)
            requires
                last == stride * q + rem,
                last > 0,
                rem < stride,
                stride > 0,
        ;
        assert forall|i: int| 0 <= i < o.len() implies 0 <= #[trigger] o[i] && o[i] + tile <= extent by {
            if i <= q {
                assert(o[i] == i * stride);
                assert(0 <= i * stride <= last) by (nonlinear_arith)
                    requires
                        0 <= i <= q,
                        last == stride * q + rem,
                        rem >= 0,
                        stride > 0,
                ;
            }
        }
        assert forall|i: int, j: int| 0 <= i < j < o.len() implies #[trigger] o[i] < #[trigger] o[j] by {
            if j <= q {
                assert(i * stride < j * stride) by (nonlinear_arith)
                    requires
                        i < j,
                        stride > 0,
                ;
            } else {
                assert(o[j] == last);
                assert(rem != 0);
                assert(i * stride < last) by (nonlinear_arith)
                    requires
                        0 <= i <= q,
                        last == stride * q + rem,
                        rem > 0,
                        stride > 0,
                ;
            }
        }
    }
}

/// The top-left corners `(x, y)` of the tiles laid over a frame whose columns
/// start at `xs` and rows at `ys`: row by row, and along each row column by
/// column.
pub open spec fn tile_grid(xs: Seq<int>, ys: Seq<int>) -> Seq<(int, int)>
    decreases ys.len(),
{
    if ys.len() == 0 {
        Seq::empty()
    } else {
        tile_grid(xs, ys.drop_last()) + xs.map_values(|x: int| (x, ys.last()))
    }
}

/// The top-left corners of the tiles an inspection of a `width` by `height`
/// frame looks at.
pub open spec fn frame_tiles_of(width: int, height: int) -> Seq<(int, int)> {
    tile_grid(
        tile_origins_of(width, TILE_SIZE as int, TILE_STRIDE as int),
        tile_origins_of(height, TILE_SIZE as int, TILE_STRIDE as int),
    )
}

/// The corners of a `Vec<(usize, usize)>` as integers.
pub open spec fn corners(v: Seq<(usize, usize)>) -> Seq<(int, int)> {
    v.map_values(|c: (usize, usize)| (c.0 as int, c.1 as int))
}

/// The top-left corners `(x, y)` of the tiles of `TILE_SIZE` pixels, laid
/// every `TILE_STRIDE` pixels, that an inspection of a `width` by `height`
/// frame looks at, row by row.
pub fn frame_tiles(width: usize, height: usize) -> (r: Vec<(usize, usize)>)
    ensures
        corners(r@) == frame_tiles_of(width as int, height as int),
{
    let xs = tile_origins(width, TILE_SIZE, TILE_STRIDE);
    let ys = tile_origins(height, TILE_SIZE, TILE_STRIDE);
    let ghost gx = positions(xs@);
    let ghost gy = positions(ys@);
    let mut r: Vec<(usize, usize)> = Vec::new();
    let mut j: usize = 0;
    while j < ys.len()
        invariant
            j <= ys.len(),
            gx == positions(xs@),
            gy == positions(ys@),
            corners(r@) == tile_grid(gx, gy.take(j as int)),
        decreases ys.len() - j,
    {
        let y = ys[j];
        let ghost row_start = corners(r@);
        let mut i: usize = 0;
        while i < xs.len()
            invariant
                i <= xs.len(),
                j < ys.len(),
                y == ys@[j as int],
                gx == positions(xs@),
                corners(r@) =~= row_start + gx.take(i as int).map_values(|x: int| (x, y as int)),
            decreases xs.len() - i,
        {
            let ghost before = corners(r@);
            r.push((xs[i], y));
            assert(corners(r@) =~= before.push((xs@[i as int] as int, y as int)));
            assert(gx.take(i + 1).map_values(|x: int| (x, y as int)) =~= gx.take(i as int).map_values(
                |x: int| (x, y as int),
            ).push((gx[i as int], y as int)));
            i = i + 1;
        }
        assert(gx.take(xs.len() as int) =~= gx);
        assert(gy.take(j + 1).drop_last() =~= gy.take(j as int));
        assert(gy.take(j + 1).last() == y as int);
        j = j + 1;
    }
    assert(gy.take(ys.len() as int) =~= gy);
    r
}

/// Every row start paired with every column start is a corner of the grid.
pub proof fn lemma_grid_holds(xs: Seq<int>, ys: Seq<int>, i: int, j: int)
    requires
        0 <= i < xs.len(),
        0 <= j < ys.len(),
    ensures
        tile_grid(xs, ys).contains((xs[i], ys[j])),
    decreases ys.len(),
{
    let row = xs.map_values(|x: int| (x, ys.last()));
    let before = tile_grid(xs, ys.drop_last());
    if j == ys.len() - 1 {
        assert(tile_grid(xs, ys)[before.len() + i] == row[i]);
    } else {
        lemma_grid_holds(xs, ys.drop_last(), i, j);
        let k = choose|k: int| 0 <= k < before.len() && before[k] == (xs[i], ys[j]);
        assert(tile_grid(xs, ys)[k] == before[k]);
    }
}

/// The whole frame is inspected: every pixel `(px, py)` of a `width` by
/// `height` frame lies in one of the tiles of `frame_tiles_of`.
pub proof fn lemma_frame_covered(width: int, height: int, px: int, py: int)
    requires
        0 <= px < width,
        0 <= py < height,
    ensures
        exists|c: (int, int)|
            #[trigger] frame_tiles_of(width, height).contains(c) && c.0 <= px < c.0 + TILE_SIZE && c.1 <= py
                < c.1 + TILE_SIZE,
{
    let xs = tile_origins_of(width, TILE_SIZE as int, TILE_STRIDE as int);
    let ys = tile_origins_of(height, TILE_SIZE as int, TILE_STRIDE as int);
    lemma_tiles_cover(width, TILE_SIZE as int, TILE_STRIDE as int, px);
    lemma_tiles_cover(height, TILE_SIZE as int, TILE_STRIDE as int, py);
    let i = choose|i: int| 0 <= i < xs.len() && #[trigger] xs[i] <= px < xs[i] + TILE_SIZE;
    let j = choose|j: int| 0 <= j < ys.len() && #[trigger] ys[j] <= py < ys[j] + TILE_SIZE;
    lemma_grid_holds(xs, ys, i, j);
    assert(frame_tiles_of(width, height).contains((xs[i], ys[j])));
}

// ---------------------------------------------------------------------
// Defect classes and the inspection summary
// ---------------------------------------------------------------------

/// The number of defect classes the model reports.
pub const DEFECT_CLASS_COUNT: usize = 5;

/// The defect classes, in the order of the model's outputs.
pub open spec fn defect_classes() -> Seq<Seq<char>> {
    seq!["satellite_streak"@, "airplane"@, "cloud"@, "obstruction"@, "star_trail"@]
}

/// The name of the defect class of the model's output `index`.
pub fn defect_class_name(index: usize) -> (r: &'static str)
    requires
        index < DEFECT_CLASS_COUNT,
    ensures
        r@ == defect_classes()[index as int],
{
    if index == 0 {
        "satellite_streak"
    } else if index == 1 {
        "airplane"
    } else if index == 2 {
        "cloud"
    } else if index == 3 {
        "obstruction"
    } else {
        "star_trail"
    }
}

/// A defect flagged in one tile: the tile's top-left corner and the name of
/// the class flagged there. How confident the model was is a floating-point
/// number and stays with the caller.
#[derive(Debug, Clone)]
pub struct TileAnomaly {
    pub x: usize,
    pub y: usize,
    pub class_name: String,
}

/// The class names of a list of anomalies, in order.
pub open spec fn anomaly_classes(s: Seq<TileAnomaly>) -> Seq<Seq<char>> {
    s.map_values(|a: TileAnomaly| a.class_name@)
}

/// The texts of `s` with each one kept at its first occurrence only.
pub open spec fn first_occurrences(s: Seq<Seq<char>>) -> Seq<Seq<char>>
    decreases s.len(),
{
    if s.len() == 0 {
        Seq::empty()
    } else {
        let prev = first_occurrences(s.drop_last());
        if prev.contains(s.last()) {
            prev
        } else {
            prev.push(s.last())
        }
    }
}

/// `first_occurrences` lists every text of `s` once and nothing else.
pub proof fn lemma_first_occurrences(s: Seq<Seq<char>>)
    ensures
        first_occurrences(s).no_duplicates(),
        forall|t: Seq<char>| #[trigger] first_occurrences(s).contains(t) <==> s.contains(t),
        first_occurrences(s).len() == 0 <==> s.len() == 0,
    decreases s.len(),
{
    if s.len() > 0 {
        let init = s.drop_last();
        lemma_first_occurrences(init);
        let prev = first_occurrences(init);
        assert(s =~= init.push(s.last()));
        assert forall|t: Seq<char>| #[trigger] first_occurrences(s).contains(t) <==> s.contains(t) by {
            if s.contains(t) && t != s.last() {
                let i = choose|i: int| 0 <= i < s.len() && s[i] == t;
                assert(init[i] == t);
            }
            if init.contains(t) {
                let i = choose|i: int| 0 <= i < init.len() && init[i] == t;
                assert(s[i] == t);
            }
            if !prev.contains(s.last()) {
                assert(prev.push(s.last())[prev.len() as int] == s.last());
                if prev.contains(t) {
                    let i = choose|i: int| 0 <= i < prev.len() && prev[i] == t;
                    assert(prev.push(s.last())[i] == t);
                }
                if prev.push(s.last()).contains(t) && t != s.last() {
                    let i = choose|i: int| 0 <= i < prev.len() + 1 && prev.push(s.last())[i] == t;
                    assert(prev[i] == t);
                }
            }
            assert(s[s.len() - 1] == s.last());
        }
        if prev.contains(s.last()) {
            assert(prev.len() > 0);
        } else {
            assert forall|i: int, j: int|
                0 <= i < j < prev.len() + 1 implies #[trigger] prev.push(s.last())[i] != #[trigger] prev.push(
                s.last(),
            )[j] by {
                if j == prev.len() {
                    assert(prev[i] == prev.push(s.last())[i]);
                }
            }
        }
    }
}

/// What an inspection of a frame found: whether the frame is clean, and the
/// defect classes flagged anywhere in it, each once.
#[derive(Debug, Clone)]
pub struct InspectionSummary {
    pub is_clean: bool,
    pub detected_defects: Vec<String>,
}

/// The texts of a list of strings.
pub open spec fn texts(v: Seq<String>) -> Seq<Seq<char>> {
    v.map_values(|s: String| s@)
}

fn lists_text(v: &Vec<String>, t: &str) -> (r: bool)
    ensures
        r == texts(v@).contains(t@),
{
    let mut k: usize = 0;
    while k < v.len()
        invariant
            k <= v.len(),
            forall|j: int| 0 <= j < k ==> v@[j]@ != t@,
        decreases v.len() - k,
    {
        if text_equal(v[k].as_str(), t) {
            assert(texts(v@)[k as int] == t@);
            return true;
        }
        k = k + 1;
    }
    assert forall|j: int| 0 <= j < texts(v@).len() implies texts(v@)[j] != t@ by {
        assert(texts(v@)[j] == v@[j]@);
    }
    false
}

/// The summary of the anomalies flagged in the tiles of a frame: the frame is
/// clean exactly when no tile flagged anything, and each flagged class is
/// listed once, in the order it was first flagged.
pub fn summarize_anomalies(anomalies: &Vec<TileAnomaly>) -> (r: InspectionSummary)
    ensures
        r.is_clean == (anomalies.len() == 0),
        texts(r.detected_defects@) == first_occurrences(anomaly_classes(anomalies@)),
        r.is_clean == (r.detected_defects.len() == 0),
{
    let ghost names = anomaly_classes(anomalies@);
    let mut found: Vec<String> = Vec::new();
    let mut k: usize = 0;
    while k < anomalies.len()
        invariant
            k <= anomalies.len(),
            names == anomaly_classes(anomalies@),
            texts(found@) == first_occurrences(names.take(k as int)),
        decreases anomalies.len() - k,
    {
        let name = anomalies[k].class_name.as_str();
        assert(names.take(k + 1).drop_last() =~= names.take(k as int));
        assert(names.take(k + 1).last() == name@);
        if !lists_text(&found, name) {
            let ghost before = found@;
            found.push(text_of(name));
            assert(texts(found@) =~= texts(before).push(name@));
        }
        k = k + 1;
    }
    assert(names.take(anomalies.len() as int) =~= names);
    proof {
        lemma_first_occurrences(names);
    }
    InspectionSummary { is_clean: anomalies.len() == 0, detected_defects: found }
}

} // verus!
