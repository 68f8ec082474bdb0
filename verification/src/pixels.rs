//! The shape of pixel data and the moves made on it: reading a FITS shape,
//! interleaving colour planes, sampling a channel, and where each pixel of a
//! Bayer mosaic belongs.
use vstd::prelude::*;
use crate::fits::{BayerPattern, FitsWriteError, ImageDataLayout};
use crate::text::chars_of;

verus! {

// ---------------------------------------------------------------------
// Shapes
// ---------------------------------------------------------------------

/// Width, height and depth of an image whose FITS shape is `shape` (slowest
/// axis first): `[height, width]` is one plane, `[depth, height, width]` is
/// planar colour, and any other shape is empty.
pub open spec fn whd_of(shape: Seq<usize>) -> (usize, usize, usize) {
    if shape.len() == 2 {
        (shape[1], shape[0], 1)
    } else if shape.len() == 3 {
        (shape[2], shape[1], shape[0])
    } else {
        (0, 0, 0)
    }
}

/// Width, height and depth of an image of this FITS shape.
pub fn shape_to_whd(shape: &Vec<usize>) -> (r: (usize, usize, usize))
    ensures
        r == whd_of(shape@),
{
    if shape.len() == 2 {
        (shape[1], shape[0], 1)
    } else if shape.len() == 3 {
        (shape[2], shape[1], shape[0])
    } else {
        (0, 0, 0)
    }
}

/// How the pixels of a frame are laid out, as read from its FITS shape.
#[derive(Debug, Clone)]
pub struct ImageGeometry {
    pub depth: usize,
    pub width: usize,
    pub height: usize,
    pub layout: ImageDataLayout,
}

/// The geometry of a frame of FITS shape `shape`: three planes first means
/// planar colour, anything else is one grey plane `[height, width]`.
pub fn image_geometry(shape: &Vec<usize>) -> (r: ImageGeometry)
    requires
        shape.len() == 2 || shape.len() == 3,
    ensures
        shape.len() == 3 && shape[0] == 3 ==> r.layout == ImageDataLayout::RGBPlanar && r.depth == 3
            && r.width == shape[2] && r.height == shape[1],
        !(shape.len() == 3 && shape[0] == 3) ==> r.layout == ImageDataLayout::Grayscale && r.depth == 1
            && r.width == shape[1] && r.height == shape[0],
{
    if shape.len() == 3 && shape[0] == 3 {
        ImageGeometry { depth: shape[0], width: shape[2], height: shape[1], layout: ImageDataLayout::RGBPlanar }
    } else {
        ImageGeometry { depth: 1, width: shape[1], height: shape[0], layout: ImageDataLayout::Grayscale }
    }
}

/// The FITS shape a frame is written with: `[height, width]` for grey,
/// `[3, height, width]` for planar colour; interleaved colour is not written.
pub fn fits_shape(layout: ImageDataLayout, width: usize, height: usize) -> (r: Result<Vec<usize>, FitsWriteError>)
    ensures
        layout == ImageDataLayout::Grayscale ==> (r matches Ok(s) && s@ == seq![height, width]),
        layout == ImageDataLayout::RGBPlanar ==> (r matches Ok(s) && s@ == seq![3usize, height, width]),
        layout == ImageDataLayout::RGB ==> r == Err::<Vec<usize>, FitsWriteError>(FitsWriteError::WriteImageFailed),
{
    match layout {
        ImageDataLayout::Grayscale => {
            let s = vec![height, width];
            Ok(s)
        },
        ImageDataLayout::RGBPlanar => {
            let s = vec![3, height, width];
            Ok(s)
        },
        ImageDataLayout::RGB => Err(FitsWriteError::WriteImageFailed),
    }
}

// ---------------------------------------------------------------------
// Interleaving colour planes
// ---------------------------------------------------------------------

/// Whether planar data of `len` values with planes of `area` values can be
/// read three at a time: the red and green planes are whole, and the blue
/// plane holds one value for each complete triple.
pub open spec fn planes_fit(len: int, area: int) -> bool {
    &&& 2 * area <= len
    &&& len / 3 <= area
    &&& len / 3 <= len - 2 * area
}

/// Turns planar colour (`RRR..GGG..BBB..`, planes of `plane_area` values) into
/// interleaved colour (`RGBRGB..`): the i-th triple is the i-th value of each
/// plane; the values past the last complete triple are `fill`.
pub fn interleave_planes<T: Copy>(pixels: &Vec<T>, plane_area: usize, fill: T) -> (r: Vec<T>)
    requires
        planes_fit(pixels.len() as int, plane_area as int),
    ensures
        r@.len() == pixels@.len(),
        forall|i: int|
            0 <= i < pixels@.len() / 3 ==> #[trigger] r@[3 * i] == pixels@[i] && r@[3 * i + 1] == pixels@[plane_area
                + i] && r@[3 * i + 2] == pixels@[2 * plane_area + i],
        forall|j: int| 3 * (pixels@.len() / 3) <= j < pixels@.len() ==> #[trigger] r@[j] == fill,
{
    let len = pixels.len();
    let n = len / 3;
    let mut r: Vec<T> = Vec::new();
    let mut i: usize = 0;
    while i < n
        invariant
            n == len / 3,
            len == pixels.len(),
            planes_fit(len as int, plane_area as int),
            i <= n,
            r@.len() == 3 * i,
            forall|k: int|
                0 <= k < i ==> #[trigger] r@[3 * k] == pixels@[k] && r@[3 * k + 1] == pixels@[plane_area + k]
                    && r@[3 * k + 2] == pixels@[2 * plane_area + k],
        decreases n - i,
    {
        let ghost before = r@;
        r.push(pixels[i]);
        r.push(pixels[plane_area + i]);
        r.push(pixels[plane_area + plane_area + i]);
        assert forall|k: int| 0 <= k < i + 1 implies #[trigger] r@[3 * k] == pixels@[k] && r@[3 * k + 1]
            == pixels@[plane_area + k] && r@[3 * k + 2] == pixels@[2 * plane_area + k] by {
            if k < i {
                assert(r@[3 * k] == before[3 * k]);
                assert(r@[3 * k + 1] == before[3 * k + 1]);
                assert(r@[3 * k + 2] == before[3 * k + 2]);
            }
        }
        i = i + 1;
    }
    while r.len() < len
        invariant
            n == len / 3,
            len == pixels.len(),
            3 * n <= r@.len() <= len,
            forall|k: int|
                0 <= k < n ==> #[trigger] r@[3 * k] == pixels@[k] && r@[3 * k + 1] == pixels@[plane_area + k]
                    && r@[3 * k + 2] == pixels@[2 * plane_area + k],
            forall|j: int| 3 * n <= j < r@.len() ==> #[trigger] r@[j] == fill,
        decreases len - r.len(),
    {
        let ghost before = r@;
        r.push(fill);
        assert forall|k: int| 0 <= k < n implies #[trigger] r@[3 * k] == pixels@[k] && r@[3 * k + 1]
            == pixels@[plane_area + k] && r@[3 * k + 2] == pixels@[2 * plane_area + k] by {
            assert(r@[3 * k] == before[3 * k]);
            assert(r@[3 * k + 1] == before[3 * k + 1]);
            assert(r@[3 * k + 2] == before[3 * k + 2]);
        }
    }
    r
}

// ---------------------------------------------------------------------
// Sampling a channel
// ---------------------------------------------------------------------

/// Where the `k`-th sample is taken.
pub open spec fn sample_position(offset: int, stride: int, k: int) -> int {
    offset + k * stride
}

/// Every `stride`-th value of `data`, starting at `offset`.
pub fn strided_sample<T: Copy>(data: &Vec<T>, offset: usize, stride: usize) -> (r: Vec<T>)
    requires
        stride > 0,
    ensures
        forall|k: int| 0 <= k < r@.len() ==> #[trigger] sample_position(offset as int, stride as int, k) < data@.len() && r@[k] == data@[sample_position(offset as int, stride as int, k)],
        offset + r@.len() * stride >= data@.len(),
{
    let mut r: Vec<T> = Vec::new();
    let mut idx: usize = offset;
    assert(r@.len() * stride == 0) by (nonlinear_arith)
        requires
            r@.len() == 0,
    ;
    loop
        invariant_except_break
            idx == offset + r@.len() * stride,
        invariant
            stride > 0,
            forall|k: int| 0 <= k < r@.len() ==> #[trigger] sample_position(offset as int, stride as int, k) < data@.len() && r@[k] == data@[sample_position(offset as int, stride as int, k)],
        ensures
            offset + r@.len() * stride >= data@.len(),
        decreases data@.len() + stride - idx,
    {
        if idx >= data.len() {
            break;
        }
        let ghost before = r@;
        r.push(data[idx]);
        assert(offset + (r@.len() - 1) * stride == idx);
        assert forall|k: int| 0 <= k < r@.len() implies #[trigger] sample_position(offset as int, stride as int, k) < data@.len()
            && r@[k] == data@[sample_position(offset as int, stride as int, k)] by {
            if k < before.len() {
                assert(r@[k] == before[k]);
            } else {
                assert(k == r@.len() - 1);
                assert(offset + k * stride == idx);
            }
        }
        assert(offset + r@.len() * stride == idx + stride) by (nonlinear_arith)
            requires
                offset + (r@.len() - 1) * stride == idx,
        ;
        match idx.checked_add(stride) {
            Some(next) => {
                idx = next;
            },
            None => {
                break;
            },
        }
    }
    r
}

// ---------------------------------------------------------------------
// Bayer mosaics
// ---------------------------------------------------------------------

/// The ASCII upper case of a character; every other character is kept.
pub open spec fn ascii_upper(c: char) -> char {
    if 'a' <= c && c <= 'z' {
        ((c as u32) - 32) as char
    } else {
        c
    }
}

/// The characters with ASCII letters upper-cased.
pub open spec fn ascii_uppercase(p: Seq<char>) -> Seq<char> {
    p.map_values(|c: char| ascii_upper(c))
}

/// A pattern the mosaic can be read with: four bytes long, and, once
/// upper-cased, holding an R, a G and a B.
pub open spec fn bayer_pattern_accepted(p: Seq<char>) -> bool {
    let upper = ascii_uppercase(p);
    &&& vstd::utf8::encode_utf8(p).len() == 4
    &&& upper.contains('R')
    &&& upper.contains('G')
    &&& upper.contains('B')
}

proof fn lemma_ascii_upper_is(c: char, u: char, l: char)
    requires
        'A' <= u <= 'Z',
        l as u32 == u as u32 + 32,
    ensures
        ascii_upper(c) == u <==> (c == u || c == l),
{
    if 'a' <= c && c <= 'z' {
        assert(((c as u32) - 32) as char == u <==> c as u32 == u as u32 + 32);
    }
}

/// Whether the pattern holds `u` or its lower case `l`.
fn holds_either(cs: &Vec<char>, u: char, l: char) -> (r: bool)
    requires
        'A' <= u <= 'Z',
        l as u32 == u as u32 + 32,
    ensures
        r == ascii_uppercase(cs@).contains(u),
{
    let ghost upper = ascii_uppercase(cs@);
    let mut k: usize = 0;
    while k < cs.len()
        invariant
            k <= cs.len(),
            'A' <= u <= 'Z',
            l as u32 == u as u32 + 32,
            upper == ascii_uppercase(cs@),
            forall|j: int| 0 <= j < k ==> upper[j] != u,
        decreases cs.len() - k,
    {
        proof {
            lemma_ascii_upper_is(cs@[k as int], u, l);
        }
        if cs[k] == u || cs[k] == l {
            assert(upper[k as int] == u);
            return true;
        }
        k = k + 1;
    }
    false
}

/// Whether a mosaic can be read with this pattern: four bytes long and, once
/// upper-cased, holding an R, a G and a B.
pub fn is_bayer_pattern_accepted(pattern: &str) -> (r: bool)
    requires
        vstd::utf8::encode_utf8(pattern@).len() <= usize::MAX,
    ensures
        r == bayer_pattern_accepted(pattern@),
{
    if pattern.len() != 4 {
        return false;
    }
    let cs = chars_of(pattern);
    holds_either(&cs, 'R', 'r') && holds_either(&cs, 'G', 'g') && holds_either(&cs, 'B', 'b')
}

/// The four cells of a pattern, in reading order (top left, top right, bottom
/// left, bottom right): its first four characters, and a space for each one
/// missing.
pub open spec fn bayer_cells_of(p: Seq<char>) -> Seq<char> {
    Seq::new(4, |i: int| if i < p.len() { p[i] } else { ' ' })
}

/// The four cells of a pattern, in reading order.
pub fn bayer_cells(pattern: &str) -> (r: Vec<char>)
    ensures
        r@ == bayer_cells_of(pattern@),
{
    let cs = chars_of(pattern);
    let mut r: Vec<char> = Vec::new();
    let mut k: usize = 0;
    while k < 4
        invariant
            k <= 4,
            cs@ == pattern@,
            r@.len() == k,
            forall|j: int| 0 <= j < k ==> #[trigger] r@[j] == bayer_cells_of(pattern@)[j],
        decreases 4 - k,
    {
        if k < cs.len() {
            r.push(cs[k]);
        } else {
            r.push(' ');
        }
        k = k + 1;
    }
    assert(r@ =~= bayer_cells_of(pattern@));
    r
}

/// The cell of the pattern that covers pixel `(ox, oy)` of a mosaic whose
/// pattern starts at `(x_offset, y_offset)`: the row and column parity of the
/// shifted position pick it.
pub open spec fn cell_index(ox: int, oy: int, x_offset: int, y_offset: int) -> int {
    2 * ((oy + y_offset) % 2) + (ox + x_offset) % 2
}

/// The channel (0 red, 1 green, 2 blue) a cell's letter stands for; any other
/// letter, lower case included, stands for none.
pub open spec fn channel_of(c: char) -> Option<usize> {
    if c == 'R' {
        Some(0usize)
    } else if c == 'G' {
        Some(1usize)
    } else if c == 'B' {
        Some(2usize)
    } else {
        None
    }
}

/// The channel that pixel `(ox, oy)` of the mosaic adds to, if any.
pub fn bayer_channel(cells: &Vec<char>, ox: usize, oy: usize, x_offset: usize, y_offset: usize) -> (r: Option<usize>)
    requires
        cells.len() == 4,
    ensures
        r == channel_of(cells@[cell_index(ox as int, oy as int, x_offset as int, y_offset as int)]),
{
    let row = (oy % 2 + y_offset % 2) % 2;
    let col = (ox % 2 + x_offset % 2) % 2;
    assert(row == (oy + y_offset) % 2) by (nonlinear_arith)
        requires
            row == (oy % 2 + y_offset % 2) % 2,
            oy >= 0,
            y_offset >= 0,
    ;
    assert(col == (ox + x_offset) % 2) by (nonlinear_arith)
        requires
            col == (ox % 2 + x_offset % 2) % 2,
            ox >= 0,
            x_offset >= 0,
    ;
    let c = cells[2 * row + col];
    if c == 'R' {
        Some(0)
    } else if c == 'G' {
        Some(1)
    } else if c == 'B' {
        Some(2)
    } else {
        None
    }
}

/// The pattern a frame is debayered with: the one asked for, or else the
/// frame's own, always at the frame's own offsets; with neither there is none.
pub fn resolve_bayer_pattern(original: &Option<BayerPattern>, requested: Option<String>) -> (r: Option<BayerPattern>)
    ensures
        original is Some ==> (r matches Some(b) && b.x_offset == original->0.x_offset && b.y_offset
            == original->0.y_offset && b.pattern@ == (match requested {
            Some(p) => p@,
            None => original->0.pattern@,
        })),
        original is None ==> (match requested {
            Some(p) => r matches Some(b) && b.pattern@ == p@ && b.x_offset == 0 && b.y_offset == 0,
            None => r is None,
        }),
{
    match original {
        Some(o) => {
            let pattern = match requested {
                Some(p) => p,
                None => o.pattern.clone(),
            };
            Some(BayerPattern { pattern, x_offset: o.x_offset, y_offset: o.y_offset })
        },
        None => match requested {
            Some(pattern) => Some(BayerPattern { pattern, x_offset: 0, y_offset: 0 }),
            None => None,
        },
    }
}

/// The size of the image a mosaic is debayered into: one pixel per two-by-two
/// block, a last odd row or column dropped.
pub fn debayered_size(width: usize, height: usize) -> (r: (usize, usize))
    ensures
        r == (width / 2, height / 2),
{
    (width / 2, height / 2)
}

} // verus!
