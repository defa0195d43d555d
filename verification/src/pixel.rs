//! Colour conversion of decoded frames to BGRA, and output sizing.

use vstd::prelude::*;
use vstd::arithmetic::div_mod::{lemma_fundamental_div_mod_converse, lemma_div_is_ordered};
use vstd::arithmetic::mul::{lemma_mul_inequality, lemma_mul_is_distributive_add};

verus! {

/// Clamps to the byte range.
pub open spec fn clamp_byte(v: int) -> u8 {
    if v < 0 {
        0
    } else if v > 255 {
        255
    } else {
        v as u8
    }
}

/// The luma term of the BT.601 integer conversion.
pub open spec fn luma_term(y: u8) -> int {
    298 * (if y < 16 {
        0
    } else {
        y - 16
    })
}

/// Blue of a YUV sample (BT.601, studio range, fixed point).
pub open spec fn blue_of(y: u8, u: u8, v: u8) -> u8 {
    clamp_byte((luma_term(y) + 516 * (u - 128) + 128) / 256)
}

/// Green of a YUV sample.
pub open spec fn green_of(y: u8, u: u8, v: u8) -> u8 {
    clamp_byte((luma_term(y) - 100 * (u - 128) - 208 * (v - 128) + 128) / 256)
}

/// Red of a YUV sample.
pub open spec fn red_of(y: u8, u: u8, v: u8) -> u8 {
    clamp_byte((luma_term(y) + 409 * (v - 128) + 128) / 256)
}

/// Channel `c` (0 blue, 1 green, 2 red, 3 alpha) of the BGRA pixel of a
/// YUV sample; alpha is opaque.
pub open spec fn bgra_channel(y: u8, u: u8, v: u8, c: int) -> u8 {
    if c == 0 {
        blue_of(y, u, v)
    } else if c == 1 {
        green_of(y, u, v)
    } else if c == 2 {
        red_of(y, u, v)
    } else {
        255
    }
}

fn clamp_to_byte(value: i32) -> (r: u8)
    ensures
        r == clamp_byte(value as int),
{
    if value < 0 {
        0
    } else if value > 255 {
        255
    } else {
        value as u8
    }
}

/// Converts one YUV sample to blue, green and red.
fn convert_sample(y: u8, u: u8, v: u8) -> (r: (u8, u8, u8))
    ensures
        r.0 == blue_of(y, u, v),
        r.1 == green_of(y, u, v),
        r.2 == red_of(y, u, v),
{
    let u_val = u as i32 - 128;
    let v_val = v as i32 - 128;
    let y_val = y as i32;
    let c = if y_val - 16 < 0 {
        0
    } else {
        y_val - 16
    };
    let b_sum = 298 * c + 516 * u_val + 128;
    let g_sum = 298 * c - 100 * u_val - 208 * v_val + 128;
    let r_sum = 298 * c + 409 * v_val + 128;
    let b = b_sum >> 8;
    let g = g_sum >> 8;
    let r = r_sum >> 8;
    proof {
        assert((b_sum >> 8) as int == (b_sum as int) / 256) by (bit_vector);
        assert((g_sum >> 8) as int == (g_sum as int) / 256) by (bit_vector);
        assert((r_sum >> 8) as int == (r_sum as int) / 256) by (bit_vector);
    }
    (clamp_to_byte(b), clamp_to_byte(g), clamp_to_byte(r))
}

/// Byte `k` of the BGRA image converted from NV12 planes: pixel `k / 4`
/// at row `(k / 4) / width` and column `(k / 4) % width`, channel `k % 4`.
/// Its luma is at `row * stride + col`; the interleaved chroma pair of the
/// 2x2 block at `(row / 2) * stride + (col / 2) * 2`.
pub open spec fn nv12_byte(y_plane: Seq<u8>, uv_plane: Seq<u8>, stride: int, width: int, k: int) -> u8 {
    let q = k / 4;
    let row = q / width;
    let col = q % width;
    let uv = (row / 2) * stride + (col / 2) * 2;
    bgra_channel(y_plane[row * stride + col], uv_plane[uv], uv_plane[uv + 1], k % 4)
}

/// The NV12 planes hold every sample a `width` x `height` image reads.
pub open spec fn nv12_planes_cover(
    y_len: int,
    uv_len: int,
    stride: int,
    width: int,
    height: int,
) -> bool {
    width == 0 || height == 0 || ((height - 1) * stride + width <= y_len && ((height - 1) / 2)
        * stride + ((width - 1) / 2) * 2 + 2 <= uv_len)
}

proof fn lemma_row_col(q: int, width: int, row: int, col: int)
    requires
        width > 0,
        0 <= col < width,
        row >= 0,
        q == row * width + col,
    ensures
        q / width == row,
        q % width == col,
{
    lemma_fundamental_div_mod_converse(q, width, row, col);
}

proof fn lemma_nv12_reads(
    y_len: int,
    uv_len: int,
    stride: int,
    width: int,
    height: int,
    row: int,
    col: int,
)
    requires
        stride >= 0,
        0 <= row < height,
        0 <= col < width,
        nv12_planes_cover(y_len, uv_len, stride, width, height),
    ensures
        row * stride + col < y_len,
        (row / 2) * stride + (col / 2) * 2 + 1 < uv_len,
        0 <= row * stride,
        0 <= (row / 2) * stride,
{
    lemma_mul_inequality(row, height - 1, stride);
    lemma_div_is_ordered(row, height - 1, 2);
    lemma_div_is_ordered(col, width - 1, 2);
    lemma_mul_inequality(row / 2, (height - 1) / 2, stride);
    assert(0 <= row * stride) by (nonlinear_arith)
        requires
            row >= 0,
            stride >= 0,
    ;
    assert(0 <= (row / 2) * stride) by (nonlinear_arith)
        requires
            row / 2 >= 0,
            stride >= 0,
    ;
}

/// Converts an NV12 image (a luma plane and an interleaved chroma plane
/// sharing `stride`) to BGRA in `out`, one opaque pixel per four bytes.
pub fn nv12_to_bgra(
    y_plane: &[u8],
    uv_plane: &[u8],
    stride: usize,
    width: usize,
    height: usize,
    out: &mut [u8],
)
    requires
        nv12_planes_cover(y_plane@.len() as int, uv_plane@.len() as int, stride as int, width as int, height as int),
        width * height * 4 <= old(out)@.len(),
    ensures
        final(out)@.len() == old(out)@.len(),
        forall|k: int|
            0 <= k < width * height * 4 ==> #[trigger] final(out)@[k] == nv12_byte(
                y_plane@,
                uv_plane@,
                stride as int,
                width as int,
                k,
            ),
        forall|k: int| width * height * 4 <= k < old(out)@.len() ==> #[trigger] final(out)@[k] == old(out)@[k],
{
    if width == 0 || height == 0 {
        return;
    }
    let out_len = out.len();
    let y_len = y_plane.len();
    let uv_len = uv_plane.len();
    assert(width * height <= width * height * 4) by (nonlinear_arith);
    let total = width * height;
    let ghost original = out@;
    let mut q: usize = 0;
    let mut row: usize = 0;
    let mut col: usize = 0;
    while q < total
        invariant
            width > 0,
            height > 0,
            total == width * height,
            total * 4 <= out@.len(),
            out@.len() == original.len(),
            out_len == original.len(),
            y_len == y_plane@.len(),
            uv_len == uv_plane@.len(),
            q <= total,
            col < width,
            q == row * width + col,
            q < total ==> row < height,
            nv12_planes_cover(y_plane@.len() as int, uv_plane@.len() as int, stride as int, width as int, height as int),
            forall|k: int| 0 <= k < q * 4 ==> #[trigger] out@[k] == nv12_byte(
                y_plane@,
                uv_plane@,
                stride as int,
                width as int,
                k,
            ),
            forall|k: int| q * 4 <= k < original.len() ==> #[trigger] out@[k] == original[k],
        decreases total - q,
    {
        proof {
            lemma_nv12_reads(
                y_plane@.len() as int,
                uv_plane@.len() as int,
                stride as int,
                width as int,
                height as int,
                row as int,
                col as int,
            );
            lemma_row_col(q as int, width as int, row as int, col as int);
        }
        let y_index = row * stride + col;
        let uv_index = (row / 2) * stride + (col / 2) * 2;
        let (b, g, r) = convert_sample(y_plane[y_index], uv_plane[uv_index], uv_plane[uv_index + 1]);
        let o = q * 4;
        out[o] = b;
        out[o + 1] = g;
        out[o + 2] = r;
        out[o + 3] = 255;
        proof {
            assert forall|k: int| 0 <= k < (q + 1) * 4 implies #[trigger] out@[k] == nv12_byte(
                y_plane@,
                uv_plane@,
                stride as int,
                width as int,
                k,
            ) by {
                if k >= q * 4 {
                    assert(k / 4 == q);
                    assert(k % 4 == k - q * 4);
                }
            }
        }
        q = q + 1;
        if col + 1 == width {
            proof {
                assert((row + 1) * width == row * width + width) by (nonlinear_arith);
            }
            col = 0;
            row = row + 1;
        } else {
            col = col + 1;
        }
        proof {
            if q < total {
                assert(row < height) by (nonlinear_arith)
                    requires
                        q == row * width + col,
                        q < width * height,
                        col >= 0,
                        width > 0,
                ;
            }
        }
    }
}


/// Byte `k` of the BGRA image converted from packed YUY2 rows
/// (`Y0 U Y1 V` per pixel pair): pixel `k / 4` at row `(k / 4) / width`
/// and column `(k / 4) % width`, channel `k % 4`.
pub open spec fn yuy2_byte(src: Seq<u8>, stride: int, width: int, k: int) -> u8 {
    let q = k / 4;
    let row = q / width;
    let col = q % width;
    let base = row * stride + (col / 2) * 4;
    bgra_channel(src[base + (col % 2) * 2], src[base + 1], src[base + 3], k % 4)
}

/// The YUY2 rows hold every sample a `width` x `height` image reads.
pub open spec fn yuy2_rows_cover(src_len: int, stride: int, width: int, height: int) -> bool {
    &&& height * stride <= src_len
    &&& (width == 0 || height == 0 || ((width - 1) / 2) * 4 + 3 < stride)
}

proof fn lemma_yuy2_reads(src_len: int, stride: int, width: int, height: int, row: int, col: int)
    requires
        stride >= 0,
        0 <= row < height,
        0 <= col < width,
        yuy2_rows_cover(src_len, stride, width, height),
    ensures
        0 <= row * stride,
        row * stride + (col / 2) * 4 + 3 < src_len,
{
    lemma_div_is_ordered(col, width - 1, 2);
    lemma_mul_inequality(row + 1, height, stride);
    assert((row + 1) * stride == row * stride + stride) by (nonlinear_arith);
    assert(0 <= row * stride) by (nonlinear_arith)
        requires
            row >= 0,
            stride >= 0,
    ;
}

/// Converts packed YUY2 rows of `stride` bytes to BGRA in `out`, one
/// opaque pixel per four bytes.
pub fn yuy2_to_bgra(src: &[u8], stride: usize, width: usize, height: usize, out: &mut [u8])
    requires
        yuy2_rows_cover(src@.len() as int, stride as int, width as int, height as int),
        width * height * 4 <= old(out)@.len(),
    ensures
        final(out)@.len() == old(out)@.len(),
        forall|k: int|
            0 <= k < width * height * 4 ==> #[trigger] final(out)@[k] == yuy2_byte(
                src@,
                stride as int,
                width as int,
                k,
            ),
        forall|k: int| width * height * 4 <= k < old(out)@.len() ==> #[trigger] final(out)@[k] == old(out)@[k],
{
    if width == 0 || height == 0 {
        return;
    }
    let out_len = out.len();
    let src_len = src.len();
    assert(width * height <= width * height * 4) by (nonlinear_arith);
    let total = width * height;
    let ghost original = out@;
    let mut q: usize = 0;
    let mut row: usize = 0;
    let mut col: usize = 0;
    while q < total
        invariant
            width > 0,
            height > 0,
            total == width * height,
            total * 4 <= out@.len(),
            out@.len() == original.len(),
            out_len == original.len(),
            src_len == src@.len(),
            q <= total,
            col < width,
            q == row * width + col,
            q < total ==> row < height,
            yuy2_rows_cover(src@.len() as int, stride as int, width as int, height as int),
            forall|k: int| 0 <= k < q * 4 ==> #[trigger] out@[k] == yuy2_byte(
                src@,
                stride as int,
                width as int,
                k,
            ),
            forall|k: int| q * 4 <= k < original.len() ==> #[trigger] out@[k] == original[k],
        decreases total - q,
    {
        proof {
            lemma_yuy2_reads(
                src@.len() as int,
                stride as int,
                width as int,
                height as int,
                row as int,
                col as int,
            );
            lemma_row_col(q as int, width as int, row as int, col as int);
        }
        let base = row * stride + (col / 2) * 4;
        let luma = src[base + (col % 2) * 2];
        let (b, g, r) = convert_sample(luma, src[base + 1], src[base + 3]);
        let o = q * 4;
        out[o] = b;
        out[o + 1] = g;
        out[o + 2] = r;
        out[o + 3] = 255;
        proof {
            assert forall|k: int| 0 <= k < (q + 1) * 4 implies #[trigger] out@[k] == yuy2_byte(
                src@,
                stride as int,
                width as int,
                k,
            ) by {
                if k >= q * 4 {
                    assert(k / 4 == q);
                    assert(k % 4 == k - q * 4);
                }
            }
        }
        q = q + 1;
        if col + 1 == width {
            proof {
                assert((row + 1) * width == row * width + width) by (nonlinear_arith);
            }
            col = 0;
            row = row + 1;
        } else {
            col = col + 1;
        }
        proof {
            if q < total {
                assert(row < height) by (nonlinear_arith)
                    requires
                        q == row * width + col,
                        q < width * height,
                        col >= 0,
                        width > 0,
                ;
            }
        }
    }
}


/// The size frames are delivered at and whether it crops the source.
pub struct EffectiveOutputSize {
    pub width: usize,
    pub height: usize,
    pub crop_applied: bool,
}

/// The largest even number not above `x`.
pub open spec fn even_floor(x: int) -> int {
    x - x % 2
}

pub open spec fn min_int(a: int, b: int) -> int {
    if a <= b {
        a
    } else {
        b
    }
}

pub open spec fn max_int(a: int, b: int) -> int {
    if a >= b {
        a
    } else {
        b
    }
}

/// One dimension of the effective output: the expected size capped by the
/// source, at least 2, rounded down to even, and never above the source
/// (or 2, for a source smaller than that).
pub open spec fn effective_dimension(source: int, expected: int) -> int {
    min_int(max_int(even_floor(max_int(min_int(expected, source), 2)), 2), max_int(source, 2))
}

fn effective_dimension_exec(source: usize, expected: usize) -> (r: usize)
    ensures
        r as int == effective_dimension(source as int, expected as int),
{
    let capped = if expected <= source {
        expected
    } else {
        source
    };
    let at_least_two = if capped >= 2 {
        capped
    } else {
        2
    };
    let even = at_least_two - at_least_two % 2;
    let target = if even >= 2 {
        even
    } else {
        2
    };
    let bound = if source >= 2 {
        source
    } else {
        2
    };
    if target <= bound {
        target
    } else {
        bound
    }
}

/// Chooses the output size for a decoded `source` frame given the size the
/// stream announced; with no announced size the source is kept whole.
pub fn choose_effective_output_size(
    source_width: usize,
    source_height: usize,
    expected_width: usize,
    expected_height: usize,
) -> (r: EffectiveOutputSize)
    ensures
        expected_width == 0 || expected_height == 0 ==> r.width == source_width && r.height
            == source_height && !r.crop_applied,
        expected_width != 0 && expected_height != 0 ==> {
            &&& r.width as int == effective_dimension(source_width as int, expected_width as int)
            &&& r.height as int == effective_dimension(source_height as int, expected_height as int)
            &&& r.crop_applied == (r.width < source_width || r.height < source_height)
        },
{
    if expected_width == 0 || expected_height == 0 {
        return EffectiveOutputSize { width: source_width, height: source_height, crop_applied: false };
    }
    let width = effective_dimension_exec(source_width, expected_width);
    let height = effective_dimension_exec(source_height, expected_height);
    EffectiveOutputSize { width, height, crop_applied: width < source_width || height < source_height }
}

/// The effective output is even, at least 2, within the announced size
/// (when that is at least 2) and within the source (when that is at least 2),
/// so it only ever crops.
pub proof fn law_effective_output_only_crops(source: int, expected: int)
    requires
        source >= 0,
        expected > 0,
    ensures
        effective_dimension(source, expected) % 2 == 0 || source < 2,
        effective_dimension(source, expected) >= 2,
        source >= 2 ==> effective_dimension(source, expected) <= source,
        expected >= 2 ==> effective_dimension(source, expected) <= expected,
{
}

/// `a * b`, or `usize::MAX` when that overflows.
fn saturating_mul(a: usize, b: usize) -> (r: usize)
    ensures
        r as int == min_int(a * b, usize::MAX as int),
{
    if b != 0 && a > usize::MAX / b {
        proof {
            assert(a * b > usize::MAX) by (nonlinear_arith)
                requires
                    b > 0,
                    a > usize::MAX / b,
            ;
        }
        usize::MAX
    } else {
        proof {
            if b != 0 {
                assert(a * b <= usize::MAX) by (nonlinear_arith)
                    requires
                        b > 0,
                        a <= usize::MAX / b,
                ;
            }
        }
        a * b
    }
}

/// One dimension scaled to `scale` percent: at least 16, rounded down to
/// even, and at least 16 again.
pub open spec fn scaled_dimension(size: int, scale: int) -> int {
    max_int(even_floor(max_int(min_int(size * scale, usize::MAX as int) / 100, 16)), 16)
}

fn scaled_dimension_exec(size: usize, scale: usize) -> (r: usize)
    ensures
        r as int == scaled_dimension(size as int, scale as int),
{
    let product = saturating_mul(size, scale);
    let scaled = product / 100;
    let at_least = if scaled >= 16 {
        scaled
    } else {
        16
    };
    let even = at_least - at_least % 2;
    if even >= 16 {
        even
    } else {
        16
    }
}

/// The coded size scaled to `scale_percent`; 100% and above keep it.
pub fn scaled_coded_size(width: usize, height: usize, scale_percent: u32) -> (r: (usize, usize))
    ensures
        scale_percent >= 100 ==> r == (width, height),
        scale_percent < 100 ==> r.0 as int == scaled_dimension(width as int, scale_percent as int)
            && r.1 as int == scaled_dimension(height as int, scale_percent as int),
{
    if scale_percent >= 100 {
        return (width, height);
    }
    let scale = scale_percent as usize;
    (scaled_dimension_exec(width, scale), scaled_dimension_exec(height, scale))
}

/// Byte `k` of an RGBA image with red and blue swapped in every whole
/// pixel, giving BGRA; a trailing partial pixel is kept.
pub open spec fn swapped_byte(rgba: Seq<u8>, k: int) -> u8 {
    if k + 4 - k % 4 <= (rgba.len() / 4) * 4 && k % 4 == 0 {
        rgba[k + 2]
    } else if k + 4 - k % 4 <= (rgba.len() / 4) * 4 && k % 4 == 2 {
        rgba[k - 2]
    } else {
        rgba[k]
    }
}

/// Swaps the first and third byte of every whole 4-byte pixel.
pub fn swap_red_blue(buf: &mut [u8])
    ensures
        final(buf)@.len() == old(buf)@.len(),
        forall|k: int| 0 <= k < old(buf)@.len() ==> #[trigger] final(buf)@[k] == swapped_byte(
            old(buf)@,
            k,
        ),
{
    let n = buf.len();
    let whole = n / 4;
    let mut p: usize = 0;
    while p < whole
        invariant
            n == buf@.len(),
            n == old(buf)@.len(),
            whole == n / 4,
            p <= whole,
            forall|k: int| 0 <= k < 4 * p ==> #[trigger] buf@[k] == swapped_byte(old(buf)@, k),
            forall|k: int| 4 * p <= k < n ==> #[trigger] buf@[k] == old(buf)@[k],
        decreases whole - p,
    {
        let i = 4 * p;
        let r = buf[i];
        let b = buf[i + 2];
        buf[i] = b;
        buf[i + 2] = r;
        p = p + 1;
    }
}

/// Converted frames are opaque: the alpha byte of every pixel converted
/// from NV12 or YUY2 is 255.
pub proof fn law_converted_pixels_are_opaque(y_plane: Seq<u8>, uv_plane: Seq<u8>, src: Seq<u8>, stride: int, width: int, k: int)
    requires
        k >= 0,
        k % 4 == 3,
    ensures
        nv12_byte(y_plane, uv_plane, stride, width, k) == 255,
        yuy2_byte(src, stride, width, k) == 255,
{
}

} // verus!
