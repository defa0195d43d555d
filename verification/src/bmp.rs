//! Snapshots of received frames as 24-bit BMP files: BGRA rows in, a
//! bottom-up BMP with rows padded to four bytes out.

use vstd::prelude::*;

use crate::chunk::le32_bytes;

verus! {

/// Bytes per stored BMP row of `width` pixels: three per pixel, padded to
/// a multiple of four.
pub open spec fn bmp_row_stride(width: int) -> int {
    ((width * 3 + 3) / 4) * 4
}

/// `x` as four little-endian bytes, keeping its low 32 bits.
pub open spec fn le32_low(x: int) -> Seq<u8> {
    le32_bytes((x % 4294967296) as nat)
}

/// The 54-byte file and information headers of a `width` by `height` image.
#[verifier::opaque]
pub open spec fn bmp_header(width: int, height: int) -> Seq<u8> {
    let image_size = bmp_row_stride(width) * height;
    seq![0x42u8, 0x4Du8] + le32_low(54 + image_size) + seq![0u8, 0u8, 0u8, 0u8] + le32_low(54)
        + le32_low(40) + le32_low(width) + le32_low(height) + seq![1u8, 0u8, 24u8, 0u8]
        + le32_low(0) + le32_low(image_size) + le32_low(2835) + le32_low(2835) + le32_low(0)
        + le32_low(0)
}

/// Byte `k` of the pixel data: rows from the bottom one up, each pixel's
/// blue, green and red, then zero padding.
pub open spec fn bmp_pixel_byte(bgra: Seq<u8>, width: int, height: int, k: int) -> u8 {
    let stride = bmp_row_stride(width);
    let row = k / stride;
    let col = k % stride;
    if col < width * 3 {
        bgra[((height - 1 - row) * width + col / 3) * 4 + col % 3]
    } else {
        0
    }
}

/// Byte `k` of the BMP file.
pub open spec fn bmp_byte(bgra: Seq<u8>, width: int, height: int, k: int) -> u8 {
    if k < 54 {
        bmp_header(width, height)[k]
    } else {
        bmp_pixel_byte(bgra, width, height, k - 54)
    }
}

fn push_le32(out: &mut Vec<u8>, x: u32)
    ensures
        final(out)@ == old(out)@ + le32_bytes(x as nat),
{
    out.push((x % 256) as u8);
    out.push(((x / 256) % 256) as u8);
    out.push(((x / 256 / 256) % 256) as u8);
    out.push(((x / 256 / 256 / 256) % 256) as u8);
    assert(final(out)@ =~= old(out)@ + le32_bytes(x as nat));
}

fn low32(x: usize) -> (r: u32)
    ensures
        r as int == x as int % 4294967296,
{
    let wide = x as u64;
    (wide % 4294967296u64) as u32
}

proof fn lemma_row_col(row: int, stride: int, col: int)
    by (nonlinear_arith)
    requires
        0 <= row,
        0 <= col < stride,
    ensures
        (row * stride + col) / stride == row,
        (row * stride + col) % stride == col,
{
}

proof fn lemma_pixel_col(x: int, ch: int)
    by (nonlinear_arith)
    requires
        0 <= x,
        0 <= ch < 3,
    ensures
        (3 * x + ch) / 3 == x,
        (3 * x + ch) % 3 == ch,
{
}

proof fn lemma_source_index(width: int, height: int, row: int, x: int, ch: int)
    by (nonlinear_arith)
    requires
        0 <= row < height,
        0 <= x < width,
        0 <= ch < 3,
    ensures
        0 <= ((height - 1 - row) * width + x) * 4 + ch < width * height * 4,
{
    assert((height - 1 - row) * width + x < (height - 1 - row + 1) * width);
    assert((height - row) * width <= height * width);
}

fn header_bytes(width: usize, height: usize, image_size: usize) -> (r: Vec<u8>)
    requires
        image_size == bmp_row_stride(width as int) * height,
        54 + image_size <= usize::MAX,
    ensures
        r@ == bmp_header(width as int, height as int),
        r@.len() == 54,
{
    let mut bytes: Vec<u8> = Vec::new();
    bytes.push(0x42);
    bytes.push(0x4D);
    push_le32(&mut bytes, low32(54 + image_size));
    bytes.push(0);
    bytes.push(0);
    bytes.push(0);
    bytes.push(0);
    push_le32(&mut bytes, 54);
    push_le32(&mut bytes, 40);
    push_le32(&mut bytes, low32(width));
    push_le32(&mut bytes, low32(height));
    bytes.push(1);
    bytes.push(0);
    bytes.push(24);
    bytes.push(0);
    push_le32(&mut bytes, 0);
    push_le32(&mut bytes, low32(image_size));
    push_le32(&mut bytes, 2835);
    push_le32(&mut bytes, 2835);
    push_le32(&mut bytes, 0);
    push_le32(&mut bytes, 0);
    proof {
        reveal(bmp_header);
    }
    assert(bytes@ =~= bmp_header(width as int, height as int));
    bytes
}

/// The BMP file of a `width` by `height` BGRA image.
pub fn encode_bmp(bgra: &[u8], width: usize, height: usize) -> (r: Vec<u8>)
    requires
        bgra@.len() >= width * height * 4,
        54 + bmp_row_stride(width as int) * height <= usize::MAX,
        width * 3 + 3 <= usize::MAX,
    ensures
        r@.len() == 54 + bmp_row_stride(width as int) * height,
        forall|k: int| 0 <= k < r@.len() ==> #[trigger] r@[k] == bmp_byte(
            bgra@,
            width as int,
            height as int,
            k,
        ),
{
    let row_stride = (width * 3 + 3) / 4 * 4;
    assert(row_stride as int == bmp_row_stride(width as int));
    assert(row_stride * height <= usize::MAX) by (nonlinear_arith)
        requires
            54 + row_stride * height <= usize::MAX,
    ;
    let image_size = row_stride * height;
    let mut bytes = header_bytes(width, height, image_size);
    let blen = bgra.len();
    let padding = row_stride - width * 3;
    let mut r: usize = 0;
    while r < height
        invariant
            row_stride as int == bmp_row_stride(width as int),
            width * 3 + padding == row_stride,
            width * 3 <= row_stride,
            54 + row_stride * height <= usize::MAX,
            bgra@.len() >= width * height * 4,
            bgra@.len() == blen,
            r <= height,
            bytes@.len() == 54 + r * row_stride,
            forall|k: int| 0 <= k < bytes@.len() ==> #[trigger] bytes@[k] == bmp_byte(
                bgra@,
                width as int,
                height as int,
                k,
            ),
        decreases height - r,
    {
        assert(r * row_stride + row_stride <= row_stride * height) by (nonlinear_arith)
            requires
                r < height,
        ;
        let src_row = height - 1 - r;
        let mut x: usize = 0;
        while x < width
            invariant
                row_stride as int == bmp_row_stride(width as int),
                width * 3 + padding == row_stride,
                54 + row_stride * height <= usize::MAX,
                r * row_stride + row_stride <= row_stride * height,
                bgra@.len() >= width * height * 4,
            bgra@.len() == blen,
                r < height,
                src_row == height - 1 - r,
                x <= width,
                bytes@.len() == 54 + r * row_stride + 3 * x,
                forall|k: int| 0 <= k < bytes@.len() ==> #[trigger] bytes@[k] == bmp_byte(
                    bgra@,
                    width as int,
                    height as int,
                    k,
                ),
            decreases width - x,
        {
            let mut ch: usize = 0;
            while ch < 3
                invariant
                    row_stride as int == bmp_row_stride(width as int),
                    width * 3 + padding == row_stride,
                    54 + row_stride * height <= usize::MAX,
                    r * row_stride + row_stride <= row_stride * height,
                    bgra@.len() >= width * height * 4,
            bgra@.len() == blen,
                    r < height,
                    src_row == height - 1 - r,
                    x < width,
                    ch <= 3,
                    bytes@.len() == 54 + r * row_stride + 3 * x + ch,
                    forall|k: int| 0 <= k < bytes@.len() ==> #[trigger] bytes@[k] == bmp_byte(
                        bgra@,
                        width as int,
                        height as int,
                        k,
                    ),
                decreases 3 - ch,
            {
                proof {
                    lemma_source_index(width as int, height as int, r as int, x as int, ch as int);
                    lemma_row_col(r as int, row_stride as int, 3 * x + ch);
                    lemma_pixel_col(x as int, ch as int);
                }
                let src = (src_row * width + x) * 4 + ch;
                let ghost k = bytes@.len() as int;
                bytes.push(bgra[src]);
                assert(bytes@[k] == bmp_byte(bgra@, width as int, height as int, k));
                ch = ch + 1;
            }
            x = x + 1;
        }
        let mut p: usize = 0;
        while p < padding
            invariant
                row_stride as int == bmp_row_stride(width as int),
                width * 3 + padding == row_stride,
                54 + row_stride * height <= usize::MAX,
                r * row_stride + row_stride <= row_stride * height,
                r < height,
                p <= padding,
                bytes@.len() == 54 + r * row_stride + width * 3 + p,
                forall|k: int| 0 <= k < bytes@.len() ==> #[trigger] bytes@[k] == bmp_byte(
                    bgra@,
                    width as int,
                    height as int,
                    k,
                ),
            decreases padding - p,
        {
            proof {
                lemma_row_col(r as int, row_stride as int, width * 3 + p);
            }
            let ghost k = bytes@.len() as int;
            bytes.push(0);
            assert(bytes@[k] == bmp_byte(bgra@, width as int, height as int, k));
            p = p + 1;
        }
        assert(54 + r * row_stride + row_stride == 54 + (r + 1) * row_stride) by (nonlinear_arith);
        r = r + 1;
    }
    assert(r * row_stride == row_stride * height) by (nonlinear_arith)
        requires
            r == height,
    ;
    bytes
}

} // verus!
