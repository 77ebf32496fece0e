//! Received DIB frames cut to the tight rows ffmpeg reads, and the sizes
//! of the buffers that carry frames and packets.
use vstd::prelude::*;

use vstd::arithmetic::div_mod::lemma_fundamental_div_mod_converse_div;
use vstd::arithmetic::div_mod::lemma_fundamental_div_mod_converse_mod;
use vstd::arithmetic::mul::lemma_mul_inequality;

verus! {

/// Bytes per pixel: a whole number of bytes, at least one.
pub open spec fn bytes_per_pixel(bpp: u32) -> int {
    if bpp / 8 >= 1 {
        (bpp / 8) as int
    } else {
        1
    }
}

/// The length of one tight row.
pub open spec fn row_bytes(width: int, bpp: u32) -> int {
    width * bytes_per_pixel(bpp)
}

/// A DIB row padded to a multiple of four bytes.
pub open spec fn padded_row(row: int) -> int {
    (row + 3) / 4 * 4
}

/// The first `rows` rows of `row` bytes each, taken from a buffer whose
/// rows start `stride` bytes apart.
pub open spec fn depadded(data: Seq<u8>, row: int, stride: int, rows: int) -> Seq<u8> {
    Seq::new((row * rows) as nat, |i: int| data[(i / row) * stride + i % row])
}

/// One frame of `height` tight rows made from a received sample: the
/// sample itself when it is exactly that long; its rows without their DIB
/// padding when it holds padded rows; zeros appended to a short sample so
/// that frame boundaries stay in place; else its first frame's worth.
pub open spec fn frame_bytes(data: Seq<u8>, width: int, height: int, bpp: u32) -> Seq<u8> {
    let row = row_bytes(width, bpp);
    let tight = row * height;
    let stride = padded_row(row);
    if data.len() == tight {
        data
    } else if data.len() >= stride * height && stride != row {
        depadded(data, row, stride, height)
    } else if data.len() < tight {
        data + Seq::new((tight - data.len()) as nat, |i: int| 0u8)
    } else {
        data.take(tight)
    }
}

fn copy_prefix(data: &[u8], n: usize) -> (r: Vec<u8>)
    requires
        n <= data@.len(),
    ensures
        r@ == data@.take(n as int),
{
    let mut out: Vec<u8> = Vec::new();
    let mut i: usize = 0;
    while i < n
        invariant
            i <= n,
            n <= data@.len(),
            out@ == data@.take(i as int),
        decreases n - i,
    {
        out.push(data[i]);
        i += 1;
        assert(out@ =~= data@.take(i as int));
    }
    out
}

fn depad_rows(data: &[u8], row: usize, stride: usize, height: usize) -> (r: Vec<u8>)
    requires
        0 < row <= stride,
        stride * height <= data@.len(),
    ensures
        r@ == depadded(data@, row as int, stride as int, height as int),
{
    let mut out: Vec<u8> = Vec::new();
    let n = data.len();
    let mut y: usize = 0;
    while y < height
        invariant
            n == data@.len(),
            y <= height,
            0 < row <= stride,
            stride * height <= data@.len(),
            out@.len() == y * row,
            forall|j: int|
                0 <= j < out@.len() ==> #[trigger] out@[j] == data@[(j / row as int) * stride + j % row as int],
        decreases height - y,
    {
        proof {
            lemma_mul_inequality(y as int + 1, height as int, stride as int);
            assert((y as int + 1) * stride == y * stride + stride) by (nonlinear_arith);
            assert(height * stride == stride * height) by (nonlinear_arith);
        }
        let base = y * stride;
        let mut k: usize = 0;
        while k < row
            invariant
                n == data@.len(),
                k <= row,
                y < height,
                0 < row <= stride,
                base == y * stride,
                base + row <= data@.len(),
                out@.len() == y * row + k,
                forall|j: int|
                    0 <= j < out@.len() ==> #[trigger] out@[j] == data@[(j / row as int) * stride + j
                        % row as int],
            decreases row - k,
        {
            proof {
                let j = y * row + k;
                lemma_fundamental_div_mod_converse_div(j as int, row as int, y as int, k as int);
                lemma_fundamental_div_mod_converse_mod(j as int, row as int, y as int, k as int);
            }
            out.push(data[base + k]);
            k += 1;
        }
        proof {
            assert(y * row + row == (y as int + 1) * row) by (nonlinear_arith);
        }
        y += 1;
    }
    assert(height * row == row * height) by (nonlinear_arith);
    assert(out@ =~= depadded(data@, row as int, stride as int, height as int));
    out
}

/// Whether frames of this geometry can be cut on this machine: the width
/// and height are not negative and a padded frame's size fits a `usize`.
pub fn frame_geometry_fits(width: i32, height: i32, bpp: u32) -> (r: bool)
    ensures
        r == (width >= 0 && height >= 0 && row_bytes(width as int, bpp) + 3 <= usize::MAX && padded_row(
            row_bytes(width as int, bpp),
        ) * height <= usize::MAX),
{
    if width < 0 || height < 0 {
        return false;
    }
    let per_pixel: u128 = if bpp / 8 >= 1 {
        (bpp / 8) as u128
    } else {
        1
    };
    proof {
        assert(width as u128 * per_pixel <= 0x8000_0000 * 0x2000_0000) by (nonlinear_arith)
            requires
                0 <= width < 0x8000_0000,
                1 <= per_pixel <= 0x2000_0000,
        ;
    }
    let row: u128 = width as u128 * per_pixel;
    let stride: u128 = (row + 3) / 4 * 4;
    proof {
        assert(stride * height <= 0x1_0000_0000_0000_0000 * 0x8000_0000) by (nonlinear_arith)
            requires
                stride <= 0x1_0000_0000_0000_0000,
                0 <= height < 0x8000_0000,
        ;
    }
    row + 3 <= usize::MAX as u128 && stride * (height as u128) <= usize::MAX as u128
}

/// Cuts a received sample to one frame of tight rows (see `frame_bytes`).
pub fn tight_frame(data: &[u8], width: i32, height: i32, bpp: u32) -> (r: Vec<u8>)
    requires
        width >= 0,
        height >= 0,
        row_bytes(width as int, bpp) + 3 <= usize::MAX,
        padded_row(row_bytes(width as int, bpp)) * height <= usize::MAX,
    ensures
        r@ == frame_bytes(data@, width as int, height as int, bpp),
{
    let per_pixel: usize = if bpp / 8 >= 1 {
        (bpp / 8) as usize
    } else {
        1
    };
    proof {
        assert(width as int * per_pixel <= usize::MAX);
    }
    let row: usize = width as usize * per_pixel;
    let h: usize = height as usize;
    let stride: usize = (row + 3) / 4 * 4;
    proof {
        assert(row <= stride);
        lemma_mul_inequality(row as int, stride as int, h as int);
    }
    let tight: usize = row * h;
    let len = data.len();
    if len == tight {
        let r = copy_prefix(data, len);
        assert(data@.take(len as int) =~= data@);
        r
    } else if len >= stride * h && stride != row {
        depad_rows(data, row, stride, h)
    } else if len < tight {
        let mut out = copy_prefix(data, len);
        let mut i: usize = len;
        while i < tight
            invariant
                len <= i <= tight,
                out@ == data@.take(len as int) + Seq::new((i - len) as nat, |k: int| 0u8),
            decreases tight - i,
        {
            out.push(0u8);
            i += 1;
            assert(out@ =~= data@.take(len as int) + Seq::new((i - len) as nat, |k: int| 0u8));
        }
        assert(data@.take(len as int) =~= data@);
        out
    } else {
        copy_prefix(data, tight)
    }
}

/// Every received sample becomes exactly one frame of tight rows, so the
/// frame boundaries of the raw stream ffmpeg reads never drift, whatever
/// the sample's length.
pub proof fn law_frames_keep_their_size(data: Seq<u8>, width: int, height: int, bpp: u32)
    requires
        width >= 0,
        height >= 0,
    ensures
        frame_bytes(data, width, height, bpp).len() == row_bytes(width, bpp) * height,
{
    let row = row_bytes(width, bpp);
    assert(row >= 0) by (nonlinear_arith)
        requires
            width >= 0,
            row == width * bytes_per_pixel(bpp),
            bytes_per_pixel(bpp) >= 1,
    ;
    assert(row * height >= 0) by (nonlinear_arith)
        requires
            row >= 0,
            height >= 0,
    ;
}

/// The larger of two integers.
pub open spec fn larger(a: int, b: int) -> int {
    if a >= b {
        a
    } else {
        b
    }
}

/// The buffer size to ask of the downstream allocator: room for an
/// uncompressed frame, for twice an average frame at the configured bit
/// rate (`bitrate_frame_bytes`, worked out by the caller), and 64 KiB at
/// least.
pub fn output_buffer_size(width: i32, height: i32, bpp: u32, bitrate_frame_bytes: i32) -> (r: i32)
    requires
        i32::MIN <= width * height <= i32::MAX,
        i32::MIN <= width * height * (bpp / 8) as int <= i32::MAX,
    ensures
        r == larger(larger(width * height * (bpp / 8) as int, bitrate_frame_bytes as int), 65536),
{
    let uncompressed = width * height * ((bpp / 8) as i32);
    let a = if uncompressed >= bitrate_frame_bytes {
        uncompressed
    } else {
        bitrate_frame_bytes
    };
    if a >= 65536 {
        a
    } else {
        65536
    }
}

/// Whether `output_buffer_size` can work out the uncompressed frame size
/// in an `i32`.
pub fn buffer_size_fits(width: i32, height: i32, bpp: u32) -> (r: bool)
    ensures
        r == (i32::MIN <= width * height <= i32::MAX && i32::MIN <= width * height * (bpp / 8) as int
            <= i32::MAX),
{
    proof {
        assert(-0x4000_0000_0000_0000 <= width as i64 * height as i64 <= 0x4000_0000_0000_0000) by (nonlinear_arith)
            requires
                -0x8000_0000 <= width < 0x8000_0000,
                -0x8000_0000 <= height < 0x8000_0000,
        ;
    }
    let wh: i64 = width as i64 * height as i64;
    let per: i64 = (bpp / 8) as i64;
    if wh < i32::MIN as i64 || wh > i32::MAX as i64 {
        return false;
    }
    proof {
        assert(-0x8000_0000 * 0x2000_0000 <= wh * per <= 0x8000_0000 * 0x2000_0000) by (nonlinear_arith)
            requires
                -0x8000_0000 <= wh <= 0x7fff_ffff,
                0 <= per <= 0x2000_0000,
        ;
    }
    let total: i64 = wh * per;
    i32::MIN as i64 <= total && total <= i32::MAX as i64
}

/// Whether a packet fits the buffer size negotiated with the downstream
/// allocator; a size of zero or less was never negotiated and bounds
/// nothing.
pub fn fits_negotiated_buffer(len: usize, cb_buffer: i32) -> (r: bool)
    ensures
        r == !(cb_buffer > 0 && (len as i32) > cb_buffer),
{
    !(cb_buffer > 0 && (len as i32) > cb_buffer)
}

/// Whether a packet fits the sample buffer the allocator actually handed
/// out.
pub fn fits_sample(len: usize, sample_size: i32) -> (r: bool)
    ensures
        r == (sample_size >= 0 && len <= sample_size),
{
    sample_size >= 0 && len <= sample_size as usize
}

} // verus!
