//! Serializes a raster of packed 24-bit colors into a self-contained bitmap
//! file image: a fixed 54-byte header followed by the pixel rows, each row
//! padded to a 4-byte boundary, emitted bottom-to-top with channels in
//! blue-green-red order.

use vstd::arithmetic::div_mod::lemma_fundamental_div_mod_converse;
use vstd::prelude::*;

verus! {

/// Size in bytes of the information header that describes the raster.
pub const DIB_HEADER_SIZE: u32 = 40;

/// Size in bytes of the whole file header, up to the first pixel byte.
pub const BMP_HEADER_SIZE: u32 = 54;

/// Bits per encoded pixel: one byte each for blue, green and red.
pub const BMP_BITS_PER_PIXEL: u32 = 24;

/// Number of zero bytes appended to each pixel row so that every encoded row
/// occupies a multiple of four bytes.
pub open spec fn spec_padding_per_row(width: int) -> int {
    (4 - (width * 3) % 4) % 4
}

/// Length in bytes of one encoded row: three color bytes per pixel, plus
/// padding.
pub open spec fn spec_row_stride(width: int) -> int {
    width * 3 + spec_padding_per_row(width)
}

/// Byte `k` of one encoded pixel: blue first, then green, then red.
pub open spec fn pixel_byte(c: u32, k: int) -> u8 {
    if k == 0 {
        (c & 0xFF) as u8
    } else if k == 1 {
        ((c >> 8) & 0xFF) as u8
    } else {
        ((c >> 16) & 0xFF) as u8
    }
}

/// The encoded scanline for source row `row` of a top-left-origin raster.
pub open spec fn row_bytes(buffer: Seq<u32>, width: int, row: int) -> Seq<u8> {
    Seq::new(
        spec_row_stride(width) as nat,
        |j: int|
            if j < width * 3 {
                pixel_byte(buffer[row * width + j / 3], j % 3)
            } else {
                0u8
            },
    )
}

/// The scanlines for source rows `k - 1` down to `0`, in that order. With
/// `k` equal to the full height this is the whole pixel-data section: the
/// bitmap format starts at the bottom-left corner, so the top-left-origin
/// raster is emitted with its rows reversed.
pub open spec fn flipped_rows(buffer: Seq<u32>, width: int, k: nat) -> Seq<u8>
    decreases k,
{
    if k == 0 {
        Seq::empty()
    } else {
        row_bytes(buffer, width, k - 1) + flipped_rows(buffer, width, (k - 1) as nat)
    }
}

/// Little-endian byte `0` (lowest) of a 32-bit value.
pub open spec fn le0(v: u32) -> u8 {
    (v & 0xFF) as u8
}

/// Little-endian byte `1` of a 32-bit value.
pub open spec fn le1(v: u32) -> u8 {
    ((v >> 8) & 0xFF) as u8
}

/// Little-endian byte `2` of a 32-bit value.
pub open spec fn le2(v: u32) -> u8 {
    ((v >> 16) & 0xFF) as u8
}

/// Little-endian byte `3` (highest) of a 32-bit value.
pub open spec fn le3(v: u32) -> u8 {
    ((v >> 24) & 0xFF) as u8
}

/// The four little-endian bytes of a 32-bit value.
pub open spec fn le4(v: u32) -> Seq<u8> {
    seq![le0(v), le1(v), le2(v), le3(v)]
}

/// The 54-byte file header: the ASCII signature, the file size, the pixel
/// data offset, and the information header with the raster's dimensions,
/// 24 bits per pixel and no compression.
pub open spec fn header_bytes(width: u32, height: u32, data_byte_length: u32) -> Seq<u8> {
    seq![0x42u8, 0x4Du8]  // the ASCII signature "BM"
     + le4((BMP_HEADER_SIZE + data_byte_length) as u32)  // total file size
     + seq![0u8, 0u8, 0u8, 0u8]  // reserved, must be 0
     + le4(BMP_HEADER_SIZE)  // offset of the first pixel byte
     + le4(DIB_HEADER_SIZE) + le4(width) + le4(height) + seq![1u8, 0u8]  // one color plane
     + le4(BMP_BITS_PER_PIXEL) + seq![0u8, 0u8]  // no compression
     + le4(data_byte_length) + seq![0u8, 0u8, 0u8, 0u8]  // horizontal resolution
     + seq![0u8, 0u8, 0u8, 0u8]  // vertical resolution
     + seq![0u8, 0u8, 0u8, 0u8]  // palette color count, 0 for the full depth
     + seq![0u8, 0u8, 0u8, 0u8]  // important palette colors, 0 for all
}

/// Computes how many zero bytes each pixel row needs to reach a 4-byte
/// boundary.
pub fn compute_padding_bytes_per_row(width: usize) -> (r: usize)
    requires
        width * 3 <= usize::MAX,
    ensures
        r == spec_padding_per_row(width as int),
        r < 4,
{
    let color_bytes_per_row = width * 3;
    (4 - color_bytes_per_row % 4) % 4
}

fn push_le4(out: &mut Vec<u8>, v: u32)
    ensures
        final(out)@ == old(out)@ + le4(v),
{
    out.push((v & 0xFF) as u8);
    out.push(((v >> 8) & 0xFF) as u8);
    out.push(((v >> 16) & 0xFF) as u8);
    out.push(((v >> 24) & 0xFF) as u8);
    assert(final(out)@ =~= old(out)@ + le4(v));
}

/// Builds the 54-byte bitmap file header for a raster of the given
/// dimensions whose encoded pixel data occupies `data_byte_length` bytes.
pub fn generate_header(width: usize, height: usize, data_byte_length: usize) -> (r: Vec<u8>)
    requires
        width <= u32::MAX,
        height <= u32::MAX,
        BMP_HEADER_SIZE + data_byte_length <= u32::MAX,
    ensures
        r@ == header_bytes(width as u32, height as u32, data_byte_length as u32),
        r@.len() == BMP_HEADER_SIZE,
{
    let byte_file_size: u32 = BMP_HEADER_SIZE + data_byte_length as u32;
    let mut r: Vec<u8> = Vec::new();

    r.push(0x42);
    r.push(0x4D);
    push_le4(&mut r, byte_file_size);
    // Reserved, must be 0.
    r.push(0);
    r.push(0);
    r.push(0);
    r.push(0);
    push_le4(&mut r, BMP_HEADER_SIZE);
    push_le4(&mut r, DIB_HEADER_SIZE);
    push_le4(&mut r, width as u32);
    push_le4(&mut r, height as u32);
    // This must always be 1 and use two bytes.
    r.push(1);
    r.push(0);
    push_le4(&mut r, BMP_BITS_PER_PIXEL);
    // No compression is being used.
    r.push(0);
    r.push(0);
    push_le4(&mut r, data_byte_length as u32);
    // Horizontal resolution, vertical resolution, the number of colors in
    // the palette (0 means the full bit depth), and the number of important
    // colors (0 means all of them).
    let mut k: usize = 0;
    while k < 16
        invariant
            r@ == header_bytes(width as u32, height as u32, data_byte_length as u32).take(38 + k),
            k <= 16,
        decreases 16 - k,
    {
        r.push(0);
        assert(r@ =~= header_bytes(width as u32, height as u32, data_byte_length as u32).take(
            38 + k + 1,
        ));
        k = k + 1;
    }
    assert(r@ =~= header_bytes(width as u32, height as u32, data_byte_length as u32));
    r
}

/// Encodes the pixel-data section: each row of the top-left-origin raster
/// becomes three bytes per pixel in blue-green-red order plus zero padding,
/// and the rows are emitted bottom-to-top.
#[verifier::loop_isolation(false)]
pub fn pad_buffer(buffer: &Vec<u32>, width: usize, height: usize) -> (r: Vec<u8>)
    requires
        buffer.len() == width * height,
        width * 3 + 3 <= usize::MAX,
        height * spec_row_stride(width as int) <= usize::MAX,
    ensures
        r@ == flipped_rows(buffer@, width as int, height as nat),
        r@.len() == height * spec_row_stride(width as int),
{
    let padding_bytes_count = compute_padding_bytes_per_row(width);
    let stride = width * 3 + padding_bytes_count;
    let mut r: Vec<u8> = Vec::new();
    let mut y: usize = 0;

    proof {
        lemma_flipped_rows_len(buffer@, width as int, height as nat);
    }
    while y < height
        invariant
            y <= height,
            buffer.len() == width * height,
            width * 3 + 3 <= usize::MAX,
            height * spec_row_stride(width as int) <= usize::MAX,
            stride == spec_row_stride(width as int),
            r@.len() == y * stride,
            r@ + flipped_rows(buffer@, width as int, (height - y) as nat) == flipped_rows(
                buffer@,
                width as int,
                height as nat,
            ),
        decreases height - y,
    {
        let src_row = height - 1 - y;
        let ghost row_start = r@.len() as int;
        let mut x: usize = 0;

        proof {
            assert(y * stride + stride <= height * stride) by (nonlinear_arith)
                requires
                    y < height,
                    stride >= 0,
            ;
            assert(src_row * width + width <= width * height) by (nonlinear_arith)
                requires
                    src_row < height,
                    width >= 0,
            ;
        }
        while x < width
            invariant
                x <= width,
                src_row < height,
                buffer.len() == width * height,
                src_row * width + width <= width * height,
                r@.len() == row_start + 3 * x,
                row_start + spec_row_stride(width as int) <= usize::MAX,
                stride == spec_row_stride(width as int),
                r@.take(row_start) == flipped_rows(buffer@, width as int, height as nat).take(
                    row_start,
                ),
                r@.skip(row_start) =~= row_bytes(buffer@, width as int, src_row as int).take(
                    3 * x,
                ),
            decreases width - x,
        {
            let c = buffer[src_row * width + x];
            r.push((c & 0xFF) as u8);
            r.push(((c >> 8) & 0xFF) as u8);
            r.push(((c >> 16) & 0xFF) as u8);
            proof {
                lemma_fundamental_div_mod_converse(3 * x, 3, x as int, 0);
                lemma_fundamental_div_mod_converse(3 * x + 1, 3, x as int, 1);
                lemma_fundamental_div_mod_converse(3 * x + 2, 3, x as int, 2);
                assert(r@.skip(row_start) =~= row_bytes(buffer@, width as int, src_row as int).take(
                    3 * (x + 1),
                ));
                assert(r@.take(row_start) =~= flipped_rows(
                    buffer@,
                    width as int,
                    height as nat,
                ).take(row_start));
            }
            x = x + 1;
        }
        let mut p: usize = 0;
        while p < padding_bytes_count
            invariant
                p <= padding_bytes_count,
                stride == spec_row_stride(width as int),
                padding_bytes_count == spec_padding_per_row(width as int),
                r@.len() == row_start + 3 * width + p,
                row_start + spec_row_stride(width as int) <= usize::MAX,
                r@.take(row_start) == flipped_rows(buffer@, width as int, height as nat).take(
                    row_start,
                ),
                r@.skip(row_start) =~= row_bytes(buffer@, width as int, src_row as int).take(
                    3 * width + p,
                ),
            decreases padding_bytes_count - p,
        {
            r.push(0);
            proof {
                assert(r@.skip(row_start) =~= row_bytes(buffer@, width as int, src_row as int).take(
                    3 * width + p + 1,
                ));
                assert(r@.take(row_start) =~= flipped_rows(
                    buffer@,
                    width as int,
                    height as nat,
                ).take(row_start));
            }
            p = p + 1;
        }
        proof {
            assert(r@.skip(row_start) =~= row_bytes(buffer@, width as int, src_row as int));
            lemma_flipped_rows_step(buffer@, width as int, height as nat, y as nat);
            assert((y + 1) * stride == y * stride + stride) by (nonlinear_arith);
            assert(r@ =~= r@.take(row_start) + r@.skip(row_start));
            assert(r@ + flipped_rows(buffer@, width as int, (height - y - 1) as nat)
                =~= flipped_rows(buffer@, width as int, height as nat));
        }
        y = y + 1;
    }
    proof {
        assert(r@ =~= flipped_rows(buffer@, width as int, height as nat));
    }
    r
}

/// The pixel-data section of `k` rows occupies `k` strides of bytes.
pub proof fn lemma_flipped_rows_len(buffer: Seq<u32>, width: int, k: nat)
    requires
        width >= 0,
    ensures
        flipped_rows(buffer, width, k).len() == k * spec_row_stride(width),
    decreases k,
{
    if k == 0 {
    } else {
        lemma_flipped_rows_len(buffer, width, (k - 1) as nat);
        assert(k * spec_row_stride(width) == (k - 1) * spec_row_stride(width) + spec_row_stride(
            width,
        )) by (nonlinear_arith);
    }
}

proof fn lemma_flipped_rows_step(buffer: Seq<u32>, width: int, height: nat, y: nat)
    requires
        width >= 0,
        y < height,
    ensures
        flipped_rows(buffer, width, (height - y) as nat) == row_bytes(
            buffer,
            width,
            height - 1 - y,
        ) + flipped_rows(buffer, width, (height - y - 1) as nat),
{
}

/// Encodes a whole bitmap file: the 54-byte header followed by the padded,
/// vertically flipped pixel data.
pub fn bmp_file_bytes(buffer: &Vec<u32>, width: usize, height: usize) -> (r: Vec<u8>)
    requires
        buffer.len() == width * height,
        width * 3 + 3 <= usize::MAX,
        width <= u32::MAX,
        height <= u32::MAX,
        BMP_HEADER_SIZE + height * spec_row_stride(width as int) <= u32::MAX,
    ensures
        r@ == header_bytes(
            width as u32,
            height as u32,
            (height * spec_row_stride(width as int)) as u32,
        ) + flipped_rows(buffer@, width as int, height as nat),
        r@.len() == BMP_HEADER_SIZE + height * spec_row_stride(width as int),
{
    let padded_buffer = pad_buffer(buffer, width, height);
    let mut r = generate_header(width, height, padded_buffer.len());
    let mut i: usize = 0;
    let ghost h = r@;
    while i < padded_buffer.len()
        invariant
            i <= padded_buffer.len(),
            r@ == h + padded_buffer@.take(i as int),
        decreases padded_buffer.len() - i,
    {
        r.push(padded_buffer[i]);
        assert(r@ =~= h + padded_buffer@.take(i + 1));
        i = i + 1;
    }
    assert(r@ =~= h + padded_buffer@);
    r
}

} // verus!
