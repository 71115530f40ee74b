//! The image materializer.
//!
//! A completed capture buffer is reinterpreted as a grayscale raster and
//! serialized in the portable graymap format: an ASCII header, then raw 8-bit
//! samples. The pixel walk is fixed by the file layout the scanner's existing
//! capture tooling emits, which downstream consumers expect byte for byte:
//! 284 output rows of 114 samples each (one fewer than the stated width of
//! 115), a single running buffer index that starts at 1 rather than 0, and a
//! line-feed byte after every row. The stated height is the row count
//! divided by 5, truncating. The walk looks like an off-by-one and may well
//! be one, but straightening it would change the output byte layout, so it
//! is the contract here on purpose.

use vstd::prelude::*;

use crate::capture::CaptureBuffer;

verus! {

/// Stated raster width, as written in the header.
pub const IMAGE_WIDTH: usize = 115;

/// Number of output rows walked (and of line feeds written).
pub const IMAGE_ROWS: usize = 284;

/// Samples actually written per row: one fewer than the stated width.
pub const ROW_SAMPLES: usize = 114;

/// The stated height is `IMAGE_ROWS` divided by this, truncating: 56.
pub const HEIGHT_DIVISOR: usize = 5;

/// The ASCII header: `P5\n115 56\n255\n`.
pub open spec fn pgm_header() -> Seq<u8> {
    seq![
        0x50u8,
        0x35u8,
        0x0au8,
        0x31u8,
        0x31u8,
        0x35u8,
        0x20u8,
        0x35u8,
        0x36u8,
        0x0au8,
        0x32u8,
        0x35u8,
        0x35u8,
        0x0au8,
    ]
}

/// One output row: the 114 buffer bytes at positions `114*x + 1` through
/// `114*x + 114`, then a line feed.
pub open spec fn pgm_row(data: Seq<u8>, x: int) -> Seq<u8> {
    data.subrange(114 * x + 1, 114 * x + 115) + seq![0x0au8]
}

/// The first `n` output rows, in order.
pub open spec fn pgm_rows(data: Seq<u8>, n: int) -> Seq<u8>
    decreases n,
{
    if n <= 0 {
        Seq::<u8>::empty()
    } else {
        pgm_rows(data, n - 1) + pgm_row(data, n - 1)
    }
}

/// The complete serialized image: header, then all 284 rows.
pub open spec fn spec_pgm_image(data: Seq<u8>) -> Seq<u8> {
    pgm_header() + pgm_rows(data, IMAGE_ROWS as int)
}

/// The header bytes to write first.
pub fn render_pgm_header() -> (r: Vec<u8>)
    ensures
        r@ == pgm_header(),
{
    let mut out: Vec<u8> = Vec::new();
    out.push(0x50);
    out.push(0x35);
    out.push(0x0a);
    out.push(0x31);
    out.push(0x31);
    out.push(0x35);
    out.push(0x20);
    out.push(0x35);
    out.push(0x36);
    out.push(0x0a);
    out.push(0x32);
    out.push(0x35);
    out.push(0x35);
    out.push(0x0a);
    assert(out@ =~= pgm_header());
    out
}

/// The pixel section: every output row of the capture buffer, each closed by
/// a line feed.
pub fn render_pgm_body(buffer: &CaptureBuffer) -> (r: Vec<u8>)
    requires
        buffer.wf(),
    ensures
        r@ == pgm_rows(buffer.data@, IMAGE_ROWS as int),
{
    let mut out: Vec<u8> = Vec::new();
    let mut x: usize = 0;
    while x < IMAGE_ROWS
        invariant
            x <= IMAGE_ROWS,
            buffer.wf(),
            out@ == pgm_rows(buffer.data@, x as int),
        decreases IMAGE_ROWS - x,
    {
        let ghost pre = out@;
        let base: usize = 114 * x + 1;
        let mut y: usize = 0;
        while y < ROW_SAMPLES
            invariant
                x < IMAGE_ROWS,
                base == 114 * x + 1,
                y <= ROW_SAMPLES,
                buffer.wf(),
                out@ == pre + buffer.data@.subrange(base as int, base as int + y),
            decreases ROW_SAMPLES - y,
        {
            out.push(buffer.data[base + y]);
            y += 1;
            assert(out@ =~= pre + buffer.data@.subrange(base as int, base as int + y));
        }
        out.push(0x0a);
        proof {
            assert(out@ =~= pre + pgm_row(buffer.data@, x as int));
        }
        x += 1;
    }
    out
}

/// The whole file: header, then pixel section.
pub fn render_pgm(buffer: &CaptureBuffer) -> (r: Vec<u8>)
    requires
        buffer.wf(),
    ensures
        r@ == spec_pgm_image(buffer.data@),
{
    let mut out = render_pgm_header();
    let mut body = render_pgm_body(buffer);
    let mut j: usize = 0;
    let ghost head = out@;
    while j < body.len()
        invariant
            j <= body@.len(),
            body@ == pgm_rows(buffer.data@, IMAGE_ROWS as int),
            out@ == head + body@.subrange(0, j as int),
        decreases body@.len() - j,
    {
        out.push(body[j]);
        j += 1;
        assert(out@ =~= head + body@.subrange(0, j as int));
    }
    assert(out@ =~= head + body@);
    out
}

} // verus!
