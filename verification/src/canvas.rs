//! Placing a content square on a transparent square canvas.

use crate::raster::{byte_len, lemma_in_range, lemma_locate, pixel_in, transparent, Raster};
use vstd::prelude::*;

verus! {

/// The side of the content square on a canvas of side `size`, when the
/// content takes `percent` hundredths of it: `size * percent / 100`, rounded
/// to the nearest whole pixel, halves up.
pub open spec fn content_side(size: int, percent: int) -> int {
    (size * percent + 50) / 100
}

/// The transparent margin left of and above the content.
pub open spec fn margin(size: int, content: int) -> int {
    (size - content) / 2
}

/// Whether canvas position `(x, y)` is covered by the content square.
pub open spec fn covered(x: int, y: int, size: int, c: int) -> bool {
    let m = margin(size, c);
    m <= x < m + c && m <= y < m + c
}

/// The canvas bytes: the content's bytes where it lies, zero elsewhere.
pub open spec fn framed(content: Seq<u8>, c: int, size: int) -> Seq<u8> {
    let m = margin(size, c);
    Seq::new(
        byte_len(size, size) as nat,
        |i: int|
            {
                let x = (i / 4) % size;
                let y = (i / 4) / size;
                if covered(x, y, size, c) {
                    content[4 * ((y - m) * c + (x - m)) + i % 4]
                } else {
                    0u8
                }
            },
    )
}

/// The content never outgrows its canvas as long as it takes at most all of it.
pub proof fn lemma_content_side(size: int, percent: int)
    requires
        0 <= size,
        0 <= percent <= 100,
    ensures
        0 <= content_side(size, percent) <= size,
        0 <= margin(size, content_side(size, percent)),
        2 * margin(size, content_side(size, percent)) + content_side(size, percent) <= size,
        percent == 100 ==> content_side(size, percent) == size,
{
    assert(0 <= size * percent <= size * 100) by (nonlinear_arith)
        requires
            0 <= size,
            0 <= percent <= 100,
    ;
}

/// What the canvas holds, pixel by pixel: the content shifted by the margin,
/// and the transparent pixel around it.
pub proof fn lemma_framed_pixel(content: Seq<u8>, c: int, size: int, x: int, y: int)
    requires
        0 <= c <= size,
        0 <= x < size,
        0 <= y < size,
    ensures
        framed(content, c, size).len() == byte_len(size, size),
        pixel_in(framed(content, c, size), size, x, y) == if covered(x, y, size, c) {
            pixel_in(content, c, x - margin(size, c), y - margin(size, c))
        } else {
            transparent()
        },
{
    lemma_in_range(size, size, x, y);
    lemma_locate(size, x, y, 0);
    lemma_locate(size, x, y, 1);
    lemma_locate(size, x, y, 2);
    lemma_locate(size, x, y, 3);
}

/// `content_side`, computed.
pub fn content_side_of(size: u32, percent: u8) -> (c: u32)
    requires
        percent <= 100,
    ensures
        c == content_side(size as int, percent as int),
        c <= size,
{
    proof {
        lemma_content_side(size as int, percent as int);
    }
    let scaled: u64 = size as u64 * percent as u64 + 50;
    (scaled / 100) as u32
}

/// Centres a square content buffer on a transparent canvas of side `size`.
pub fn frame(content: &Raster, size: u32) -> (out: Raster)
    requires
        content.spec_width() == content.spec_height(),
        content.spec_width() <= size,
        byte_len(size as int, size as int) <= usize::MAX,
    ensures
        out.spec_width() == size,
        out.spec_height() == size,
        out.bytes() == framed(content.bytes(), content.spec_width(), size as int),
{
    let c: u32 = content.width();
    let src = content.as_bytes();
    let total: usize = src.len();
    let m: u32 = (size - c) / 2;
    let ghost want = framed(src@, c as int, size as int);
    let mut out: Vec<u8> = Vec::new();
    let mut y: u32 = 0;
    while y < size
        invariant
            y <= size,
            c <= size,
            m == margin(size as int, c as int),
            src@.len() == byte_len(c as int, c as int),
            src@.len() == total,
            byte_len(size as int, size as int) <= usize::MAX,
            want == framed(src@, c as int, size as int),
            out@.len() == 4 * (y * size),
            forall|j: int| 0 <= j < out@.len() ==> out@[j] == want[j],
        decreases size - y,
    {
        let mut x: u32 = 0;
        while x < size
            invariant
                x <= size,
                y < size,
                c <= size,
                m == margin(size as int, c as int),
                src@.len() == byte_len(c as int, c as int),
                src@.len() == total,
                byte_len(size as int, size as int) <= usize::MAX,
                want == framed(src@, c as int, size as int),
                out@.len() == 4 * (y * size + x),
                forall|j: int| 0 <= j < out@.len() ==> out@[j] == want[j],
            decreases size - x,
        {
            proof {
                lemma_in_range(size as int, size as int, x as int, y as int);
                lemma_locate(size as int, x as int, y as int, 0);
                lemma_locate(size as int, x as int, y as int, 1);
                lemma_locate(size as int, x as int, y as int, 2);
                lemma_locate(size as int, x as int, y as int, 3);
            }
            if m <= x && x - m < c && m <= y && y - m < c {
                proof {
                    lemma_in_range(c as int, c as int, (x - m) as int, (y - m) as int);
                    assert(4 * ((y - m) * c + (x - m)) + 4 <= total);
                }
                let base: usize = 4 * ((y - m) as usize * c as usize + (x - m) as usize);
                out.push(src[base]);
                out.push(src[base + 1]);
                out.push(src[base + 2]);
                out.push(src[base + 3]);
            } else {
                out.push(0);
                out.push(0);
                out.push(0);
                out.push(0);
            }
            x = x + 1;
        }
        proof {
            assert(4 * (y * size + size) == 4 * ((y + 1) * size)) by (nonlinear_arith);
        }
        y = y + 1;
    }
    proof {
        assert(4 * (size * size) == byte_len(size as int, size as int)) by (nonlinear_arith);
        assert(out@ =~= want);
    }
    Raster::assemble(size, size, out)
}

} // verus!
