//! The 320x200 screen buffer and the drawing of graphics from the picture
//! data into it, in the three graphics encodings.
use vstd::prelude::*;

use crate::catacomb_ii::gr_type::grtype;
use crate::catacomb_ii::pcrlib_a::{bit_at, EGA};

verus! {

/// The number of pixels of a screen row.
pub const screenpitch: usize = 320;

/// The row of the box at `ofs` that pixel `i` falls in.
pub open spec fn box_row(ofs: int, i: int) -> int {
    (i - ofs) / screenpitch as int
}

/// The column of the box at `ofs` that pixel `i` falls in.
pub open spec fn box_col(ofs: int, i: int) -> int {
    (i - ofs) % screenpitch as int
}

/// Whether pixel `i` lies in the box of `w` by `h` pixels whose top-left
/// pixel is `ofs`.
pub open spec fn in_box(ofs: int, w: int, h: int, i: int) -> bool {
    &&& i >= ofs
    &&& box_row(ofs, i) < h
    &&& box_col(ofs, i) < w
}

/// The pixel at row `r`, column `c` of the box at `ofs` has index
/// `ofs + 320 r + c`.
pub proof fn lemma_box_index(ofs: int, r: int, c: int)
    requires
        0 <= r,
        0 <= c < screenpitch,
    ensures
        box_row(ofs, ofs + r * screenpitch + c) == r,
        box_col(ofs, ofs + r * screenpitch + c) == c,
{
    let d = r * 320 + c;
    assert(d / 320 == r && d % 320 == c) by (nonlinear_arith)
        requires
            d == r * 320 + c,
            0 <= r,
            0 <= c < 320,
    ;
}

/// Where a graphic's pixels come from: the data, the offset of its first
/// byte, the bytes per row, and the offsets of the four EGA planes.
pub struct Source {
    pub base: usize,
    pub rowstride: usize,
    pub planeofs: [usize; 4],
}

/// The colour of pixel (r, c) of a graphic in the given encoding. CGA packs
/// four 2-bit pixels per byte, the leftmost in the top bits; VGA has one
/// byte per pixel; EGA (and any other mode) spreads eight pixels over one
/// byte of each of four planes, the leftmost in the top bit, plane 3 giving
/// the colour's top bit.
pub open spec fn src_pixel(mode: grtype, data: Seq<u8>, src: Source, r: int, c: int) -> u8 {
    match mode {
        grtype::CGAgr => {
            let b = data[src.base + r * src.rowstride + c / 4];
            (b >> (6 - 2 * (c % 4)) as u8) & 3
        },
        grtype::VGAgr => data[src.base + r * src.rowstride + c],
        _ => {
            let at = src.base + r * src.rowstride + c / 8;
            let bit = (7 - c % 8) as u8;
            (8 * bit_at(data[at + src.planeofs[3]], bit) + 4 * bit_at(data[at + src.planeofs[2]], bit)
                + 2 * bit_at(data[at + src.planeofs[1]], bit) + bit_at(
                data[at + src.planeofs[0]],
                bit,
            )) as u8
        },
    }
}

/// The largest index of the data that a pixel of a `w` by `h` graphic
/// reads, plus one.
pub open spec fn src_extent(mode: grtype, src: Source, w: int, h: int) -> int {
    let last_row = src.base + (h - 1) * src.rowstride;
    match mode {
        grtype::CGAgr => last_row + (w - 1) / 4 + 1,
        grtype::VGAgr => last_row + w,
        _ => last_row + (w - 1) / 8 + 1 + max4(src.planeofs),
    }
}

/// The largest of four offsets.
pub open spec fn max4(a: [usize; 4]) -> int {
    let m01 = if a[0] >= a[1] {
        a[0]
    } else {
        a[1]
    };
    let m23 = if a[2] >= a[3] {
        a[2]
    } else {
        a[3]
    };
    if m01 >= m23 {
        m01 as int
    } else {
        m23 as int
    }
}

/// The source rows are laid out so that every pixel of a `w` by `h`
/// graphic lies in the data.
pub open spec fn source_ok(mode: grtype, data: Seq<u8>, src: Source, w: int, h: int) -> bool {
    &&& h > 0 && w > 0
    &&& src_extent(mode, src, w, h) <= data.len()
    &&& src.rowstride * h <= usize::MAX
    &&& src_extent(mode, src, w, h) <= usize::MAX
}

/// A `w` by `h` box at `ofs` that fits in a screen of `len` pixels.
pub open spec fn box_ok(len: int, ofs: int, w: int, h: int) -> bool {
    &&& 0 < w <= screenpitch
    &&& h > 0
    &&& ofs + (h - 1) * screenpitch + w <= len
}

/// The screen after drawing: the pixels of the box come from the graphic,
/// the others are as before.
pub open spec fn blitted(
    before: Seq<u8>,
    after: Seq<u8>,
    ofs: int,
    w: int,
    h: int,
    mode: grtype,
    data: Seq<u8>,
    src: Source,
) -> bool {
    &&& after.len() == before.len()
    &&& forall|i: int|
        0 <= i < before.len() ==> #[trigger] after[i] == if in_box(ofs, w, h, i) {
            src_pixel(mode, data, src, box_row(ofs, i), box_col(ofs, i))
        } else {
            before[i]
        }
}

/// The colour of pixel (r, c) of a graphic (see `src_pixel`).
fn pixel_at(mode: grtype, data: &[u8], src: &Source, r: usize, c: usize, w: usize, h: usize) -> (p: u8)
    requires
        source_ok(mode, data@, *src, w as int, h as int),
        r < h,
        c < w,
    ensures
        p == src_pixel(mode, data@, *src, r as int, c as int),
{
    proof {
        assert(r * src.rowstride <= (h - 1) * src.rowstride) by (nonlinear_arith)
            requires
                r <= h - 1,
        ;
    }
    match mode {
        grtype::CGAgr => {
            let b = data[src.base + r * src.rowstride + c / 4];
            let shift = (6 - 2 * (c % 4)) as u8;
            (b >> shift) & 3
        },
        grtype::VGAgr => data[src.base + r * src.rowstride + c],
        _ => {
            let at = src.base + r * src.rowstride + c / 8;
            let bit = (7 - c % 8) as u8;
            let chan = [
                data[at + src.planeofs[0]],
                data[at + src.planeofs[1]],
                data[at + src.planeofs[2]],
                data[at + src.planeofs[3]],
            ];
            EGA(&chan, bit)
        },
    }
}

/// Draws a `w` by `h` graphic into the screen with its top-left pixel at
/// `ofs` (see `blitted`).
pub fn blit(
    screen: &mut [u8],
    ofs: usize,
    w: usize,
    h: usize,
    mode: grtype,
    data: &[u8],
    src: &Source,
)
    requires
        box_ok(old(screen)@.len() as int, ofs as int, w as int, h as int),
        source_ok(mode, data@, *src, w as int, h as int),
    ensures
        blitted(old(screen)@, final(screen)@, ofs as int, w as int, h as int, mode, data@, *src),
{
    let ghost before = screen@;
    let n = screen.len();
    let mut r: usize = 0;
    while r < h
        invariant
            r <= h,
            n == before.len(),
            box_ok(before.len() as int, ofs as int, w as int, h as int),
            source_ok(mode, data@, *src, w as int, h as int),
            screen@.len() == before.len(),
            forall|i: int|
                0 <= i < before.len() ==> #[trigger] screen@[i] == if in_box(
                    ofs as int,
                    w as int,
                    r as int,
                    i,
                ) {
                    src_pixel(mode, data@, *src, box_row(ofs as int, i), box_col(ofs as int, i))
                } else {
                    before[i]
                },
        decreases h - r,
    {
        let mut c: usize = 0;
        while c < w
            invariant
                r < h,
                c <= w,
                n == before.len(),
                box_ok(before.len() as int, ofs as int, w as int, h as int),
                source_ok(mode, data@, *src, w as int, h as int),
                screen@.len() == before.len(),
                forall|i: int|
                    0 <= i < before.len() ==> #[trigger] screen@[i] == if in_box(
                        ofs as int,
                        w as int,
                        r as int,
                        i,
                    ) || (i >= ofs && box_row(ofs as int, i) == r && box_col(ofs as int, i) < c) {
                        src_pixel(
                            mode,
                            data@,
                            *src,
                            box_row(ofs as int, i),
                            box_col(ofs as int, i),
                        )
                    } else {
                        before[i]
                    },
            decreases w - c,
        {
            proof {
                assert(r * 320 <= (h - 1) * 320) by (nonlinear_arith)
                    requires
                        r <= h - 1,
                ;
                lemma_box_index(ofs as int, r as int, c as int);
            }
            let p = pixel_at(mode, data, src, r, c, w, h);
            let at = ofs + r * screenpitch + c;
            screen[at] = p;
            proof {
                assert forall|i: int| 0 <= i < before.len() && i != at implies (i >= ofs
                    && box_row(ofs as int, i) == r && box_col(ofs as int, i) < c + 1) == (i >= ofs
                    && box_row(ofs as int, i) == r && box_col(ofs as int, i) < c) by {}
            }
            c += 1;
        }
        proof {
            assert forall|i: int| 0 <= i < before.len() implies in_box(
                ofs as int,
                w as int,
                r + 1,
                i,
            ) == (in_box(ofs as int, w as int, r as int, i) || (i >= ofs && box_row(ofs as int, i)
                == r && box_col(ofs as int, i) < w)) by {}
        }
        r += 1;
    }
}

} // verus!
