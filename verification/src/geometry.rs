//! Axis-aligned bounding boxes and the exact intersection-over-union test
//! used by duplicate suppression. All quantities are integers: a threshold
//! `t` stands for the fraction `t / UNIT_SCALE`, and the comparison
//! `IoU >= t / UNIT_SCALE` is decided by cross-multiplication, without
//! division or rounding.

use vstd::prelude::*;

use crate::UNIT_SCALE;

verus! {

/// An axis-aligned box: top-left corner and size, in pixels.
#[derive(Clone, Copy, PartialEq, Eq, Structural, Debug)]
pub struct BBox {
    pub x: u32,
    pub y: u32,
    pub width: u32,
    pub height: u32,
}

/// Length of the overlap of the intervals `[a0, a0+al)` and `[b0, b0+bl)`.
pub open spec fn spec_overlap_1d(a0: int, al: int, b0: int, bl: int) -> int {
    let lo = if a0 > b0 {
        a0
    } else {
        b0
    };
    let hi = if a0 + al < b0 + bl {
        a0 + al
    } else {
        b0 + bl
    };
    if hi > lo {
        hi - lo
    } else {
        0
    }
}

pub open spec fn spec_area(a: BBox) -> int {
    a.width * a.height
}

/// Area of the intersection of two boxes.
pub open spec fn spec_inter_area(a: BBox, b: BBox) -> int {
    spec_overlap_1d(a.x as int, a.width as int, b.x as int, b.width as int) * spec_overlap_1d(
        a.y as int,
        a.height as int,
        b.y as int,
        b.height as int,
    )
}

/// Area of the union of two boxes.
pub open spec fn spec_union_area(a: BBox, b: BBox) -> int {
    spec_area(a) + spec_area(b) - spec_inter_area(a, b)
}

/// `IoU(a, b) >= t / UNIT_SCALE`, stated by cross-multiplication.
///
/// Two boxes of area zero have an undefined quotient; under this definition
/// they count as fully overlapping each other, so suppression treats
/// degenerate duplicates like any other duplicates.
pub open spec fn spec_iou_ge(a: BBox, b: BBox, t: int) -> bool {
    spec_inter_area(a, b) * (UNIT_SCALE as int) >= t * spec_union_area(a, b)
}

/// The IoU test does not depend on the order of its two boxes.
pub proof fn lemma_iou_symmetric(a: BBox, b: BBox, t: int)
    ensures
        spec_iou_ge(a, b, t) == spec_iou_ge(b, a, t),
{
    assert(spec_inter_area(a, b) == spec_inter_area(b, a));
    assert(spec_union_area(a, b) == spec_union_area(b, a));
}

/// The intersection is never larger than either box.
pub proof fn lemma_inter_area_le(a: BBox, b: BBox)
    ensures
        0 <= spec_inter_area(a, b),
        spec_inter_area(a, b) <= spec_area(a),
        spec_inter_area(a, b) <= spec_area(b),
{
    let ow = spec_overlap_1d(a.x as int, a.width as int, b.x as int, b.width as int);
    let oh = spec_overlap_1d(a.y as int, a.height as int, b.y as int, b.height as int);
    assert(0 <= ow && ow <= a.width && ow <= b.width);
    assert(0 <= oh && oh <= a.height && oh <= b.height);
    assert(ow * oh <= a.width * a.height) by (nonlinear_arith)
        requires
            0 <= ow <= a.width,
            0 <= oh <= a.height,
    ;
    assert(ow * oh <= b.width * b.height) by (nonlinear_arith)
        requires
            0 <= ow <= b.width,
            0 <= oh <= b.height,
    ;
    assert(ow * oh >= 0) by (nonlinear_arith)
        requires
            0 <= ow,
            0 <= oh,
    ;
}

/// Length of the overlap of two pixel intervals.
fn overlap_1d(a0: u32, al: u32, b0: u32, bl: u32) -> (r: u64)
    ensures
        r == spec_overlap_1d(a0 as int, al as int, b0 as int, bl as int),
        r <= al,
        r <= bl,
{
    let lo: u64 = if a0 > b0 {
        a0 as u64
    } else {
        b0 as u64
    };
    let a_end: u64 = a0 as u64 + al as u64;
    let b_end: u64 = b0 as u64 + bl as u64;
    let hi: u64 = if a_end < b_end {
        a_end
    } else {
        b_end
    };
    if hi > lo {
        hi - lo
    } else {
        0
    }
}

/// Decides `IoU(a, b) >= t / UNIT_SCALE` exactly.
pub fn iou_at_least(a: &BBox, b: &BBox, t: u32) -> (r: bool)
    ensures
        r == spec_iou_ge(*a, *b, t as int),
{
    let ow = overlap_1d(a.x, a.width, b.x, b.width);
    let oh = overlap_1d(a.y, a.height, b.y, b.height);
    proof {
        lemma_inter_area_le(*a, *b);
        assert(ow * oh < 0x10000000000000000int) by (nonlinear_arith)
            requires
                0 <= ow < 0x100000000int,
                0 <= oh < 0x100000000int,
        ;
        assert(a.width * a.height < 0x10000000000000000int) by (nonlinear_arith)
            requires
                a.width < 0x100000000int,
                a.height < 0x100000000int,
        ;
        assert(b.width * b.height < 0x10000000000000000int) by (nonlinear_arith)
            requires
                b.width < 0x100000000int,
                b.height < 0x100000000int,
        ;
    }
    let inter: u128 = ow as u128 * oh as u128;
    let area_a: u128 = a.width as u128 * a.height as u128;
    let area_b: u128 = b.width as u128 * b.height as u128;
    proof {
        assert(inter == spec_inter_area(*a, *b));
        assert(area_a == spec_area(*a));
        assert(area_b == spec_area(*b));
    }
    let union_area: u128 = area_a + area_b - inter;
    proof {
        let ghost big: int = 0x100000000000000000000000000000000int;
        assert(inter * (UNIT_SCALE as int) < big) by (nonlinear_arith)
            requires
                0 <= inter < 0x10000000000000000int,
                UNIT_SCALE < 0x100000000int,
                big == 0x100000000000000000000000000000000int,
        ;
        assert((t as int) * (union_area as int) < big) by (nonlinear_arith)
            requires
                0 <= t < 0x100000000int,
                0 <= union_area < 0x20000000000000000int,
                big == 0x100000000000000000000000000000000int,
        ;
    }
    inter * (UNIT_SCALE as u128) >= (t as u128) * union_area
}

} // verus!
