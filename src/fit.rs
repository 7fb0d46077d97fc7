use vstd::prelude::*;

use crate::error::GalleryError;

verus! {

/// `v`, but never below one.
pub open spec fn at_least_one(v: int) -> int {
    if v < 1 {
        1
    } else {
        v
    }
}

/// The size, before the border row is reserved, that keeps the aspect ratio of a
/// `src_w` by `src_h` image inside `cols` columns and `2 * rows` half-rows.
pub open spec fn fit_unreserved(src_w: int, src_h: int, cols: int, rows: int) -> (int, int) {
    let h2 = 2 * rows;
    if src_w <= cols && src_h <= h2 {
        (src_w, at_least_one((src_h + 1) / 2))
    } else if cols * src_h <= src_w * h2 {
        (cols, at_least_one(src_h * cols / src_w / 2))
    } else {
        (at_least_one(src_w * h2 / src_h), at_least_one(h2 / 2))
    }
}

/// The target size of a `src_w` by `src_h` image drawn into `cols` by `rows`
/// terminal cells: one row is kept free for a frame when the image would take
/// every row, unless there is only one.
pub open spec fn fit_size(src_w: int, src_h: int, cols: int, rows: int) -> (int, int) {
    let (w, h) = fit_unreserved(src_w, src_h, cols, rows);
    if h == rows && rows > 1 {
        (w, h - 1)
    } else {
        (w, h)
    }
}

proof fn lemma_quotient_bounded(a: int, b: int, c: int)
    requires
        0 <= a,
        0 < b,
        0 <= c,
        a <= b * c,
    ensures
        a / b <= c,
{
    assert(a / b <= c) by (nonlinear_arith)
        requires
            0 <= a,
            0 < b,
            0 <= c,
            a <= b * c,
    ;
}

proof fn lemma_quotient_below(a: int, b: int, c: int)
    requires
        0 <= a,
        0 < b,
        0 <= c,
        a < b * c,
    ensures
        a / b < c,
{
    assert(a / b < c) by (nonlinear_arith)
        requires
            0 <= a,
            0 < b,
            0 <= c,
            a < b * c,
    ;
}

/// Every fitted size is at least one by one and stays inside the region.
pub proof fn lemma_fit_in_bounds(src_w: int, src_h: int, cols: int, rows: int)
    requires
        src_w > 0,
        src_h > 0,
        cols > 0,
        rows > 0,
    ensures
        1 <= fit_size(src_w, src_h, cols, rows).0 <= cols,
        1 <= fit_size(src_w, src_h, cols, rows).1 <= rows,
{
    let h2 = 2 * rows;
    if src_w <= cols && src_h <= h2 {
    } else if cols * src_h <= src_w * h2 {
        assert(src_h * cols == cols * src_h) by (nonlinear_arith);
        lemma_quotient_bounded(src_h * cols, src_w, h2);
        assert(src_h * cols >= 0) by (nonlinear_arith)
            requires
                src_h > 0,
                cols > 0,
        ;
    } else {
        assert(src_w * h2 >= 0) by (nonlinear_arith)
            requires
                src_w > 0,
                h2 > 0,
        ;
        assert(src_h * cols == cols * src_h) by (nonlinear_arith);
        lemma_quotient_below(src_w * h2, src_h, cols);
    }
}

/// When the aspect-preserving fit would take every row of a region taller than
/// one row, the fitted height leaves exactly one row free; a single row is kept.
pub proof fn lemma_full_height_reserves_row(src_w: int, src_h: int, cols: int, rows: int)
    requires
        src_w > 0,
        src_h > 0,
        cols > 0,
        rows > 0,
        fit_unreserved(src_w, src_h, cols, rows).1 == rows,
    ensures
        rows > 1 ==> fit_size(src_w, src_h, cols, rows).1 == rows - 1,
        rows == 1 ==> fit_size(src_w, src_h, cols, rows).1 == 1,
        fit_size(src_w, src_h, cols, rows).0 == fit_unreserved(src_w, src_h, cols, rows).0,
{
}

/// Computes the size in cells at which a `src_w` by `src_h` image is drawn into a
/// region of `bound_cols` columns and `bound_rows` rows.
///
/// A terminal cell is about twice as tall as it is wide, so the fit is solved
/// against twice as many rows and the height is halved afterwards.
pub fn fit(src_w: u32, src_h: u32, bound_cols: u16, bound_rows: u16) -> (r: Result<
    (u32, u32),
    GalleryError,
>)
    ensures
        r == Err::<(u32, u32), GalleryError>(GalleryError::MalformedImage) <==> (src_w == 0
            || src_h == 0),
        r == Err::<(u32, u32), GalleryError>(GalleryError::RegionTooSmall) <==> (src_w > 0
            && src_h > 0 && (bound_cols == 0 || bound_rows == 0)),
        r is Ok <==> (src_w > 0 && src_h > 0 && bound_cols > 0 && bound_rows > 0),
        match r {
            Ok((w, h)) => {
                &&& (w as int, h as int) == fit_size(
                    src_w as int,
                    src_h as int,
                    bound_cols as int,
                    bound_rows as int,
                )
                &&& 1 <= w <= bound_cols
                &&& 1 <= h <= bound_rows
            },
            Err(_) => true,
        },
{
    if src_w == 0 || src_h == 0 {
        return Err(GalleryError::MalformedImage);
    }
    if bound_cols == 0 || bound_rows == 0 {
        return Err(GalleryError::RegionTooSmall);
    }
    proof {
        lemma_fit_in_bounds(src_w as int, src_h as int, bound_cols as int, bound_rows as int);
    }
    let sw: u64 = src_w as u64;
    let sh: u64 = src_h as u64;
    let cols: u64 = bound_cols as u64;
    let rows: u64 = bound_rows as u64;
    let h2: u64 = 2 * rows;
    let mut w: u64;
    let mut h: u64;
    if sw <= cols && sh <= h2 {
        w = sw;
        h = (sh + 1) / 2;
    } else {
        assert(sw * h2 <= 0xffff_ffff * 0x2_0000) by (nonlinear_arith)
            requires
                sw <= 0xffff_ffff,
                h2 <= 0x2_0000,
        ;
        assert(cols * sh <= 0xffff * 0xffff_ffff) by (nonlinear_arith)
            requires
                sh <= 0xffff_ffff,
                cols <= 0xffff,
        ;
        assert(sh * cols == cols * sh) by (nonlinear_arith);
        let by_width: u64 = sw * h2;
        let by_height: u64 = cols * sh;
        if by_height <= by_width {
            w = cols;
            h = sh * cols / sw / 2;
        } else {
            w = by_width / sh;
            h = h2 / 2;
        }
    }
    if w < 1 {
        w = 1;
    }
    if h < 1 {
        h = 1;
    }
    if h == rows && rows > 1 {
        h = h - 1;
    }
    Ok((w as u32, h as u32))
}

} // verus!
