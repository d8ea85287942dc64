//! Page geometry: how an image is placed on its PDF page.
//!
//! All geometry is measured in units of 1/400 of a PostScript point, so that
//! standard paper sizes (given to two decimals of a point) and exactly
//! centred offsets are both representable without fractions: page and image
//! sizes are always even in this unit, which makes the centring offset
//! `(page - image) / 2` exact.
//!
//! A page either matches the image (one pixel is `72 / dpi` points) or is a
//! fixed paper size with the image scaled uniformly to fit and centred.

use vstd::prelude::*;

verus! {

/// A standard paper size, in portrait orientation.
#[derive(Clone, Copy, Debug, PartialEq, Eq, Structural)]
pub enum PageSize {
    A4,
    Letter,
    Legal,
    A3,
}

impl PageSize {
    /// Width and height in units of 1/400 point
    /// (A4 is 595.28 by 841.89 points, and so on).
    pub open spec fn spec_dimensions_qpt(self) -> (int, int) {
        match self {
            PageSize::A4 => (238112int, 336756int),
            PageSize::Letter => (244800int, 316800int),
            PageSize::Legal => (244800int, 403200int),
            PageSize::A3 => (336756int, 476220int),
        }
    }

    /// Width and height of the paper in units of 1/400 point.
    pub fn dimensions_qpt(self) -> (r: (u64, u64))
        ensures
            r.0 == self.spec_dimensions_qpt().0,
            r.1 == self.spec_dimensions_qpt().1,
    {
        match self {
            PageSize::A4 => (238112, 336756),
            PageSize::Letter => (244800, 316800),
            PageSize::Legal => (244800, 403200),
            PageSize::A3 => (336756, 476220),
        }
    }
}

/// Where an image sits on its page, in units of 1/400 point. The image
/// occupies the rectangle from `(x_off, y_off)` to
/// `(x_off + img_w, y_off + img_h)` inside the `page_w` by `page_h` page.
#[derive(Clone, Copy, Debug, PartialEq, Eq, Structural)]
pub struct PageLayout {
    pub page_w: u64,
    pub page_h: u64,
    pub img_w: u64,
    pub img_h: u64,
    pub x_off: u64,
    pub y_off: u64,
}

pub open spec fn spec_clamp1(v: int) -> int {
    if v < 1 {
        1
    } else {
        v
    }
}

/// One side of the image at its natural size, in units of 1/200 point:
/// `px * 72 / dpi` points, truncated, but never zero.
pub open spec fn spec_side_200(px: int, dpi: int) -> int {
    spec_clamp1(px * 14400 / dpi)
}

/// Width of an `iw` by `ih` image scaled uniformly to fit a `pw` by `ph`
/// page (all in units of 1/200 point): the tighter axis fills its page side,
/// the other is scaled by the same ratio, truncated, but never to zero.
pub open spec fn spec_fit_w_200(iw: int, ih: int, pw: int, ph: int) -> int {
    if pw * ih <= ph * iw {
        pw
    } else {
        spec_clamp1(iw * ph / ih)
    }
}

/// Height of the uniformly fitted image; see [`spec_fit_w_200`].
pub open spec fn spec_fit_h_200(iw: int, ih: int, pw: int, ph: int) -> int {
    if pw * ih <= ph * iw {
        spec_clamp1(ih * pw / iw)
    } else {
        ph
    }
}

fn side_200(px: u32, dpi: u32) -> (r: u64)
    requires
        1 <= dpi,
    ensures
        r == spec_side_200(px as int, dpi as int),
        1 <= r <= 61847529048000,
{
    let scaled: u64 = (px as u64) * 14400;
    let v: u64 = scaled / (dpi as u64);
    proof {
        assert((scaled as int) / (dpi as int) <= scaled as int) by (nonlinear_arith)
            requires
                scaled >= 0,
                dpi >= 1,
        ;
    }
    if v == 0 {
        1
    } else {
        v
    }
}

/// Computes the page geometry for an image of `width_px` by `height_px`
/// pixels at the given resolution. Without a fixed page size the page
/// matches the image at `72 / dpi` points per pixel; with one, the image is
/// scaled uniformly to fit the paper and centred exactly.
pub fn page_layout(width_px: u32, height_px: u32, dpi: u32, pagesize: Option<PageSize>) -> (r:
    PageLayout)
    requires
        1 <= dpi,
    ensures
        ({
            let iw = spec_side_200(width_px as int, dpi as int);
            let ih = spec_side_200(height_px as int, dpi as int);
            &&& match pagesize {
                None => r.page_w == 2 * iw && r.page_h == 2 * ih && r.img_w == 2 * iw && r.img_h
                    == 2 * ih,
                Some(ps) => {
                    let pw = ps.spec_dimensions_qpt().0 / 2;
                    let ph = ps.spec_dimensions_qpt().1 / 2;
                    &&& r.page_w == 2 * pw
                    &&& r.page_h == 2 * ph
                    &&& r.img_w == 2 * spec_fit_w_200(iw, ih, pw, ph)
                    &&& r.img_h == 2 * spec_fit_h_200(iw, ih, pw, ph)
                },
            }
            &&& 2 * r.x_off + r.img_w == r.page_w
            &&& 2 * r.y_off + r.img_h == r.page_h
            &&& 0 < r.img_w <= r.page_w
            &&& 0 < r.img_h <= r.page_h
        }),
{
    let iw: u64 = side_200(width_px, dpi);
    let ih: u64 = side_200(height_px, dpi);
    match pagesize {
        None => PageLayout {
            page_w: 2 * iw,
            page_h: 2 * ih,
            img_w: 2 * iw,
            img_h: 2 * ih,
            x_off: 0,
            y_off: 0,
        },
        Some(ps) => {
            let dims = ps.dimensions_qpt();
            let pw: u64 = dims.0 / 2;
            let ph: u64 = dims.1 / 2;
            proof {
                assert forall|a: int, b: int|
                    0 <= a < 0x10000000000000000 && 0 <= b < 0x10000000000000000
                        implies #[trigger] (a * b) < 0x100000000000000000000000000000000 by {
                    assert(a * b < 0x100000000000000000000000000000000) by (nonlinear_arith)
                        requires
                            0 <= a < 0x10000000000000000,
                            0 <= b < 0x10000000000000000,
                    ;
                }
            }
            let wide: bool = (pw as u128) * (ih as u128) <= (ph as u128) * (iw as u128);
            if wide {
                let h2_wide: u128 = (ih as u128) * (pw as u128) / (iw as u128);
                proof {
                    assert((ih as int) * (pw as int) / (iw as int) <= ph as int)
                        by (nonlinear_arith)
                        requires
                            (pw as int) * (ih as int) <= (ph as int) * (iw as int),
                            1 <= iw as int,
                            0 <= ih as int,
                            0 <= pw as int,
                    ;
                }
                let h2: u64 = if h2_wide == 0 {
                    1
                } else {
                    h2_wide as u64
                };
                PageLayout {
                    page_w: 2 * pw,
                    page_h: 2 * ph,
                    img_w: 2 * pw,
                    img_h: 2 * h2,
                    x_off: 0,
                    y_off: ph - h2,
                }
            } else {
                let w2_wide: u128 = (iw as u128) * (ph as u128) / (ih as u128);
                proof {
                    assert((iw as int) * (ph as int) / (ih as int) < pw as int)
                        by (nonlinear_arith)
                        requires
                            (pw as int) * (ih as int) > (ph as int) * (iw as int),
                            1 <= ih as int,
                            0 <= iw as int,
                            0 <= ph as int,
                            1 <= pw as int,
                    ;
                }
                let w2: u64 = if w2_wide == 0 {
                    1
                } else {
                    w2_wide as u64
                };
                PageLayout {
                    page_w: 2 * pw,
                    page_h: 2 * ph,
                    img_w: 2 * w2,
                    img_h: 2 * ph,
                    x_off: pw - w2,
                    y_off: 0,
                }
            }
        },
    }
}

/// Law: scaling to fit a fixed page is uniform and leaves the image inside
/// the page. The fitted sizes preserve the aspect ratio up to one unit of
/// truncation (`-ih < ih*w - iw*h < iw`), the image fills the page exactly
/// on the constrained axis, and when the aspect ratios differ strictly a
/// positive margin remains on the other axis. The inputs are the image's
/// natural size `iw` by `ih` and the page size `pw` by `ph`, all in units of
/// 1/200 point; the two product bounds exclude images so extreme that the
/// fitted size truncates to zero.
pub proof fn lemma_fit_uniform_inside(iw: int, ih: int, pw: int, ph: int)
    requires
        1 <= iw,
        1 <= ih,
        1 <= pw,
        1 <= ph,
        iw <= ih * pw,
        ih <= iw * ph,
    ensures
        ({
            let w = spec_fit_w_200(iw, ih, pw, ph);
            let h = spec_fit_h_200(iw, ih, pw, ph);
            &&& 1 <= w <= pw
            &&& 1 <= h <= ph
            &&& -ih < ih * w - iw * h < iw
            &&& (pw * ih < ph * iw ==> w == pw && h < ph)
            &&& (pw * ih > ph * iw ==> h == ph && w < pw)
            &&& (pw * ih == ph * iw ==> w == pw && h == ph)
        }),
{
    if pw * ih <= ph * iw {
        let q = ih * pw / iw;
        assert(1 <= q && iw * q <= ih * pw < iw * q + iw) by (nonlinear_arith)
            requires
                1 <= iw,
                iw <= ih * pw,
                q == ih * pw / iw,
        ;
        assert(q <= ph) by (nonlinear_arith)
            requires
                ih * pw <= ph * iw,
                1 <= iw,
                0 <= ih * pw,
                q == ih * pw / iw,
        ;
        if pw * ih < ph * iw {
            assert(q < ph) by (nonlinear_arith)
                requires
                    ih * pw < ph * iw,
                    1 <= iw,
                    0 <= ih * pw,
                    q == ih * pw / iw,
            ;
        }
        if pw * ih == ph * iw {
            assert(q == ph) by (nonlinear_arith)
                requires
                    ih * pw == ph * iw,
                    1 <= iw,
                    0 <= ph,
                    q == ih * pw / iw,
            ;
        }
    } else {
        let q = iw * ph / ih;
        assert(1 <= q && ih * q <= iw * ph < ih * q + ih) by (nonlinear_arith)
            requires
                1 <= ih,
                ih <= iw * ph,
                q == iw * ph / ih,
        ;
        assert(q < pw) by (nonlinear_arith)
            requires
                iw * ph < pw * ih,
                1 <= ih,
                0 <= iw * ph,
                q == iw * ph / ih,
        ;
    }
}

} // verus!
