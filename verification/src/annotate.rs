use crate::pp_doclayout::labels::PPDocLayoutV3Label;
use vstd::arithmetic::div_mod::{lemma_fundamental_div_mod, lemma_fundamental_div_mod_converse};
use vstd::prelude::*;
use vstd::slice::SliceAdditionalExecFns;

verus! {

/// A box in pixel coordinates; `right` and `bottom` are inclusive.
#[derive(Debug, Clone, Copy, PartialEq, Eq)]
pub struct Rect {
    pub left: i32,
    pub top: i32,
    pub right: i32,
    pub bottom: i32,
}

/// A labelled box in pixel coordinates, outlined in the label's colour.
#[derive(Debug, Clone, Copy, PartialEq, Eq)]
pub struct PixelBox {
    pub label: PPDocLayoutV3Label,
    pub rect: Rect,
}

/// `v` limited to `lo..=hi`.
pub open spec fn clamp_int(v: int, lo: int, hi: int) -> int {
    if v < lo {
        lo
    } else if v > hi {
        hi
    } else {
        v
    }
}

/// Column of the pixel that byte `i` of an RGBA buffer of width `w` belongs to.
pub open spec fn pixel_x(i: int, w: int) -> int {
    (i / 4) % w
}

/// Row of the pixel that byte `i` of an RGBA buffer of width `w` belongs to.
pub open spec fn pixel_y(i: int, w: int) -> int {
    (i / 4) / w
}

/// Whether a horizontal line on row `y` from `left` to `right` covers pixel `(px, py)`.
pub open spec fn hline_covers(w: int, h: int, left: int, right: int, y: int, px: int, py: int) -> bool {
    &&& 0 <= y < h
    &&& py == y
    &&& (if left < 0 { 0 } else { left }) <= px
    &&& px <= (if right < w - 1 { right } else { w - 1 })
}

/// Whether a vertical line on column `x` from `top` to `bottom` covers pixel `(px, py)`.
pub open spec fn vline_covers(w: int, h: int, x: int, top: int, bottom: int, px: int, py: int) -> bool {
    &&& 0 <= x < w
    &&& px == x
    &&& (if top < 0 { 0 } else { top }) <= py
    &&& py <= (if bottom < h - 1 { bottom } else { h - 1 })
}

/// Whether the two-pixel outline of `rect`, clamped to a `w` x `h` canvas,
/// covers pixel `(px, py)`. An inverted rectangle has no outline.
pub open spec fn outline_covers(w: int, h: int, rect: Rect, px: int, py: int) -> bool {
    if rect.right < rect.left || rect.bottom < rect.top {
        false
    } else {
        let l = clamp_int(rect.left as int, 0, w - 1);
        let t = clamp_int(rect.top as int, 0, h - 1);
        let r = clamp_int(rect.right as int, 0, w - 1);
        let b = clamp_int(rect.bottom as int, 0, h - 1);
        ||| hline_covers(w, h, l, r, t, px, py)
        ||| hline_covers(w, h, l, r, b, px, py)
        ||| vline_covers(w, h, l, t, b, px, py)
        ||| vline_covers(w, h, r, t, b, px, py)
        ||| hline_covers(w, h, l, r, t + 1, px, py)
        ||| hline_covers(w, h, l, r, b - 1, px, py)
        ||| vline_covers(w, h, l + 1, t, b, px, py)
        ||| vline_covers(w, h, r - 1, t, b, px, py)
    }
}

/// `buf` with the outline of `rect` painted in `color`.
pub open spec fn outline_paint(buf: Seq<u8>, w: int, h: int, rect: Rect, color: [u8; 4]) -> Seq<u8> {
    Seq::new(
        buf.len(),
        |i: int|
            if outline_covers(w, h, rect, pixel_x(i, w), pixel_y(i, w)) {
                color[i % 4]
            } else {
                buf[i]
            },
    )
}

/// `rgba` with the outlines of `boxes` painted one after the other.
pub open spec fn annotated(rgba: Seq<u8>, w: int, h: int, boxes: Seq<PixelBox>) -> Seq<u8>
    decreases boxes.len(),
{
    if boxes.len() == 0 {
        rgba
    } else {
        let last = boxes.last();
        outline_paint(
            annotated(rgba, w, h, boxes.drop_last()),
            w,
            h,
            last.rect,
            last.label.spec_debug_color_rgba(),
        )
    }
}

/// Whether a `w` x `h` canvas fits the byte buffer and `i32` coordinates.
pub open spec fn canvas_ok(len: int, w: int, h: int) -> bool {
    &&& w > 0
    &&& h > 0
    &&& len == w * h * 4
    &&& w <= i32::MAX
    &&& h <= i32::MAX
}

/// Whether the byte offset of every pixel that the outline of `rect` covers
/// on a `w` x `h` canvas fits in `i32`, where the pixel arithmetic is done.
pub open spec fn outline_offsets_fit(w: int, h: int, rect: Rect) -> bool {
    forall|px: int, py: int| #[trigger] outline_covers(w, h, rect, px, py) ==> (py * w + px) * 4 <= i32::MAX
}

/// Whether `rect` can be outlined on a `w` x `h` canvas without leaving `i32`
/// arithmetic: an inverted rectangle draws nothing; any other needs the canvas
/// size in `i32` and every drawn pixel's byte offset too.
pub open spec fn box_drawable(w: int, h: int, rect: Rect) -> bool {
    ||| rect.right < rect.left
    ||| rect.bottom < rect.top
    ||| (w <= i32::MAX && h <= i32::MAX && outline_offsets_fit(w, h, rect))
}

proof fn lemma_pixel_coords(j: int, w: int, x: int, y: int)
    requires
        w > 0,
        0 <= x < w,
        0 <= y,
        j >= 0,
    ensures
        (j / 4 == y * w + x) <==> (pixel_x(j, w) == x && pixel_y(j, w) == y),
{
    let p = j / 4;
    if p == y * w + x {
        lemma_fundamental_div_mod_converse(p, w, y, x);
    }
    if pixel_x(j, w) == x && pixel_y(j, w) == y {
        lemma_fundamental_div_mod(p, w);
        assert(p == w * y + x);
        assert(w * y == y * w) by (nonlinear_arith);
    }
}

/// Writes one RGBA pixel.
fn put_pixel(rgba: &mut [u8], image_width: i32, x: i32, y: i32, color: [u8; 4])
    requires
        0 <= x < image_width,
        0 <= y,
        (y * image_width + x) * 4 + 4 <= old(rgba)@.len(),
        (y * image_width + x) * 4 <= i32::MAX,
    ensures
        final(rgba)@.len() == old(rgba)@.len(),
        forall|j: int|
            0 <= j < old(rgba)@.len() ==> #[trigger] final(rgba)@[j] == if j / 4 == y * image_width + x {
                color[j % 4]
            } else {
                old(rgba)@[j]
            },
{
    let offset = ((y * image_width + x) * 4) as usize;
    rgba.set(offset, color[0]);
    rgba.set(offset + 1, color[1]);
    rgba.set(offset + 2, color[2]);
    rgba.set(offset + 3, color[3]);
}

/// Paints a horizontal line on row `y`, clipped to the canvas.
fn draw_horizontal_line(
    rgba: &mut [u8],
    image_width: i32,
    image_height: i32,
    left: i32,
    right: i32,
    y: i32,
    color: [u8; 4],
)
    requires
        canvas_ok(old(rgba)@.len() as int, image_width as int, image_height as int),
        forall|px: int, py: int|
            #[trigger] hline_covers(
                image_width as int,
                image_height as int,
                left as int,
                right as int,
                y as int,
                px,
                py,
            ) ==> (py * image_width + px) * 4 <= i32::MAX,
    ensures
        final(rgba)@.len() == old(rgba)@.len(),
        forall|i: int|
            0 <= i < old(rgba)@.len() ==> #[trigger] final(rgba)@[i] == if hline_covers(
                image_width as int,
                image_height as int,
                left as int,
                right as int,
                y as int,
                pixel_x(i, image_width as int),
                pixel_y(i, image_width as int),
            ) {
                color[i % 4]
            } else {
                old(rgba)@[i]
            },
{
    if y < 0 || y >= image_height {
        return;
    }
    let start = if left < 0 {
        0
    } else {
        left
    };
    let end = if right < image_width - 1 {
        right
    } else {
        image_width - 1
    };
    let ghost w = image_width as int;
    let ghost h = image_height as int;
    let ghost before = rgba@;
    let mut x = start;
    while x <= end
        invariant
            canvas_ok(before.len() as int, w, h),
            w == image_width,
            h == image_height,
            0 <= y < h,
            0 <= start,
            end <= w - 1,
            start <= x,
            start as int == (if left < 0 { 0 } else { left as int }),
            end as int == (if right < w - 1 { right as int } else { w - 1 }),
            forall|px: int, py: int|
                #[trigger] hline_covers(w, h, left as int, right as int, y as int, px, py) ==> (py * w
                    + px) * 4 <= i32::MAX,
            x == start || x <= end + 1,
            rgba@.len() == before.len(),
            forall|i: int|
                0 <= i < before.len() ==> #[trigger] rgba@[i] == if pixel_y(i, w) == y && start
                    <= pixel_x(i, w) < x {
                    color[i % 4]
                } else {
                    before[i]
                },
        decreases end + 1 - x,
    {
        proof {
            assert(y * w + x < w * h) by (nonlinear_arith)
                requires
                    0 <= y < h,
                    0 <= x < w,
            ;
            assert(hline_covers(w, h, left as int, right as int, y as int, x as int, y as int));
        }
        let ghost prev = rgba@;
        put_pixel(rgba, image_width, x, y, color);
        proof {
            assert forall|i: int| 0 <= i < before.len() implies #[trigger] rgba@[i] == if pixel_y(i, w)
                == y && start <= pixel_x(i, w) < x + 1 {
                color[i % 4]
            } else {
                before[i]
            } by {
                lemma_pixel_coords(i, w, x as int, y as int);
                assert(prev[i] == if pixel_y(i, w) == y && start <= pixel_x(i, w) < x {
                    color[i % 4]
                } else {
                    before[i]
                });
            }
        }
        x = x + 1;
    }
}

/// Paints a vertical line on column `x`, clipped to the canvas.
fn draw_vertical_line(
    rgba: &mut [u8],
    image_width: i32,
    image_height: i32,
    x: i32,
    top: i32,
    bottom: i32,
    color: [u8; 4],
)
    requires
        canvas_ok(old(rgba)@.len() as int, image_width as int, image_height as int),
        forall|px: int, py: int|
            #[trigger] vline_covers(
                image_width as int,
                image_height as int,
                x as int,
                top as int,
                bottom as int,
                px,
                py,
            ) ==> (py * image_width + px) * 4 <= i32::MAX,
    ensures
        final(rgba)@.len() == old(rgba)@.len(),
        forall|i: int|
            0 <= i < old(rgba)@.len() ==> #[trigger] final(rgba)@[i] == if vline_covers(
                image_width as int,
                image_height as int,
                x as int,
                top as int,
                bottom as int,
                pixel_x(i, image_width as int),
                pixel_y(i, image_width as int),
            ) {
                color[i % 4]
            } else {
                old(rgba)@[i]
            },
{
    if x < 0 || x >= image_width {
        return;
    }
    let start = if top < 0 {
        0
    } else {
        top
    };
    let end = if bottom < image_height - 1 {
        bottom
    } else {
        image_height - 1
    };
    let ghost w = image_width as int;
    let ghost h = image_height as int;
    let ghost before = rgba@;
    let mut y = start;
    while y <= end
        invariant
            canvas_ok(before.len() as int, w, h),
            w == image_width,
            h == image_height,
            0 <= x < w,
            0 <= start,
            end <= h - 1,
            start <= y,
            start as int == (if top < 0 { 0 } else { top as int }),
            end as int == (if bottom < h - 1 { bottom as int } else { h - 1 }),
            forall|px: int, py: int|
                #[trigger] vline_covers(w, h, x as int, top as int, bottom as int, px, py) ==> (py * w
                    + px) * 4 <= i32::MAX,
            y == start || y <= end + 1,
            rgba@.len() == before.len(),
            forall|i: int|
                0 <= i < before.len() ==> #[trigger] rgba@[i] == if pixel_x(i, w) == x && start
                    <= pixel_y(i, w) < y {
                    color[i % 4]
                } else {
                    before[i]
                },
        decreases end + 1 - y,
    {
        proof {
            assert(y * w + x < w * h) by (nonlinear_arith)
                requires
                    0 <= y < h,
                    0 <= x < w,
            ;
            assert(vline_covers(w, h, x as int, top as int, bottom as int, x as int, y as int));
        }
        let ghost prev = rgba@;
        put_pixel(rgba, image_width, x, y, color);
        proof {
            assert forall|i: int| 0 <= i < before.len() implies #[trigger] rgba@[i] == if pixel_x(i, w)
                == x && start <= pixel_y(i, w) < y + 1 {
                color[i % 4]
            } else {
                before[i]
            } by {
                lemma_pixel_coords(i, w, x as int, y as int);
                assert(prev[i] == if pixel_x(i, w) == x && start <= pixel_y(i, w) < y {
                    color[i % 4]
                } else {
                    before[i]
                });
            }
        }
        y = y + 1;
    }
}

fn clamp_i32(value: i32, lo: i32, hi: i32) -> (clamped: i32)
    requires
        lo <= hi,
    ensures
        clamped == clamp_int(value as int, lo as int, hi as int),
{
    if value < lo {
        lo
    } else if value > hi {
        hi
    } else {
        value
    }
}

/// Paints the two-pixel outline of `rect` in `color`, clamped to the canvas.
fn draw_rect_outline(rgba: &mut [u8], image_width: i32, image_height: i32, rect: Rect, color: [u8; 4])
    requires
        !(rect.right < rect.left || rect.bottom < rect.top) ==> canvas_ok(
            old(rgba)@.len() as int,
            image_width as int,
            image_height as int,
        ) && outline_offsets_fit(image_width as int, image_height as int, rect),
    ensures
        final(rgba)@ == outline_paint(old(rgba)@, image_width as int, image_height as int, rect, color),
{
    let ghost w = image_width as int;
    let ghost h = image_height as int;
    let ghost before = rgba@;
    if rect.right < rect.left || rect.bottom < rect.top {
        assert(rgba@ =~= outline_paint(before, w, h, rect, color));
        return;
    }
    let left = clamp_i32(rect.left, 0, image_width - 1);
    let top = clamp_i32(rect.top, 0, image_height - 1);
    let right = clamp_i32(rect.right, 0, image_width - 1);
    let bottom = clamp_i32(rect.bottom, 0, image_height - 1);
    let mut thickness: i32 = 0;
    while thickness < 2
        invariant
            0 <= thickness <= 2,
            canvas_ok(before.len() as int, w, h),
            w == image_width,
            h == image_height,
            0 <= left < w,
            0 <= right < w,
            0 <= top < h,
            0 <= bottom < h,
            left == clamp_int(rect.left as int, 0, w - 1),
            top == clamp_int(rect.top as int, 0, h - 1),
            right == clamp_int(rect.right as int, 0, w - 1),
            bottom == clamp_int(rect.bottom as int, 0, h - 1),
            !(rect.right < rect.left || rect.bottom < rect.top),
            outline_offsets_fit(w, h, rect),
            rgba@.len() == before.len(),
            forall|i: int|
                0 <= i < before.len() ==> #[trigger] rgba@[i] == if exists|t: int|
                    0 <= t < thickness && #[trigger] band_covers(
                        w,
                        h,
                        left as int,
                        top as int,
                        right as int,
                        bottom as int,
                        t,
                        pixel_x(i, w),
                        pixel_y(i, w),
                    ) {
                    color[i % 4]
                } else {
                    before[i]
                },
        decreases 2 - thickness,
    {
        let ghost prev = rgba@;
        proof {
            assert forall|px: int, py: int|
                #[trigger] hline_covers(w, h, left as int, right as int, (top + thickness) as int, px, py)
                    implies (py * w + px) * 4 <= i32::MAX by {
                assert(outline_covers(w, h, rect, px, py));
            }
            assert forall|px: int, py: int|
                #[trigger] hline_covers(w, h, left as int, right as int, (bottom - thickness) as int, px, py)
                    implies (py * w + px) * 4 <= i32::MAX by {
                assert(outline_covers(w, h, rect, px, py));
            }
            assert forall|px: int, py: int|
                #[trigger] vline_covers(w, h, (left + thickness) as int, top as int, bottom as int, px, py)
                    implies (py * w + px) * 4 <= i32::MAX by {
                assert(outline_covers(w, h, rect, px, py));
            }
            assert forall|px: int, py: int|
                #[trigger] vline_covers(w, h, (right - thickness) as int, top as int, bottom as int, px, py)
                    implies (py * w + px) * 4 <= i32::MAX by {
                assert(outline_covers(w, h, rect, px, py));
            }
        }
        draw_horizontal_line(rgba, image_width, image_height, left, right, top + thickness, color);
        draw_horizontal_line(rgba, image_width, image_height, left, right, bottom - thickness, color);
        draw_vertical_line(rgba, image_width, image_height, left + thickness, top, bottom, color);
        draw_vertical_line(rgba, image_width, image_height, right - thickness, top, bottom, color);
        proof {
            assert forall|i: int| 0 <= i < before.len() implies #[trigger] rgba@[i] == if exists|t: int|
                0 <= t < thickness + 1 && #[trigger] band_covers(
                    w,
                    h,
                    left as int,
                    top as int,
                    right as int,
                    bottom as int,
                    t,
                    pixel_x(i, w),
                    pixel_y(i, w),
                ) {
                color[i % 4]
            } else {
                before[i]
            } by {
                let px = pixel_x(i, w);
                let py = pixel_y(i, w);
                if band_covers(w, h, left as int, top as int, right as int, bottom as int, thickness as int, px, py) {
                    assert(rgba@[i] == color[i % 4]);
                } else {
                    assert(rgba@[i] == prev[i]);
                    if exists|t: int|
                        0 <= t < thickness + 1 && #[trigger] band_covers(
                            w,
                            h,
                            left as int,
                            top as int,
                            right as int,
                            bottom as int,
                            t,
                            px,
                            py,
                        ) {
                        let t = choose|t: int|
                            0 <= t < thickness + 1 && #[trigger] band_covers(
                                w,
                                h,
                                left as int,
                                top as int,
                                right as int,
                                bottom as int,
                                t,
                                px,
                                py,
                            );
                        assert(t < thickness);
                    }
                }
            }
        }
        thickness = thickness + 1;
    }
    proof {
        assert forall|i: int| 0 <= i < before.len() implies #[trigger] rgba@[i] == outline_paint(
            before,
            w,
            h,
            rect,
            color,
        )[i] by {
            let px = pixel_x(i, w);
            let py = pixel_y(i, w);
            let covered = outline_covers(w, h, rect, px, py);
            let banded = exists|t: int|
                0 <= t < 2 && #[trigger] band_covers(
                    w,
                    h,
                    left as int,
                    top as int,
                    right as int,
                    bottom as int,
                    t,
                    px,
                    py,
                );
            if covered {
                if band_covers(w, h, left as int, top as int, right as int, bottom as int, 0, px, py) {
                } else {
                    assert(band_covers(w, h, left as int, top as int, right as int, bottom as int, 1, px, py));
                }
            }
            if banded {
                let t = choose|t: int|
                    0 <= t < 2 && #[trigger] band_covers(
                        w,
                        h,
                        left as int,
                        top as int,
                        right as int,
                        bottom as int,
                        t,
                        px,
                        py,
                    );
                assert(t == 0 || t == 1);
            }
        }
        assert(rgba@ =~= outline_paint(before, w, h, rect, color));
    }
}

/// The four lines drawn at distance `t` inside the clamped rectangle.
pub open spec fn band_covers(
    w: int,
    h: int,
    l: int,
    t0: int,
    r: int,
    b: int,
    t: int,
    px: int,
    py: int,
) -> bool {
    ||| hline_covers(w, h, l, r, t0 + t, px, py)
    ||| hline_covers(w, h, l, r, b - t, px, py)
    ||| vline_covers(w, h, l + t, t0, b, px, py)
    ||| vline_covers(w, h, r - t, t0, b, px, py)
}

/// Draws the outline of each box, in order and in its label's colour, into an
/// RGBA page image of `image_width` x `image_height` pixels.
///
/// Nothing is drawn when the image is empty or when `rgba` does not hold
/// exactly `image_width * image_height * 4` bytes; the buffer never changes length.
/// Pixel positions are computed in `i32`, so on a drawn canvas every box must
/// keep the byte offsets of the pixels it draws within `i32`; see
/// [`boxes_are_drawable`].
pub fn annotate_page_pixels(rgba: &mut [u8], image_width: u32, image_height: u32, boxes: &[PixelBox])
    requires
        image_width * image_height * 4 <= usize::MAX,
        image_width > 0 && image_height > 0 && old(rgba)@.len() == image_width * image_height * 4
            ==> forall|k: int|
            0 <= k < boxes@.len() ==> box_drawable(
                image_width as int,
                image_height as int,
                (#[trigger] boxes@[k]).rect,
            ),
    ensures
        final(rgba)@.len() == old(rgba)@.len(),
        image_width == 0 || image_height == 0 || old(rgba)@.len() != image_width * image_height * 4
            ==> final(rgba)@ == old(rgba)@,
        image_width > 0 && image_height > 0 && old(rgba)@.len() == image_width * image_height * 4
            ==> final(rgba)@ == annotated(old(rgba)@, image_width as int, image_height as int, boxes@),
{
    if image_width == 0 || image_height == 0 {
        return;
    }
    let width = image_width as usize;
    let height = image_height as usize;
    assert(width * height <= width * height * 4) by (nonlinear_arith)
        requires
            width * height >= 0,
    ;
    assert(width * height >= 0) by (nonlinear_arith)
        requires
            width >= 0,
            height >= 0,
    ;
    let expected_len = width * height * 4;
    if rgba.len() != expected_len {
        return;
    }
    if boxes.len() == 0 {
        assert(annotated(rgba@, image_width as int, image_height as int, boxes@) == rgba@);
        return;
    }
    let ghost before = rgba@;
    let ghost w = image_width as int;
    let ghost h = image_height as int;
    let mut k: usize = 0;
    while k < boxes.len()
        invariant
            k <= boxes@.len(),
            w == image_width,
            h == image_height,
            w > 0,
            h > 0,
            before.len() == w * h * 4,
            forall|j: int| 0 <= j < boxes@.len() ==> box_drawable(w, h, (#[trigger] boxes@[j]).rect),
            rgba@.len() == before.len(),
            rgba@ == annotated(before, w, h, boxes@.take(k as int)),
        decreases boxes@.len() - k,
    {
        let pixel_box = boxes[k];
        let color = pixel_box.label.debug_color_rgba();
        let ghost prev = rgba@;
        let ghost rect = pixel_box.rect;
        assert(box_drawable(w, h, boxes@[k as int].rect));
        draw_rect_outline(rgba, image_width as i32, image_height as i32, pixel_box.rect, color);
        proof {
            if rect.right < rect.left || rect.bottom < rect.top {
                assert(outline_paint(prev, w, h, rect, color) =~= prev);
                assert(outline_paint(
                    prev,
                    (image_width as i32) as int,
                    (image_height as i32) as int,
                    rect,
                    color,
                ) =~= prev);
            }
        }
        assert(boxes@.take(k + 1).drop_last() == boxes@.take(k as int));
        assert(boxes@.take(k + 1).last() == pixel_box);
        k = k + 1;
    }
    assert(boxes@.take(k as int) == boxes@);
}

/// A pixel that no box outline covers keeps its value through annotation.
pub proof fn lemma_uncovered_pixel_unchanged(rgba: Seq<u8>, w: int, h: int, boxes: Seq<PixelBox>, i: int)
    requires
        0 <= i < rgba.len(),
        forall|k: int|
            0 <= k < boxes.len() ==> !outline_covers(w, h, (#[trigger] boxes[k]).rect, pixel_x(i, w), pixel_y(i, w)),
    ensures
        annotated(rgba, w, h, boxes).len() == rgba.len(),
        annotated(rgba, w, h, boxes)[i] == rgba[i],
    decreases boxes.len(),
{
    if boxes.len() > 0 {
        let rest = boxes.drop_last();
        assert forall|k: int| 0 <= k < rest.len() implies !outline_covers(w, h, (#[trigger] rest[k]).rect, pixel_x(i, w), pixel_y(i, w)) by {
            assert(rest[k] == boxes[k]);
        }
        lemma_uncovered_pixel_unchanged(rgba, w, h, rest, i);
        assert(!outline_covers(w, h, boxes[boxes.len() - 1].rect, pixel_x(i, w), pixel_y(i, w)));
    }
}

/// A pixel takes the colour of the last box whose outline covers it: later
/// boxes paint over earlier ones.
pub proof fn lemma_pixel_takes_last_covering_colour(
    rgba: Seq<u8>,
    w: int,
    h: int,
    boxes: Seq<PixelBox>,
    i: int,
    k: int,
)
    requires
        0 <= i < rgba.len(),
        0 <= k < boxes.len(),
        outline_covers(w, h, boxes[k].rect, pixel_x(i, w), pixel_y(i, w)),
        forall|j: int|
            k < j < boxes.len() ==> !outline_covers(w, h, (#[trigger] boxes[j]).rect, pixel_x(i, w), pixel_y(i, w)),
    ensures
        annotated(rgba, w, h, boxes)[i] == boxes[k].label.spec_debug_color_rgba()[i % 4],
    decreases boxes.len(),
{
    let rest = boxes.drop_last();
    if k < boxes.len() - 1 {
        assert forall|j: int| k < j < rest.len() implies !outline_covers(w, h, (#[trigger] rest[j]).rect, pixel_x(i, w), pixel_y(i, w)) by {
            assert(rest[j] == boxes[j]);
        }
        assert(rest[k] == boxes[k]);
        lemma_pixel_takes_last_covering_colour(rgba, w, h, rest, i, k);
        assert(!outline_covers(w, h, boxes[boxes.len() - 1].rect, pixel_x(i, w), pixel_y(i, w)));
    }
    lemma_annotated_len(rgba, w, h, rest);
}

proof fn lemma_annotated_len(rgba: Seq<u8>, w: int, h: int, boxes: Seq<PixelBox>)
    ensures
        annotated(rgba, w, h, boxes).len() == rgba.len(),
    decreases boxes.len(),
{
    if boxes.len() > 0 {
        lemma_annotated_len(rgba, w, h, boxes.drop_last());
    }
}

/// Whether the row-`y` line of an outline, drawn from column `left` to column
/// `right` of a `w` x `h` canvas, keeps its last pixel's byte offset in `i32`
/// (a row outside the canvas draws nothing).
pub open spec fn row_fits(w: int, h: int, right: int, y: int) -> bool {
    0 <= y < h ==> (y * w + right) * 4 <= i32::MAX
}

/// Whether the column-`x` line of an outline, drawn down to row `bottom` of a
/// `w` x `h` canvas, keeps its last pixel's byte offset in `i32` (a column
/// outside the canvas draws nothing).
pub open spec fn column_fits(w: int, right_limit: int, bottom: int, x: int) -> bool {
    0 <= x < right_limit ==> (bottom * w + x) * 4 <= i32::MAX
}

/// The eight lines of a clamped outline, each checked at its last pixel.
pub open spec fn outline_lines_fit(w: int, h: int, l: int, t: int, r: int, b: int) -> bool {
    &&& row_fits(w, h, r, t)
    &&& row_fits(w, h, r, b)
    &&& row_fits(w, h, r, t + 1)
    &&& row_fits(w, h, r, b - 1)
    &&& column_fits(w, w, b, l)
    &&& column_fits(w, w, b, r)
    &&& column_fits(w, w, b, l + 1)
    &&& column_fits(w, w, b, r - 1)
}

/// Every drawn pixel of an outline lies on one of its eight lines, none past
/// that line's last pixel, and each line's last pixel is drawn: so the drawn
/// offsets fit exactly when the last pixel of each line fits.
proof fn lemma_outline_fits_at_line_ends(w: int, h: int, rect: Rect)
    requires
        0 < w <= i32::MAX,
        0 < h <= i32::MAX,
        rect.left <= rect.right,
        rect.top <= rect.bottom,
    ensures
        outline_offsets_fit(w, h, rect) <==> outline_lines_fit(
            w,
            h,
            clamp_int(rect.left as int, 0, w - 1),
            clamp_int(rect.top as int, 0, h - 1),
            clamp_int(rect.right as int, 0, w - 1),
            clamp_int(rect.bottom as int, 0, h - 1),
        ),
{
    let l = clamp_int(rect.left as int, 0, w - 1);
    let t = clamp_int(rect.top as int, 0, h - 1);
    let r = clamp_int(rect.right as int, 0, w - 1);
    let b = clamp_int(rect.bottom as int, 0, h - 1);
    assert(l <= r && t <= b);
    if outline_lines_fit(w, h, l, t, r, b) {
        assert forall|px: int, py: int| #[trigger] outline_covers(w, h, rect, px, py) implies (py * w
            + px) * 4 <= i32::MAX by {
            if py <= b {
                assert(py * w <= b * w) by (nonlinear_arith)
                    requires
                        py <= b,
                        w > 0,
                ;
            }
        }
    }
    if outline_offsets_fit(w, h, rect) {
        assert(outline_covers(w, h, rect, r, t));
        assert(outline_covers(w, h, rect, r, b));
        assert(0 <= t + 1 < h ==> outline_covers(w, h, rect, r, t + 1));
        assert(0 <= b - 1 < h ==> outline_covers(w, h, rect, r, b - 1));
        assert(outline_covers(w, h, rect, l, b));
        assert(0 <= l + 1 < w ==> outline_covers(w, h, rect, l + 1, b));
        assert(0 <= r - 1 < w ==> outline_covers(w, h, rect, r - 1, b));
    }
}

/// Whether `(y * w + x) * 4` fits in `i32`, for coordinates inside `i32`.
fn offset_fits(w: i128, x: i128, y: i128) -> (fits: bool)
    requires
        0 <= w <= i32::MAX,
        -1 <= x <= i32::MAX,
        -1 <= y <= i32::MAX,
    ensures
        fits == ((y * w + x) * 4 <= i32::MAX),
{
    assert(-0x8000_0000 * 0x8000_0000 <= y * w <= 0x8000_0000 * 0x8000_0000) by (nonlinear_arith)
        requires
            0 <= w <= 0x7fff_ffff,
            -1 <= y <= 0x7fff_ffff,
    ;
    (y * w + x) * 4 <= 0x7fff_ffff
}

/// Whether the outline of `rect` can be drawn on an `image_width` x
/// `image_height` canvas with every pixel's byte offset in `i32`.
pub fn box_is_drawable(image_width: u32, image_height: u32, rect: Rect) -> (drawable: bool)
    requires
        image_width > 0,
        image_height > 0,
    ensures
        drawable == box_drawable(image_width as int, image_height as int, rect),
{
    if rect.right < rect.left || rect.bottom < rect.top {
        return true;
    }
    if image_width > 0x7fff_ffff || image_height > 0x7fff_ffff {
        return false;
    }
    proof {
        lemma_outline_fits_at_line_ends(image_width as int, image_height as int, rect);
    }
    let w = image_width as i128;
    let h = image_height as i128;
    let l = clamp_i32(rect.left, 0, (image_width - 1) as i32) as i128;
    let t = clamp_i32(rect.top, 0, (image_height - 1) as i32) as i128;
    let r = clamp_i32(rect.right, 0, (image_width - 1) as i32) as i128;
    let b = clamp_i32(rect.bottom, 0, (image_height - 1) as i32) as i128;
    let rows_fit = (!(t < h) || offset_fits(w, r, t)) && (!(b < h) || offset_fits(w, r, b))
        && (!(t + 1 < h) || offset_fits(w, r, t + 1)) && (!(0 <= b - 1 && b - 1 < h) || offset_fits(
        w,
        r,
        b - 1,
    ));
    let columns_fit = (!(l < w) || offset_fits(w, l, b)) && (!(r < w) || offset_fits(w, r, b)) && (!(l
        + 1 < w) || offset_fits(w, l + 1, b)) && (!(0 <= r - 1 && r - 1 < w) || offset_fits(
        w,
        r - 1,
        b,
    ));
    rows_fit && columns_fit
}

/// Whether every box can be outlined on an `image_width` x `image_height`
/// canvas with every drawn pixel's byte offset in `i32`: exactly what
/// [`annotate_page_pixels`] needs of the boxes on such a canvas.
pub fn boxes_are_drawable(image_width: u32, image_height: u32, boxes: &[PixelBox]) -> (drawable: bool)
    requires
        image_width > 0,
        image_height > 0,
    ensures
        drawable == forall|k: int|
            0 <= k < boxes@.len() ==> box_drawable(
                image_width as int,
                image_height as int,
                (#[trigger] boxes@[k]).rect,
            ),
{
    let mut k: usize = 0;
    while k < boxes.len()
        invariant
            image_width > 0,
            image_height > 0,
            k <= boxes@.len(),
            forall|j: int|
                0 <= j < k ==> box_drawable(image_width as int, image_height as int, (#[trigger] boxes@[j]).rect),
        decreases boxes@.len() - k,
    {
        if !box_is_drawable(image_width, image_height, boxes[k].rect) {
            return false;
        }
        k = k + 1;
    }
    true
}

/// Each pixel of an annotated page keeps all four of its bytes or carries, in
/// all four, the colour of one of the boxes.
pub proof fn lemma_pixel_keeps_old_bytes_or_takes_a_box_colour(
    rgba: Seq<u8>,
    w: int,
    h: int,
    boxes: Seq<PixelBox>,
    p: int,
)
    requires
        w > 0,
        0 <= p,
        4 * p + 4 <= rgba.len(),
    ensures
        (forall|c: int| 0 <= c < 4 ==> #[trigger] annotated(rgba, w, h, boxes)[4 * p + c] == rgba[4 * p + c])
            || exists|k: int|
            #![trigger boxes[k]]
            0 <= k < boxes.len() && forall|c: int|
                0 <= c < 4 ==> #[trigger] annotated(rgba, w, h, boxes)[4 * p + c]
                    == boxes[k].label.spec_debug_color_rgba()[c],
    decreases boxes.len(),
{
    if boxes.len() > 0 {
        let rest = boxes.drop_last();
        let last = boxes.last();
        let painted = annotated(rgba, w, h, rest);
        lemma_annotated_len(rgba, w, h, rest);
        lemma_pixel_keeps_old_bytes_or_takes_a_box_colour(rgba, w, h, rest, p);
        assert forall|c: int| 0 <= c < 4 implies #[trigger] pixel_x(4 * p + c, w) == pixel_x(4 * p, w) && pixel_y(
            4 * p + c,
            w,
        ) == pixel_y(4 * p, w) && (4 * p + c) % 4 == c by {
            lemma_fundamental_div_mod_converse(4 * p + c, 4, p, c);
            lemma_fundamental_div_mod_converse(4 * p, 4, p, 0);
        }
        if outline_covers(w, h, last.rect, pixel_x(4 * p, w), pixel_y(4 * p, w)) {
            assert(forall|c: int|
                0 <= c < 4 ==> #[trigger] annotated(rgba, w, h, boxes)[4 * p + c]
                    == boxes[boxes.len() - 1].label.spec_debug_color_rgba()[c]);
        } else {
            assert forall|c: int| 0 <= c < 4 implies #[trigger] annotated(rgba, w, h, boxes)[4 * p + c]
                == painted[4 * p + c] by {}
            if !(forall|c: int| 0 <= c < 4 ==> #[trigger] annotated(rgba, w, h, rest)[4 * p + c] == rgba[4 * p + c]) {
                let k = choose|k: int|
                    #![trigger rest[k]]
                    0 <= k < rest.len() && forall|c: int|
                        0 <= c < 4 ==> #[trigger] annotated(rgba, w, h, rest)[4 * p + c]
                            == rest[k].label.spec_debug_color_rgba()[c];
                assert(rest[k] == boxes[k]);
                assert(forall|c: int|
                    0 <= c < 4 ==> #[trigger] annotated(rgba, w, h, boxes)[4 * p + c]
                        == boxes[k].label.spec_debug_color_rgba()[c]);
            }
        }
    }
}

/// Inside the canvas, the outline of a rectangle at least two pixels wide and
/// high is its two-pixel border: exactly the pixels of the rectangle that lie
/// less than two pixels from one of its edges.
pub proof fn lemma_outline_is_two_pixel_border(w: int, h: int, rect: Rect, px: int, py: int)
    requires
        0 <= rect.left < rect.right < w,
        0 <= rect.top < rect.bottom < h,
    ensures
        outline_covers(w, h, rect, px, py) <==> {
            &&& rect.left <= px <= rect.right
            &&& rect.top <= py <= rect.bottom
            &&& (px < rect.left + 2 || px > rect.right - 2 || py < rect.top + 2 || py > rect.bottom - 2)
        },
{
}

} // verus!
