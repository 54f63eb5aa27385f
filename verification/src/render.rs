//! Drawing a captured frame into a window of any size.

use crate::duplicator::{
    holds_rows, law_pixels_keep_their_place, packed_rows, CaptureFrameView,
};
use vstd::arithmetic::div_mod::{
    lemma_div_is_ordered, lemma_div_multiples_vanish, lemma_fundamental_div_mod,
    lemma_fundamental_div_mod_converse,
};
use vstd::prelude::*;

verus! {

/// The pixel of an axis of `source` pixels that is shown at pixel `i` of an
/// axis of `target` pixels.
pub open spec fn source_pixel(i: nat, source: nat, target: nat) -> nat {
    (i * source) / target
}

/// Where the bytes of the pixel that is shown at a place of the target begin.
pub open spec fn source_offset(size: (nat, nat), target: (nat, nat), x: nat, y: nat) -> nat {
    (source_pixel(y, size.1, target.1) * size.0 + source_pixel(x, size.0, target.0)) * 4
}

/// The color at a place of a frame, as `0x00RRGGBB`.
pub open spec fn color(pixels_bgra: Seq<u8>, offset: int) -> u32 {
    (pixels_bgra[offset + 2] * 0x1_0000 + pixels_bgra[offset + 1] * 0x100
        + pixels_bgra[offset]) as u32
}

/// The color that is shown at position `k` of the target.
pub open spec fn shown(frame: CaptureFrameView<'_>, target: (nat, nat), k: nat) -> u32 {
    color(
        frame.pixels_bgra@,
        source_offset(
            (frame.width as nat, frame.height as nat),
            target,
            k % target.0,
            k / target.0,
        ) as int,
    )
}

/// Whether the frame has all the bytes that are looked at for the target: the
/// last pixel of the target is the one that is furthest into the frame.
pub open spec fn covers_target(frame: CaptureFrameView<'_>, target: (nat, nat)) -> bool {
    source_offset(
        (frame.width as nat, frame.height as nat),
        target,
        (target.0 - 1) as nat,
        (target.1 - 1) as nat,
    ) + 2 < frame.pixels_bgra.len()
}

proof fn lemma_source_pixel_ordered(i: nat, j: nat, source: nat, target: nat)
    requires
        i <= j < target,
    ensures
        source_pixel(i, source, target) <= source_pixel(j, source, target),
        source > 0 ==> source_pixel(j, source, target) < source,
        source == 0 ==> source_pixel(j, source, target) == 0,
{
    assert(i * source <= j * source) by (nonlinear_arith)
        requires
            i <= j,
    ;
    lemma_div_is_ordered((i * source) as int, (j * source) as int, target as int);
    let q = (j * source) / target;
    lemma_fundamental_div_mod((j * source) as int, target as int);
    let r = (j * source) % target;
    if source > 0 {
        assert(q < source) by (nonlinear_arith)
            requires
                j * source == target * q + r,
                r >= 0,
                j < target,
                source > 0,
        ;
    } else {
        assert(j * source == 0);
        lemma_fundamental_div_mod_converse(0, target as int, 0, 0);
    }
}

/// No pixel of the target lies further into the frame than the last one.
proof fn lemma_source_offset_bounded(size: (nat, nat), target: (nat, nat), x: nat, y: nat)
    requires
        x < target.0,
        y < target.1,
    ensures
        source_offset(size, target, x, y) <= source_offset(
            size,
            target,
            (target.0 - 1) as nat,
            (target.1 - 1) as nat,
        ),
        size.0 > 0 && size.1 > 0 ==> source_offset(size, target, x, y) + 4 <= size.0 * size.1 * 4,
{
    let (w, h) = size;
    let (last_x, last_y) = ((target.0 - 1) as nat, (target.1 - 1) as nat);
    lemma_source_pixel_ordered(x, last_x, w, target.0);
    lemma_source_pixel_ordered(y, last_y, h, target.1);
    lemma_source_pixel_ordered(x, x, w, target.0);
    lemma_source_pixel_ordered(y, y, h, target.1);
    let (sx, sy) = (source_pixel(x, w, target.0), source_pixel(y, h, target.1));
    let (lx, ly) = (source_pixel(last_x, w, target.0), source_pixel(last_y, h, target.1));
    if w == 0 {
        assert(sy * w == 0 && ly * w == 0) by (nonlinear_arith)
            requires
                w == 0,
        ;
    } else if sy < ly {
        assert(sy * w + sx <= ly * w + lx) by (nonlinear_arith)
            requires
                sy + 1 <= ly,
                sx < w,
                lx >= 0,
        ;
    } else {
        assert(sy * w == ly * w);
    }
    if w > 0 && h > 0 {
        assert(sy * w + sx + 1 <= w * h) by (nonlinear_arith)
            requires
                sy + 1 <= h,
                sx + 1 <= w,
        ;
    }
}

/// The color at a place of a frame.
fn read_color(pixels_bgra: &[u8], offset: usize) -> (pixel: u32)
    requires
        offset + 2 < pixels_bgra.len(),
    ensures
        pixel == color(pixels_bgra@, offset as int),
{
    let b: u32 = pixels_bgra[offset] as u32;
    let g: u32 = pixels_bgra[offset + 1] as u32;
    let r: u32 = pixels_bgra[offset + 2] as u32;
    r * 0x1_0000 + g * 0x100 + b
}

/// Where the bytes of the pixel that is shown at a place begin.
fn find_source(frame: &CaptureFrameView<'_>, target: (u32, u32), x: u32, y: u32) -> (offset: usize)
    requires
        x < target.0,
        y < target.1,
        covers_target(*frame, (target.0 as nat, target.1 as nat)),
    ensures
        offset == source_offset(
            (frame.width as nat, frame.height as nat),
            (target.0 as nat, target.1 as nat),
            x as nat,
            y as nat,
        ),
        offset + 2 < frame.pixels_bgra.len(),
{
    let (width, height) = (frame.width as u64, frame.height as u64);
    proof {
        let size = (frame.width as nat, frame.height as nat);
        let wide = (target.0 as nat, target.1 as nat);
        lemma_source_offset_bounded(size, wide, x as nat, y as nat);
        assert(y * height <= 0xffff_ffff * 0xffff_ffff) by (nonlinear_arith)
            requires
                y <= 0xffff_ffff,
                height <= 0xffff_ffff,
        ;
        assert(x * width <= 0xffff_ffff * 0xffff_ffff) by (nonlinear_arith)
            requires
                x <= 0xffff_ffff,
                width <= 0xffff_ffff,
        ;
    }
    let source_y: u64 = (y as u64 * height) / target.1 as u64;
    let source_x: u64 = (x as u64 * width) / target.0 as u64;
    assert(source_y * width >= 0) by (nonlinear_arith);
    ((source_y * width + source_x) * 4) as usize
}

/// Whether a window of a size is drawn and shown: one without pixels is not.
pub fn is_presented(width: u32, height: u32) -> (yes: bool)
    ensures
        yes == (width > 0 && height > 0),
{
    width > 0 && height > 0
}

/// Draws a frame, scaled to the target size, into the buffer of a window. A
/// target without pixels is left as it is.
pub fn render_frame(
    frame: CaptureFrameView<'_>,
    target_width: u32,
    target_height: u32,
    buffer: &mut [u32],
)
    requires
        target_width > 0 && target_height > 0 ==> covers_target(
            frame,
            (target_width as nat, target_height as nat),
        ),
        target_width * target_height <= old(buffer).len(),
    ensures
        final(buffer)@ == Seq::new(
            old(buffer)@.len(),
            |k: int|
                if k < target_width * target_height {
                    shown(frame, (target_width as nat, target_height as nat), k as nat)
                } else {
                    old(buffer)@[k]
                },
        ),
{
    let ghost target = (target_width as nat, target_height as nat);
    let ghost untouched = buffer@;
    let mut y: u32 = 0;
    let mut at: usize = 0;
    if !is_presented(target_width, target_height) {
        assert(target_width * target_height == 0) by (nonlinear_arith)
            requires
                target_width == 0 || target_height == 0,
        ;
        assert(buffer@ =~= Seq::new(
            untouched.len(),
            |k: int|
                if k < target_width * target_height {
                    shown(frame, target, k as nat)
                } else {
                    untouched[k]
                },
        ));
        return;
    }
    while y < target_height
        invariant
            target_width > 0,
            target == (target_width as nat, target_height as nat),
            covers_target(frame, target),
            target_width * target_height <= untouched.len(),
            buffer@.len() == untouched.len(),
            y <= target_height,
            at == y * target_width,
            forall|k: int| 0 <= k < at ==> buffer@[k] == shown(frame, target, k as nat),
            forall|k: int| at <= k < untouched.len() ==> buffer@[k] == untouched[k],
        decreases target_height - y,
    {
        let mut x: u32 = 0;
        proof {
            assert((y + 1) * target_width <= target_width * target_height) by (nonlinear_arith)
                requires
                    y + 1 <= target_height,
            ;
            assert((y + 1) * target_width == y * target_width + target_width) by (nonlinear_arith);
        }
        while x < target_width
            invariant
                target == (target_width as nat, target_height as nat),
                covers_target(frame, target),
                y * target_width + target_width <= untouched.len(),
                buffer@.len() == untouched.len(),
                y < target_height,
                x <= target_width,
                at == y * target_width + x,
                forall|k: int| 0 <= k < at ==> buffer@[k] == shown(frame, target, k as nat),
                forall|k: int| at <= k < untouched.len() ==> buffer@[k] == untouched[k],
            decreases target_width - x,
        {
            proof {
                lemma_fundamental_div_mod_converse(
                    at as int,
                    target_width as int,
                    y as int,
                    x as int,
                );
            }
            let offset: usize = find_source(&frame, (target_width, target_height), x, y);
            buffer[at] = read_color(frame.pixels_bgra, offset);
            at = at + 1;
            x = x + 1;
        }
        y = y + 1;
    }
    assert(at == target_width * target_height) by (nonlinear_arith)
        requires
            at == y * target_width,
            y == target_height,
    ;
    assert(buffer@ =~= Seq::new(
        untouched.len(),
        |k: int|
            if k < target_width * target_height {
                shown(frame, target, k as nat)
            } else {
                untouched[k]
            },
    ));
}

/// A frame with all its pixels can be drawn at any size.
pub proof fn law_whole_frames_cover_every_target(frame: CaptureFrameView<'_>, target: (nat, nat))
    requires
        frame.width > 0,
        frame.height > 0,
        frame.pixels_bgra.len() >= frame.width as nat * frame.height as nat * 4,
        target.0 > 0,
        target.1 > 0,
    ensures
        covers_target(frame, target),
{
    lemma_source_offset_bounded(
        (frame.width as nat, frame.height as nat),
        target,
        (target.0 - 1) as nat,
        (target.1 - 1) as nat,
    );
}

/// A frame drawn at its own size is shown pixel by pixel.
pub proof fn law_own_size_shows_every_pixel(frame: CaptureFrameView<'_>, k: nat)
    requires
        k < frame.width * frame.height,
    ensures
        shown(frame, (frame.width as nat, frame.height as nat), k) == color(
            frame.pixels_bgra@,
            (k * 4) as int,
        ),
{
    let (w, h) = (frame.width as nat, frame.height as nat);
    assert(w > 0 && h > 0) by (nonlinear_arith)
        requires
            0 <= k < w * h,
    ;
    let (x, y) = (k % w, k / w);
    lemma_div_multiples_vanish(x as int, w as int);
    lemma_div_multiples_vanish(y as int, h as int);
    assert((x * w) / w == x) by {
        assert(x * w == w * x) by (nonlinear_arith);
    }
    assert((y * h) / h == y) by {
        assert(y * h == h * y) by (nonlinear_arith);
    }
    lemma_fundamental_div_mod(k as int, w as int);
    assert(y * w + x == k) by (nonlinear_arith)
        requires
            k == w * y + x,
    ;
}

/// A captured frame drawn at its own size shows, in every row and column, the
/// pixel of the same row and column in memory.
pub proof fn law_captured_pixels_are_shown_in_their_place(
    frame: CaptureFrameView<'_>,
    data: Seq<u8>,
    row_pitch: nat,
    x: nat,
    y: nat,
)
    requires
        x < frame.width,
        y < frame.height,
        holds_rows(data.len(), row_pitch, frame.width as nat * 4, frame.height as nat),
        frame.pixels_bgra@ == packed_rows(
            data,
            row_pitch,
            frame.width as nat * 4,
            frame.height as nat,
        ),
    ensures
        shown(frame, (frame.width as nat, frame.height as nat), y * frame.width as nat + x)
            == color(data, (y * row_pitch + x * 4) as int),
{
    let (w, h) = (frame.width as nat, frame.height as nat);
    let k = y * w + x;
    assert(k < w * h) by (nonlinear_arith)
        requires
            k == y * w + x,
            x < w,
            y + 1 <= h,
    ;
    law_own_size_shows_every_pixel(frame, k);
    assert(y * (w * 4) == (y * w) * 4) by (nonlinear_arith);
    law_pixels_keep_their_place(data, row_pitch, w * 4, h, y, x * 4);
    law_pixels_keep_their_place(data, row_pitch, w * 4, h, y, x * 4 + 1);
    law_pixels_keep_their_place(data, row_pitch, w * 4, h, y, x * 4 + 2);
}

/// A color keeps the bytes of its pixel: red above green above blue, and
/// nothing above red.
pub proof fn law_colors_keep_every_byte(pixels_bgra: Seq<u8>, offset: int)
    ensures
        color(pixels_bgra, offset) >> 24u32 == 0,
        (color(pixels_bgra, offset) >> 16u32) & 0xff == pixels_bgra[offset + 2],
        (color(pixels_bgra, offset) >> 8u32) & 0xff == pixels_bgra[offset + 1],
        color(pixels_bgra, offset) & 0xff == pixels_bgra[offset],
{
    let (b, g, r) = (
        pixels_bgra[offset] as u32,
        pixels_bgra[offset + 1] as u32,
        pixels_bgra[offset + 2] as u32,
    );
    let c = color(pixels_bgra, offset);
    assert(c == r * 0x1_0000 + g * 0x100 + b);
    assert(c >> 24u32 == 0 && (c >> 16u32) & 0xff == r && (c >> 8u32) & 0xff == g && c & 0xff == b)
        by (bit_vector)
        requires
            r < 0x100,
            g < 0x100,
            b < 0x100,
            c == r * 0x1_0000 + g * 0x100 + b,
    ;
}

/// Every place of the target shows the pixel of the frame that lies there when
/// the frame is stretched over the target, with its bytes unchanged: column
/// `sx` covers the places from `sx` to `sx + 1` parts of the width, and row `sy`
/// likewise.
pub proof fn law_frames_are_stretched_over_the_target(
    frame: CaptureFrameView<'_>,
    target: (nat, nat),
    x: nat,
    y: nat,
    sx: nat,
    sy: nat,
)
    requires
        x < target.0,
        y < target.1,
        sx * target.0 <= x * frame.width < (sx + 1) * target.0,
        sy * target.1 <= y * frame.height < (sy + 1) * target.1,
    ensures
        ({
            let pixel = shown(frame, target, y * target.0 + x);
            let start = (sy * frame.width + sx) * 4;
            &&& pixel >> 24u32 == 0
            &&& (pixel >> 16u32) & 0xff == frame.pixels_bgra@[start + 2]
            &&& (pixel >> 8u32) & 0xff == frame.pixels_bgra@[start + 1]
            &&& pixel & 0xff == frame.pixels_bgra@[start]
        }),
{
    let (w, h) = (frame.width as nat, frame.height as nat);
    let k = y * target.0 + x;
    lemma_fundamental_div_mod_converse(k as int, target.0 as int, y as int, x as int);
    assert((sx + 1) * target.0 == sx * target.0 + target.0) by (nonlinear_arith);
    assert((sy + 1) * target.1 == sy * target.1 + target.1) by (nonlinear_arith);
    lemma_fundamental_div_mod_converse(
        (x * w) as int,
        target.0 as int,
        sx as int,
        x * w - sx * target.0,
    );
    lemma_fundamental_div_mod_converse(
        (y * h) as int,
        target.1 as int,
        sy as int,
        y * h - sy * target.1,
    );
    assert(source_pixel(x, w, target.0) == sx);
    assert(source_pixel(y, h, target.1) == sy);
    law_colors_keep_every_byte(frame.pixels_bgra@, ((sy * w + sx) * 4) as int);
}

} // verus!
