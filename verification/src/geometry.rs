//! Display areas and the mapping of pointer positions between coordinate
//! systems: a local window, a display, and the absolute range of the virtual
//! desktop.

use crate::single::{
    distance, law_bit_patterns_are_read_in_order, law_positions_are_carried_over_in_proportion,
    lemma_proportion_ends,
    lemma_proportion_of_equal_lengths, lemma_proportion_ordered, lemma_rounded_integer, lemma_single_of_ordered, lemma_single_of_small, one, project_integer,
    proportion, rounded, single_of, units, Single,
};
use vstd::arithmetic::power2::{lemma_pow2_pos, pow2};
use vstd::prelude::*;

verus! {

/// The largest absolute mouse coordinate on either axis.
pub const ABSOLUTE_RANGE: u32 = 65_535;

/// The signed reading of a length: lengths from 2^31 on read as negative.
pub open spec fn signed(length: u32) -> int {
    if length < 0x8000_0000 {
        length as int
    } else {
        length - 0x1_0000_0000
    }
}

pub open spec fn fits_i32(v: int) -> bool {
    i32::MIN <= v <= i32::MAX
}

/// A rectangle of the desktop, in desktop coordinates.
#[derive(Debug, Clone, Copy, PartialEq, Eq, Structural)]
pub struct DisplayArea {
    pub left: i32,
    pub top: i32,
    pub width: u32,
    pub height: u32,
}

impl DisplayArea {
    /// The first column to the right of the area.
    pub open spec fn right_edge(self) -> int {
        self.left + signed(self.width)
    }

    /// The first row below the area.
    pub open spec fn bottom_edge(self) -> int {
        self.top + signed(self.height)
    }

    /// The points of the area.
    pub open spec fn spans(self, x: int, y: int) -> bool {
        &&& self.left <= x < self.right_edge()
        &&& self.top <= y < self.bottom_edge()
    }

    /// Whether the edges that deciding about this point takes are coordinates:
    /// the right edge is looked at only for a point not left of the area, the
    /// bottom edge only for one that also lies within its columns and not
    /// above it.
    pub open spec fn decides(self, x: int, y: int) -> bool {
        &&& x >= self.left ==> fits_i32(self.right_edge())
        &&& self.left <= x < self.right_edge() && y >= self.top ==> fits_i32(self.bottom_edge())
    }

    /// Whether every point of `other` is a point of this area.
    pub open spec fn covers(self, other: Self) -> bool {
        forall|x: int, y: int| other.spans(x, y) ==> self.spans(x, y)
    }

    #[must_use]
    pub fn right(self) -> (edge: i32)
        requires
            fits_i32(self.right_edge()),
        ensures
            edge == self.right_edge(),
    {
        self.left + signed_length(self.width)
    }

    #[must_use]
    pub fn bottom(self) -> (edge: i32)
        requires
            fits_i32(self.bottom_edge()),
        ensures
            edge == self.bottom_edge(),
    {
        self.top + signed_length(self.height)
    }

    #[must_use]
    pub fn contains(self, x: i32, y: i32) -> (inside: bool)
        requires
            self.decides(x as int, y as int),
        ensures
            inside == self.spans(x as int, y as int),
    {
        x >= self.left && x < self.right() && y >= self.top && y < self.bottom()
    }

    /// Tells whether [`DisplayArea::contains`] can be asked about a point.
    #[must_use]
    pub fn can_decide(self, x: i32, y: i32) -> (yes: bool)
        ensures
            yes == self.decides(x as int, y as int),
    {
        let right: i64 = self.left as i64 + signed_length(self.width) as i64;
        let bottom: i64 = self.top as i64 + signed_length(self.height) as i64;
        if x < self.left {
            true
        } else if !in_i32(right) {
            false
        } else {
            x as i64 >= right || y < self.top || in_i32(bottom)
        }
    }
}

fn signed_length(length: u32) -> (v: i32)
    ensures
        v == signed(length),
{
    proof {
        assert(length < 0x8000_0000 ==> length as i32 == length) by (bit_vector);
        assert(length >= 0x8000_0000 ==> length as i32 == length - 0x1_0000_0000) by (bit_vector);
    }
    #[verifier::truncate]
    (length as i32)
}

/// A pointer position in a window, in physical pixels.
#[derive(Debug, Clone, Copy)]
pub struct PointerSample {
    pub x: Single,
    pub y: Single,
}

/// The desktop that all displays share.
#[derive(Debug, Clone, Copy, PartialEq, Eq, Structural)]
pub struct VirtualDesktop {
    pub bounds: DisplayArea,
}

/// A position on an axis that starts at `start`, `offset` pixels along it; an
/// offset is at most `i32::MAX`.
pub open spec fn axis_position(start: i32, offset: nat) -> int {
    start + if offset > i32::MAX { i32::MAX as int } else { offset as int }
}

/// The point of the display that a pointer position in a window stands for.
pub open spec fn display_point(
    source_display: DisplayArea,
    window_size: (u32, u32),
    pointer: PointerSample,
) -> (int, int) {
    (
        axis_position(
            source_display.left,
            pointer.x.projected(window_size.0 as nat, source_display.width as nat),
        ),
        axis_position(
            source_display.top,
            pointer.y.projected(window_size.1 as nat, source_display.height as nat),
        ),
    )
}

/// The absolute coordinate of the pixel `offset` on an axis of `length`
/// pixels, of which the first has coordinate zero and the last the largest.
pub open spec fn absolute_coordinate(offset: nat, length: u32) -> nat {
    proportion(
        single_of(offset),
        if length > 1 { (length - 1) as nat } else { 1 },
        ABSOLUTE_RANGE as nat,
    )
}

impl VirtualDesktop {
    /// The absolute coordinates of a point of the desktop.
    pub open spec fn absolute(self, x: int, y: int) -> (int, int) {
        (
            absolute_coordinate((x - self.bounds.left) as nat, self.bounds.width) as int,
            absolute_coordinate((y - self.bounds.top) as nat, self.bounds.height) as int,
        )
    }

    /// Maps a pointer position in a window of the given size to the display
    /// that the window mirrors. There is no such point for an empty window, and
    /// none where the position falls outside the display.
    #[must_use]
    pub fn map_window_pointer(
        self,
        source_display: DisplayArea,
        window_size: (u32, u32),
        pointer: PointerSample,
    ) -> (mapped: Option<(i32, i32)>)
        requires
            window_size.0 > 0 && window_size.1 > 0 ==> {
                let (x, y) = display_point(source_display, window_size, pointer);
                fits_i32(x) && fits_i32(y) && source_display.decides(x, y)
            },
        ensures
            ({
                let (x, y) = display_point(source_display, window_size, pointer);
                if window_size.0 > 0 && window_size.1 > 0 && source_display.spans(x, y) {
                    mapped matches Some(point) && point.0 == x && point.1 == y
                } else {
                    mapped is None
                }
            }),
    {
        let (window_width, window_height) = window_size;
        if window_width == 0 || window_height == 0 {
            return None;
        }
        let display_x: i32 = source_display.left + saturated(
            pointer.x.project(window_width, source_display.width),
        );
        let display_y: i32 = source_display.top + saturated(
            pointer.y.project(window_height, source_display.height),
        );
        if source_display.contains(display_x, display_y) {
            Some((display_x, display_y))
        } else {
            None
        }
    }

    /// Normalizes a point of the desktop to absolute mouse coordinates. There
    /// are none for a point outside the desktop.
    #[must_use]
    pub fn absolute_mouse(self, x: i32, y: i32) -> (absolute: Option<(i32, i32)>)
        requires
            self.bounds.decides(x as int, y as int),
        ensures
            if self.bounds.spans(x as int, y as int) {
                &&& absolute matches Some(point)
                &&& point.0 == self.absolute(x as int, y as int).0
                &&& point.1 == self.absolute(x as int, y as int).1
            } else {
                absolute is None
            },
    {
        if !self.bounds.contains(x, y) {
            return None;
        }
        let x_offset: u32 = (x - self.bounds.left) as u32;
        let y_offset: u32 = (y - self.bounds.top) as u32;
        Some((
            absolute_axis(x_offset, self.bounds.width),
            absolute_axis(y_offset, self.bounds.height),
        ))
    }
}

/// The point of the display that a pointer position stands for, whether it is
/// a pair of desktop coordinates or not.
pub(crate) fn find_display_point(
    source_display: DisplayArea,
    window_size: (u32, u32),
    pointer: PointerSample,
) -> (point: (i64, i64))
    requires
        window_size.0 > 0,
        window_size.1 > 0,
    ensures
        ({
            let (x, y) = display_point(source_display, window_size, pointer);
            point.0 == x && point.1 == y
        }),
{
    let x_offset: i32 = saturated(pointer.x.project(window_size.0, source_display.width));
    let y_offset: i32 = saturated(pointer.y.project(window_size.1, source_display.height));
    (source_display.left as i64 + x_offset as i64, source_display.top as i64 + y_offset as i64)
}

fn saturated(offset: u64) -> (v: i32)
    ensures
        v == (if offset > i32::MAX { i32::MAX as int } else { offset as int }),
{
    if offset > 0x7fff_ffff {
        0x7fff_ffff
    } else {
        offset as i32
    }
}

/// One axis of [`VirtualDesktop::absolute_mouse`].
fn absolute_axis(offset: u32, length: u32) -> (v: i32)
    requires
        offset < length,
    ensures
        v == absolute_coordinate(offset as nat, length),
{
    let span: u32 = if length > 1 {
        length - 1
    } else {
        1
    };
    proof {
        law_absolute_coordinates_stay_in_range(offset as nat, length);
    }
    project_integer(offset, span, ABSOLUTE_RANGE) as i32
}

/// Absolute coordinates stay between zero and the largest coordinate.
pub proof fn law_absolute_coordinates_stay_in_range(offset: nat, length: u32)
    requires
        offset < length,
    ensures
        absolute_coordinate(offset, length) <= ABSOLUTE_RANGE,
{
    let span = if length > 1 { (length - 1) as nat } else { 1 };
    lemma_single_of_ordered(offset, span);
    lemma_proportion_ordered(single_of(offset), single_of(span), span, ABSOLUTE_RANGE as nat);
    lemma_proportion_ends(span, ABSOLUTE_RANGE as nat);
}

/// Absolute coordinates keep the order of pixels.
pub proof fn law_absolute_coordinates_keep_the_order(a: nat, b: nat, length: u32)
    requires
        a <= b < length,
    ensures
        absolute_coordinate(a, length) <= absolute_coordinate(b, length),
{
    let span = if length > 1 { (length - 1) as nat } else { 1 };
    lemma_single_of_ordered(a, b);
    lemma_proportion_ordered(single_of(a), single_of(b), span, ABSOLUTE_RANGE as nat);
}

/// The first pixel of an axis has the smallest absolute coordinate, the last
/// one the largest, unless they are the same pixel.
pub proof fn law_absolute_coordinates_reach_both_ends(length: u32)
    requires
        length > 0,
    ensures
        absolute_coordinate(0, length) == 0,
        length > 1 ==> absolute_coordinate((length - 1) as nat, length) == ABSOLUTE_RANGE,
{
    let span = if length > 1 { (length - 1) as nat } else { 1 };
    lemma_single_of_small(0);
    assert(0 * one() == 0);
    lemma_proportion_ends(span, ABSOLUTE_RANGE as nat);
}

/// The furthest that a position on a window axis can be carried to.
pub open spec fn reach(extent: u32) -> nat {
    rounded(single_of(extent as nat))
}

impl DisplayArea {
    /// Whether every pointer position in every window has a place in desktop
    /// coordinates, inside the area or not.
    pub open spec fn is_reachable(self) -> bool {
        &&& fits_i32(self.right_edge())
        &&& fits_i32(self.bottom_edge())
        &&& fits_i32(axis_position(self.left, reach(self.width)))
        &&& fits_i32(axis_position(self.top, reach(self.height)))
    }
}

pub(crate) fn in_i32(v: i64) -> (yes: bool)
    ensures
        yes == fits_i32(v as int),
{
    -0x8000_0000 <= v && v <= 0x7fff_ffff
}

/// A position is carried no further than the end of the axis.
pub proof fn law_positions_stay_within_reach(position: Single, span: u32, extent: u32)
    requires
        span > 0,
    ensures
        position.projected(span as nat, extent as nat) <= reach(extent),
{
    let limit = single_of(span as nat);
    lemma_proportion_ends(span as nat, extent as nat);
    if !position.is_nan() {
        lemma_proportion_ordered(position.clamped(limit), limit, span as nat, extent as nat);
    }
}

/// Whatever the window and the pointer, a reachable area has an answer.
pub proof fn law_reachable_areas_answer_every_pointer(
    area: DisplayArea,
    window_size: (u32, u32),
    pointer: PointerSample,
)
    requires
        area.is_reachable(),
        window_size.0 > 0,
        window_size.1 > 0,
    ensures
        ({
            let (x, y) = display_point(area, window_size, pointer);
            fits_i32(x) && fits_i32(y) && area.decides(x, y)
        }),
{
    law_positions_stay_within_reach(pointer.x, window_size.0, area.width);
    law_positions_stay_within_reach(pointer.y, window_size.1, area.height);
}

/// A pointer at the top left corner of a window, or beyond it, stands for the
/// top left corner of the display.
pub proof fn law_window_origin_is_the_display_origin(
    area: DisplayArea,
    window_size: (u32, u32),
    pointer: PointerSample,
)
    requires
        window_size.0 > 0,
        window_size.1 > 0,
        pointer.x.bits == 0 || pointer.x.bits >= 0x8000_0000,
        pointer.y.bits == 0 || pointer.y.bits >= 0x8000_0000,
    ensures
        display_point(area, window_size, pointer) == (area.left as int, area.top as int),
{
    lemma_proportion_ends(window_size.0 as nat, area.width as nat);
    lemma_proportion_ends(window_size.1 as nat, area.height as nat);
}

/// Positions keep their order: a pointer further along a window stands for a
/// point no less far along the display.
pub proof fn law_positions_keep_the_order(a: Single, b: Single, span: u32, extent: u32)
    requires
        span > 0,
        !a.is_nan(),
        !b.is_nan(),
        a.clamped(single_of(span as nat)) <= b.clamped(single_of(span as nat)),
    ensures
        a.projected(span as nat, extent as nat) <= b.projected(span as nat, extent as nat),
{
    let limit = single_of(span as nat);
    lemma_proportion_ordered(a.clamped(limit), b.clamped(limit), span as nat, extent as nat);
}

/// In a window of the size of the display, with sides of at most 2^22 pixels,
/// every pixel of the window stands for the same pixel of the display.
pub proof fn law_own_size_keeps_every_pixel(
    area: DisplayArea,
    pointer: PointerSample,
    x: u32,
    y: u32,
)
    requires
        x < area.width <= 0x40_0000,
        y < area.height <= 0x40_0000,
        pointer.x.is_integer(x as nat),
        pointer.y.is_integer(y as nat),
    ensures
        display_point(area, (area.width, area.height), pointer) == (area.left + x, area.top + y),
        area.spans(area.left + x, area.top + y),
{
    let (width, height) = (area.width as nat, area.height as nat);
    lemma_single_of_small(width);
    lemma_single_of_small(height);
    assert(x * one() <= width * one() && y * one() <= height * one()) by (nonlinear_arith)
        requires
            x <= width,
            y <= height,
            one() >= 0,
    ;
    lemma_proportion_of_equal_lengths(x as nat, width);
    lemma_proportion_of_equal_lengths(y as nat, height);
}

/// Lengths of less than 2^24 pixels are reached to the end; longer ones are
/// rounded to single precision and may fall short of it.
pub proof fn law_lengths_are_reached(extent: u32)
    requires
        extent < 0x100_0000,
    ensures
        reach(extent) == extent,
{
    lemma_single_of_small(extent as nat);
    lemma_rounded_integer(extent as nat);
}

/// A pointer at the right edge of a window or beyond it is outside the display,
/// as is one at the bottom edge or below it, where that side of the display is
/// reached to the end: an edge is the first position that is not part of the
/// area.
pub proof fn law_far_edges_are_outside(
    area: DisplayArea,
    window_size: (u32, u32),
    pointer: PointerSample,
)
    requires
        window_size.0 > 0,
        window_size.1 > 0,
        ({
            ||| !pointer.x.is_nan() && pointer.x.clamped(single_of(window_size.0 as nat))
                == single_of(window_size.0 as nat) && area.width <= reach(area.width)
            ||| !pointer.y.is_nan() && pointer.y.clamped(single_of(window_size.1 as nat))
                == single_of(window_size.1 as nat) && area.height <= reach(area.height)
        }),
    ensures
        ({
            let (x, y) = display_point(area, window_size, pointer);
            !area.spans(x, y)
        }),
{
    lemma_proportion_ends(window_size.0 as nat, area.width as nat);
    lemma_proportion_ends(window_size.1 as nat, area.height as nat);
}

/// A mapped point of a display that is part of the desktop has absolute
/// coordinates.
pub proof fn law_mapped_points_lie_on_the_desktop(
    desktop: VirtualDesktop,
    area: DisplayArea,
    window_size: (u32, u32),
    pointer: PointerSample,
)
    requires
        desktop.bounds.covers(area),
    ensures
        ({
            let (x, y) = display_point(area, window_size, pointer);
            area.spans(x, y) ==> desktop.bounds.spans(x, y)
        }),
{
}

/// An area has as many columns and rows as its lengths say, where they are
/// signed numbers, and it begins at its left and top edge.
pub proof fn law_areas_have_their_lengths(area: DisplayArea, x: int, y: int)
    ensures
        area.width < 0x8000_0000 ==> area.right_edge() - area.left == area.width,
        area.height < 0x8000_0000 ==> area.bottom_edge() - area.top == area.height,
        area.width >= 0x8000_0000 ==> area.right_edge() - area.left == area.width
            - 0x1_0000_0000,
        area.height >= 0x8000_0000 ==> area.bottom_edge() - area.top == area.height
            - 0x1_0000_0000,
        area.width < 0x8000_0000 && area.height < 0x8000_0000 ==> (area.spans(x, y) <==> 0 <= x
            - area.left < area.width && 0 <= y - area.top < area.height),
        area.width >= 0x8000_0000 || area.height >= 0x8000_0000 ==> !area.spans(x, y),
{
}

/// Whether a point belongs to an area can be told wherever the edges of the
/// area are coordinates.
pub proof fn law_areas_with_edges_decide_every_point(area: DisplayArea, x: int, y: int)
    requires
        -0x8000_0000 <= area.right_edge() <= 0x7fff_ffff,
        -0x8000_0000 <= area.bottom_edge() <= 0x7fff_ffff,
    ensures
        area.decides(x, y),
{
}

/// The axes of a desktop do not mix: the absolute coordinate of a point on one
/// axis depends on its distance from the start of that axis and on the length
/// of that axis alone, and on both axes in the same way.
pub proof fn law_absolute_axes_do_not_mix(
    a: VirtualDesktop,
    ax: int,
    ay: int,
    b: VirtualDesktop,
    bx: int,
    by: int,
)
    requires
        a.bounds.spans(ax, ay),
        b.bounds.spans(bx, by),
    ensures
        a.bounds.width == b.bounds.width && ax - a.bounds.left == bx - b.bounds.left ==> a.absolute(
            ax,
            ay,
        ).0 == b.absolute(bx, by).0,
        a.bounds.height == b.bounds.height && ay - a.bounds.top == by - b.bounds.top ==> a.absolute(
            ax,
            ay,
        ).1 == b.absolute(bx, by).1,
        a.bounds.width == b.bounds.height && ax - a.bounds.left == by - b.bounds.top ==> a.absolute(
            ax,
            ay,
        ).0 == b.absolute(bx, by).1,
{
}

/// The corners of a desktop have the smallest and the largest absolute
/// coordinates: the first column and row zero, the last ones 65535, unless they
/// are the first as well.
pub proof fn law_desktops_are_covered_to_the_edges(desktop: VirtualDesktop, x: int, y: int)
    requires
        desktop.bounds.spans(x, y),
    ensures
        x == desktop.bounds.left ==> desktop.absolute(x, y).0 == 0,
        y == desktop.bounds.top ==> desktop.absolute(x, y).1 == 0,
        x == desktop.bounds.left + desktop.bounds.width - 1 && desktop.bounds.width > 1
            ==> desktop.absolute(x, y).0 == 65_535,
        y == desktop.bounds.top + desktop.bounds.height - 1 && desktop.bounds.height > 1
            ==> desktop.absolute(x, y).1 == 65_535,
        0 <= desktop.absolute(x, y).0 <= 65_535,
        0 <= desktop.absolute(x, y).1 <= 65_535,
{
    let bounds = desktop.bounds;
    law_absolute_coordinates_reach_both_ends(bounds.width);
    law_absolute_coordinates_reach_both_ends(bounds.height);
    law_absolute_coordinates_stay_in_range((x - bounds.left) as nat, bounds.width);
    law_absolute_coordinates_stay_in_range((y - bounds.top) as nat, bounds.height);
}

/// A point further right or further down has no smaller absolute coordinate
/// there.
pub proof fn law_absolute_points_keep_the_order(
    desktop: VirtualDesktop,
    ax: int,
    ay: int,
    bx: int,
    by: int,
)
    requires
        desktop.bounds.spans(ax, ay),
        desktop.bounds.spans(bx, by),
    ensures
        ax <= bx ==> desktop.absolute(ax, ay).0 <= desktop.absolute(bx, by).0,
        ay <= by ==> desktop.absolute(ax, ay).1 <= desktop.absolute(bx, by).1,
{
    let bounds = desktop.bounds;
    if ax <= bx {
        law_absolute_coordinates_keep_the_order(
            (ax - bounds.left) as nat,
            (bx - bounds.left) as nat,
            bounds.width,
        );
    }
    if ay <= by {
        law_absolute_coordinates_keep_the_order(
            (ay - bounds.top) as nat,
            (by - bounds.top) as nat,
            bounds.height,
        );
    }
}

proof fn lemma_absolute_accuracy(offset: nat, length: u32)
    requires
        offset < length <= 0x100_0000,
    ensures
        length > 1 ==> 4 * distance(absolute_coordinate(offset, length) * (length - 1) as nat, offset
            * 65_535) <= 3 * (length - 1),
{
    if length > 1 {
        lemma_pow2_pos(149);
        let span = (length - 1) as nat;
        let c = absolute_coordinate(offset, length);
        lemma_single_of_small(offset);
        assert(offset * one() <= span * one()) by (nonlinear_arith)
            requires
                offset <= span,
        ;
        law_positions_are_carried_over_in_proportion(offset * one(), span, 65_535);
        let (x, y, unit) = ((c * span) as int, offset * 65_535, one() as int);
        assert(c * (span * one()) == x * unit) by (nonlinear_arith)
            requires
                x == c * span,
                unit == one(),
        ;
        assert((offset * one()) * 65_535 == y * unit) by (nonlinear_arith)
            requires
                y == offset * 65_535,
                unit == one(),
        ;
        assert(distance((x * unit) as nat, (y * unit) as nat) == distance(x as nat, y as nat)
            * unit) by (nonlinear_arith)
            requires
                unit > 0,
                x >= 0,
                y >= 0,
                distance(x as nat, y as nat) == (if x < y { y - x } else { x - y }),
                distance((x * unit) as nat, (y * unit) as nat) == (if x * unit < y * unit {
                    y * unit - x * unit
                } else {
                    x * unit - y * unit
                }),
        ;
        let gap = distance(x as nat, y as nat);
        assert(4 * gap <= 3 * span) by (nonlinear_arith)
            requires
                4 * (gap * unit) <= 3 * (span * unit),
                unit > 0,
        ;
    }
}

/// Absolute coordinates are in proportion: on a desktop of up to 2^24 columns
/// and rows, a point has the coordinate that divides the range as the point
/// divides its axis, to within three quarters.
pub proof fn law_absolute_coordinates_are_in_proportion(desktop: VirtualDesktop, x: int, y: int)
    requires
        desktop.bounds.spans(x, y),
    ensures
        1 < desktop.bounds.width <= 0x100_0000 ==> {
            let off = desktop.absolute(x, y).0 * (desktop.bounds.width - 1) - (x
                - desktop.bounds.left) * 65_535;
            -3 * (desktop.bounds.width - 1) <= 4 * off <= 3 * (desktop.bounds.width - 1)
        },
        1 < desktop.bounds.height <= 0x100_0000 ==> {
            let off = desktop.absolute(x, y).1 * (desktop.bounds.height - 1) - (y
                - desktop.bounds.top) * 65_535;
            -3 * (desktop.bounds.height - 1) <= 4 * off <= 3 * (desktop.bounds.height - 1)
        },
{
    let bounds = desktop.bounds;
    if 1 < bounds.width <= 0x100_0000 {
        let (offset, span) = ((x - bounds.left) as nat, (bounds.width - 1) as nat);
        lemma_absolute_accuracy(offset, bounds.width);
        let c = absolute_coordinate(offset, bounds.width);
        lemma_within(c * span, offset * 65_535, c * span - offset * 65_535, span as int);
    }
    if 1 < bounds.height <= 0x100_0000 {
        let (offset, span) = ((y - bounds.top) as nat, (bounds.height - 1) as nat);
        lemma_absolute_accuracy(offset, bounds.height);
        let c = absolute_coordinate(offset, bounds.height);
        lemma_within(c * span, offset * 65_535, c * span - offset * 65_535, span as int);
    }
}

/// The axes of a window do not mix: where a pointer stands on one axis of the
/// display depends on that axis of the pointer, the window and the display
/// alone, and on both axes in the same way.
pub proof fn law_pointer_axes_do_not_mix(
    a: DisplayArea,
    a_size: (u32, u32),
    a_pointer: PointerSample,
    b: DisplayArea,
    b_size: (u32, u32),
    b_pointer: PointerSample,
)
    ensures
        a.width == b.width && a_size.0 == b_size.0 && a_pointer.x == b_pointer.x ==> display_point(
            a,
            a_size,
            a_pointer,
        ).0 - a.left == display_point(b, b_size, b_pointer).0 - b.left,
        a.height == b.height && a_size.1 == b_size.1 && a_pointer.y == b_pointer.y ==> display_point(
            a,
            a_size,
            a_pointer,
        ).1 - a.top == display_point(b, b_size, b_pointer).1 - b.top,
        a.width == b.height && a_size.0 == b_size.1 && a_pointer.x == b_pointer.y ==> display_point(
            a,
            a_size,
            a_pointer,
        ).0 - a.left == display_point(b, b_size, b_pointer).1 - b.top,
{
}

/// A pointer inside a window stands for the point of the display that divides
/// it as the pointer divides the window, to within three quarters of a pixel,
/// on displays of up to 2^20 columns and rows. A position is `units` over
/// 2^149.
pub proof fn law_points_are_in_proportion(
    area: DisplayArea,
    window_size: (u32, u32),
    pointer: PointerSample,
)
    requires
        0 < window_size.0 < 0x100_0000,
        0 < window_size.1 < 0x100_0000,
        area.width <= 0x10_0000,
        area.height <= 0x10_0000,
        pointer.x.bits < 0x7f80_0000,
        pointer.y.bits < 0x7f80_0000,
        units(pointer.x.bits) <= window_size.0 * pow2(149),
        units(pointer.y.bits) <= window_size.1 * pow2(149),
    ensures
        ({
            let (x, y) = display_point(area, window_size, pointer);
            let (w, h) = (window_size.0 * pow2(149), window_size.1 * pow2(149));
            let x_off = (x - area.left) * w - units(pointer.x.bits) * area.width;
            let y_off = (y - area.top) * h - units(pointer.y.bits) * area.height;
            -3 * w <= 4 * x_off <= 3 * w && -3 * h <= 4 * y_off <= 3 * h
        }),
{
    lemma_axis_in_proportion(area.left, pointer.x, window_size.0, area.width);
    lemma_axis_in_proportion(area.top, pointer.y, window_size.1, area.height);
}

proof fn lemma_axis_in_proportion(start: i32, position: Single, span: u32, extent: u32)
    requires
        0 < span < 0x100_0000,
        extent <= 0x10_0000,
        position.bits < 0x7f80_0000,
        units(position.bits) <= span * pow2(149),
    ensures
        ({
            let offset = axis_position(start, position.projected(span as nat, extent as nat))
                - start;
            let s = span * pow2(149);
            let off = offset * s - units(position.bits) * extent;
            -3 * s <= 4 * off <= 3 * s
        }),
{
    let a = units(position.bits);
    let s = (span as nat * one()) as int;
    let r = position.projected(span as nat, extent as nat);
    lemma_single_of_small(span as nat);
    assert(position.bits % 0x8000_0000 == position.bits);
    assert(position.clamped(single_of(span as nat)) == a);
    assert(r == proportion(a, span as nat, extent as nat));
    law_positions_are_carried_over_in_proportion(a, span as nat, extent as nat);
    law_positions_stay_within_reach(position, span, extent);
    law_lengths_are_reached(extent);
    let offset = axis_position(start, r) - start;
    assert(offset == r);
    let (carried, exact) = (r * (span as nat * one()), a * extent as nat);
    assert(offset * s == carried);
    assert(a * extent == exact);
    assert(4 * distance(carried, exact) <= 3 * s);
    assert(s == span * pow2(149));
    let off = offset * s - a * extent;
    assert(off == carried - exact);
    lemma_within(carried, exact, off, s);
    assert(offset * (span * pow2(149)) == offset * s);
}

proof fn lemma_within(a: nat, b: nat, off: int, s: int)
    requires
        off == a - b,
        4 * distance(a, b) <= 3 * s,
    ensures
        -3 * s <= 4 * off <= 3 * s,
{
}

/// A pointer further along a window stands for a point no less far along the
/// display; before the window it stands for the first one.
pub proof fn law_points_keep_the_order(
    area: DisplayArea,
    window_size: (u32, u32),
    a: PointerSample,
    b: PointerSample,
)
    requires
        window_size.0 > 0,
        window_size.1 > 0,
        a.x.bits <= b.x.bits <= 0x7f80_0000,
        a.y.bits <= b.y.bits <= 0x7f80_0000,
    ensures
        area.left <= display_point(area, window_size, a).0 <= display_point(
            area,
            window_size,
            b,
        ).0,
        area.top <= display_point(area, window_size, a).1 <= display_point(area, window_size, b).1,
{
    lemma_clamped_ordered(a.x, b.x, single_of(window_size.0 as nat));
    lemma_clamped_ordered(a.y, b.y, single_of(window_size.1 as nat));
    law_positions_keep_the_order(a.x, b.x, window_size.0, area.width);
    law_positions_keep_the_order(a.y, b.y, window_size.1, area.height);
}

proof fn lemma_clamped_ordered(a: Single, b: Single, limit: nat)
    requires
        a.bits <= b.bits <= 0x7f80_0000,
    ensures
        !a.is_nan(),
        !b.is_nan(),
        a.clamped(limit) <= b.clamped(limit),
{
    if a.bits < b.bits < 0x7f80_0000 {
        law_bit_patterns_are_read_in_order(a.bits, b.bits);
    }
}

/// Coordinates are the numbers of 32 bits with a sign, and an area decides
/// about a point exactly where it needs no edge that is none: the right edge
/// for a point that is not left of it, and the bottom edge for one in its
/// columns that is not above it.
pub proof fn law_edges_are_looked_at_in_turn(area: DisplayArea, x: int, y: int)
    ensures
        fits_i32(x) <==> -0x8000_0000 <= x <= 0x7fff_ffff,
        x < area.left ==> area.decides(x, y),
        x >= area.left && !(-0x8000_0000 <= area.right_edge() <= 0x7fff_ffff) ==> !area.decides(
            x,
            y,
        ),
        x >= area.left && -0x8000_0000 <= area.right_edge() <= 0x7fff_ffff && (x
            >= area.right_edge() || y < area.top) ==> area.decides(x, y),
        area.left <= x < area.right_edge() && y >= area.top && -0x8000_0000 <= area.right_edge()
            <= 0x7fff_ffff ==> (area.decides(x, y) <==> -0x8000_0000 <= area.bottom_edge()
            <= 0x7fff_ffff),
{
}

} // verus!
