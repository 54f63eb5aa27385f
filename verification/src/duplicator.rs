//! The capture of one display: its frames, copied row by row out of mapped
//! memory.

use crate::display::{
    describes_displays, display_named, find_display, DisplayError, DisplayErrorView, DisplayHost,
    DisplayInfo, DisplayInfoView,
};
use crate::geometry::DisplayArea;
use crate::text::{contains_text, law_parts_occur_without_gaps, occurs_at, occurs_in};
use vstd::prelude::*;

verus! {

/// The error code of a frame that did not come in time.
pub const DXGI_ERROR_WAIT_TIMEOUT: i32 = -0x7785_ffd9;

/// The error code of a duplication that has come to an end.
pub const DXGI_ERROR_ACCESS_LOST: i32 = -0x7785_ffda;

/// A captured frame: rows of pixels of four bytes each, blue first.
#[derive(Debug, Clone, Copy)]
pub struct CaptureFrameView<'a> {
    pub width: u32,
    pub height: u32,
    pub pixels_bgra: &'a [u8],
}

/// What the host makes of an attempt to capture a frame.
#[derive(Debug, Clone)]
pub enum CaptureOutcome<'m> {
    /// The frame is mapped to memory; its rows are `row_pitch` bytes apart.
    Mapped { row_pitch: u32, data: &'m [u8] },
    /// No frame was acquired.
    NotAcquired { code: i32, message: String },
    /// A frame was acquired without a resource.
    NoResource,
    /// The frame could not be mapped.
    NotMapped { message: String },
    /// The frame is mapped to memory, but could not be given back to the host.
    NotReleased { row_pitch: u32, data: &'m [u8], message: String },
    /// The host has no desktop duplication.
    Unsupported,
}

/// Why there is no frame.
#[derive(Debug, Clone)]
pub enum CaptureError {
    TimedOut,
    AccessLost,
    NoResource,
    Query(String),
    Unsupported,
}

/// The model of a [`CaptureError`].
pub enum CaptureErrorView {
    TimedOut,
    AccessLost,
    NoResource,
    Query(Seq<char>),
    Unsupported,
}

impl View for CaptureError {
    type V = CaptureErrorView;

    open spec fn view(&self) -> CaptureErrorView {
        match self {
            CaptureError::TimedOut => CaptureErrorView::TimedOut,
            CaptureError::AccessLost => CaptureErrorView::AccessLost,
            CaptureError::NoResource => CaptureErrorView::NoResource,
            CaptureError::Query(message) => CaptureErrorView::Query(message@),
            CaptureError::Unsupported => CaptureErrorView::Unsupported,
        }
    }
}

impl CaptureErrorView {
    pub open spec fn text(self) -> Seq<char> {
        match self {
            CaptureErrorView::TimedOut => "Timed out waiting for the next frame"@,
            CaptureErrorView::AccessLost =>
                "Desktop duplication access was lost; recreate the relay session"@,
            CaptureErrorView::NoResource => "Desktop duplication returned no frame resource"@,
            CaptureErrorView::Query(message) => message,
            CaptureErrorView::Unsupported => DisplayErrorView::Unsupported.text(),
        }
    }

    /// Whether the words say that a frame did not come in time.
    pub open spec fn is_late(self) -> bool {
        occurs_in("Timed out waiting for the next frame"@, self.text())
    }
}

impl CaptureError {
    /// What went wrong, in words.
    pub fn message(&self) -> (message: String)
        ensures
            message@ == self@.text(),
    {
        match self {
            CaptureError::TimedOut => "Timed out waiting for the next frame".to_owned(),
            CaptureError::AccessLost =>
                "Desktop duplication access was lost; recreate the relay session".to_owned(),
            CaptureError::NoResource =>
                "Desktop duplication returned no frame resource".to_owned(),
            CaptureError::Query(message) => message.clone(),
            CaptureError::Unsupported => DisplayError::Unsupported.message(),
        }
    }

    /// Whether the error only means that there is no new frame yet.
    pub fn is_timeout(&self) -> (late: bool)
        ensures
            late == self@.is_late(),
    {
        contains_text(self.message().as_str(), "Timed out waiting for the next frame")
    }
}

/// The first `rows` rows of `row_len` bytes each, `row_pitch` bytes apart, one
/// after the other.
pub open spec fn packed_rows(data: Seq<u8>, row_pitch: nat, row_len: nat, rows: nat) -> Seq<u8>
    decreases rows,
{
    if rows == 0 || row_len == 0 {
        Seq::empty()
    } else {
        let start = (rows - 1) * row_pitch;
        packed_rows(data, row_pitch, row_len, (rows - 1) as nat) + data.subrange(
            start,
            start + row_len,
        )
    }
}

/// Whether memory holds that many rows; rows without bytes take none.
pub open spec fn holds_rows(len: nat, row_pitch: nat, row_len: nat, rows: nat) -> bool {
    rows > 0 && row_len > 0 ==> (rows - 1) * row_pitch + row_len <= len
}

/// How many bytes a frame of a display has.
pub open spec fn frame_len(area: DisplayArea) -> nat {
    area.width as nat * area.height as nat * 4
}

impl CaptureOutcome<'_> {
    /// The mapped memory, if there is any, and how far apart its rows are.
    pub open spec fn memory(self) -> Option<(u32, Seq<u8>)> {
        match self {
            CaptureOutcome::Mapped { row_pitch, data } => Some((row_pitch, data@)),
            CaptureOutcome::NotReleased { row_pitch, data, message } => Some((row_pitch, data@)),
            _ => None,
        }
    }

    /// Why there is no frame, if there is none.
    pub open spec fn fault(self) -> Option<CaptureErrorView> {
        match self {
            CaptureOutcome::Mapped { row_pitch, data } => None,
            CaptureOutcome::NotAcquired { code, message } => Some(
                if code == DXGI_ERROR_WAIT_TIMEOUT {
                    CaptureErrorView::TimedOut
                } else if code == DXGI_ERROR_ACCESS_LOST {
                    CaptureErrorView::AccessLost
                } else {
                    CaptureErrorView::Query(message@)
                },
            ),
            CaptureOutcome::NoResource => Some(CaptureErrorView::NoResource),
            CaptureOutcome::NotMapped { message } => Some(CaptureErrorView::Query(message@)),
            CaptureOutcome::NotReleased { row_pitch, data, message } => Some(
                CaptureErrorView::Query(message@),
            ),
            CaptureOutcome::Unsupported => Some(CaptureErrorView::Unsupported),
        }
    }
}

/// Captures one display.
#[derive(Debug, Clone)]
pub struct DesktopDuplicator {
    pub display: DisplayInfo,
    pub frame_buffer: Vec<u8>,
}

impl DesktopDuplicator {
    /// A frame of the display fits into memory.
    pub open spec fn well_formed(self) -> bool {
        frame_len(self.display.area) <= isize::MAX
    }

    /// Prepares the capture of the display with a name.
    pub fn new(display_name: &str, host: &DisplayHost) -> (duplicator: Result<Self, DisplayError>)
        requires
            describes_displays(*host),
            display_named(*host, display_name@) matches Ok(display) ==> frame_len(display.area)
                <= isize::MAX,
        ensures
            match duplicator {
                Ok(duplicator) => {
                    &&& display_named(*host, display_name@) == Ok::<
                        DisplayInfoView,
                        DisplayErrorView,
                    >(duplicator.display@)
                    &&& duplicator.frame_buffer@ == Seq::new(
                        frame_len(duplicator.display.area),
                        |i: int| 0u8,
                    )
                    &&& duplicator.well_formed()
                },
                Err(error) => display_named(*host, display_name@) == Err::<
                    DisplayInfoView,
                    DisplayErrorView,
                >(error@),
            },
    {
        let display: DisplayInfo = match find_display(host, display_name) {
            Ok(display) => display,
            Err(error) => {
                return Err(error);
            },
        };
        let (width, height) = (display.area.width as usize, display.area.height as usize);
        proof {
            assert(width * height <= width * height * 4 && 0 <= width * height) by (nonlinear_arith);
        }
        let frame_buffer: Vec<u8> = vec![0u8; width * height * 4];
        assert(frame_buffer@ =~= Seq::new(frame_len(display.area), |i: int| 0u8));
        Ok(DesktopDuplicator { display, frame_buffer })
    }

    /// The display that is captured.
    #[must_use]
    pub fn display_info(&self) -> (display: &DisplayInfo)
        ensures
            *display == self.display,
    {
        &self.display
    }

    /// Takes a frame out of mapped memory, or says why there is none. What was
    /// mapped replaces the frame before, even where it could not be given back.
    pub fn capture_frame<'a>(&'a mut self, captured: CaptureOutcome<'_>) -> (frame: Result<
        CaptureFrameView<'a>,
        CaptureError,
    >)
        requires
            old(self).well_formed(),
            captured.memory() matches Some(memory) ==> holds_rows(
                memory.1.len(),
                memory.0 as nat,
                old(self).display.area.width as nat * 4,
                old(self).display.area.height as nat,
            ),
        ensures
            final(self).display == old(self).display,
            final(self).frame_buffer@ == (match captured.memory() {
                Some(memory) => packed_rows(
                    memory.1,
                    memory.0 as nat,
                    old(self).display.area.width as nat * 4,
                    old(self).display.area.height as nat,
                ),
                None => old(self).frame_buffer@,
            }),
            match captured.fault() {
                Some(fault) => frame matches Err(error) && error@ == fault,
                None => frame matches Ok(frame) && {
                    &&& frame.width == old(self).display.area.width
                    &&& frame.height == old(self).display.area.height
                    &&& frame.pixels_bgra@ == final(self).frame_buffer@
                },
            },
    {
        let (width, height) = (self.display.area.width, self.display.area.height);
        match captured {
            CaptureOutcome::Mapped { row_pitch, data } => {
                copy_rows(&mut self.frame_buffer, data, row_pitch, width, height);
                Ok(CaptureFrameView { width, height, pixels_bgra: self.frame_buffer.as_slice() })
            },
            CaptureOutcome::NotReleased { row_pitch, data, message } => {
                copy_rows(&mut self.frame_buffer, data, row_pitch, width, height);
                Err(CaptureError::Query(message))
            },
            CaptureOutcome::NotAcquired { code, message } => Err(
                if code == DXGI_ERROR_WAIT_TIMEOUT {
                    CaptureError::TimedOut
                } else if code == DXGI_ERROR_ACCESS_LOST {
                    CaptureError::AccessLost
                } else {
                    CaptureError::Query(message)
                },
            ),
            CaptureOutcome::NoResource => Err(CaptureError::NoResource),
            CaptureOutcome::NotMapped { message } => Err(CaptureError::Query(message)),
            CaptureOutcome::Unsupported => Err(CaptureError::Unsupported),
        }
    }
}

/// Replaces a buffer by the rows of a frame.
fn copy_rows(buffer: &mut Vec<u8>, data: &[u8], row_pitch: u32, width: u32, height: u32)
    requires
        holds_rows(data.len() as nat, row_pitch as nat, width as nat * 4, height as nat),
    ensures
        final(buffer)@ == packed_rows(
            data@,
            row_pitch as nat,
            width as nat * 4,
            height as nat,
        ),
{
    buffer.clear();
    if width == 0 {
        return;
    }
    let mut row: u32 = 0;
    while row < height
        invariant
            width > 0,
            row <= height,
            holds_rows(data.len() as nat, row_pitch as nat, width as nat * 4, height as nat),
            buffer@ == packed_rows(data@, row_pitch as nat, width as nat * 4, row as nat),
        decreases height - row,
    {
        proof {
            assert(0 <= row * row_pitch <= (height - 1) * row_pitch) by (nonlinear_arith)
                requires
                    row <= height - 1,
            ;
        }
        let start: usize = row as usize * row_pitch as usize;
        let end: usize = start + width as usize * 4;
        let ghost before = buffer@;
        buffer.extend_from_slice(vstd::slice::slice_subrange(data, start, end));
        assert(buffer@ =~= before + data@.subrange(start as int, end as int));
        row = row + 1;
    }
}

/// A frame has all its bytes, and each is the byte of the same row and column
/// in memory.
pub proof fn law_pixels_keep_their_place(
    data: Seq<u8>,
    row_pitch: nat,
    row_len: nat,
    rows: nat,
    row: nat,
    column: nat,
)
    requires
        holds_rows(data.len(), row_pitch, row_len, rows),
        row < rows,
        column < row_len,
    ensures
        packed_rows(data, row_pitch, row_len, rows).len() == rows * row_len,
        row * row_len + column < rows * row_len,
        packed_rows(data, row_pitch, row_len, rows)[(row * row_len + column) as int] == data[(row
            * row_pitch + column) as int],
    decreases rows,
{
    let earlier = packed_rows(data, row_pitch, row_len, (rows - 1) as nat);
    let start = (rows - 1) * row_pitch;
    lemma_fewer_rows(data.len(), row_pitch, row_len, rows);
    lemma_packed_len(data, row_pitch, row_len, rows);
    lemma_packed_len(data, row_pitch, row_len, (rows - 1) as nat);
    assert(row * row_len + column < rows * row_len) by (nonlinear_arith)
        requires
            row + 1 <= rows,
            column < row_len,
    ;
    assert((rows - 1) * row_len + row_len == rows * row_len) by (nonlinear_arith);
    if row < rows - 1 {
        law_pixels_keep_their_place(data, row_pitch, row_len, (rows - 1) as nat, row, column);
    } else {
        assert(row * row_len == (rows - 1) * row_len);
        assert(row * row_pitch == start);
    }
}

proof fn lemma_fewer_rows(len: nat, row_pitch: nat, row_len: nat, rows: nat)
    requires
        holds_rows(len, row_pitch, row_len, rows),
        rows > 0,
    ensures
        holds_rows(len, row_pitch, row_len, (rows - 1) as nat),
{
    assert((rows - 2) * row_pitch <= (rows - 1) * row_pitch) by (nonlinear_arith);
}

proof fn lemma_packed_len(data: Seq<u8>, row_pitch: nat, row_len: nat, rows: nat)
    requires
        holds_rows(data.len(), row_pitch, row_len, rows),
    ensures
        packed_rows(data, row_pitch, row_len, rows).len() == rows * row_len,
    decreases rows,
{
    if rows > 0 && row_len > 0 {
        lemma_fewer_rows(data.len(), row_pitch, row_len, rows);
        lemma_packed_len(data, row_pitch, row_len, (rows - 1) as nat);
        assert(0 <= (rows - 1) * row_pitch) by (nonlinear_arith)
            requires
                rows >= 1,
        ;
        assert((rows - 1) * row_len + row_len == rows * row_len) by (nonlinear_arith);
    } else {
        assert(rows * row_len == 0) by (nonlinear_arith)
            requires
                rows == 0 || row_len == 0,
        ;
    }
}

/// A captured frame has four bytes for each pixel of the display.
pub proof fn law_frames_are_whole(data: Seq<u8>, row_pitch: nat, area: DisplayArea)
    requires
        holds_rows(data.len(), row_pitch, area.width as nat * 4, area.height as nat),
    ensures
        packed_rows(data, row_pitch, area.width as nat * 4, area.height as nat).len()
            == frame_len(area),
{
    let (w, h) = (area.width as nat, area.height as nat);
    lemma_packed_len(data, row_pitch, w * 4, h);
    assert(h * (w * 4) == w * h * 4) by (nonlinear_arith);
}

/// Of the errors with words of their own, only a frame that did not come in
/// time is taken for one.
pub proof fn law_only_timeouts_are_late()
    ensures
        CaptureErrorView::TimedOut.is_late(),
        !CaptureErrorView::AccessLost.is_late(),
        !CaptureErrorView::NoResource.is_late(),
        !CaptureErrorView::Unsupported.is_late(),
{
    let late = "Timed out waiting for the next frame"@;
    assert(late.subrange(0, late.len() as int) =~= late);
    assert(occurs_at(late, CaptureErrorView::TimedOut.text(), 0));
    reveal_strlit("Timed out waiting for the next frame");
    reveal_strlit("Desktop duplication access was lost; recreate the relay session");
    reveal_strlit("Desktop duplication returned no frame resource");
    reveal_strlit("Desktop Duplication is only supported on Windows");
    lemma_absent_character(late, CaptureErrorView::AccessLost.text(), 'T');
    lemma_absent_character(late, CaptureErrorView::NoResource.text(), 'T');
    lemma_absent_character(late, CaptureErrorView::Unsupported.text(), 'T');
}

proof fn lemma_absent_character(part: Seq<char>, whole: Seq<char>, first: char)
    requires
        part.len() > 0,
        part[0] == first,
        forall|i: int| 0 <= i < whole.len() ==> whole[i] != first,
    ensures
        !occurs_in(part, whole),
{
    assert forall|i: int| !occurs_at(part, whole, i) by {
        if occurs_at(part, whole, i) {
            assert(whole.subrange(i, i + part.len())[0] == whole[i]);
        }
    }
}

/// Without a frame the reason is told: a frame that is late and a lost
/// duplication by their codes, and anything else in the words of the host. A
/// frame that is mapped and given back is no fault.
pub proof fn law_captures_fail_for_their_reasons(
    code: i32,
    message: String,
    row_pitch: u32,
    data: &[u8],
)
    ensures
        ({
            let fault = (CaptureOutcome::NotAcquired { code, message }).fault();
            if code == -2_005_270_489 {
                fault == Some(CaptureErrorView::TimedOut)
            } else if code == -2_005_270_490 {
                fault == Some(CaptureErrorView::AccessLost)
            } else {
                fault == Some(CaptureErrorView::Query(message@))
            }
        }),
        CaptureOutcome::NoResource.fault() == Some(CaptureErrorView::NoResource),
        (CaptureOutcome::NotMapped { message }).fault() == Some(CaptureErrorView::Query(message@)),
        (CaptureOutcome::NotReleased { row_pitch, data, message }).fault() == Some(
            CaptureErrorView::Query(message@),
        ),
        CaptureOutcome::Unsupported.fault() == Some(CaptureErrorView::Unsupported),
        (CaptureOutcome::Mapped { row_pitch, data }).fault() is None,
{
}

/// Memory is looked at where there is any, as it is, and not otherwise.
pub proof fn law_captured_memory_is_read_as_it_is(
    code: i32,
    message: String,
    row_pitch: u32,
    data: &[u8],
)
    ensures
        (CaptureOutcome::Mapped { row_pitch, data }).memory() == Some((row_pitch, data@)),
        (CaptureOutcome::NotReleased { row_pitch, data, message }).memory() == Some(
            (row_pitch, data@),
        ),
        (CaptureOutcome::NotAcquired { code, message }).memory() is None,
        CaptureOutcome::NoResource.memory() is None,
        (CaptureOutcome::NotMapped { message }).memory() is None,
        CaptureOutcome::Unsupported.memory() is None,
{
}

/// Rows are packed one after the other: a frame of one row more ends with that
/// row, and one of rows without bytes is empty.
pub proof fn law_rows_are_packed_in_order(
    data: Seq<u8>,
    row_pitch: nat,
    row_len: nat,
    rows: nat,
)
    requires
        row_len > 0,
        holds_rows(data.len(), row_pitch, row_len, rows + 1),
    ensures
        packed_rows(data, row_pitch, row_len, rows + 1) == packed_rows(
            data,
            row_pitch,
            row_len,
            rows,
        ) + data.subrange((rows * row_pitch) as int, (rows * row_pitch + row_len) as int),
        packed_rows(data, row_pitch, row_len, 0) == Seq::<u8>::empty(),
        packed_rows(data, row_pitch, 0, rows) == Seq::<u8>::empty(),
{
}

/// An error of the host is taken for a late frame exactly where its words hold
/// those of one; the words of an error of the host are the host's.
pub proof fn law_late_frames_are_known_by_their_words(words: Seq<char>)
    ensures
        CaptureErrorView::Query(words).text() == words,
        CaptureErrorView::Query(words).is_late() <==> exists|
            before: Seq<char>,
            after: Seq<char>,
        |
            words == #[trigger] (before + "Timed out waiting for the next frame"@ + after),
{
    law_parts_occur_without_gaps("Timed out waiting for the next frame"@, words);
}

/// A frame has four bytes for each pixel of its display, and memory holds it
/// where it holds its last row.
pub proof fn law_frames_have_four_bytes_for_each_pixel(
    area: DisplayArea,
    len: nat,
    row_pitch: nat,
    row_len: nat,
    rows: nat,
)
    ensures
        frame_len(area) == 4 * area.width * area.height,
        row_len == 0 || rows == 0 ==> holds_rows(len, row_pitch, row_len, rows),
        row_len > 0 && rows > 0 ==> (holds_rows(len, row_pitch, row_len, rows) <==> (rows - 1)
            * row_pitch + row_len <= len),
{
    assert(area.width as nat * area.height as nat * 4 == 4 * area.width * area.height)
        by (nonlinear_arith);
}

} // verus!
