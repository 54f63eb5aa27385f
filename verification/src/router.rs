//! The run of the audio output router along a resolved route.
//!
//! Like the pump, the router decides and the program around it acts:
//! [`AudioRouter::action`] says what is to be done next, and
//! [`AudioRouter::step`] takes the answer.

use crate::audio::{AudioRoute, AudioRouteView, RouteError, RouteErrorView};
use crate::pump::{AudioPump, PumpAction, PumpEvent, PumpPhase};
use crate::wave::WaveFormatOwned;
use vstd::prelude::*;

verus! {

/// The share mode of a stream that mixes with those of other programs.
pub const AUDCLNT_SHAREMODE_SHARED: i32 = 0;

/// The flag of a capture that hears what its output device plays.
pub const AUDCLNT_STREAMFLAGS_LOOPBACK: u32 = 0x0002_0000;

/// The flag of a stream whose quality of conversion is the usual one.
pub const AUDCLNT_STREAMFLAGS_SRC_DEFAULT_QUALITY: u32 = 0x0800_0000;

/// The flag of a stream that is converted to and from the format of its device.
pub const AUDCLNT_STREAMFLAGS_AUTOCONVERTPCM: u32 = 0x8000_0000;

/// The flags of the render side.
pub const RENDER_STREAM_FLAGS: u32 = AUDCLNT_STREAMFLAGS_AUTOCONVERTPCM
    | AUDCLNT_STREAMFLAGS_SRC_DEFAULT_QUALITY;

/// The flags of the capture.
pub const CAPTURE_STREAM_FLAGS: u32 = AUDCLNT_STREAMFLAGS_LOOPBACK
    | AUDCLNT_STREAMFLAGS_AUTOCONVERTPCM | AUDCLNT_STREAMFLAGS_SRC_DEFAULT_QUALITY;

/// How a stream is to be initialized.
#[derive(Debug, Clone, PartialEq, Eq)]
pub struct StreamRequest {
    pub device_id: String,
    pub share_mode: i32,
    pub flags: u32,
    /// The bytes of the format.
    pub format: Vec<u8>,
}

/// The model of a [`StreamRequest`].
pub struct StreamRequestView {
    pub device_id: Seq<char>,
    pub share_mode: i32,
    pub flags: u32,
    pub format: Seq<u8>,
}

impl View for StreamRequest {
    type V = StreamRequestView;

    open spec fn view(&self) -> StreamRequestView {
        StreamRequestView {
            device_id: self.device_id@,
            share_mode: self.share_mode,
            flags: self.flags,
            format: self.format@,
        }
    }
}

/// The capture of a route: shared, what the source device plays, and in the
/// format that was read from it.
pub open spec fn capture_request(route: AudioRouteView, format: WaveFormatOwned) -> StreamRequestView {
    StreamRequestView {
        device_id: route.source.id,
        share_mode: AUDCLNT_SHAREMODE_SHARED,
        flags: CAPTURE_STREAM_FLAGS,
        format: format.bytes@,
    }
}

/// The render side of a route: shared, on the target device, and in the format
/// of the capture.
pub open spec fn render_request(route: AudioRouteView, format: WaveFormatOwned) -> StreamRequestView {
    StreamRequestView {
        device_id: route.target.id,
        share_mode: AUDCLNT_SHAREMODE_SHARED,
        flags: RENDER_STREAM_FLAGS,
        format: format.bytes@,
    }
}

fn shared_stream(device_id: &String, flags: u32, format: &WaveFormatOwned) -> (request:
    StreamRequest)
    ensures
        request@ == (StreamRequestView {
            device_id: device_id@,
            share_mode: AUDCLNT_SHAREMODE_SHARED,
            flags,
            format: format.bytes@,
        }),
{
    let bytes: Vec<u8> = format.bytes.clone();
    assert(bytes@ =~= format.bytes@);
    StreamRequest {
        device_id: device_id.clone(),
        share_mode: AUDCLNT_SHAREMODE_SHARED,
        flags,
        format: bytes,
    }
}

/// What the router waits for.
#[derive(Debug, Clone, PartialEq, Eq)]
pub enum RouterPhase {
    /// The source device.
    OpenSource,
    /// The target device.
    OpenTarget,
    /// The mix format of the source device.
    ReadFormat,
    /// The initialization of the capture.
    OpenCapture { format: WaveFormatOwned },
    /// The service that hands out captured packets.
    ServeCapture { format: WaveFormatOwned },
    /// The client of the target device.
    ActivateRender { format: WaveFormatOwned },
    /// The initialization of the render side.
    OpenRender { format: WaveFormatOwned },
    /// The service that takes packets to render, and the size of its buffer.
    ServeRender { format: WaveFormatOwned },
    /// The start of the render side.
    StartRender { pump: AudioPump },
    /// The start of the capture.
    StartCapture { pump: AudioPump },
    /// What the pump waits for.
    Pump { pump: AudioPump },
}

/// What the router asks for.
#[derive(Debug, Clone, PartialEq, Eq)]
pub enum RouterAction {
    /// Look up the source device.
    OpenSource { device_id: String },
    /// Look up the target device.
    OpenTarget { device_id: String },
    /// Get a client of a device, and read the mix format of the device.
    ReadFormat { device_id: String },
    /// Initialize that client for loopback capture.
    OpenCapture(StreamRequest),
    /// Get the capture service of that client.
    ServeCapture,
    /// Get a client of a device to render with.
    ActivateRender { device_id: String },
    /// Initialize that client for rendering.
    OpenRender(StreamRequest),
    /// Ask that client how many frames its buffer holds, and get its render
    /// service.
    ServeRender,
    /// Start the render side.
    StartRender,
    /// Start the capture.
    StartCapture,
    /// Do what the pump asks for.
    Pump(PumpAction),
}

/// The model of a [`RouterAction`].
pub enum RouterActionView {
    OpenSource { device_id: Seq<char> },
    OpenTarget { device_id: Seq<char> },
    ReadFormat { device_id: Seq<char> },
    OpenCapture(StreamRequestView),
    ServeCapture,
    ActivateRender { device_id: Seq<char> },
    OpenRender(StreamRequestView),
    ServeRender,
    StartRender,
    StartCapture,
    Pump(PumpAction),
}

impl View for RouterAction {
    type V = RouterActionView;

    open spec fn view(&self) -> RouterActionView {
        match self {
            RouterAction::OpenSource { device_id } => RouterActionView::OpenSource {
                device_id: device_id@,
            },
            RouterAction::OpenTarget { device_id } => RouterActionView::OpenTarget {
                device_id: device_id@,
            },
            RouterAction::ReadFormat { device_id } => RouterActionView::ReadFormat {
                device_id: device_id@,
            },
            RouterAction::OpenCapture(request) => RouterActionView::OpenCapture(request@),
            RouterAction::ServeCapture => RouterActionView::ServeCapture,
            RouterAction::ActivateRender { device_id } => RouterActionView::ActivateRender {
                device_id: device_id@,
            },
            RouterAction::OpenRender(request) => RouterActionView::OpenRender(request@),
            RouterAction::ServeRender => RouterActionView::ServeRender,
            RouterAction::StartRender => RouterActionView::StartRender,
            RouterAction::StartCapture => RouterActionView::StartCapture,
            RouterAction::Pump(action) => RouterActionView::Pump(*action),
        }
    }
}

/// The answer to an action.
#[derive(Debug, Clone, PartialEq, Eq)]
pub enum RouterEvent {
    SourceOpened,
    TargetOpened,
    /// The mix format of the source device.
    FormatRead(WaveFormatOwned),
    CaptureOpened,
    CaptureServed,
    RenderActivated,
    RenderOpened,
    /// The render side is ready; its buffer holds this many frames.
    RenderServed { buffer_frames: u32 },
    RenderStarted,
    CaptureStarted,
    Pump(PumpEvent),
}

impl RouterEvent {
    pub open spec fn well_formed(self) -> bool {
        self matches RouterEvent::FormatRead(format) ==> format.well_formed()
    }
}

/// The pump of streams that have been opened.
pub open spec fn fresh_pump(buffer_frames: u32, block_align: usize) -> AudioPump {
    AudioPump { buffer_frames, block_align, phase: PumpPhase::Polling }
}

impl RouterPhase {
    /// The format that the streams are opened in, while they are.
    pub open spec fn format(self) -> Option<WaveFormatOwned> {
        match self {
            RouterPhase::OpenCapture { format } => Some(format),
            RouterPhase::ServeCapture { format } => Some(format),
            RouterPhase::ActivateRender { format } => Some(format),
            RouterPhase::OpenRender { format } => Some(format),
            RouterPhase::ServeRender { format } => Some(format),
            _ => None,
        }
    }

    /// The pump, once both streams have been opened.
    pub open spec fn pump(self) -> Option<AudioPump> {
        match self {
            RouterPhase::StartRender { pump } => Some(pump),
            RouterPhase::StartCapture { pump } => Some(pump),
            RouterPhase::Pump { pump } => Some(pump),
            _ => None,
        }
    }

    pub open spec fn well_formed(self) -> bool {
        &&& self.format() matches Some(format) ==> format.well_formed()
        &&& self.pump() matches Some(pump) ==> pump.well_formed()
    }

    /// The place of a phase in the order of the phases.
    pub open spec fn rank(self) -> nat {
        match self {
            RouterPhase::OpenSource => 0,
            RouterPhase::OpenTarget => 1,
            RouterPhase::ReadFormat => 2,
            RouterPhase::OpenCapture { format } => 3,
            RouterPhase::ServeCapture { format } => 4,
            RouterPhase::ActivateRender { format } => 5,
            RouterPhase::OpenRender { format } => 6,
            RouterPhase::ServeRender { format } => 7,
            RouterPhase::StartRender { pump } => 8,
            RouterPhase::StartCapture { pump } => 9,
            RouterPhase::Pump { pump } => 10,
        }
    }

    /// What is to be done in a phase of a run along a route.
    pub open spec fn due(self, route: AudioRouteView) -> RouterActionView {
        match self {
            RouterPhase::OpenSource => RouterActionView::OpenSource { device_id: route.source.id },
            RouterPhase::OpenTarget => RouterActionView::OpenTarget { device_id: route.target.id },
            RouterPhase::ReadFormat => RouterActionView::ReadFormat { device_id: route.source.id },
            RouterPhase::OpenCapture { format } => RouterActionView::OpenCapture(
                capture_request(route, format),
            ),
            RouterPhase::ServeCapture { format } => RouterActionView::ServeCapture,
            RouterPhase::ActivateRender { format } => RouterActionView::ActivateRender {
                device_id: route.target.id,
            },
            RouterPhase::OpenRender { format } => RouterActionView::OpenRender(
                render_request(route, format),
            ),
            RouterPhase::ServeRender { format } => RouterActionView::ServeRender,
            RouterPhase::StartRender { pump } => RouterActionView::StartRender,
            RouterPhase::StartCapture { pump } => RouterActionView::StartCapture,
            RouterPhase::Pump { pump } => RouterActionView::Pump(pump.due()),
        }
    }

    /// The phase that follows on an answer. An answer to something that was
    /// not asked changes nothing.
    pub open spec fn next(self, event: RouterEvent) -> RouterPhase {
        match (self, event) {
            (RouterPhase::OpenSource, RouterEvent::SourceOpened) => RouterPhase::OpenTarget,
            (RouterPhase::OpenTarget, RouterEvent::TargetOpened) => RouterPhase::ReadFormat,
            (RouterPhase::ReadFormat, RouterEvent::FormatRead(format)) => RouterPhase::OpenCapture {
                format,
            },
            (
                RouterPhase::OpenCapture { format },
                RouterEvent::CaptureOpened,
            ) => RouterPhase::ServeCapture { format },
            (
                RouterPhase::ServeCapture { format },
                RouterEvent::CaptureServed,
            ) => RouterPhase::ActivateRender { format },
            (
                RouterPhase::ActivateRender { format },
                RouterEvent::RenderActivated,
            ) => RouterPhase::OpenRender { format },
            (
                RouterPhase::OpenRender { format },
                RouterEvent::RenderOpened,
            ) => RouterPhase::ServeRender { format },
            (
                RouterPhase::ServeRender { format },
                RouterEvent::RenderServed { buffer_frames },
            ) => RouterPhase::StartRender { pump: fresh_pump(buffer_frames, format.block_align) },
            (
                RouterPhase::StartRender { pump },
                RouterEvent::RenderStarted,
            ) => RouterPhase::StartCapture { pump },
            (
                RouterPhase::StartCapture { pump },
                RouterEvent::CaptureStarted,
            ) => RouterPhase::Pump { pump },
            (RouterPhase::Pump { pump }, RouterEvent::Pump(answer)) => RouterPhase::Pump {
                pump: pump.next(answer),
            },
            _ => self,
        }
    }

    /// What it means that the host failed to do what was asked.
    pub open spec fn failure(self, route: AudioRouteView, cause: Seq<char>) -> RouteErrorView {
        let source = route.source.friendly_name;
        let target = route.target.friendly_name;
        match self {
            RouterPhase::ReadFormat => RouteErrorView::OpenCapture { device: source, cause },
            RouterPhase::OpenCapture { format } => RouteErrorView::InitializeCapture {
                device: source,
                format: format.description(),
                cause,
            },
            RouterPhase::ServeCapture { format } => RouteErrorView::OpenCapture {
                device: source,
                cause,
            },
            RouterPhase::ActivateRender { format } => RouteErrorView::OpenRender {
                device: target,
                cause,
            },
            RouterPhase::OpenRender { format } => RouteErrorView::InitializeRender {
                device: target,
                format: format.description(),
                cause,
            },
            RouterPhase::ServeRender { format } => RouteErrorView::OpenRender {
                device: target,
                cause,
            },
            RouterPhase::StartRender { pump } => RouteErrorView::StartRender { cause },
            RouterPhase::StartCapture { pump } => RouteErrorView::StartCapture { cause },
            _ => RouteErrorView::Query(cause),
        }
    }
}

/// A run along a route.
#[derive(Debug, Clone)]
pub struct AudioRouter {
    pub route: AudioRoute,
    pub phase: RouterPhase,
}

impl AudioRouter {
    /// A run that is about to begin.
    pub fn new(route: AudioRoute) -> (router: Self)
        ensures
            router.route == route,
            router.phase == RouterPhase::OpenSource,
            router.phase.well_formed(),
    {
        AudioRouter { route, phase: RouterPhase::OpenSource }
    }

    /// What is to be done next.
    pub fn action(&self) -> (action: RouterAction)
        requires
            self.phase.well_formed(),
        ensures
            action@ == self.phase.due(self.route@),
    {
        let (source, target) = (&self.route.source, &self.route.target);
        match &self.phase {
            RouterPhase::OpenSource => RouterAction::OpenSource { device_id: source.id.clone() },
            RouterPhase::OpenTarget => RouterAction::OpenTarget { device_id: target.id.clone() },
            RouterPhase::ReadFormat => RouterAction::ReadFormat { device_id: source.id.clone() },
            RouterPhase::OpenCapture { format } => RouterAction::OpenCapture(
                shared_stream(&source.id, CAPTURE_STREAM_FLAGS, format),
            ),
            RouterPhase::ServeCapture { .. } => RouterAction::ServeCapture,
            RouterPhase::ActivateRender { .. } => RouterAction::ActivateRender {
                device_id: target.id.clone(),
            },
            RouterPhase::OpenRender { format } => RouterAction::OpenRender(
                shared_stream(&target.id, RENDER_STREAM_FLAGS, format),
            ),
            RouterPhase::ServeRender { .. } => RouterAction::ServeRender,
            RouterPhase::StartRender { .. } => RouterAction::StartRender,
            RouterPhase::StartCapture { .. } => RouterAction::StartCapture,
            RouterPhase::Pump { pump } => RouterAction::Pump(pump.action()),
        }
    }

    /// Takes the answer to what was asked.
    pub fn step(&mut self, event: RouterEvent)
        requires
            old(self).phase.well_formed(),
            event.well_formed(),
        ensures
            final(self).route == old(self).route,
            final(self).phase == old(self).phase.next(event),
            final(self).phase.well_formed(),
    {
        let mut phase: RouterPhase = RouterPhase::OpenSource;
        std::mem::swap(&mut phase, &mut self.phase);
        self.phase = match (phase, event) {
            (RouterPhase::OpenSource, RouterEvent::SourceOpened) => RouterPhase::OpenTarget,
            (RouterPhase::OpenTarget, RouterEvent::TargetOpened) => RouterPhase::ReadFormat,
            (RouterPhase::ReadFormat, RouterEvent::FormatRead(format)) => RouterPhase::OpenCapture {
                format,
            },
            (
                RouterPhase::OpenCapture { format },
                RouterEvent::CaptureOpened,
            ) => RouterPhase::ServeCapture { format },
            (
                RouterPhase::ServeCapture { format },
                RouterEvent::CaptureServed,
            ) => RouterPhase::ActivateRender { format },
            (
                RouterPhase::ActivateRender { format },
                RouterEvent::RenderActivated,
            ) => RouterPhase::OpenRender { format },
            (
                RouterPhase::OpenRender { format },
                RouterEvent::RenderOpened,
            ) => RouterPhase::ServeRender { format },
            (
                RouterPhase::ServeRender { format },
                RouterEvent::RenderServed { buffer_frames },
            ) => RouterPhase::StartRender {
                pump: AudioPump::new(buffer_frames, format.block_align as u16),
            },
            (
                RouterPhase::StartRender { pump },
                RouterEvent::RenderStarted,
            ) => RouterPhase::StartCapture { pump },
            (
                RouterPhase::StartCapture { pump },
                RouterEvent::CaptureStarted,
            ) => RouterPhase::Pump { pump },
            (RouterPhase::Pump { pump }, RouterEvent::Pump(answer)) => {
                let mut pump: AudioPump = pump;
                pump.step(answer);
                RouterPhase::Pump { pump }
            },
            (phase, _) => phase,
        };
    }

    /// What it means that the host failed to do what was asked. The run ends
    /// there.
    pub fn failure(&self, cause: String) -> (error: RouteError)
        requires
            self.phase.well_formed(),
        ensures
            error@ == self.phase.failure(self.route@, cause@),
    {
        let source: String = self.route.source.friendly_name.clone();
        let target: String = self.route.target.friendly_name.clone();
        match &self.phase {
            RouterPhase::ReadFormat => RouteError::OpenCapture { device: source, cause },
            RouterPhase::OpenCapture { format } => RouteError::InitializeCapture {
                device: source,
                format: format.describe(),
                cause,
            },
            RouterPhase::ServeCapture { .. } => RouteError::OpenCapture { device: source, cause },
            RouterPhase::ActivateRender { .. } => RouteError::OpenRender { device: target, cause },
            RouterPhase::OpenRender { format } => RouteError::InitializeRender {
                device: target,
                format: format.describe(),
                cause,
            },
            RouterPhase::ServeRender { .. } => RouteError::OpenRender { device: target, cause },
            RouterPhase::StartRender { .. } => RouteError::StartRender { cause },
            RouterPhase::StartCapture { .. } => RouteError::StartCapture { cause },
            _ => RouteError::Query(cause),
        }
    }
}

/// The phase after a run of answers.
pub open spec fn phase_after(start: RouterPhase, events: Seq<RouterEvent>) -> RouterPhase
    decreases events.len(),
{
    if events.len() == 0 {
        start
    } else {
        phase_after(start, events.drop_last()).next(events.last())
    }
}

/// The phases are gone through one by one and in order: whatever the answers,
/// no phase is skipped and none comes back.
pub proof fn law_phases_come_in_order(start: RouterPhase, event: RouterEvent)
    ensures
        start.next(event).rank() == start.rank() || start.next(event).rank() == start.rank() + 1,
{
}

/// A stream is opened in the format that was read from the source device, and
/// in no other: the capture on the source, the render side on the target.
pub proof fn law_streams_are_opened_in_the_format_of_the_source(
    route: AudioRouteView,
    events: Seq<RouterEvent>,
)
    ensures
        match phase_after(RouterPhase::OpenSource, events).due(route) {
            RouterActionView::OpenCapture(request) => exists|i: int|
                0 <= i < events.len() && (#[trigger] events[i] matches RouterEvent::FormatRead(
                    format,
                ) && request == capture_request(route, format)),
            RouterActionView::OpenRender(request) => exists|i: int|
                0 <= i < events.len() && (#[trigger] events[i] matches RouterEvent::FormatRead(
                    format,
                ) && request == render_request(route, format)),
            _ => true,
        },
{
    let (a, b, c, d) = lemma_history(events);
    let phase = phase_after(RouterPhase::OpenSource, events);
    if phase.format() is Some {
        assert(events[a] is FormatRead);
    }
}

/// The target plays in the format of the capture: a run that opens the render
/// side does so with the bytes that it opened the capture with.
pub proof fn law_the_target_plays_in_the_format_of_the_capture(
    route: AudioRouteView,
    events: Seq<RouterEvent>,
    opened: nat,
)
    requires
        opened <= events.len(),
        phase_after(RouterPhase::OpenSource, events.take(opened as int)) is OpenCapture,
        phase_after(RouterPhase::OpenSource, events) is OpenRender,
    ensures
        ({
            let captured = phase_after(RouterPhase::OpenSource, events.take(opened as int)).due(
                route,
            );
            let rendered = phase_after(RouterPhase::OpenSource, events).due(route);
            captured->OpenCapture_0.format == rendered->OpenRender_0.format
        }),
{
    lemma_format_stays(events, opened);
}

/// Both streams are shared and converted; the capture hears what its device
/// plays, and the render side does not.
pub proof fn law_streams_are_shared(route: AudioRouteView, format: WaveFormatOwned)
    ensures
        capture_request(route, format).share_mode == AUDCLNT_SHAREMODE_SHARED,
        render_request(route, format).share_mode == AUDCLNT_SHAREMODE_SHARED,
        capture_request(route, format).flags & AUDCLNT_STREAMFLAGS_LOOPBACK
            == AUDCLNT_STREAMFLAGS_LOOPBACK,
        render_request(route, format).flags & AUDCLNT_STREAMFLAGS_LOOPBACK == 0,
        capture_request(route, format).flags & RENDER_STREAM_FLAGS == RENDER_STREAM_FLAGS,
        render_request(route, format).flags == RENDER_STREAM_FLAGS,
{
    assert(CAPTURE_STREAM_FLAGS & AUDCLNT_STREAMFLAGS_LOOPBACK == AUDCLNT_STREAMFLAGS_LOOPBACK)
        by (bit_vector);
    assert(RENDER_STREAM_FLAGS & AUDCLNT_STREAMFLAGS_LOOPBACK == 0) by (bit_vector);
    assert(CAPTURE_STREAM_FLAGS & RENDER_STREAM_FLAGS == RENDER_STREAM_FLAGS) by (bit_vector);
}

proof fn lemma_format_stays(events: Seq<RouterEvent>, n: nat)
    requires
        n <= events.len(),
        phase_after(RouterPhase::OpenSource, events.take(n as int)).format() is Some,
    ensures
        ({
            let earlier = phase_after(RouterPhase::OpenSource, events.take(n as int));
            let later = phase_after(RouterPhase::OpenSource, events);
            later.rank() >= earlier.rank() && (later.format() is Some ==> later.format()
                == earlier.format())
        }),
    decreases events.len(),
{
    if n == events.len() {
        assert(events.take(n as int) =~= events);
    } else {
        let front = events.drop_last();
        assert(front.take(n as int) =~= events.take(n as int));
        lemma_format_stays(front, n);
    }
}

/// Frames are carried only once both streams have been opened and started, the
/// render side before the capture, and into a buffer and in frames of the size
/// that the streams were opened with.
pub proof fn law_streams_are_started_before_frames_are_carried(events: Seq<RouterEvent>)
    requires
        phase_after(RouterPhase::OpenSource, events) is Pump,
    ensures
        exists|a: int, b: int, c: int, d: int|
            0 <= a < b < c < d < events.len() && (#[trigger] events[a] is FormatRead)
                && (#[trigger] events[b] is RenderServed) && (#[trigger] events[c]
                == RouterEvent::RenderStarted) && (#[trigger] events[d]
                == RouterEvent::CaptureStarted) && ({
                let pump = phase_after(RouterPhase::OpenSource, events)->Pump_pump;
                &&& pump.block_align == events[a]->FormatRead_0.block_align
                &&& pump.buffer_frames == events[b]->buffer_frames
            }),
{
    let (a, b, c, d) = lemma_history(events);
    assert(events[a] is FormatRead && events[b] is RenderServed);
    assert(events[c] == RouterEvent::RenderStarted && events[d] == RouterEvent::CaptureStarted);
}

/// Where in the answers the format was read and the streams were started, as
/// far as the run has come.
proof fn lemma_history(events: Seq<RouterEvent>) -> (places: (int, int, int, int))
    ensures
        ({
            let (a, b, c, d) = places;
            let phase = phase_after(RouterPhase::OpenSource, events);
            &&& phase.rank() >= 3 ==> 0 <= a < events.len() && events[a] is FormatRead
            &&& phase.rank() >= 8 ==> a < b < events.len() && events[b] is RenderServed
            &&& phase.rank() >= 9 ==> b < c < events.len() && events[c]
                == RouterEvent::RenderStarted
            &&& phase.rank() >= 10 ==> c < d < events.len() && events[d]
                == RouterEvent::CaptureStarted
            &&& phase.format() matches Some(format) ==> events[a] == RouterEvent::FormatRead(format)
            &&& phase.pump() matches Some(pump) ==> pump.block_align
                == events[a]->FormatRead_0.block_align && pump.buffer_frames
                == events[b]->buffer_frames
        }),
    decreases events.len(),
{
    if events.len() == 0 {
        (0, 0, 0, 0)
    } else {
        let earlier = events.drop_last();
        let (a, b, c, d) = lemma_history(earlier);
        let before = phase_after(RouterPhase::OpenSource, earlier);
        let after = before.next(events.last());
        let last = events.len() - 1;
        assert(forall|i: int| 0 <= i < last ==> events[i] == earlier[i]);
        if after.rank() == before.rank() {
            (a, b, c, d)
        } else if after.rank() == 3 {
            (last, b, c, d)
        } else if after.rank() == 8 {
            (a, last, c, d)
        } else if after.rank() == 9 {
            (a, b, last, d)
        } else if after.rank() == 10 {
            (a, b, c, last)
        } else {
            (a, b, c, d)
        }
    }
}

/// What the router asks for next, by what it asked for and was answered. The
/// source device is captured and the target device renders, each by its id, in
/// shared mode and in the format that was read; what was not asked for changes
/// nothing.
pub proof fn law_the_router_goes_on_from_answer_to_answer(
    phase: RouterPhase,
    route: AudioRouteView,
    event: RouterEvent,
)
    ensures
        ({
            let next = phase.next(event);
            let due = next.due(route);
            match (phase.due(route), event) {
                (RouterActionView::OpenSource { device_id }, RouterEvent::SourceOpened) => {
                    &&& device_id == route.source.id
                    &&& due == (RouterActionView::OpenTarget { device_id: route.target.id })
                },
                (RouterActionView::OpenTarget { device_id }, RouterEvent::TargetOpened) => {
                    &&& device_id == route.target.id
                    &&& due == (RouterActionView::ReadFormat { device_id: route.source.id })
                },
                (RouterActionView::ReadFormat { device_id }, RouterEvent::FormatRead(format)) => {
                    &&& device_id == route.source.id
                    &&& next.format() == Some(format)
                    &&& due matches RouterActionView::OpenCapture(request) && {
                        &&& request.device_id == route.source.id
                        &&& request.share_mode == 0
                        &&& request.flags == 0x8802_0000
                        &&& request.format == format.bytes@
                    }
                },
                (RouterActionView::OpenCapture(_), RouterEvent::CaptureOpened) => due
                    == RouterActionView::ServeCapture && next.format() == phase.format(),
                (RouterActionView::ServeCapture, RouterEvent::CaptureServed) => due == (
                RouterActionView::ActivateRender { device_id: route.target.id }) && next.format()
                    == phase.format(),
                (RouterActionView::ActivateRender { device_id }, RouterEvent::RenderActivated) => {
                    &&& device_id == route.target.id
                    &&& next.format() == phase.format()
                    &&& phase.format() matches Some(format) && (
                    due matches RouterActionView::OpenRender(request) && {
                        &&& request.device_id == route.target.id
                        &&& request.share_mode == 0
                        &&& request.flags == 0x8800_0000
                        &&& request.format == format.bytes@
                    })
                },
                (RouterActionView::OpenRender(_), RouterEvent::RenderOpened) => due
                    == RouterActionView::ServeRender && next.format() == phase.format(),
                (RouterActionView::ServeRender, RouterEvent::RenderServed { buffer_frames }) => {
                    &&& due == RouterActionView::StartRender
                    &&& phase.format() matches Some(format) && (next.pump() matches Some(pump) && {
                        &&& pump.buffer_frames == buffer_frames
                        &&& pump.block_align == format.block_align
                        &&& pump.due() == PumpAction::NextPacketSize
                    })
                },
                (RouterActionView::StartRender, RouterEvent::RenderStarted) => due
                    == RouterActionView::StartCapture && next.pump() == phase.pump(),
                (RouterActionView::StartCapture, RouterEvent::CaptureStarted) => {
                    &&& next.pump() == phase.pump()
                    &&& phase.pump() matches Some(pump) && due == RouterActionView::Pump(pump.due())
                },
                (RouterActionView::Pump(_), RouterEvent::Pump(answer)) => {
                    &&& phase.pump() matches Some(pump) && next.pump() == Some(pump.next(answer))
                        && due == RouterActionView::Pump(pump.next(answer).due())
                },
                _ => next == phase,
            }
        }),
{
    assert(0x8000_0000u32 | 0x0800_0000u32 == 0x8800_0000) by (bit_vector);
    assert(0x0002_0000u32 | 0x8000_0000u32 | 0x0800_0000u32 == 0x8802_0000) by (bit_vector);
}

/// A run begins with the source device.
pub proof fn law_runs_begin_with_the_source(route: AudioRouteView)
    ensures
        RouterPhase::OpenSource.due(route) == (RouterActionView::OpenSource {
            device_id: route.source.id,
        }),
{
}

/// A failure is told by what was asked: opening and starting the capture on the
/// source device, opening and starting the render side on the target device,
/// with the format where the host refused it, and always with its cause.
pub proof fn law_failures_are_told_by_what_was_asked(
    phase: RouterPhase,
    route: AudioRouteView,
    cause: Seq<char>,
)
    ensures
        ({
            let error = phase.failure(route, cause);
            let (source, target) = (route.source.friendly_name, route.target.friendly_name);
            match phase.due(route) {
                RouterActionView::ReadFormat { .. } => error == (RouteErrorView::OpenCapture {
                    device: source,
                    cause,
                }),
                RouterActionView::ServeCapture => error == (RouteErrorView::OpenCapture {
                    device: source,
                    cause,
                }),
                RouterActionView::OpenCapture(_) => phase.format() matches Some(format) && error
                    == (RouteErrorView::InitializeCapture {
                    device: source,
                    format: format.description(),
                    cause,
                }),
                RouterActionView::ActivateRender { .. } => error == (RouteErrorView::OpenRender {
                    device: target,
                    cause,
                }),
                RouterActionView::ServeRender => error == (RouteErrorView::OpenRender {
                    device: target,
                    cause,
                }),
                RouterActionView::OpenRender(_) => phase.format() matches Some(format) && error
                    == (RouteErrorView::InitializeRender {
                    device: target,
                    format: format.description(),
                    cause,
                }),
                RouterActionView::StartRender => error == (RouteErrorView::StartRender { cause }),
                RouterActionView::StartCapture => error == (RouteErrorView::StartCapture { cause }),
                _ => error == RouteErrorView::Query(cause),
            }
        }),
{
}

} // verus!
