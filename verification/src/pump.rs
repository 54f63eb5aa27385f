//! The pump that carries captured audio to the render side.
//!
//! The pump decides and the program around it acts: [`AudioPump::action`] says
//! what is to be done next, and [`AudioPump::step`] takes the answer.

use vstd::prelude::*;

verus! {

/// The buffer flag that marks silence on either side.
pub const AUDCLNT_BUFFERFLAGS_SILENT: u32 = 0x2;

/// How long the pump rests when there is nothing to carry.
pub const IDLE_MILLIS: u64 = 3;

/// How long the pump waits when the render buffer is full.
pub const STALL_MILLIS: u64 = 2;

/// A captured packet, and how many of its frames have been rendered.
#[derive(Debug, Clone, Copy, PartialEq, Eq, Structural)]
pub struct Packet {
    pub frames: u32,
    pub silent: bool,
    pub offset: u32,
}

/// What the pump waits for.
#[derive(Debug, Clone, Copy, PartialEq, Eq, Structural)]
pub enum PumpPhase {
    /// The size of the next captured packet.
    Polling,
    /// The captured packet.
    Fetching,
    /// How full the render buffer is.
    Measuring { packet: Packet },
    /// The rendering of the next `count` frames.
    Rendering { packet: Packet, count: u32 },
    /// The end of a pause, as the render buffer was full.
    Stalled { packet: Packet },
    /// The release of the captured packet.
    Releasing { frames: u32 },
    /// The end of a rest, as there was no packet.
    Drained,
}

/// A range of the bytes of a packet.
#[derive(Debug, Clone, Copy, PartialEq, Eq, Structural)]
pub struct ByteRange {
    pub start: u64,
    pub len: u64,
}

/// What the pump asks for.
#[derive(Debug, Clone, Copy, PartialEq, Eq, Structural)]
pub enum PumpAction {
    /// Ask the capture side for the size of its next packet.
    NextPacketSize,
    /// Take that packet.
    FetchPacket,
    /// Ask the render side how many frames it still holds.
    CurrentPadding,
    /// Hand `count` frames to the render side under `flags`: a copy of a range
    /// of the packet, or nothing but the flags.
    Render { count: u32, flags: u32, copy: Option<ByteRange> },
    /// Give the packet back to the capture side.
    ReleasePacket { frames: u32 },
    /// Wait.
    Sleep { millis: u64 },
}

/// The answer to an action.
#[derive(Debug, Clone, Copy, PartialEq, Eq, Structural)]
pub enum PumpEvent {
    PacketSize(u32),
    Packet { frames: u32, flags: u32 },
    Padding(u32),
    Rendered,
    Released,
    Slept,
}

impl Packet {
    pub open spec fn is_open(self) -> bool {
        self.offset < self.frames
    }

    /// The packet with `count` more frames rendered.
    pub open spec fn advanced(self, count: u32) -> Packet {
        Packet { offset: (self.offset + count) as u32, ..self }
    }

    /// Where the pump goes on with a packet: it measures the render buffer as
    /// long as frames are left.
    pub open spec fn continued(self) -> PumpPhase {
        if self.is_open() {
            PumpPhase::Measuring { packet: self }
        } else {
            PumpPhase::Releasing { frames: self.frames }
        }
    }
}

/// Carries packets from a capture stream to a render stream.
#[derive(Debug, Clone, Copy, PartialEq, Eq, Structural)]
pub struct AudioPump {
    /// How many frames the render buffer holds.
    pub buffer_frames: u32,
    /// How many bytes a frame has.
    pub block_align: usize,
    pub phase: PumpPhase,
}

impl AudioPump {
    pub open spec fn well_formed(self) -> bool {
        &&& self.block_align <= u16::MAX
        &&& match self.phase {
            PumpPhase::Measuring { packet } => packet.is_open(),
            PumpPhase::Stalled { packet } => packet.is_open(),
            PumpPhase::Rendering { packet, count } => 0 < count && packet.offset + count
                <= packet.frames,
            _ => true,
        }
    }

    /// The frames that the render buffer has room for.
    pub open spec fn room(self, padding: u32) -> int {
        if padding < self.buffer_frames {
            self.buffer_frames - padding
        } else {
            0
        }
    }

    /// What is to be done in the present phase.
    pub open spec fn due(self) -> PumpAction {
        match self.phase {
            PumpPhase::Polling => PumpAction::NextPacketSize,
            PumpPhase::Fetching => PumpAction::FetchPacket,
            PumpPhase::Measuring { packet } => PumpAction::CurrentPadding,
            PumpPhase::Rendering { packet, count } => if packet.silent {
                PumpAction::Render { count, flags: AUDCLNT_BUFFERFLAGS_SILENT, copy: None }
            } else {
                PumpAction::Render {
                    count,
                    flags: 0,
                    copy: Some(
                        ByteRange {
                            start: (packet.offset * self.block_align) as u64,
                            len: (count * self.block_align) as u64,
                        },
                    ),
                }
            },
            PumpPhase::Stalled { packet } => PumpAction::Sleep { millis: STALL_MILLIS },
            PumpPhase::Releasing { frames } => PumpAction::ReleasePacket { frames },
            PumpPhase::Drained => PumpAction::Sleep { millis: IDLE_MILLIS },
        }
    }

    /// The phase that follows on an answer. An answer to something that was
    /// not asked changes nothing.
    pub open spec fn next_phase(self, event: PumpEvent) -> PumpPhase {
        match (self.phase, event) {
            (PumpPhase::Polling, PumpEvent::PacketSize(frames)) => if frames == 0 {
                PumpPhase::Drained
            } else {
                PumpPhase::Fetching
            },
            (PumpPhase::Fetching, PumpEvent::Packet { frames, flags }) => Packet {
                frames,
                silent: flags & AUDCLNT_BUFFERFLAGS_SILENT != 0,
                offset: 0,
            }.continued(),
            (PumpPhase::Measuring { packet }, PumpEvent::Padding(padding)) => {
                let left = packet.frames - packet.offset;
                if self.room(padding) == 0 {
                    PumpPhase::Stalled { packet }
                } else if self.room(padding) < left {
                    PumpPhase::Rendering { packet, count: self.room(padding) as u32 }
                } else {
                    PumpPhase::Rendering { packet, count: left as u32 }
                }
            },
            (
                PumpPhase::Rendering { packet, count },
                PumpEvent::Rendered,
            ) => packet.advanced(count).continued(),
            (PumpPhase::Stalled { packet }, PumpEvent::Slept) => PumpPhase::Measuring { packet },
            (PumpPhase::Releasing { frames }, PumpEvent::Released) => PumpPhase::Polling,
            (PumpPhase::Drained, PumpEvent::Slept) => PumpPhase::Polling,
            _ => self.phase,
        }
    }

    /// The pump after an answer.
    pub open spec fn next(self, event: PumpEvent) -> AudioPump {
        AudioPump { phase: self.next_phase(event), ..self }
    }

    /// A pump into a render buffer of `buffer_frames` frames of `block_align`
    /// bytes each.
    pub fn new(buffer_frames: u32, block_align: u16) -> (pump: Self)
        ensures
            pump.well_formed(),
            pump == (AudioPump {
                buffer_frames,
                block_align: block_align as usize,
                phase: PumpPhase::Polling,
            }),
    {
        AudioPump { buffer_frames, block_align: block_align as usize, phase: PumpPhase::Polling }
    }

    /// What is to be done next.
    pub fn action(&self) -> (action: PumpAction)
        requires
            self.well_formed(),
        ensures
            action == self.due(),
    {
        match self.phase {
            PumpPhase::Polling => PumpAction::NextPacketSize,
            PumpPhase::Fetching => PumpAction::FetchPacket,
            PumpPhase::Measuring { .. } => PumpAction::CurrentPadding,
            PumpPhase::Rendering { packet, count } => {
                if packet.silent {
                    PumpAction::Render { count, flags: AUDCLNT_BUFFERFLAGS_SILENT, copy: None }
                } else {
                    let block_align: u64 = self.block_align as u64;
                    proof {
                        lemma_frame_bytes(packet.offset, self.block_align);
                        lemma_frame_bytes(count, self.block_align);
                    }
                    PumpAction::Render {
                        count,
                        flags: 0,
                        copy: Some(
                            ByteRange {
                                start: packet.offset as u64 * block_align,
                                len: count as u64 * block_align,
                            },
                        ),
                    }
                }
            },
            PumpPhase::Stalled { .. } => PumpAction::Sleep { millis: STALL_MILLIS },
            PumpPhase::Releasing { frames } => PumpAction::ReleasePacket { frames },
            PumpPhase::Drained => PumpAction::Sleep { millis: IDLE_MILLIS },
        }
    }

    /// Takes the answer to what was asked.
    pub fn step(&mut self, event: PumpEvent)
        requires
            old(self).well_formed(),
        ensures
            *final(self) == old(self).next(event),
            final(self).well_formed(),
    {
        self.phase = match (self.phase, event) {
            (PumpPhase::Polling, PumpEvent::PacketSize(frames)) => {
                if frames == 0 {
                    PumpPhase::Drained
                } else {
                    PumpPhase::Fetching
                }
            },
            (PumpPhase::Fetching, PumpEvent::Packet { frames, flags }) => {
                let silent: bool = flags & AUDCLNT_BUFFERFLAGS_SILENT != 0;
                continue_packet(Packet { frames, silent, offset: 0 })
            },
            (PumpPhase::Measuring { packet }, PumpEvent::Padding(padding)) => {
                let capacity: u32 = self.buffer_frames.saturating_sub(padding);
                let left: u32 = packet.frames - packet.offset;
                if capacity == 0 {
                    PumpPhase::Stalled { packet }
                } else if capacity < left {
                    PumpPhase::Rendering { packet, count: capacity }
                } else {
                    PumpPhase::Rendering { packet, count: left }
                }
            },
            (PumpPhase::Rendering { packet, count }, PumpEvent::Rendered) => continue_packet(
                Packet {
                    frames: packet.frames,
                    silent: packet.silent,
                    offset: packet.offset + count,
                },
            ),
            (PumpPhase::Stalled { packet }, PumpEvent::Slept) => PumpPhase::Measuring { packet },
            (PumpPhase::Releasing { .. }, PumpEvent::Released) => PumpPhase::Polling,
            (PumpPhase::Drained, PumpEvent::Slept) => PumpPhase::Polling,
            _ => self.phase,
        };
    }
}

fn continue_packet(packet: Packet) -> (phase: PumpPhase)
    ensures
        phase == packet.continued(),
{
    if packet.offset < packet.frames {
        PumpPhase::Measuring { packet }
    } else {
        PumpPhase::Releasing { frames: packet.frames }
    }
}

proof fn lemma_frame_bytes(frames: u32, block_align: usize)
    requires
        block_align <= u16::MAX,
    ensures
        0 <= frames * block_align <= 0xffff_ffff * 0xffff,
{
    assert(0 <= frames * block_align <= 0xffff_ffff * 0xffff) by (nonlinear_arith)
        requires
            frames <= 0xffff_ffff,
            block_align <= 0xffff,
    ;
}

/// Fills the render buffer with a range of a packet.
pub fn copy_frames(packet: &[u8], start: usize, target: &mut [u8])
    requires
        start + old(target).len() <= packet.len(),
    ensures
        final(target)@ == packet@.subrange(start as int, start + old(target).len()),
{
    let mut i: usize = 0;
    let len: usize = target.len();
    while i < len
        invariant
            i <= len,
            target.len() == len,
            start + len <= packet.len(),
            forall|k: int| 0 <= k < i ==> target[k] == packet[start + k],
        decreases len - i,
    {
        target[i] = packet[start + i];
        i = i + 1;
    }
    assert(target@ =~= packet@.subrange(start as int, start + len));
}

impl AudioPump {
    /// Whether the pump is busy with a packet whose frames are not all
    /// rendered.
    pub open spec fn is_carrying(self) -> bool {
        self.phase is Measuring || self.phase is Rendering || self.phase is Stalled
    }

    /// The packet that the pump is busy with.
    pub open spec fn carried(self) -> Packet {
        match self.phase {
            PumpPhase::Measuring { packet } => packet,
            PumpPhase::Stalled { packet } => packet,
            PumpPhase::Rendering { packet, count } => packet,
            _ => arbitrary(),
        }
    }

    /// The frames of the packet, by number, whose rendering an answer confirms.
    pub open spec fn confirmed(self, event: PumpEvent) -> Seq<int> {
        match (self.phase, event) {
            (PumpPhase::Rendering { packet, count }, PumpEvent::Rendered) => frame_numbers(
                packet.offset as int,
                count as nat,
            ),
            _ => Seq::empty(),
        }
    }

    /// The frames of the packet, by number, that are rendered in the course of
    /// these answers, until the packet is done with.
    pub open spec fn rendered(self, events: Seq<PumpEvent>) -> Seq<int>
        decreases events.len(),
    {
        if !self.is_carrying() || events.len() == 0 {
            Seq::empty()
        } else {
            self.confirmed(events[0]) + self.next(events[0]).rendered(events.drop_first())
        }
    }

    /// The bytes of the packet that an answer confirms to have been copied to
    /// the render side.
    pub open spec fn copied(self, data: Seq<u8>, event: PumpEvent) -> Seq<u8> {
        match (self.due(), event) {
            (PumpAction::Render { count, flags, copy: Some(range) }, PumpEvent::Rendered) =>
                data.subrange(range.start as int, range.start + range.len),
            _ => Seq::empty(),
        }
    }

    /// The bytes of the packet that are copied to the render side in the
    /// course of these answers, until the packet is done with.
    pub open spec fn heard(self, data: Seq<u8>, events: Seq<PumpEvent>) -> Seq<u8>
        decreases events.len(),
    {
        if !self.is_carrying() || events.len() == 0 {
            Seq::empty()
        } else {
            self.copied(data, events[0]) + self.next(events[0]).heard(data, events.drop_first())
        }
    }

    /// How many frames the packet is released with, if these answers get so
    /// far.
    pub open spec fn released(self, events: Seq<PumpEvent>) -> Option<u32>
        decreases events.len(),
    {
        match self.phase {
            PumpPhase::Releasing { frames } => Some(frames),
            _ => if !self.is_carrying() || events.len() == 0 {
                None
            } else {
                self.next(events[0]).released(events.drop_first())
            },
        }
    }
}

/// The numbers of `count` frames from `first` on.
pub open spec fn frame_numbers(first: int, count: nat) -> Seq<int> {
    Seq::new(count, |i: int| first + i)
}

proof fn lemma_rendered(pump: AudioPump, events: Seq<PumpEvent>)
    requires
        pump.well_formed(),
        pump.is_carrying(),
    ensures
        ({
            let packet = pump.carried();
            let rendered = pump.rendered(events);
            &&& rendered == frame_numbers(packet.offset as int, rendered.len())
            &&& packet.offset + rendered.len() <= packet.frames
            &&& pump.released(events) matches Some(frames) ==> frames == packet.frames
                && packet.offset + rendered.len() == packet.frames
        }),
    decreases events.len(),
{
    let packet = pump.carried();
    if events.len() > 0 {
        let rest = events.drop_first();
        let then = pump.next(events[0]);
        if then.is_carrying() {
            lemma_rendered(then, rest);
        } else {
            assert(then.rendered(rest) =~= Seq::empty());
        }
        let rendered = pump.rendered(events);
        assert(rendered =~= frame_numbers(packet.offset as int, rendered.len()));
    } else {
        assert(pump.rendered(events) =~= frame_numbers(packet.offset as int, 0));
    }
}

/// A packet is released with the number of frames that it was fetched with,
/// and not before each of its frames has been rendered once, in order.
pub proof fn law_every_frame_is_rendered_once(
    pump: AudioPump,
    frames: u32,
    flags: u32,
    events: Seq<PumpEvent>,
)
    requires
        pump.well_formed(),
        pump.phase == PumpPhase::Fetching,
    ensures
        ({
            let fetched = pump.next(PumpEvent::Packet { frames, flags });
            fetched.released(events) matches Some(released) ==> {
                &&& released == frames
                &&& fetched.rendered(events) == frame_numbers(0, frames as nat)
            }
        }),
{
    let fetched = pump.next(PumpEvent::Packet { frames, flags });
    if frames > 0 {
        lemma_rendered(fetched, events);
    } else {
        assert(fetched.rendered(events) =~= frame_numbers(0, 0));
    }
}

proof fn lemma_heard(pump: AudioPump, data: Seq<u8>, events: Seq<PumpEvent>)
    requires
        pump.well_formed(),
        pump.is_carrying(),
        !pump.carried().silent,
        data.len() == pump.carried().frames * pump.block_align,
    ensures
        ({
            let offset = pump.carried().offset;
            let end = offset + pump.rendered(events).len();
            &&& 0 <= offset * pump.block_align <= end * pump.block_align <= data.len()
            &&& pump.heard(data, events) == data.subrange(
                offset * pump.block_align,
                end * pump.block_align,
            )
        }),
    decreases events.len(),
{
    let packet = pump.carried();
    let align = pump.block_align as int;
    let end = packet.offset + pump.rendered(events).len();
    lemma_rendered(pump, events);
    assert(0 <= packet.offset * align <= end * align <= packet.frames * align) by (nonlinear_arith)
        requires
            0 <= packet.offset <= end <= packet.frames,
            align >= 0,
    ;
    if events.len() > 0 {
        let rest = events.drop_first();
        let then = pump.next(events[0]);
        if pump.phase is Rendering && events[0] == PumpEvent::Rendered {
            let count = pump.phase->Rendering_count;
            law_copies_are_whole_frames(pump);
            assert(packet.offset * align + count * align == (packet.offset + count) * align)
                by (nonlinear_arith);
        }
        if then.is_carrying() {
            lemma_heard(then, data, rest);
        } else {
            assert(then.rendered(rest) =~= Seq::empty());
            assert(then.heard(data, rest) =~= Seq::empty());
        }
        assert(pump.heard(data, events) =~= data.subrange(packet.offset * align, end * align));
    } else {
        assert(pump.heard(data, events) =~= data.subrange(packet.offset * align, end * align));
    }
}

/// A packet that is not silent is replayed byte for byte by the time that it
/// is released.
pub proof fn law_packets_are_replayed(
    pump: AudioPump,
    frames: u32,
    flags: u32,
    data: Seq<u8>,
    events: Seq<PumpEvent>,
)
    requires
        pump.well_formed(),
        pump.phase == PumpPhase::Fetching,
        flags & AUDCLNT_BUFFERFLAGS_SILENT == 0,
        data.len() == frames * pump.block_align,
    ensures
        ({
            let fetched = pump.next(PumpEvent::Packet { frames, flags });
            fetched.released(events) is Some ==> fetched.heard(data, events) == data
        }),
{
    let fetched = pump.next(PumpEvent::Packet { frames, flags });
    if frames > 0 {
        lemma_rendered(fetched, events);
        lemma_heard(fetched, data, events);
        assert(0 * pump.block_align == 0);
        if fetched.released(events) is Some {
            assert(fetched.heard(data, events) =~= data);
        }
    } else {
        assert(0 * pump.block_align == 0);
        assert(fetched.heard(data, events) =~= data);
    }
}

/// At no time has a frame of a packet been rendered twice, out of order, or
/// beyond the end of the packet.
pub proof fn law_rendering_never_runs_ahead(
    pump: AudioPump,
    frames: u32,
    flags: u32,
    events: Seq<PumpEvent>,
)
    requires
        pump.well_formed(),
        pump.phase == PumpPhase::Fetching,
    ensures
        ({
            let rendered = pump.next(PumpEvent::Packet { frames, flags }).rendered(events);
            rendered.len() <= frames && rendered == frame_numbers(0, rendered.len())
        }),
{
    let fetched = pump.next(PumpEvent::Packet { frames, flags });
    if frames > 0 {
        lemma_rendered(fetched, events);
    } else {
        assert(fetched.rendered(events) =~= frame_numbers(0, 0));
    }
}

/// What is handed to the render side fits into the room that it has, is never
/// nothing, and is all that is left of the packet where that fits. The pump
/// waits exactly where there is no room.
pub proof fn law_chunks_fit_the_render_buffer(pump: AudioPump, padding: u32)
    requires
        pump.well_formed(),
        pump.phase is Measuring,
    ensures
        ({
            let packet = pump.carried();
            match pump.next(PumpEvent::Padding(padding)).phase {
                PumpPhase::Rendering { packet: same, count } => {
                    &&& same == packet
                    &&& 0 < count
                    &&& padding + count <= pump.buffer_frames
                    &&& count <= packet.frames - packet.offset
                    &&& count == packet.frames - packet.offset || padding + count
                        == pump.buffer_frames
                },
                PumpPhase::Stalled { packet: same } => same == packet && padding
                    >= pump.buffer_frames,
                _ => false,
            }
        }),
{
}

/// A copy to the render side is the bytes of the frames that it is counted as,
/// and lies within the packet.
pub proof fn law_copies_are_whole_frames(pump: AudioPump)
    requires
        pump.well_formed(),
        pump.phase is Rendering,
        !pump.carried().silent,
    ensures
        ({
            let packet = pump.carried();
            pump.due() matches PumpAction::Render { count, flags, copy } && {
                &&& copy matches Some(range) && {
                    &&& range.start == packet.offset * pump.block_align
                    &&& range.len == count * pump.block_align
                    &&& range.start + range.len <= packet.frames * pump.block_align
                }
                &&& pump.next(PumpEvent::Rendered).phase == packet.advanced(count).continued()
                &&& flags == 0
            }
        }),
{
    let packet = pump.carried();
    let count = pump.phase->Rendering_count;
    lemma_frame_bytes(packet.offset, pump.block_align);
    lemma_frame_bytes(count, pump.block_align);
    assert(packet.offset * pump.block_align + count * pump.block_align <= packet.frames
        * pump.block_align) by (nonlinear_arith)
        requires
            packet.offset + count <= packet.frames,
            pump.block_align >= 0,
    ;
}

/// A silent packet is rendered as silence: nothing of it is copied.
pub proof fn law_silence_is_not_copied(pump: AudioPump)
    requires
        pump.well_formed(),
        pump.phase is Rendering,
        pump.carried().silent,
    ensures
        pump.due() matches PumpAction::Render { count, flags, copy } && copy is None && flags
            == AUDCLNT_BUFFERFLAGS_SILENT,
{
}

impl AudioPump {
    /// The pump after a run of answers.
    pub open spec fn after(self, events: Seq<PumpEvent>) -> AudioPump
        decreases events.len(),
    {
        if events.len() == 0 {
            self
        } else {
            self.next(events[0]).after(events.drop_first())
        }
    }

    /// How many frames are rendered in the course of a run of answers.
    pub open spec fn frames_done(self, events: Seq<PumpEvent>) -> nat
        decreases events.len(),
    {
        if events.len() == 0 {
            0
        } else {
            let first: nat = match (self.due(), events[0]) {
                (PumpAction::Render { count, flags, copy }, PumpEvent::Rendered) => count as nat,
                _ => 0,
            };
            first + self.next(events[0]).frames_done(events.drop_first())
        }
    }
}

/// Whether an action is one that carrying a packet asks for, with so many of
/// its frames done.
pub open spec fn carries(
    action: PumpAction,
    frames: u32,
    silent: bool,
    block_align: usize,
    done: nat,
) -> bool {
    match action {
        PumpAction::CurrentPadding => done < frames,
        PumpAction::Sleep { millis } => millis == 2 && done < frames,
        PumpAction::Render { count, flags, copy } => {
            &&& 0 < count
            &&& done + count <= frames
            &&& silent ==> flags == 2 && copy is None
            &&& !silent ==> flags == 0 && (copy matches Some(range) && range.start == done
                * block_align && range.len == count * block_align)
        },
        PumpAction::ReleasePacket { frames: released } => released == frames && done == frames,
        PumpAction::NextPacketSize => false,
        PumpAction::FetchPacket => false,
    }
}

proof fn lemma_carrying(pump: AudioPump, frames: u32, silent: bool, done: nat, events: Seq<PumpEvent>)
    requires
        pump.well_formed(),
        match pump.phase {
            PumpPhase::Releasing { frames: released } => released == frames && done == frames,
            _ => pump.is_carrying() && pump.carried() == (Packet {
                frames,
                silent,
                offset: done as u32,
            }) && done < frames,
        },
        forall|i: int| 0 <= i < events.len() ==> #[trigger] events[i] != PumpEvent::Released,
    ensures
        carries(
            pump.after(events).due(),
            frames,
            silent,
            pump.block_align,
            done + pump.frames_done(events),
        ),
    decreases events.len(),
{
    if events.len() == 0 {
        if pump.phase is Rendering {
            lemma_frame_bytes(pump.carried().offset, pump.block_align);
            lemma_frame_bytes(pump.phase->Rendering_count, pump.block_align);
        }
    } else {
        let rest = events.drop_first();
        assert forall|i: int| 0 <= i < rest.len() implies #[trigger] rest[i]
            != PumpEvent::Released by {
            assert(rest[i] == events[i + 1]);
        }
        assert(events[0] != PumpEvent::Released);
        let first: nat = match (pump.due(), events[0]) {
            (PumpAction::Render { count, flags, copy }, PumpEvent::Rendered) => count as nat,
            _ => 0,
        };
        lemma_carrying(pump.next(events[0]), frames, silent, done + first, rest);
    }
}

/// Whatever the answers, between the fetch of a packet and its release every
/// rendering is of the frames that come next: of a packet with the silent flag
/// as silence, with nothing copied, and of any other as a copy of their bytes.
/// The packet is released once all of its frames are rendered.
pub proof fn law_renderings_follow_the_packet(
    pump: AudioPump,
    frames: u32,
    flags: u32,
    events: Seq<PumpEvent>,
)
    requires
        pump.well_formed(),
        pump.due() == PumpAction::FetchPacket,
        forall|i: int| 0 <= i < events.len() ==> #[trigger] events[i] != PumpEvent::Released,
    ensures
        ({
            let fetched = pump.next(PumpEvent::Packet { frames, flags });
            let done = fetched.frames_done(events);
            match fetched.after(events).due() {
                PumpAction::CurrentPadding => done < frames,
                PumpAction::Sleep { millis } => millis == 2 && done < frames,
                PumpAction::Render { count, flags: given, copy } => {
                    &&& 0 < count
                    &&& done + count <= frames
                    &&& flags & 2 != 0 ==> given == 2 && copy is None
                    &&& flags & 2 == 0 ==> given == 0 && (copy matches Some(range) && range.start
                        == done * pump.block_align && range.len == count * pump.block_align)
                },
                PumpAction::ReleasePacket { frames: released } => released == frames && done
                    == frames,
                _ => false,
            }
        }),
{
    let fetched = pump.next(PumpEvent::Packet { frames, flags });
    let silent = flags & 2 != 0;
    assert(pump.phase is Fetching);
    assert(fetched.block_align == pump.block_align);
    if frames > 0 {
        assert(fetched.carried() == (Packet { frames, silent, offset: 0 }));
    } else {
        assert(fetched.phase == (PumpPhase::Releasing { frames: 0 }));
    }
    lemma_carrying(fetched, frames, silent, 0, events);
    let done = fetched.frames_done(events);
    assert(0 + done == done);
    assert(carries(fetched.after(events).due(), frames, silent, pump.block_align, done));
}

proof fn lemma_nothing_heard(pump: AudioPump, data: Seq<u8>, events: Seq<PumpEvent>)
    requires
        pump.well_formed(),
        pump.is_carrying() ==> pump.carried().silent,
    ensures
        pump.heard(data, events) == Seq::<u8>::empty(),
    decreases events.len(),
{
    if pump.is_carrying() && events.len() > 0 {
        lemma_nothing_heard(pump.next(events[0]), data, events.drop_first());
        assert(pump.heard(data, events) =~= Seq::<u8>::empty());
    }
}

/// Nothing of a packet with the silent flag is ever heard, in no chunk of it.
pub proof fn law_silent_packets_are_not_heard(
    pump: AudioPump,
    frames: u32,
    flags: u32,
    data: Seq<u8>,
    events: Seq<PumpEvent>,
)
    requires
        pump.well_formed(),
        pump.due() == PumpAction::FetchPacket,
        flags & 2 != 0,
    ensures
        pump.next(PumpEvent::Packet { frames, flags }).heard(data, events) == Seq::<u8>::empty(),
{
    lemma_nothing_heard(pump.next(PumpEvent::Packet { frames, flags }), data, events);
}

/// What the pump asks for next, by what it asked for and was answered; what it
/// did not ask for changes nothing, and the streams stay as they are.
pub proof fn law_the_pump_goes_on_from_answer_to_answer(pump: AudioPump, event: PumpEvent)
    requires
        pump.well_formed(),
    ensures
        ({
            let next = pump.next(event);
            &&& next.buffer_frames == pump.buffer_frames
            &&& next.block_align == pump.block_align
            &&& match (pump.due(), event) {
                (PumpAction::NextPacketSize, PumpEvent::PacketSize(frames)) => if frames == 0 {
                    next.due() == (PumpAction::Sleep { millis: 3 })
                        && next.next(PumpEvent::Slept).due() == PumpAction::NextPacketSize
                } else {
                    next.due() == PumpAction::FetchPacket
                },
                (PumpAction::FetchPacket, PumpEvent::Packet { frames, flags }) => if frames == 0 {
                    next.due() == (PumpAction::ReleasePacket { frames: 0 })
                } else {
                    next.due() == PumpAction::CurrentPadding
                },
                (PumpAction::CurrentPadding, PumpEvent::Padding(padding)) => if padding
                    >= pump.buffer_frames {
                    next.due() == (PumpAction::Sleep { millis: 2 }) && next.next(PumpEvent::Slept)
                        == pump
                } else {
                    next.due() matches PumpAction::Render { count, flags, copy } && {
                        &&& count <= pump.buffer_frames - padding
                        &&& count == pump.buffer_frames - padding || next.next(
                            PumpEvent::Rendered,
                        ).due() is ReleasePacket
                    }
                },
                (PumpAction::Render { .. }, PumpEvent::Rendered) => next.due()
                    == PumpAction::CurrentPadding || next.due() is ReleasePacket,
                (PumpAction::ReleasePacket { .. }, PumpEvent::Released) => next.due()
                    == PumpAction::NextPacketSize,
                (PumpAction::Sleep { millis }, PumpEvent::Slept) => next.due() == if millis == 3 {
                    PumpAction::NextPacketSize
                } else {
                    PumpAction::CurrentPadding
                },
                _ => next == pump,
            }
        }),
{
}

/// At any time, what has been heard of a packet that is not silent is what the
/// packet begins with.
pub proof fn law_at_any_time_a_part_of_the_packet_is_replayed(
    pump: AudioPump,
    frames: u32,
    flags: u32,
    data: Seq<u8>,
    events: Seq<PumpEvent>,
)
    requires
        pump.well_formed(),
        pump.due() == PumpAction::FetchPacket,
        flags & 2 == 0,
        data.len() == frames * pump.block_align,
    ensures
        ({
            let heard = pump.next(PumpEvent::Packet { frames, flags }).heard(data, events);
            heard.len() <= data.len() && heard == data.take(heard.len() as int)
        }),
{
    let fetched = pump.next(PumpEvent::Packet { frames, flags });
    assert(0 * pump.block_align == 0);
    if frames > 0 {
        lemma_heard(fetched, data, events);
        let heard = fetched.heard(data, events);
        assert(heard =~= data.take(heard.len() as int));
    } else {
        assert(fetched.heard(data, events) =~= data.take(0));
    }
}

} // verus!
