use desktop_environment::pump::{copy_frames, AudioPump, ByteRange, PumpAction, PumpEvent};

fn fetched(pump: &mut AudioPump, frames: u32, flags: u32) {
    assert_eq!(pump.action(), PumpAction::NextPacketSize);
    pump.step(PumpEvent::PacketSize(frames.max(1)));
    assert_eq!(pump.action(), PumpAction::FetchPacket);
    pump.step(PumpEvent::Packet { frames, flags });
}

#[test]
fn without_a_packet_the_pump_rests() {
    let mut pump = AudioPump::new(480, 8);

    assert_eq!(pump.action(), PumpAction::NextPacketSize);
    pump.step(PumpEvent::PacketSize(0));
    assert_eq!(pump.action(), PumpAction::Sleep { millis: 3 });
    pump.step(PumpEvent::Slept);
    assert_eq!(pump.action(), PumpAction::NextPacketSize);
}

#[test]
fn packets_are_rendered_in_chunks_that_fit() {
    let mut pump = AudioPump::new(100, 4);
    fetched(&mut pump, 150, 0);

    assert_eq!(pump.action(), PumpAction::CurrentPadding);
    pump.step(PumpEvent::Padding(20));
    assert_eq!(
        pump.action(),
        PumpAction::Render { count: 80, flags: 0, copy: Some(ByteRange { start: 0, len: 320 }) }
    );
    pump.step(PumpEvent::Rendered);
    assert_eq!(pump.action(), PumpAction::CurrentPadding);
    pump.step(PumpEvent::Padding(0));
    assert_eq!(
        pump.action(),
        PumpAction::Render {
            count: 70,
            flags: 0,
            copy: Some(ByteRange { start: 320, len: 280 })
        }
    );
    pump.step(PumpEvent::Rendered);
    assert_eq!(pump.action(), PumpAction::ReleasePacket { frames: 150 });
    pump.step(PumpEvent::Released);
    assert_eq!(pump.action(), PumpAction::NextPacketSize);
}

#[test]
fn a_full_render_buffer_stalls_the_pump() {
    for padding in [100, 101, u32::MAX] {
        let mut pump = AudioPump::new(100, 4);
        fetched(&mut pump, 10, 0);
        pump.step(PumpEvent::Padding(padding));
        assert_eq!(pump.action(), PumpAction::Sleep { millis: 2 });
        pump.step(PumpEvent::Slept);
        assert_eq!(pump.action(), PumpAction::CurrentPadding);
    }
}

#[test]
fn silence_is_not_copied() {
    for flags in [2, 3, 6, u32::MAX] {
        let mut pump = AudioPump::new(100, 4);
        fetched(&mut pump, 10, flags);
        pump.step(PumpEvent::Padding(0));
        assert_eq!(pump.action(), PumpAction::Render { count: 10, flags: 2, copy: None });
    }
}

#[test]
fn other_flags_are_not_passed_on() {
    let mut pump = AudioPump::new(100, 4);
    fetched(&mut pump, 10, 5);
    pump.step(PumpEvent::Padding(0));

    assert_eq!(
        pump.action(),
        PumpAction::Render { count: 10, flags: 0, copy: Some(ByteRange { start: 0, len: 40 }) }
    );
}

#[test]
fn empty_packets_are_released_at_once() {
    let mut pump = AudioPump::new(100, 4);
    fetched(&mut pump, 0, 0);

    assert_eq!(pump.action(), PumpAction::ReleasePacket { frames: 0 });
}

#[test]
fn answers_that_were_not_asked_for_change_nothing() {
    let mut pump = AudioPump::new(100, 4);
    pump.step(PumpEvent::Rendered);
    pump.step(PumpEvent::Padding(3));
    pump.step(PumpEvent::Slept);

    assert_eq!(pump, AudioPump::new(100, 4));
}

#[test]
fn every_frame_is_rendered_once_and_in_order() {
    let packet: Vec<u8> = (0..=239).collect();
    let mut pump = AudioPump::new(16, 6);
    fetched(&mut pump, 40, 0);
    let mut heard: Vec<u8> = Vec::new();
    let mut padding = 0;
    loop {
        match pump.action() {
            PumpAction::CurrentPadding => {
                padding = (padding + 7) % 18;
                pump.step(PumpEvent::Padding(padding));
            }
            PumpAction::Sleep { .. } => pump.step(PumpEvent::Slept),
            PumpAction::Render { count, copy, .. } => {
                assert!(count <= 16 - padding);
                let range = copy.unwrap();
                assert_eq!(range.start, heard.len() as u64);
                assert_eq!(range.len, u64::from(count) * 6);
                let mut target = vec![0; range.len as usize];
                copy_frames(&packet, range.start as usize, &mut target);
                heard.extend(target);
                pump.step(PumpEvent::Rendered);
            }
            action => {
                assert_eq!(action, PumpAction::ReleasePacket { frames: 40 });
                break;
            }
        }
    }
    assert_eq!(heard, packet);
}

#[test]
fn the_largest_packets_do_not_overflow() {
    let mut pump = AudioPump::new(u32::MAX, u16::MAX);
    fetched(&mut pump, u32::MAX, 0);
    pump.step(PumpEvent::Padding(1));
    pump.step(PumpEvent::Rendered);
    pump.step(PumpEvent::Padding(0));

    assert_eq!(
        pump.action(),
        PumpAction::Render {
            count: 1,
            flags: 0,
            copy: Some(ByteRange { start: 0xffff_fffe * 0xffff, len: 0xffff })
        }
    );
}
