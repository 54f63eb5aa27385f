use desktop_environment::single::Single;

fn native(position: f32, span: u32, extent: u32) -> u64 {
    ((position.clamp(0.0, span as f32) / span as f32) * extent as f32).round() as u64
}

#[test]
fn positions_are_carried_over_in_proportion() {
    assert_eq!(Single::from_bits(480.0_f32.to_bits()).project(960, 1920), 960);
    assert_eq!(Single::from_bits(0.25_f32.to_bits()).project(1, 10), 3);
    assert_eq!(Single::from_bits(1.0_f32.to_bits()).project(4, 10), 3);
}

#[test]
fn positions_are_kept_within_the_span() {
    assert_eq!(Single::from_bits((-3.0_f32).to_bits()).project(10, 100), 0);
    assert_eq!(Single::from_bits(11.0_f32.to_bits()).project(10, 100), 100);
    assert_eq!(Single::from_bits(f32::INFINITY.to_bits()).project(10, 100), 100);
    assert_eq!(Single::from_bits(f32::NAN.to_bits()).project(10, 100), 0);
}

#[test]
fn large_lengths_are_rounded_to_singles() {
    let one = Single::from_bits(1.0_f32.to_bits());

    assert_eq!(one.project(1, 16_777_217), 16_777_216);
    assert_eq!(one.project(1, 16_777_219), 16_777_220);
    assert_eq!(one.project(1, u32::MAX), 4_294_967_296);
}

#[test]
fn projections_agree_with_native_singles() {
    let lengths =
        [1, 2, 3, 7, 640, 1919, 65_535, 16_777_215, 16_777_217, 33_554_435, 0x8000_0001, u32::MAX];
    let mut state: u64 = 88_172_645_463_325_252;
    for span in lengths {
        for extent in lengths {
            for _ in 0..300 {
                state ^= state << 13;
                state ^= state >> 7;
                state ^= state << 17;
                let any = f32::from_bits(state as u32);
                let inside = ((state >> 40) as f32 / 16_777_216.0) * span as f32;
                let small = f32::from_bits((state >> 41) as u32);
                for position in [any, inside, small] {
                    assert_eq!(
                        Single::from_bits(position.to_bits()).project(span, extent),
                        native(position, span, extent),
                        "{position} of {span} to {extent}"
                    );
                }
            }
        }
    }
}
