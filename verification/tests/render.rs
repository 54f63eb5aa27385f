use desktop_environment::duplicator::CaptureOutcome;
use desktop_environment::render::{is_presented, render_frame};
use desktop_environment::{
    CaptureFrameView, DesktopDuplicator, DisplayArea, DisplayInfo, VirtualDesktop,
};

fn pixels(width: u32, height: u32) -> Vec<u8> {
    let mut bytes = Vec::new();
    for i in 0..width * height {
        bytes.extend([i as u8, (i + 50) as u8, (i + 100) as u8, 0xff]);
    }
    bytes
}

fn color(i: u32) -> u32 {
    u32::from_be_bytes([0, (i + 100) as u8, (i + 50) as u8, i as u8])
}

#[test]
fn a_target_of_the_same_size_shows_every_pixel() {
    let bytes = pixels(3, 2);
    let frame = CaptureFrameView { width: 3, height: 2, pixels_bgra: &bytes };
    let mut buffer = [7; 6];
    render_frame(frame, 3, 2, &mut buffer);

    let expected: Vec<u32> = (0..6).map(color).collect();
    assert_eq!(buffer, expected[..]);
    assert_eq!(buffer[1], 0x0065_3301);
}

#[test]
fn frames_are_scaled_to_the_target() {
    let bytes = pixels(5, 3);
    let frame = CaptureFrameView { width: 5, height: 3, pixels_bgra: &bytes };
    for target_height in 1..8_u32 {
        for target_width in 1..12_u32 {
            let mut buffer = vec![7; (target_width * target_height) as usize + 2];
            render_frame(frame, target_width, target_height, &mut buffer);
            for y in 0..target_height {
                for x in 0..target_width {
                    let source = (y * 3 / target_height) * 5 + x * 5 / target_width;
                    assert_eq!(buffer[(y * target_width + x) as usize], color(source));
                }
            }
            assert_eq!(buffer[(target_width * target_height) as usize..], [7, 7]);
        }
    }
}

#[test]
fn targets_without_pixels_are_left_alone() {
    let bytes = pixels(2, 2);
    let frame = CaptureFrameView { width: 2, height: 2, pixels_bgra: &bytes };
    let mut buffer = [7; 3];
    render_frame(frame, 0, 5, &mut buffer);
    render_frame(frame, 5, 0, &mut buffer);
    render_frame(CaptureFrameView { width: 0, height: 0, pixels_bgra: &[] }, 0, 0, &mut buffer);

    assert_eq!(buffer, [7; 3]);
}

#[test]
fn captured_pixels_are_shown_in_their_place() {
    let mut duplicator = DesktopDuplicator {
        display: DisplayInfo {
            name: "D".to_string(),
            friendly_name: "D".to_string(),
            area: DisplayArea { left: 0, top: 0, width: 3, height: 2 },
            virtual_desktop: VirtualDesktop {
                bounds: DisplayArea { left: 0, top: 0, width: 3, height: 2 },
            },
        },
        frame_buffer: Vec::new(),
    };
    let data: Vec<u8> = (0..28).collect();
    let frame = duplicator
        .capture_frame(CaptureOutcome::Mapped { row_pitch: 16, data: &data })
        .unwrap();
    let mut buffer = [0; 6];
    render_frame(frame, 3, 2, &mut buffer);

    assert_eq!(
        buffer,
        [0x0002_0100, 0x0006_0504, 0x000a_0908, 0x0012_1110, 0x0016_1514, 0x001a_1918]
    );
}

#[test]
fn windows_without_pixels_are_not_presented() {
    assert!(is_presented(1, 1));
    assert!(!is_presented(0, 1));
    assert!(!is_presented(1, 0));
    assert!(!is_presented(0, 0));
}
