use desktop_environment::display::{DisplayHost, DisplayOutputs, OutputDescription, Rect};
use desktop_environment::duplicator::{CaptureError, CaptureOutcome};
use desktop_environment::host::Host;
use desktop_environment::{DesktopDuplicator, DisplayArea};

fn host(width: i32, height: i32) -> DisplayHost {
    Host::Windows(Ok(DisplayOutputs {
        outputs: vec![OutputDescription {
            device_name: vec![0x44, 0x31, 0],
            desktop_coordinates: Rect { left: 0, top: 0, right: width, bottom: height },
            attached_to_desktop: true,
            rotation: 1,
        }],
        virtual_bounds: DisplayArea { left: 0, top: 0, width: 10, height: 10 },
    }))
}

fn failure(outcome: CaptureOutcome<'_>) -> CaptureError {
    let mut duplicator = DesktopDuplicator::new("D1", &host(2, 2)).unwrap();
    let error = duplicator.capture_frame(outcome).unwrap_err();
    assert_eq!(duplicator.frame_buffer, [0; 16]);
    error
}

#[test]
fn duplicators_start_with_a_black_frame() {
    let duplicator = DesktopDuplicator::new("d1", &host(3, 2)).unwrap();

    assert_eq!(duplicator.display_info().name, "D1");
    assert_eq!(duplicator.frame_buffer, [0; 24]);
}

#[test]
fn unknown_displays_are_not_duplicated() {
    let error = DesktopDuplicator::new("D2", &host(3, 2)).unwrap_err();
    let unsupported = DesktopDuplicator::new("D1", &Host::Unsupported).unwrap_err();

    assert_eq!(error.message(), "Display 'D2' was not found");
    assert_eq!(unsupported.message(), "Desktop Duplication is only supported on Windows");
}

#[test]
fn frames_are_packed_row_by_row() {
    let mut duplicator = DesktopDuplicator::new("D1", &host(2, 3)).unwrap();
    let data: Vec<u8> = (0..40).collect();
    let frame = duplicator
        .capture_frame(CaptureOutcome::Mapped { row_pitch: 12, data: &data })
        .unwrap();

    assert_eq!((frame.width, frame.height), (2, 3));
    let mut expected = data[0..8].to_vec();
    expected.extend(&data[12..20]);
    expected.extend(&data[24..32]);
    assert_eq!(frame.pixels_bgra, expected);
    assert_eq!(duplicator.frame_buffer, expected);
}

#[test]
fn memory_may_end_with_the_last_row() {
    let mut duplicator = DesktopDuplicator::new("D1", &host(1, 2)).unwrap();
    let data = [1, 2, 3, 4, 9, 9, 5, 6, 7, 8];
    let frame =
        duplicator.capture_frame(CaptureOutcome::Mapped { row_pitch: 6, data: &data }).unwrap();

    assert_eq!(frame.pixels_bgra, [1, 2, 3, 4, 5, 6, 7, 8]);
}

#[test]
fn each_frame_replaces_the_one_before() {
    let mut duplicator = DesktopDuplicator::new("D1", &host(1, 1)).unwrap();
    for value in [7, 8] {
        let data = [value; 4];
        let frame = duplicator
            .capture_frame(CaptureOutcome::Mapped { row_pitch: 4, data: &data })
            .unwrap();
        assert_eq!(frame.pixels_bgra, [value; 4]);
    }
}

#[test]
fn late_frames_are_timeouts() {
    let late = failure(CaptureOutcome::NotAcquired {
        code: 0x887a_0027_u32 as i32,
        message: "late".to_string(),
    });

    assert!(matches!(late, CaptureError::TimedOut));
    assert_eq!(late.message(), "Timed out waiting for the next frame");
    assert!(late.is_timeout());
}

#[test]
fn other_failures_are_not_timeouts() {
    let lost = failure(CaptureOutcome::NotAcquired {
        code: 0x887a_0026_u32 as i32,
        message: "lost".to_string(),
    });
    let other =
        failure(CaptureOutcome::NotAcquired { code: -1, message: "something else".to_string() });
    let no_resource = failure(CaptureOutcome::NoResource);
    let not_mapped = failure(CaptureOutcome::NotMapped { message: "no map".to_string() });
    let unsupported = failure(CaptureOutcome::Unsupported);

    assert!(matches!(lost, CaptureError::AccessLost));
    assert_eq!(
        lost.message(),
        "Desktop duplication access was lost; recreate the relay session"
    );
    assert_eq!(other.message(), "something else");
    assert!(matches!(no_resource, CaptureError::NoResource));
    assert_eq!(no_resource.message(), "Desktop duplication returned no frame resource");
    assert_eq!(not_mapped.message(), "no map");
    assert!(matches!(unsupported, CaptureError::Unsupported));
    assert_eq!(unsupported.message(), "Desktop Duplication is only supported on Windows");
    for error in [lost, other, no_resource, not_mapped, unsupported] {
        assert!(!error.is_timeout());
    }
}

#[test]
fn timeouts_are_known_by_their_words() {
    assert!(CaptureError::Query("E: Timed out waiting for the next frame!".to_string())
        .is_timeout());
    assert!(!CaptureError::Query("timed out waiting for the next frame".to_string()).is_timeout());
}

#[test]
fn frames_that_cannot_be_given_back_are_errors_but_are_kept() {
    let mut duplicator = DesktopDuplicator::new("D1", &host(1, 2)).unwrap();
    let data = [1, 2, 3, 4, 9, 9, 5, 6, 7, 8];
    let error = duplicator
        .capture_frame(CaptureOutcome::NotReleased {
            row_pitch: 6,
            data: &data,
            message: "not released".to_string(),
        })
        .unwrap_err();

    assert!(matches!(error, CaptureError::Query(_)));
    assert_eq!(error.message(), "not released");
    assert_eq!(duplicator.frame_buffer, [1, 2, 3, 4, 5, 6, 7, 8]);
}

#[test]
fn rows_without_bytes_take_no_memory() {
    for (width, height) in [(0, 3), (3, 0), (0, 0)] {
        let mut duplicator = DesktopDuplicator::new("D1", &host(width, height)).unwrap();
        let frame = duplicator
            .capture_frame(CaptureOutcome::Mapped { row_pitch: 256, data: &[] })
            .unwrap();

        assert_eq!((frame.width, frame.height), (width as u32, height as u32));
        assert!(frame.pixels_bgra.is_empty());
    }
}
