use desktop_environment::display::DisplayInfo;
use desktop_environment::duplicator::CaptureError;
use desktop_environment::host::Host;
use desktop_environment::input::{InputError, InputRequest};
use desktop_environment::keys::KeyCode;
use desktop_environment::relay::{
    surface_size, PhysicalKey, Purpose, RedrawError, RedrawOutcome, RelayAction, RelayApp,
    RelayEvent, WindowButton,
};
use desktop_environment::single::Single;
use desktop_environment::{
    CaptureFrameView, CaptureTarget, DisplayArea, PointerSample, RelayConfig,
    RemoteInputController, VirtualDesktop,
};

fn position(x: f32, y: f32) -> PointerSample {
    PointerSample { x: Single::from_bits(x.to_bits()), y: Single::from_bits(y.to_bits()) }
}

fn display(area: DisplayArea, bounds: DisplayArea) -> DisplayInfo {
    DisplayInfo {
        name: "\\\\.\\DISPLAY3".to_string(),
        friendly_name: "Third".to_string(),
        area,
        virtual_desktop: VirtualDesktop { bounds },
    }
}

fn closed_app() -> RelayApp {
    RelayApp::new(
        RelayConfig {
            target: CaptureTarget { display_name: "\\\\.\\DISPLAY3".to_string() },
            mirror_fullscreen: true,
            capture_timeout_ms: 16,
        },
        display(
            DisplayArea { left: -1920, top: 0, width: 1920, height: 1080 },
            DisplayArea { left: -1920, top: 0, width: 3840, height: 1080 },
        ),
    )
}

fn app() -> RelayApp {
    let mut app = closed_app();
    assert_eq!(app.attempted(Some(7)), []);
    app
}

const SIZE: (u32, u32) = (960, 540);

fn key(code: KeyCode, pressed: bool) -> RelayEvent {
    RelayEvent::KeyboardInput { key: PhysicalKey::Code(code), pressed }
}

fn moved(dx: i32, dy: i32) -> RelayAction {
    RelayAction::Inject {
        purpose: Purpose::MovePointer,
        request: InputRequest::Mouse { dx, dy, flags: 0xc001 },
    }
}

fn clicked(flags: u32) -> RelayAction {
    RelayAction::Inject {
        purpose: Purpose::ForwardButton,
        request: InputRequest::Mouse { dx: 0, dy: 0, flags },
    }
}

fn typed(scan_code: u16, flags: u32) -> RelayAction {
    RelayAction::Inject {
        purpose: Purpose::ForwardKey,
        request: InputRequest::Keyboard { scan_code, flags },
    }
}

#[test]
fn the_window_has_the_size_and_the_name_of_the_display() {
    let request = closed_app().resumed();

    assert_eq!(request.title, "Relay \\\\.\\DISPLAY3");
    assert_eq!((request.width, request.height), (1920, 1080));
    assert!(request.fullscreen);
}

#[test]
fn only_open_windows_are_redrawn() {
    assert!(!closed_app().about_to_wait());
    assert!(app().about_to_wait());
}

#[test]
fn surfaces_are_never_empty() {
    assert_eq!(surface_size(0, 0), (1, 1));
    assert_eq!(surface_size(640, 0), (640, 1));
    assert_eq!(surface_size(1, 480), (1, 480));
}

#[test]
fn closing_the_window_ends_the_session() {
    assert_eq!(app().window_event(7, SIZE, RelayEvent::CloseRequested), [RelayAction::Exit]);
}

#[test]
fn events_of_other_windows_have_no_effect() {
    let events = [
        RelayEvent::CloseRequested,
        RelayEvent::RedrawRequested,
        RelayEvent::CursorMoved { position: position(1.0, 1.0) },
        key(KeyCode::Escape, true),
    ];
    for event in events {
        let mut app = app();
        assert_eq!(app.window_event(8, SIZE, event), []);
        assert!(app.last_pointer_position.is_none());
        assert_eq!(closed_app().window_event(7, SIZE, event), []);
    }
}

#[test]
fn surfaces_follow_the_window() {
    assert_eq!(
        app().window_event(7, SIZE, RelayEvent::Resized { width: 0, height: 99 }),
        [RelayAction::ResizeSurface { width: 1, height: 99 }]
    );
}

#[test]
fn redraws_and_other_events_are_told_apart() {
    assert_eq!(app().window_event(7, SIZE, RelayEvent::RedrawRequested), [RelayAction::Redraw]);
    assert_eq!(app().window_event(7, SIZE, RelayEvent::Other), []);
}

#[test]
fn the_desktop_pointer_follows_the_window_pointer() {
    let mut app = app();
    let event = RelayEvent::CursorMoved { position: position(480.0, 270.0) };

    assert_eq!(app.window_event(7, SIZE, event), [moved(16_388, 32_798)]);
    let last = app.last_pointer_position.unwrap();
    assert_eq!(last.x.bits, 480.0_f32.to_bits());
    assert_eq!(last.y.bits, 270.0_f32.to_bits());
}

#[test]
fn pointers_outside_the_display_move_nothing_but_are_remembered() {
    let mut app = app();
    let event = RelayEvent::CursorMoved { position: position(960.0, 270.0) };

    assert_eq!(app.window_event(7, SIZE, event), []);
    assert!(app.last_pointer_position.is_some());
    assert_eq!(app.window_event(7, (0, 540), event), []);
}

#[test]
fn clicks_come_after_a_move_to_the_last_position() {
    let mut app = app();
    app.window_event(7, SIZE, RelayEvent::CursorMoved { position: position(0.0, 0.0) });

    let press = RelayEvent::MouseInput { button: WindowButton::Right, pressed: true };
    let release = RelayEvent::MouseInput { button: WindowButton::Middle, pressed: false };
    assert_eq!(app.window_event(7, SIZE, press), [moved(0, 0), clicked(0x08)]);
    assert_eq!(app.window_event(7, SIZE, release), [moved(0, 0), clicked(0x40)]);
}

#[test]
fn clicks_before_the_first_position_are_dropped() {
    let press = RelayEvent::MouseInput { button: WindowButton::Left, pressed: true };

    assert_eq!(app().window_event(7, SIZE, press), []);
}

#[test]
fn other_buttons_only_move_the_pointer() {
    let mut app = app();
    app.window_event(7, SIZE, RelayEvent::CursorMoved { position: position(0.0, 0.0) });
    let press = RelayEvent::MouseInput { button: WindowButton::Other, pressed: true };

    assert_eq!(app.window_event(7, SIZE, press), [moved(0, 0)]);
}

#[test]
fn clicks_outside_the_display_are_still_forwarded() {
    let mut app = app();
    app.window_event(7, SIZE, RelayEvent::CursorMoved { position: position(960.0, 0.0) });
    let press = RelayEvent::MouseInput { button: WindowButton::Left, pressed: true };

    assert_eq!(app.window_event(7, SIZE, press), [clicked(0x02)]);
}

#[test]
fn keys_are_forwarded_by_scan_code() {
    assert_eq!(app().window_event(7, SIZE, key(KeyCode::KeyA, true)), [typed(0x1e, 0x8)]);
    assert_eq!(app().window_event(7, SIZE, key(KeyCode::KeyA, false)), [typed(0x1e, 0xa)]);
    assert_eq!(app().window_event(7, SIZE, key(KeyCode::Other, true)), []);
    let unidentified =
        RelayEvent::KeyboardInput { key: PhysicalKey::Unidentified, pressed: true };
    assert_eq!(app().window_event(7, SIZE, unidentified), []);
}

#[test]
fn escape_ends_the_session() {
    assert_eq!(app().window_event(7, SIZE, key(KeyCode::Escape, true)), [RelayAction::Exit]);
    assert_eq!(app().window_event(7, SIZE, key(KeyCode::Escape, false)), [typed(0x01, 0xa)]);
    assert_eq!(app().handle_key(PhysicalKey::Code(KeyCode::Escape), true), []);
}

#[test]
fn pointers_outside_the_desktop_are_warned_about() {
    let mut app = RelayApp::new(
        RelayConfig::default(),
        display(
            DisplayArea { left: 0, top: 0, width: 100, height: 100 },
            DisplayArea { left: 0, top: 0, width: 50, height: 100 },
        ),
    );
    assert_eq!(app.attempted(Some(7)), []);
    let error = InputError::OutsideDesktop { x: 60, y: 10 };

    assert_eq!(
        app.window_event(
            7,
            (100, 100),
            RelayEvent::CursorMoved { position: position(60.0, 10.0) }
        ),
        [RelayAction::Warn { purpose: Purpose::MovePointer, error }]
    );
    assert_eq!(
        Purpose::MovePointer.warning(&error.message()),
        "Failed to move remote pointer: Point (60, 10) is outside the virtual desktop"
    );
}

#[test]
fn warnings_say_what_was_not_forwarded() {
    assert_eq!(
        Purpose::ForwardButton.warning("SendInput failed"),
        "Failed to forward mouse button: SendInput failed"
    );
    assert_eq!(
        Purpose::ForwardKey.warning("SendInput failed"),
        "Failed to forward keyboard input: SendInput failed"
    );
}

#[test]
fn sessions_without_injection_warn() {
    let mut app = app();
    app.input = RemoteInputController::new(Host::Unsupported);

    assert_eq!(
        app.window_event(7, SIZE, key(KeyCode::Tab, true)),
        [RelayAction::Warn { purpose: Purpose::ForwardKey, error: InputError::Unsupported }]
    );
}

#[test]
fn reachable_sessions_can_take_every_event() {
    let mut app = app();
    for (x, y) in [(0.0, 0.0), (f32::NAN, f32::INFINITY), (-1.0e30, 1.0e30), (959.9, 539.9)] {
        let event = RelayEvent::CursorMoved { position: position(x, y) };
        for size in [SIZE, (0, 0), (1, u32::MAX)] {
            assert!(app.can_take(7, size, event));
            app.window_event(7, size, event);
            assert!(app.can_take(
                7,
                size,
                RelayEvent::MouseInput { button: WindowButton::Left, pressed: true }
            ));
        }
    }
}

#[test]
fn positions_beyond_the_coordinates_cannot_be_taken() {
    let area = DisplayArea { left: i32::MAX - 10, top: 0, width: 100, height: 100 };
    let mut app = RelayApp::new(RelayConfig::default(), display(area, area));
    assert_eq!(app.attempted(Some(7)), []);
    let event = RelayEvent::CursorMoved { position: position(0.0, 0.0) };

    assert!(!app.can_take(7, SIZE, event));
    assert!(app.can_take(7, (0, 540), event));
    assert!(app.can_take(8, SIZE, event));
    assert!(app.can_take(7, SIZE, RelayEvent::RedrawRequested));
}

#[test]
fn late_frames_leave_the_window_as_it_is() {
    let frame = CaptureFrameView { width: 0, height: 0, pixels_bgra: &[] };

    assert_eq!(RelayApp::redraw(true, true, &Ok(frame)).unwrap(), RedrawOutcome::Draw);
    assert_eq!(
        RelayApp::redraw(true, true, &Err(CaptureError::TimedOut)).unwrap(),
        RedrawOutcome::Keep
    );
}

#[test]
fn redraws_fail_without_a_frame() {
    let lost = RelayApp::redraw(true, true, &Err(CaptureError::AccessLost)).unwrap_err();
    let query = RelayApp::redraw(true, true, &Err(CaptureError::Query("gone".to_string())));

    assert!(matches!(lost, RedrawError::NoFrame(_)));
    assert_eq!(
        lost.message(),
        "Desktop duplication access was lost; recreate the relay session"
    );
    assert_eq!(query.unwrap_err().message(), "gone");
}

#[test]
fn redraws_fail_without_a_surface_or_a_window() {
    let no_surface =
        RelayApp::redraw(false, false, &Err(CaptureError::TimedOut)).unwrap_err();
    let no_window = RelayApp::redraw(true, false, &Err(CaptureError::TimedOut)).unwrap_err();

    assert!(matches!(no_surface, RedrawError::NoSurface));
    assert_eq!(no_surface.message(), "surface not ready");
    assert!(matches!(no_window, RedrawError::NoWindow));
    assert_eq!(no_window.message(), "window not ready");
}

#[test]
fn failed_redraws_and_resizes_end_the_session() {
    let app = app();

    assert_eq!(app.failed(RelayAction::Redraw), [RelayAction::Exit]);
    assert_eq!(
        app.failed(RelayAction::ResizeSurface { width: 1, height: 1 }),
        [RelayAction::Exit]
    );
}

#[test]
fn other_failures_are_let_go() {
    let app = app();
    let warning = RelayAction::Warn {
        purpose: Purpose::ForwardKey,
        error: InputError::Unsupported,
    };

    assert_eq!(app.failed(moved(0, 0)), []);
    assert_eq!(app.failed(clicked(0x02)), []);
    assert_eq!(app.failed(typed(0x1e, 0x8)), []);
    assert_eq!(app.failed(warning), []);
    assert_eq!(app.failed(RelayAction::Exit), []);
}

#[test]
fn windows_are_opened_all_or_nothing() {
    let mut app = closed_app();

    assert_eq!(app.attempted(None), [RelayAction::Exit]);
    assert_eq!(app.window_id, None);
    assert_eq!(app.attempted(Some(7)), []);
    assert_eq!(app.window_id, Some(7));
    assert_eq!(app.attempted(None), [RelayAction::Exit]);
    assert_eq!(app.window_id, Some(7));
}
