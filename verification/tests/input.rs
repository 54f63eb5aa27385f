use desktop_environment::host::Host;
use desktop_environment::input::{InputError, InputRequest};
use desktop_environment::{
    DisplayArea, InjectedKeyEvent, MouseButton, RemoteInputController, VirtualDesktop,
};

fn controller() -> RemoteInputController {
    RemoteInputController::new(Host::Windows(VirtualDesktop {
        bounds: DisplayArea { left: -1920, top: 0, width: 3840, height: 1080 },
    }))
}

#[test]
fn the_pointer_moves_to_absolute_coordinates() {
    assert_eq!(
        controller().move_mouse(1919, 1079),
        Ok(InputRequest::Mouse { dx: 65_535, dy: 65_535, flags: 0xc001 })
    );
    assert_eq!(
        controller().move_mouse(-1920, 0),
        Ok(InputRequest::Mouse { dx: 0, dy: 0, flags: 0xc001 })
    );
}

#[test]
fn the_pointer_does_not_leave_the_desktop() {
    let refused = controller().move_mouse(1920, -7);

    assert_eq!(refused, Err(InputError::OutsideDesktop { x: 1920, y: -7 }));
    assert_eq!(
        refused.unwrap_err().message(),
        "Point (1920, -7) is outside the virtual desktop"
    );
    assert_eq!(
        InputError::OutsideDesktop { x: i32::MIN, y: 0 }.message(),
        "Point (-2147483648, 0) is outside the virtual desktop"
    );
}

#[test]
fn clicks_are_told_apart_by_their_flags() {
    let expected = [
        (MouseButton::Left, true, 0x02),
        (MouseButton::Left, false, 0x04),
        (MouseButton::Right, true, 0x08),
        (MouseButton::Right, false, 0x10),
        (MouseButton::Middle, true, 0x20),
        (MouseButton::Middle, false, 0x40),
    ];
    for (button, pressed, flags) in expected {
        assert_eq!(
            controller().click(button, pressed),
            Ok(InputRequest::Mouse { dx: 0, dy: 0, flags })
        );
    }
}

#[test]
fn keys_are_sent_by_their_scan_codes() {
    assert_eq!(
        controller().send_key(InjectedKeyEvent { scan_code: 0x1e, pressed: true }),
        Ok(InputRequest::Keyboard { scan_code: 0x1e, flags: 0x8 })
    );
    assert_eq!(
        controller().send_key(InjectedKeyEvent { scan_code: 0x1e, pressed: false }),
        Ok(InputRequest::Keyboard { scan_code: 0x1e, flags: 0xa })
    );
}

#[test]
fn nothing_is_injected_on_other_hosts() {
    let controller = RemoteInputController::new(Host::Unsupported);

    assert_eq!(controller.move_mouse(0, 0), Err(InputError::Unsupported));
    assert_eq!(controller.click(MouseButton::Left, true), Err(InputError::Unsupported));
    assert_eq!(
        controller.send_key(InjectedKeyEvent { scan_code: 1, pressed: true }),
        Err(InputError::Unsupported)
    );
    assert_eq!(
        InputError::Unsupported.message(),
        "Input injection is only supported on Windows"
    );
}

#[test]
fn injections_succeed_as_a_whole() {
    assert_eq!(RemoteInputController::send_input(1, 1), Ok(()));
    assert_eq!(RemoteInputController::send_input(0, 0), Ok(()));
    assert_eq!(RemoteInputController::send_input(0, 1), Err(InputError::NothingSent));
    let partly = RemoteInputController::send_input(1, 3);
    assert_eq!(partly, Err(InputError::PartlySent { sent: 1, requested: 3 }));
    assert_eq!(partly.unwrap_err().message(), "Only sent 1 of 3 requested input events");
    assert_eq!(InputError::NothingSent.message(), "SendInput failed");
}
