//! Mouse and keyboard events for injection into the desktop.

use crate::geometry::{law_desktops_are_covered_to_the_edges, VirtualDesktop};
use crate::host::Host;
use crate::text::{decimal, decimal_int, push_decimal, push_decimal_int};
use vstd::prelude::*;

verus! {

// The event flags of the Win32 `MOUSEINPUT` and `KEYBDINPUT` structures.
pub const MOUSEEVENTF_MOVE: u32 = 0x0001;

pub const MOUSEEVENTF_LEFTDOWN: u32 = 0x0002;

pub const MOUSEEVENTF_LEFTUP: u32 = 0x0004;

pub const MOUSEEVENTF_RIGHTDOWN: u32 = 0x0008;

pub const MOUSEEVENTF_RIGHTUP: u32 = 0x0010;

pub const MOUSEEVENTF_MIDDLEDOWN: u32 = 0x0020;

pub const MOUSEEVENTF_MIDDLEUP: u32 = 0x0040;

pub const MOUSEEVENTF_VIRTUALDESK: u32 = 0x4000;

pub const MOUSEEVENTF_ABSOLUTE: u32 = 0x8000;

pub const KEYEVENTF_KEYUP: u32 = 0x0002;

pub const KEYEVENTF_SCANCODE: u32 = 0x0008;

#[derive(Debug, Clone, Copy, PartialEq, Eq, Structural)]
pub enum MouseButton {
    Left,
    Right,
    Middle,
}

/// A key that goes down or up.
#[derive(Debug, Clone, Copy, PartialEq, Eq, Structural)]
pub struct InjectedKeyEvent {
    pub scan_code: u16,
    pub pressed: bool,
}

/// An event to inject.
#[derive(Debug, Clone, Copy, PartialEq, Eq, Structural)]
pub enum InputRequest {
    Mouse { dx: i32, dy: i32, flags: u32 },
    Keyboard { scan_code: u16, flags: u32 },
}

/// Why an event was not injected.
#[derive(Debug, Clone, Copy, PartialEq, Eq, Structural)]
pub enum InputError {
    /// The host has no input injection.
    Unsupported,
    /// The point is outside the virtual desktop.
    OutsideDesktop { x: i32, y: i32 },
    /// No event was injected.
    NothingSent,
    /// Only some of the events were injected.
    PartlySent { sent: u32, requested: u32 },
}

impl InputError {
    pub open spec fn text(self) -> Seq<char> {
        match self {
            InputError::Unsupported => "Input injection is only supported on Windows"@,
            InputError::OutsideDesktop { x, y } => "Point ("@ + decimal_int(x as int) + ", "@
                + decimal_int(y as int) + ") is outside the virtual desktop"@,
            InputError::NothingSent => "SendInput failed"@,
            InputError::PartlySent { sent, requested } => "Only sent "@ + decimal(sent as nat)
                + " of "@ + decimal(requested as nat) + " requested input events"@,
        }
    }

    /// What went wrong, in words.
    pub fn message(&self) -> (message: String)
        ensures
            message@ == self.text(),
    {
        match self {
            InputError::Unsupported => "Input injection is only supported on Windows".to_owned(),
            InputError::OutsideDesktop { x, y } => {
                let mut message: String = "Point (".to_owned();
                push_decimal_int(&mut message, *x);
                message.append(", ");
                push_decimal_int(&mut message, *y);
                message.append(") is outside the virtual desktop");
                message
            },
            InputError::NothingSent => "SendInput failed".to_owned(),
            InputError::PartlySent { sent, requested } => {
                let mut message: String = "Only sent ".to_owned();
                push_decimal(&mut message, *sent as u64);
                message.append(" of ");
                push_decimal(&mut message, *requested as u64);
                message.append(" requested input events");
                message
            },
        }
    }
}

/// The flag of a button that goes down or up.
pub open spec fn click_flag(button: MouseButton, pressed: bool) -> u32 {
    match (button, pressed) {
        (MouseButton::Left, true) => MOUSEEVENTF_LEFTDOWN,
        (MouseButton::Left, false) => MOUSEEVENTF_LEFTUP,
        (MouseButton::Right, true) => MOUSEEVENTF_RIGHTDOWN,
        (MouseButton::Right, false) => MOUSEEVENTF_RIGHTUP,
        (MouseButton::Middle, true) => MOUSEEVENTF_MIDDLEDOWN,
        (MouseButton::Middle, false) => MOUSEEVENTF_MIDDLEUP,
    }
}

/// The request that moves the pointer to a point of the desktop.
pub open spec fn move_request(desktop: VirtualDesktop, x: int, y: int) -> InputRequest {
    InputRequest::Mouse {
        dx: desktop.absolute(x, y).0 as i32,
        dy: desktop.absolute(x, y).1 as i32,
        flags: MOUSEEVENTF_MOVE | MOUSEEVENTF_ABSOLUTE | MOUSEEVENTF_VIRTUALDESK,
    }
}

/// The request that presses or releases a button where the pointer is.
pub open spec fn click_request(button: MouseButton, pressed: bool) -> InputRequest {
    InputRequest::Mouse { dx: 0, dy: 0, flags: click_flag(button, pressed) }
}

/// The request that presses or releases a key by its scan code.
pub open spec fn key_request(event: InjectedKeyEvent) -> InputRequest {
    InputRequest::Keyboard {
        scan_code: event.scan_code,
        flags: if event.pressed {
            KEYEVENTF_SCANCODE
        } else {
            KEYEVENTF_SCANCODE | KEYEVENTF_KEYUP
        },
    }
}

/// Makes the requests that drive the pointer, the buttons and the keys of a
/// desktop, and judges the outcome of a request.
#[derive(Debug, Clone, Copy)]
pub struct RemoteInputController {
    pub desktop: Host<VirtualDesktop>,
}

impl RemoteInputController {
    #[must_use]
    pub fn new(desktop: Host<VirtualDesktop>) -> (controller: Self)
        ensures
            controller.desktop == desktop,
    {
        RemoteInputController { desktop }
    }

    /// The outcome of [`Self::move_mouse`].
    pub open spec fn moved(self, x: int, y: int) -> Result<InputRequest, InputError> {
        match self.desktop {
            Host::Unsupported => Err(InputError::Unsupported),
            Host::Windows(desktop) => if desktop.bounds.spans(x, y) {
                Ok(move_request(desktop, x, y))
            } else {
                Err(InputError::OutsideDesktop { x: x as i32, y: y as i32 })
            },
        }
    }

    /// The outcome of [`Self::click`].
    pub open spec fn clicked(self, button: MouseButton, pressed: bool) -> Result<
        InputRequest,
        InputError,
    > {
        match self.desktop {
            Host::Unsupported => Err(InputError::Unsupported),
            Host::Windows(_) => Ok(click_request(button, pressed)),
        }
    }

    /// The outcome of [`Self::send_key`].
    pub open spec fn keyed(self, event: InjectedKeyEvent) -> Result<InputRequest, InputError> {
        match self.desktop {
            Host::Unsupported => Err(InputError::Unsupported),
            Host::Windows(_) => Ok(key_request(event)),
        }
    }

    /// Moves the pointer to a point of the desktop.
    pub fn move_mouse(&self, x: i32, y: i32) -> (request: Result<InputRequest, InputError>)
        requires
            self.desktop matches Host::Windows(desktop) ==> desktop.bounds.decides(
                x as int,
                y as int,
            ),
        ensures
            request == self.moved(x as int, y as int),
    {
        match &self.desktop {
            Host::Unsupported => Err(InputError::Unsupported),
            Host::Windows(desktop) => match desktop.absolute_mouse(x, y) {
                Some((dx, dy)) => Ok(
                    InputRequest::Mouse {
                        dx,
                        dy,
                        flags: MOUSEEVENTF_MOVE | MOUSEEVENTF_ABSOLUTE | MOUSEEVENTF_VIRTUALDESK,
                    },
                ),
                None => Err(InputError::OutsideDesktop { x, y }),
            },
        }
    }

    /// Presses or releases a mouse button.
    pub fn click(&self, button: MouseButton, pressed: bool) -> (request: Result<
        InputRequest,
        InputError,
    >)
        ensures
            request == self.clicked(button, pressed),
    {
        match &self.desktop {
            Host::Unsupported => Err(InputError::Unsupported),
            Host::Windows(_) => {
                let flags: u32 = match (button, pressed) {
                    (MouseButton::Left, true) => MOUSEEVENTF_LEFTDOWN,
                    (MouseButton::Left, false) => MOUSEEVENTF_LEFTUP,
                    (MouseButton::Right, true) => MOUSEEVENTF_RIGHTDOWN,
                    (MouseButton::Right, false) => MOUSEEVENTF_RIGHTUP,
                    (MouseButton::Middle, true) => MOUSEEVENTF_MIDDLEDOWN,
                    (MouseButton::Middle, false) => MOUSEEVENTF_MIDDLEUP,
                };
                Ok(InputRequest::Mouse { dx: 0, dy: 0, flags })
            },
        }
    }

    /// Presses or releases a key.
    pub fn send_key(&self, event: InjectedKeyEvent) -> (request: Result<InputRequest, InputError>)
        ensures
            request == self.keyed(event),
    {
        match &self.desktop {
            Host::Unsupported => Err(InputError::Unsupported),
            Host::Windows(_) => {
                let mut flags: u32 = KEYEVENTF_SCANCODE;
                if !event.pressed {
                    flags = flags | KEYEVENTF_KEYUP;
                }
                Ok(InputRequest::Keyboard { scan_code: event.scan_code, flags })
            },
        }
    }

    /// Judges an injection by how many of the requested events went through.
    pub fn send_input(sent: u32, requested: u32) -> (outcome: Result<(), InputError>)
        ensures
            outcome == (if sent == requested {
                Ok::<(), InputError>(())
            } else if sent == 0 {
                Err(InputError::NothingSent)
            } else {
                Err(InputError::PartlySent { sent, requested })
            }),
    {
        if sent == requested {
            Ok(())
        } else if sent == 0 {
            Err(InputError::NothingSent)
        } else {
            Err(InputError::PartlySent { sent, requested })
        }
    }
}

/// The flag tells which button moved and which way.
pub proof fn law_click_flags_tell_clicks_apart(
    a: MouseButton,
    a_pressed: bool,
    b: MouseButton,
    b_pressed: bool,
)
    requires
        click_flag(a, a_pressed) == click_flag(b, b_pressed),
    ensures
        a == b,
        a_pressed == b_pressed,
{
}

/// A key request has the release flag exactly for a release, and always names
/// the key by its scan code.
pub proof fn law_key_flags_tell_releases(event: InjectedKeyEvent)
    ensures
        key_request(event) matches InputRequest::Keyboard { scan_code, flags } && {
            &&& scan_code == event.scan_code
            &&& flags & KEYEVENTF_SCANCODE != 0
            &&& (flags & KEYEVENTF_KEYUP != 0) == !event.pressed
        },
{
    assert(0x0008u32 & 0x0008u32 != 0 && 0x0008u32 & 0x0002u32 == 0) by (bit_vector);
    assert((0x0008u32 | 0x0002u32) & 0x0008u32 != 0 && (0x0008u32 | 0x0002u32) & 0x0002u32 != 0)
        by (bit_vector);
}

/// On a desktop the pointer moves exactly to points of the desktop, to their
/// absolute coordinates; any other point is refused, and named.
pub proof fn law_the_pointer_moves_to_points_of_the_desktop(
    controller: RemoteInputController,
    x: i32,
    y: i32,
)
    ensures
        controller.desktop is Unsupported ==> controller.moved(x as int, y as int) == Err::<
            InputRequest,
            InputError,
        >(InputError::Unsupported),
        controller.desktop matches Host::Windows(desktop) ==> match controller.moved(
            x as int,
            y as int,
        ) {
            Ok(InputRequest::Mouse { dx, dy, flags }) => {
                &&& desktop.bounds.spans(x as int, y as int)
                &&& dx == desktop.absolute(x as int, y as int).0
                &&& dy == desktop.absolute(x as int, y as int).1
                &&& flags == 0xc001
            },
            Err(InputError::OutsideDesktop { x: refused_x, y: refused_y }) => {
                &&& !desktop.bounds.spans(x as int, y as int)
                &&& refused_x == x
                &&& refused_y == y
            },
            _ => false,
        },
{
    assert(0x0001u32 | 0x8000u32 | 0x4000u32 == 0xc001) by (bit_vector);
    if let Host::Windows(desktop) = controller.desktop {
        if desktop.bounds.spans(x as int, y as int) {
            law_desktops_are_covered_to_the_edges(desktop, x as int, y as int);
        }
    }
}

/// On a desktop a button is pressed and released where the pointer is, by the
/// flag of that button and direction; the flags of the six are one bit each,
/// and a release is the bit above its press.
pub proof fn law_buttons_are_pressed_and_released(
    controller: RemoteInputController,
    button: MouseButton,
)
    ensures
        controller.desktop is Unsupported ==> controller.clicked(button, true) == Err::<
            InputRequest,
            InputError,
        >(InputError::Unsupported) && controller.clicked(button, false) == Err::<
            InputRequest,
            InputError,
        >(InputError::Unsupported),
        controller.desktop is Windows ==> {
            let flag: u32 = match button {
                MouseButton::Left => 2,
                MouseButton::Right => 8,
                MouseButton::Middle => 32,
            };
            &&& controller.clicked(button, true) == Ok::<InputRequest, InputError>(
                InputRequest::Mouse { dx: 0, dy: 0, flags: flag },
            )
            &&& controller.clicked(button, false) == Ok::<InputRequest, InputError>(
                InputRequest::Mouse { dx: 0, dy: 0, flags: (2 * flag) as u32 },
            )
        },
{
}

/// On a desktop every scan code is pressed and released as it is, a press as 8
/// and a release as 10.
pub proof fn law_keys_are_pressed_and_released(controller: RemoteInputController, scan_code: u16)
    ensures
        controller.desktop is Unsupported ==> forall|pressed: bool|
            #[trigger] controller.keyed(InjectedKeyEvent { scan_code, pressed }) == Err::<
                InputRequest,
                InputError,
            >(InputError::Unsupported),
        controller.desktop is Windows ==> {
            &&& controller.keyed(InjectedKeyEvent { scan_code, pressed: true }) == Ok::<
                InputRequest,
                InputError,
            >(InputRequest::Keyboard { scan_code, flags: 8 })
            &&& controller.keyed(InjectedKeyEvent { scan_code, pressed: false }) == Ok::<
                InputRequest,
                InputError,
            >(InputRequest::Keyboard { scan_code, flags: 10 })
        },
{
    assert(0x0008u32 | 0x0002u32 == 10) by (bit_vector);
}

/// The words of an error hold the numbers that it is about.
pub proof fn law_input_errors_hold_their_numbers(x: i32, y: i32, sent: u32, requested: u32)
    ensures
        (InputError::OutsideDesktop { x, y }).text() == "Point ("@ + decimal_int(x as int) + ", "@
            + decimal_int(y as int) + ") is outside the virtual desktop"@,
        (InputError::PartlySent { sent, requested }).text() == "Only sent "@ + decimal(sent as nat)
            + " of "@ + decimal(requested as nat) + " requested input events"@,
{
}

} // verus!
