//! The relay session: how it reacts to the events of its window.
//!
//! The session decides and the program around it acts: an event goes in, and a
//! list of actions comes out, to be carried out in order.

use crate::display::DisplayInfo;
use crate::duplicator::{CaptureError, CaptureFrameView};
use crate::geometry::{
    display_point, find_display_point, fits_i32, in_i32,
    law_reachable_areas_answer_every_pointer, PointerSample,
};
use crate::host::Host;
use crate::input::{
    click_request, key_request, law_buttons_are_pressed_and_released,
    law_keys_are_pressed_and_released, law_the_pointer_moves_to_points_of_the_desktop,
    InjectedKeyEvent, InputError, InputRequest, MouseButton,
    RemoteInputController,
};
use crate::keys::{keycode_to_set1_scancode, set1_scancode, KeyCode};
use crate::session::RelayConfig;
use vstd::prelude::*;

verus! {

/// A mouse button of the window.
#[derive(Debug, Clone, Copy, PartialEq, Eq, Structural)]
pub enum WindowButton {
    Left,
    Right,
    Middle,
    Other,
}

/// A key of the window.
#[derive(Debug, Clone, Copy, PartialEq, Eq, Structural)]
pub enum PhysicalKey {
    Code(KeyCode),
    Unidentified,
}

/// An event of the window.
#[derive(Debug, Clone, Copy)]
pub enum RelayEvent {
    CloseRequested,
    Resized { width: u32, height: u32 },
    CursorMoved { position: PointerSample },
    MouseInput { button: WindowButton, pressed: bool },
    KeyboardInput { key: PhysicalKey, pressed: bool },
    RedrawRequested,
    Other,
}

/// What an injected event is for.
#[derive(Debug, Clone, Copy, PartialEq, Eq, Structural)]
pub enum Purpose {
    MovePointer,
    ForwardButton,
    ForwardKey,
}

/// What the session asks for.
#[derive(Debug, Clone, Copy, PartialEq, Eq, Structural)]
pub enum RelayAction {
    /// End the session.
    Exit,
    /// Give the surface of the window a new size.
    ResizeSurface { width: u32, height: u32 },
    /// Inject an event into the desktop.
    Inject { purpose: Purpose, request: InputRequest },
    /// Tell that an event cannot be injected.
    Warn { purpose: Purpose, error: InputError },
    /// Capture a frame and draw it.
    Redraw,
}

/// The window that a session opens.
#[derive(Debug, Clone)]
pub struct WindowRequest {
    pub title: String,
    pub width: u32,
    pub height: u32,
    pub fullscreen: bool,
}

/// What becomes of a captured frame.
#[derive(Debug, Clone, Copy, PartialEq, Eq, Structural)]
pub enum RedrawOutcome {
    /// It is drawn.
    Draw,
    /// There is no new frame; the window stays as it is.
    Keep,
}

/// Why a redraw failed.
#[derive(Debug, Clone)]
pub enum RedrawError {
    /// There is no surface to draw on.
    NoSurface,
    /// There is no window to draw in.
    NoWindow,
    /// There is no frame to draw, for a reason in words.
    NoFrame(String),
}

/// The model of a [`RedrawError`].
pub enum RedrawErrorView {
    NoSurface,
    NoWindow,
    NoFrame(Seq<char>),
}

impl View for RedrawError {
    type V = RedrawErrorView;

    open spec fn view(&self) -> RedrawErrorView {
        match self {
            RedrawError::NoSurface => RedrawErrorView::NoSurface,
            RedrawError::NoWindow => RedrawErrorView::NoWindow,
            RedrawError::NoFrame(reason) => RedrawErrorView::NoFrame(reason@),
        }
    }
}

impl RedrawErrorView {
    pub open spec fn text(self) -> Seq<char> {
        match self {
            RedrawErrorView::NoSurface => "surface not ready"@,
            RedrawErrorView::NoWindow => "window not ready"@,
            RedrawErrorView::NoFrame(reason) => reason,
        }
    }
}

impl RedrawError {
    /// What went wrong, in words.
    pub fn message(&self) -> (message: String)
        ensures
            message@ == self@.text(),
    {
        match self {
            RedrawError::NoSurface => "surface not ready".to_owned(),
            RedrawError::NoWindow => "window not ready".to_owned(),
            RedrawError::NoFrame(reason) => reason.clone(),
        }
    }
}

/// What becomes of an attempt to capture a frame for a window: it fails
/// without a surface or a window, and where there is no frame for any reason
/// but that it is late.
pub open spec fn redrawn(
    has_surface: bool,
    has_window: bool,
    frame: Result<CaptureFrameView<'_>, CaptureError>,
) -> Result<RedrawOutcome, RedrawErrorView> {
    if !has_surface {
        Err(RedrawErrorView::NoSurface)
    } else if !has_window {
        Err(RedrawErrorView::NoWindow)
    } else {
        match frame {
            Ok(_) => Ok(RedrawOutcome::Draw),
            Err(error) => if error@.is_late() {
                Ok(RedrawOutcome::Keep)
            } else {
                Err(RedrawErrorView::NoFrame(error@.text()))
            },
        }
    }
}

impl Purpose {
    /// The words before the reason why an event was not injected.
    pub open spec fn text(self) -> Seq<char> {
        match self {
            Purpose::MovePointer => "Failed to move remote pointer: "@,
            Purpose::ForwardButton => "Failed to forward mouse button: "@,
            Purpose::ForwardKey => "Failed to forward keyboard input: "@,
        }
    }

    /// The warning that an event was not injected.
    pub fn warning(&self, reason: &str) -> (warning: String)
        ensures
            warning@ == self.text() + reason@,
    {
        let mut warning: String = match self {
            Purpose::MovePointer => "Failed to move remote pointer: ".to_owned(),
            Purpose::ForwardButton => "Failed to forward mouse button: ".to_owned(),
            Purpose::ForwardKey => "Failed to forward keyboard input: ".to_owned(),
        };
        warning.append(reason);
        warning
    }
}

/// A request as an action, or the warning that there is none.
pub open spec fn injection(
    purpose: Purpose,
    request: Result<InputRequest, InputError>,
) -> RelayAction {
    match request {
        Ok(request) => RelayAction::Inject { purpose, request },
        Err(error) => RelayAction::Warn { purpose, error },
    }
}

fn inject(purpose: Purpose, request: Result<InputRequest, InputError>) -> (action: RelayAction)
    ensures
        action == injection(purpose, request),
{
    match request {
        Ok(request) => RelayAction::Inject { purpose, request },
        Err(error) => RelayAction::Warn { purpose, error },
    }
}

/// A length of at least one.
pub open spec fn at_least_one(length: u32) -> u32 {
    if length == 0 {
        1
    } else {
        length
    }
}

/// The size of the surface for a window: a surface is never empty.
pub fn surface_size(width: u32, height: u32) -> (size: (u32, u32))
    ensures
        size == (at_least_one(width), at_least_one(height)),
{
    (
        if width == 0 {
            1
        } else {
            width
        },
        if height == 0 {
            1
        } else {
            height
        },
    )
}

/// The button to press on the desktop for a button of the window.
pub open spec fn forwarded_button(button: WindowButton) -> Option<MouseButton> {
    match button {
        WindowButton::Left => Some(MouseButton::Left),
        WindowButton::Right => Some(MouseButton::Right),
        WindowButton::Middle => Some(MouseButton::Middle),
        WindowButton::Other => None,
    }
}

/// A relay session.
#[derive(Debug, Clone)]
pub struct RelayApp {
    pub config: RelayConfig,
    pub display: DisplayInfo,
    pub input: RemoteInputController,
    /// The window, once it is open.
    pub window_id: Option<u64>,
    pub last_pointer_position: Option<PointerSample>,
}

impl RelayApp {
    /// Whether mapping a pointer position takes desktop coordinates only.
    pub open spec fn maps(self, window_size: (u32, u32), position: PointerSample) -> bool {
        let (x, y) = display_point(self.display.area, window_size, position);
        window_size.0 > 0 && window_size.1 > 0 ==> {
            &&& fits_i32(x)
            &&& fits_i32(y)
            &&& self.display.area.decides(x, y)
            &&& self.display.area.spans(x, y) ==> (self.input.desktop matches Host::Windows(
                desktop,
            ) ==> desktop.bounds.decides(x, y))
        }
    }

    /// The reaction to a pointer position: the pointer of the desktop moves to
    /// the point that the position stands for, if there is one.
    pub open spec fn pointer_reaction(
        self,
        window_size: (u32, u32),
        position: PointerSample,
    ) -> Seq<RelayAction> {
        let (x, y) = display_point(self.display.area, window_size, position);
        if self.window_id is Some && window_size.0 > 0 && window_size.1 > 0
            && self.display.area.spans(x, y) {
            seq![injection(Purpose::MovePointer, self.input.moved(x, y))]
        } else {
            Seq::empty()
        }
    }

    /// The reaction to a mouse button: the pointer is moved to where it was
    /// last, and the button is forwarded. Nothing happens before the first
    /// pointer position.
    pub open spec fn button_reaction(
        self,
        window_size: (u32, u32),
        button: WindowButton,
        pressed: bool,
    ) -> Seq<RelayAction> {
        match self.last_pointer_position {
            None => Seq::empty(),
            Some(position) => self.pointer_reaction(window_size, position)
                + match forwarded_button(button) {
                None => Seq::empty(),
                Some(button) => seq![
                    injection(Purpose::ForwardButton, self.input.clicked(button, pressed)),
                ],
            },
        }
    }

    /// The reaction to a key: it is forwarded by its scan code, if it has one.
    /// A press of the escape key is not.
    pub open spec fn key_reaction(self, key: PhysicalKey, pressed: bool) -> Seq<RelayAction> {
        match key {
            PhysicalKey::Unidentified => Seq::empty(),
            PhysicalKey::Code(code) => if code == KeyCode::Escape && pressed {
                Seq::empty()
            } else {
                match set1_scancode(code) {
                    None => Seq::empty(),
                    Some(scan_code) => seq![
                        injection(
                            Purpose::ForwardKey,
                            self.input.keyed(InjectedKeyEvent { scan_code, pressed }),
                        ),
                    ],
                }
            },
        }
    }

    /// The reaction to an event of a window.
    pub open spec fn reaction(
        self,
        window_id: u64,
        window_size: (u32, u32),
        event: RelayEvent,
    ) -> Seq<RelayAction> {
        if self.window_id != Some(window_id) {
            Seq::empty()
        } else {
            match event {
                RelayEvent::CloseRequested => seq![RelayAction::Exit],
                RelayEvent::Resized { width, height } => seq![
                    RelayAction::ResizeSurface {
                        width: at_least_one(width),
                        height: at_least_one(height),
                    },
                ],
                RelayEvent::CursorMoved { position } => self.pointer_reaction(
                    window_size,
                    position,
                ),
                RelayEvent::MouseInput { button, pressed } => self.button_reaction(
                    window_size,
                    button,
                    pressed,
                ),
                RelayEvent::KeyboardInput { key, pressed } => if key == PhysicalKey::Code(
                    KeyCode::Escape,
                ) && pressed {
                    seq![RelayAction::Exit]
                } else {
                    self.key_reaction(key, pressed)
                },
                RelayEvent::RedrawRequested => seq![RelayAction::Redraw],
                RelayEvent::Other => Seq::empty(),
            }
        }
    }

    /// Whether reacting to an event takes desktop coordinates only.
    pub open spec fn takes(self, window_id: u64, window_size: (u32, u32), event: RelayEvent) -> bool {
        self.window_id == Some(window_id) ==> match event {
            RelayEvent::CursorMoved { position } => self.maps(window_size, position),
            RelayEvent::MouseInput { button, pressed } => self.last_pointer_position matches Some(
                position,
            ) ==> self.maps(window_size, position),
            _ => true,
        }
    }

    /// Everything but the last pointer position.
    pub open spec fn same_session(self, other: Self) -> bool {
        &&& self.config == other.config
        &&& self.display == other.display
        &&& self.input == other.input
        &&& self.window_id == other.window_id
    }

    /// A session that captures a display and drives the desktop that the
    /// display is part of. Its window is not open yet.
    pub fn new(config: RelayConfig, display: DisplayInfo) -> (app: Self)
        ensures
            app.config == config,
            app.display == display,
            app.input.desktop == Host::Windows(display.virtual_desktop),
            app.window_id is None,
            app.last_pointer_position is None,
    {
        let input: RemoteInputController = RemoteInputController::new(
            Host::Windows(display.virtual_desktop),
        );
        RelayApp { config, display, input, window_id: None, last_pointer_position: None }
    }

    /// The window to open: it has the size of the display and is named after
    /// it.
    pub fn resumed(&self) -> (request: WindowRequest)
        ensures
            request.title@ == "Relay "@ + self.display.name@,
            request.width == self.display.area.width,
            request.height == self.display.area.height,
            request.fullscreen == self.config.mirror_fullscreen,
    {
        WindowRequest {
            title: "Relay ".to_owned().concat(self.display.name.as_str()),
            width: self.display.area.width,
            height: self.display.area.height,
            fullscreen: self.config.mirror_fullscreen,
        }
    }

    /// Takes note of how opening the window ended. The session goes on in the
    /// window that was opened; where opening it failed at any step, the session
    /// ends and is otherwise as it was.
    pub fn attempted(&mut self, window: Option<u64>) -> (actions: Vec<RelayAction>)
        ensures
            match window {
                Some(window_id) => {
                    &&& *final(self) == (RelayApp { window_id: Some(window_id), ..*old(self) })
                    &&& actions@ == Seq::<RelayAction>::empty()
                },
                None => {
                    &&& *final(self) == *old(self)
                    &&& actions@ == seq![RelayAction::Exit]
                },
            },
    {
        let mut actions: Vec<RelayAction> = Vec::new();
        match window {
            Some(window_id) => {
                self.window_id = Some(window_id);
            },
            None => {
                actions.push(RelayAction::Exit);
            },
        }
        actions
    }

    /// What follows where an action could not be carried out: without a
    /// surface of the right size, or without a redraw, the session ends. An
    /// event that was not injected is let go.
    pub open spec fn after_failure(action: RelayAction) -> Seq<RelayAction> {
        match action {
            RelayAction::ResizeSurface { .. } => seq![RelayAction::Exit],
            RelayAction::Redraw => seq![RelayAction::Exit],
            _ => Seq::empty(),
        }
    }

    /// Reacts to the failure of an action.
    pub fn failed(&self, action: RelayAction) -> (actions: Vec<RelayAction>)
        ensures
            actions@ == Self::after_failure(action),
    {
        let mut actions: Vec<RelayAction> = Vec::new();
        match action {
            RelayAction::ResizeSurface { .. } => {
                actions.push(RelayAction::Exit);
            },
            RelayAction::Redraw => {
                actions.push(RelayAction::Exit);
            },
            _ => {},
        }
        actions
    }

    /// Whether the window is to be redrawn when there are no more events.
    pub fn about_to_wait(&self) -> (redraw: bool)
        ensures
            redraw == (self.window_id is Some),
    {
        self.window_id.is_some()
    }

    /// Decides about a redraw, once a capture has been attempted.
    pub fn redraw(
        has_surface: bool,
        has_window: bool,
        frame: &Result<CaptureFrameView<'_>, CaptureError>,
    ) -> (redraw: Result<RedrawOutcome, RedrawError>)
        ensures
            match redraw {
                Ok(outcome) => redrawn(has_surface, has_window, *frame) == Ok::<
                    RedrawOutcome,
                    RedrawErrorView,
                >(outcome),
                Err(error) => redrawn(has_surface, has_window, *frame) == Err::<
                    RedrawOutcome,
                    RedrawErrorView,
                >(error@),
            },
    {
        if !has_surface {
            return Err(RedrawError::NoSurface);
        }
        if !has_window {
            return Err(RedrawError::NoWindow);
        }
        match frame {
            Ok(_) => Ok(RedrawOutcome::Draw),
            Err(error) => if error.is_timeout() {
                Ok(RedrawOutcome::Keep)
            } else {
                Err(RedrawError::NoFrame(error.message()))
            },
        }
    }

    /// Tells whether [`RelayApp::window_event`] can be given an event.
    pub fn can_take(&self, window_id: u64, window_size: (u32, u32), event: RelayEvent) -> (yes:
        bool)
        ensures
            yes == self.takes(window_id, window_size, event),
    {
        match self.window_id {
            Some(own_id) => {
                if own_id != window_id {
                    return true;
                }
            },
            None => {
                return true;
            },
        }
        match event {
            RelayEvent::CursorMoved { position } => self.can_map(window_size, position),
            RelayEvent::MouseInput { .. } => match self.last_pointer_position {
                Some(position) => self.can_map(window_size, position),
                None => true,
            },
            _ => true,
        }
    }

    fn can_map(&self, window_size: (u32, u32), position: PointerSample) -> (yes: bool)
        ensures
            yes == self.maps(window_size, position),
    {
        if window_size.0 == 0 || window_size.1 == 0 {
            return true;
        }
        let (x, y) = find_display_point(self.display.area, window_size, position);
        if !in_i32(x) || !in_i32(y) {
            return false;
        }
        let (x, y) = (x as i32, y as i32);
        if !self.display.area.can_decide(x, y) {
            return false;
        }
        if !self.display.area.contains(x, y) {
            return true;
        }
        match self.input.desktop {
            Host::Windows(desktop) => desktop.bounds.can_decide(x, y),
            Host::Unsupported => true,
        }
    }

    /// Follows the pointer.
    pub fn handle_pointer_move(
        &mut self,
        window_size: (u32, u32),
        position: PointerSample,
    ) -> (actions: Vec<RelayAction>)
        requires
            old(self).window_id is Some ==> old(self).maps(window_size, position),
        ensures
            final(self).same_session(*old(self)),
            final(self).last_pointer_position == Some(position),
            actions@ == old(self).pointer_reaction(window_size, position),
    {
        self.last_pointer_position = Some(position);
        let mut actions: Vec<RelayAction> = Vec::new();
        if self.window_id.is_none() {
            return actions;
        }
        let mapped: Option<(i32, i32)> = self.display.virtual_desktop.map_window_pointer(
            self.display.area,
            window_size,
            position,
        );
        if let Some((x, y)) = mapped {
            actions.push(inject(Purpose::MovePointer, self.input.move_mouse(x, y)));
        }
        assert(actions@ =~= old(self).pointer_reaction(window_size, position));
        actions
    }

    /// Forwards a mouse button.
    pub fn handle_mouse_button(
        &mut self,
        window_size: (u32, u32),
        button: WindowButton,
        pressed: bool,
    ) -> (actions: Vec<RelayAction>)
        requires
            old(self).window_id is Some ==> (old(self).last_pointer_position matches Some(position)
                ==> old(self).maps(window_size, position)),
        ensures
            final(self).same_session(*old(self)),
            final(self).last_pointer_position == old(self).last_pointer_position,
            actions@ == old(self).button_reaction(window_size, button, pressed),
    {
        let position: PointerSample = match self.last_pointer_position {
            Some(position) => position,
            None => {
                return Vec::new();
            },
        };
        let mut actions: Vec<RelayAction> = self.handle_pointer_move(window_size, position);
        let button: MouseButton = match button {
            WindowButton::Left => MouseButton::Left,
            WindowButton::Right => MouseButton::Right,
            WindowButton::Middle => MouseButton::Middle,
            WindowButton::Other => {
                assert(actions@ =~= actions@ + Seq::<RelayAction>::empty());
                return actions;
            },
        };
        actions.push(inject(Purpose::ForwardButton, self.input.click(button, pressed)));
        actions
    }

    /// Forwards a key.
    pub fn handle_key(&self, key: PhysicalKey, pressed: bool) -> (actions: Vec<RelayAction>)
        ensures
            actions@ == self.key_reaction(key, pressed),
    {
        let mut actions: Vec<RelayAction> = Vec::new();
        let code: KeyCode = match key {
            PhysicalKey::Code(code) => code,
            PhysicalKey::Unidentified => {
                return actions;
            },
        };
        if code == KeyCode::Escape && pressed {
            return actions;
        }
        if let Some(scan_code) = keycode_to_set1_scancode(code) {
            let event: InjectedKeyEvent = InjectedKeyEvent { scan_code, pressed };
            actions.push(inject(Purpose::ForwardKey, self.input.send_key(event)));
        }
        actions
    }

    /// Reacts to an event of a window of the given size.
    pub fn window_event(
        &mut self,
        window_id: u64,
        window_size: (u32, u32),
        event: RelayEvent,
    ) -> (actions: Vec<RelayAction>)
        requires
            old(self).takes(window_id, window_size, event),
        ensures
            final(self).same_session(*old(self)),
            final(self).last_pointer_position == (match event {
                RelayEvent::CursorMoved { position } if old(self).window_id == Some(window_id) =>
                    Some(position),
                _ => old(self).last_pointer_position,
            }),
            actions@ == old(self).reaction(window_id, window_size, event),
    {
        let mut actions: Vec<RelayAction> = Vec::new();
        match self.window_id {
            Some(own_id) => {
                if own_id != window_id {
                    return actions;
                }
            },
            None => {
                return actions;
            },
        }
        match event {
            RelayEvent::CloseRequested => {
                actions.push(RelayAction::Exit);
            },
            RelayEvent::Resized { width, height } => {
                let (width, height) = surface_size(width, height);
                actions.push(RelayAction::ResizeSurface { width, height });
            },
            RelayEvent::CursorMoved { position } => {
                return self.handle_pointer_move(window_size, position);
            },
            RelayEvent::MouseInput { button, pressed } => {
                return self.handle_mouse_button(window_size, button, pressed);
            },
            RelayEvent::KeyboardInput { key, pressed } => {
                if key == PhysicalKey::Code(KeyCode::Escape) && pressed {
                    actions.push(RelayAction::Exit);
                } else {
                    return self.handle_key(key, pressed);
                }
            },
            RelayEvent::RedrawRequested => {
                actions.push(RelayAction::Redraw);
            },
            RelayEvent::Other => {},
        }
        actions
    }
}

/// Events of other windows, and all events before the window is open, have no
/// effect.
pub proof fn law_other_windows_have_no_effect(
    app: RelayApp,
    window_id: u64,
    window_size: (u32, u32),
    event: RelayEvent,
)
    requires
        app.window_id != Some(window_id),
    ensures
        app.takes(window_id, window_size, event),
        app.reaction(window_id, window_size, event) == Seq::<RelayAction>::empty(),
{
}

/// A session with a reachable display on a desktop with edges takes every
/// event.
pub proof fn law_reachable_sessions_take_every_event(
    app: RelayApp,
    window_id: u64,
    window_size: (u32, u32),
    event: RelayEvent,
)
    requires
        app.display.area.is_reachable(),
        app.input.desktop matches Host::Windows(desktop) ==> fits_i32(desktop.bounds.right_edge())
            && fits_i32(desktop.bounds.bottom_edge()),
    ensures
        app.takes(window_id, window_size, event),
{
    if window_size.0 > 0 && window_size.1 > 0 {
        if let RelayEvent::CursorMoved { position } = event {
            law_reachable_areas_answer_every_pointer(app.display.area, window_size, position);
        }
        if let Some(position) = app.last_pointer_position {
            law_reachable_areas_answer_every_pointer(app.display.area, window_size, position);
        }
    }
}

/// A press of the escape key ends the session and never reaches the desktop;
/// its release is forwarded like that of any key.
pub proof fn law_escape_ends_the_session(app: RelayApp, window_id: u64, window_size: (u32, u32))
    requires
        app.window_id == Some(window_id),
    ensures
        ({
            let escape = PhysicalKey::Code(KeyCode::Escape);
            &&& app.reaction(
                window_id,
                window_size,
                RelayEvent::KeyboardInput { key: escape, pressed: true },
            ) == seq![RelayAction::Exit]
            &&& app.key_reaction(escape, true) == Seq::<RelayAction>::empty()
            &&& app.reaction(
                window_id,
                window_size,
                RelayEvent::KeyboardInput { key: escape, pressed: false },
            ) == app.key_reaction(escape, false)
            &&& app.key_reaction(escape, false).len() == 1
        }),
{
}

impl RelayApp {
    /// Whether an event ends the session, where the host fails to carry out
    /// the actions in `failing` and no others.
    pub open spec fn ends(
        self,
        window_id: u64,
        window_size: (u32, u32),
        event: RelayEvent,
        failing: Set<RelayAction>,
    ) -> bool {
        let actions = self.reaction(window_id, window_size, event);
        exists|i: int|
            0 <= i < actions.len() && ((#[trigger] actions[i]) == RelayAction::Exit || (
            failing.contains(actions[i]) && Self::after_failure(actions[i]).contains(
                RelayAction::Exit,
            )))
    }
}

/// A session ends exactly where its own window is closed, the escape key is
/// pressed in it, the surface cannot follow its size, or it cannot be redrawn.
pub proof fn law_how_sessions_end(
    app: RelayApp,
    window_id: u64,
    window_size: (u32, u32),
    event: RelayEvent,
    failing: Set<RelayAction>,
)
    ensures
        app.ends(window_id, window_size, event, failing) <==> app.window_id == Some(window_id)
            && match event {
            RelayEvent::CloseRequested => true,
            RelayEvent::KeyboardInput { key, pressed } => pressed && key == PhysicalKey::Code(
                KeyCode::Escape,
            ),
            RelayEvent::Resized { width, height } => failing.contains(
                RelayAction::ResizeSurface {
                    width: at_least_one(width),
                    height: at_least_one(height),
                },
            ),
            RelayEvent::RedrawRequested => failing.contains(RelayAction::Redraw),
            _ => false,
        },
{
    let actions = app.reaction(window_id, window_size, event);
    let exit = seq![RelayAction::Exit];
    assert(exit[0] == RelayAction::Exit && exit.contains(RelayAction::Exit));
    if app.window_id == Some(window_id) {
        match event {
            RelayEvent::CloseRequested => {
                assert(actions[0] == RelayAction::Exit);
            },
            RelayEvent::KeyboardInput { key, pressed } => {
                if pressed && key == PhysicalKey::Code(KeyCode::Escape) {
                    assert(actions[0] == RelayAction::Exit);
                }
            },
            RelayEvent::Resized { width, height } => {
                assert(actions[0] is ResizeSurface);
            },
            RelayEvent::RedrawRequested => {
                assert(actions[0] == RelayAction::Redraw);
            },
            _ => {},
        }
    }
}

/// A capture that fails for any reason but a late frame fails the redraw, and
/// with it ends the session; a late frame does not.
pub proof fn law_lost_captures_end_the_session(error: CaptureError)
    ensures
        redrawn(true, true, Err(error)) is Err <==> !error@.is_late(),
        RelayApp::after_failure(RelayAction::Redraw) == seq![RelayAction::Exit],
{
}

/// Without a pointer position a button does nothing; with one, the pointer is
/// moved there first and the button follows.
pub proof fn law_clicks_follow_the_pointer(
    app: RelayApp,
    moved: RelayApp,
    window_size: (u32, u32),
    position: PointerSample,
    button: WindowButton,
    pressed: bool,
)
    requires
        moved.same_session(app),
        moved.last_pointer_position == Some(position),
        forwarded_button(button) is Some,
    ensures
        app.last_pointer_position is None ==> app.button_reaction(window_size, button, pressed)
            == Seq::<RelayAction>::empty(),
        moved.button_reaction(window_size, button, pressed) == app.pointer_reaction(
            window_size,
            position,
        ).push(
            injection(
                Purpose::ForwardButton,
                app.input.clicked(forwarded_button(button)->0, pressed),
            ),
        ),
{
    assert(moved.button_reaction(window_size, button, pressed) =~= app.pointer_reaction(
        window_size,
        position,
    ).push(
        injection(Purpose::ForwardButton, app.input.clicked(forwarded_button(button)->0, pressed)),
    ));
}

/// Where the display is part of the desktop, a pointer position is never
/// turned away: it moves the pointer of the desktop, or stands for no point of
/// the display.
pub proof fn law_pointer_moves_are_not_turned_away(
    app: RelayApp,
    window_size: (u32, u32),
    position: PointerSample,
)
    requires
        app.input.desktop matches Host::Windows(desktop) && desktop.bounds.covers(
            app.display.area,
        ),
    ensures
        forall|i: int|
            0 <= i < app.pointer_reaction(window_size, position).len() ==> (
            #[trigger] app.pointer_reaction(window_size, position)[i]) is Inject,
{
    let desktop = app.input.desktop->Windows_0;
    let (x, y) = display_point(app.display.area, window_size, position);
    if app.display.area.spans(x, y) {
        assert(desktop.bounds.spans(x, y));
    }
}

/// On a desktop, a key with a scan code is forwarded as exactly that key, and
/// a button as exactly that button.
pub proof fn law_keys_and_buttons_arrive_as_they_are(
    app: RelayApp,
    code: KeyCode,
    button: MouseButton,
    pressed: bool,
)
    requires
        app.input.desktop is Windows,
        set1_scancode(code) is Some,
        !(code == KeyCode::Escape && pressed),
    ensures
        app.key_reaction(PhysicalKey::Code(code), pressed) == seq![
            RelayAction::Inject {
                purpose: Purpose::ForwardKey,
                request: key_request(
                    InjectedKeyEvent { scan_code: set1_scancode(code)->0, pressed },
                ),
            },
        ],
        injection(Purpose::ForwardButton, app.input.clicked(button, pressed))
            == (RelayAction::Inject {
            purpose: Purpose::ForwardButton,
            request: click_request(button, pressed),
        }),
{
}

/// Every key is forwarded in both directions but for a press of the escape key:
/// in its own window, a press and a release of a key with a scan code inject
/// that scan code with that direction, and a key without one does nothing.
pub proof fn law_presses_and_releases_are_forwarded(
    app: RelayApp,
    window_id: u64,
    window_size: (u32, u32),
    key: PhysicalKey,
    pressed: bool,
)
    requires
        app.window_id == Some(window_id),
        !(key == PhysicalKey::Code(KeyCode::Escape) && pressed),
    ensures
        ({
            let reaction = app.reaction(
                window_id,
                window_size,
                RelayEvent::KeyboardInput { key, pressed },
            );
            let flags: u32 = if pressed {
                8
            } else {
                10
            };
            &&& reaction == app.key_reaction(key, pressed)
            &&& match key {
                PhysicalKey::Unidentified => reaction == Seq::<RelayAction>::empty(),
                PhysicalKey::Code(code) => match set1_scancode(code) {
                    None => reaction == Seq::<RelayAction>::empty(),
                    Some(scan_code) => reaction == match app.input.desktop {
                        Host::Windows(_) => seq![
                            RelayAction::Inject {
                                purpose: Purpose::ForwardKey,
                                request: InputRequest::Keyboard { scan_code, flags },
                            },
                        ],
                        Host::Unsupported => seq![
                            RelayAction::Warn {
                                purpose: Purpose::ForwardKey,
                                error: InputError::Unsupported,
                            },
                        ],
                    },
                },
            }
        }),
{
    if let PhysicalKey::Code(code) = key {
        if let Some(scan_code) = set1_scancode(code) {
            law_keys_are_pressed_and_released(app.input, scan_code);
        }
    }
}

/// In its own window, a pointer position that stands for a point of the display
/// moves the pointer of the desktop to the absolute coordinates of that point,
/// or is warned about where the point is outside the desktop; any other
/// position does nothing.
pub proof fn law_pointers_are_followed(
    app: RelayApp,
    window_id: u64,
    window_size: (u32, u32),
    position: PointerSample,
)
    requires
        app.window_id == Some(window_id),
        window_size.0 > 0 && window_size.1 > 0 ==> ({
            let (x, y) = display_point(app.display.area, window_size, position);
            fits_i32(x) && fits_i32(y)
        }),
    ensures
        ({
            let (x, y) = display_point(app.display.area, window_size, position);
            let reaction = app.reaction(
                window_id,
                window_size,
                RelayEvent::CursorMoved { position },
            );
            if window_size.0 == 0 || window_size.1 == 0 || !app.display.area.spans(x, y) {
                reaction == Seq::<RelayAction>::empty()
            } else {
                &&& reaction.len() == 1
                &&& match reaction[0] {
                    RelayAction::Inject {
                        purpose: Purpose::MovePointer,
                        request: InputRequest::Mouse { dx, dy, flags },
                    } => app.input.desktop matches Host::Windows(desktop) && {
                        &&& desktop.bounds.spans(x, y)
                        &&& dx == desktop.absolute(x, y).0
                        &&& dy == desktop.absolute(x, y).1
                        &&& flags == 0xc001
                    },
                    RelayAction::Warn {
                        purpose: Purpose::MovePointer,
                        error: InputError::OutsideDesktop { x: refused_x, y: refused_y },
                    } => app.input.desktop matches Host::Windows(desktop)
                        && !desktop.bounds.spans(x, y) && refused_x == x && refused_y == y,
                    RelayAction::Warn {
                        purpose: Purpose::MovePointer,
                        error: InputError::Unsupported,
                    } => app.input.desktop is Unsupported,
                    _ => false,
                }
            }
        }),
{
    let (x, y) = display_point(app.display.area, window_size, position);
    if window_size.0 > 0 && window_size.1 > 0 {
        law_the_pointer_moves_to_points_of_the_desktop(app.input, x as i32, y as i32);
    }
}

/// In its own window, a button does what a pointer at the last position does,
/// and then presses or releases that button; one that has no counterpart only
/// does the former. Without a last position it does nothing.
pub proof fn law_buttons_are_forwarded_at_the_last_position(
    app: RelayApp,
    window_id: u64,
    window_size: (u32, u32),
    button: WindowButton,
    pressed: bool,
)
    requires
        app.window_id == Some(window_id),
        app.input.desktop is Windows,
    ensures
        ({
            let reaction = app.reaction(
                window_id,
                window_size,
                RelayEvent::MouseInput { button, pressed },
            );
            match app.last_pointer_position {
                None => reaction == Seq::<RelayAction>::empty(),
                Some(position) => {
                    let moved = app.reaction(
                        window_id,
                        window_size,
                        RelayEvent::CursorMoved { position },
                    );
                    reaction == match (button, pressed) {
                        (WindowButton::Left, true) => moved.push(pressed_by(2)),
                        (WindowButton::Left, false) => moved.push(pressed_by(4)),
                        (WindowButton::Right, true) => moved.push(pressed_by(8)),
                        (WindowButton::Right, false) => moved.push(pressed_by(16)),
                        (WindowButton::Middle, true) => moved.push(pressed_by(32)),
                        (WindowButton::Middle, false) => moved.push(pressed_by(64)),
                        (WindowButton::Other, _) => moved,
                    }
                },
            }
        }),
{
    let reaction = app.reaction(
        window_id,
        window_size,
        RelayEvent::MouseInput { button, pressed },
    );
    if let Some(position) = app.last_pointer_position {
        let moved = app.reaction(window_id, window_size, RelayEvent::CursorMoved { position });
        match forwarded_button(button) {
            None => {
                assert(reaction =~= moved);
            },
            Some(forwarded) => {
                law_buttons_are_pressed_and_released(app.input, forwarded);
                assert(reaction =~= moved.push(
                    injection(Purpose::ForwardButton, app.input.clicked(forwarded, pressed)),
                ));
            },
        }
    }
}

/// In its own window, closing ends the session, a new size is passed on with
/// sides of at least one, a redraw is a redraw, and anything else is nothing.
pub proof fn law_windows_are_closed_resized_and_redrawn(
    app: RelayApp,
    window_id: u64,
    window_size: (u32, u32),
    width: u32,
    height: u32,
)
    requires
        app.window_id == Some(window_id),
    ensures
        app.reaction(window_id, window_size, RelayEvent::CloseRequested) == seq![RelayAction::Exit],
        app.reaction(window_id, window_size, RelayEvent::RedrawRequested) == seq![
            RelayAction::Redraw,
        ],
        app.reaction(window_id, window_size, RelayEvent::Other) == Seq::<RelayAction>::empty(),
        ({
            let resized = app.reaction(
                window_id,
                window_size,
                RelayEvent::Resized { width, height },
            );
            &&& resized.len() == 1
            &&& resized[0] matches RelayAction::ResizeSurface { width: w, height: h } && {
                &&& w == width || (width == 0 && w == 1)
                &&& h == height || (height == 0 && h == 1)
                &&& w > 0 && h > 0
            }
        }),
        at_least_one(width) >= 1,
        width >= 1 ==> at_least_one(width) == width,
        width == 0 ==> at_least_one(width) == 1,
{
}

/// A frame is drawn wherever there is one, and a window and a surface for it;
/// a missing surface is told before a missing window, and both before anything
/// about the frame. A reason for no frame is told in its own words.
pub proof fn law_redraws_need_a_surface_a_window_and_a_frame(
    has_surface: bool,
    has_window: bool,
    frame: CaptureFrameView<'_>,
    error: CaptureError,
    words: Seq<char>,
)
    ensures
        redrawn(true, true, Ok(frame)) == Ok::<RedrawOutcome, RedrawErrorView>(RedrawOutcome::Draw),
        error@.is_late() ==> redrawn(true, true, Err(error)) == Ok::<
            RedrawOutcome,
            RedrawErrorView,
        >(RedrawOutcome::Keep),
        !error@.is_late() ==> redrawn(true, true, Err(error)) == Err::<
            RedrawOutcome,
            RedrawErrorView,
        >(RedrawErrorView::NoFrame(error@.text())),
        redrawn(true, false, Ok(frame)) == Err::<RedrawOutcome, RedrawErrorView>(
            RedrawErrorView::NoWindow,
        ),
        redrawn(true, false, Err(error)) == Err::<RedrawOutcome, RedrawErrorView>(
            RedrawErrorView::NoWindow,
        ),
        redrawn(false, has_window, Ok(frame)) == Err::<RedrawOutcome, RedrawErrorView>(
            RedrawErrorView::NoSurface,
        ),
        redrawn(false, has_window, Err(error)) == Err::<RedrawOutcome, RedrawErrorView>(
            RedrawErrorView::NoSurface,
        ),
        RedrawErrorView::NoFrame(words).text() == words,
{
}

/// What could not be injected is let go, and nothing follows on a warning or on
/// the end of the session; only a resize or a redraw that fails ends it.
pub proof fn law_failed_injections_are_let_go(action: RelayAction)
    ensures
        action is Inject || action is Warn || action is Exit ==> RelayApp::after_failure(action)
            == Seq::<RelayAction>::empty(),
        action is ResizeSurface || action is Redraw ==> RelayApp::after_failure(action) == seq![
            RelayAction::Exit,
        ],
{
}

/// An event can be taken wherever it is not a pointer or a button in its own
/// window; a pointer can be taken wherever the point that it stands for and
/// the edges of the display and of the desktop are coordinates.
pub proof fn law_coordinates_are_all_that_events_need(
    app: RelayApp,
    window_id: u64,
    window_size: (u32, u32),
    event: RelayEvent,
    position: PointerSample,
)
    ensures
        !(event is CursorMoved) && !(event is MouseInput) ==> app.takes(
            window_id,
            window_size,
            event,
        ),
        app.last_pointer_position is None && event is MouseInput ==> app.takes(
            window_id,
            window_size,
            event,
        ),
        ({
            let (x, y) = display_point(app.display.area, window_size, position);
            &&& fits_i32(x) && fits_i32(y)
            &&& fits_i32(app.display.area.right_edge()) && fits_i32(app.display.area.bottom_edge())
            &&& app.input.desktop matches Host::Windows(desktop) ==> fits_i32(
                desktop.bounds.right_edge(),
            ) && fits_i32(desktop.bounds.bottom_edge())
        }) ==> app.takes(window_id, window_size, RelayEvent::CursorMoved { position }),
{
}

/// What stays the same over an event: the settings, the display, the desktop
/// that is driven, and the window.
pub proof fn law_sessions_keep_what_they_began_with(app: RelayApp, later: RelayApp)
    ensures
        later.same_session(app) <==> later.config == app.config && later.display == app.display
            && later.input == app.input && later.window_id == app.window_id,
{
}

/// A pointer in a window with pixels cannot be taken where the point that it
/// stands for is not a pair of coordinates, or where the right edge of the
/// display is none and the point is not left of it.
pub proof fn law_points_beyond_the_coordinates_cannot_be_taken(
    app: RelayApp,
    window_id: u64,
    window_size: (u32, u32),
    position: PointerSample,
)
    requires
        app.window_id == Some(window_id),
        window_size.0 > 0,
        window_size.1 > 0,
    ensures
        ({
            let (x, y) = display_point(app.display.area, window_size, position);
            let taken = app.takes(window_id, window_size, RelayEvent::CursorMoved { position });
            &&& !(-0x8000_0000 <= x <= 0x7fff_ffff) ==> !taken
            &&& !(-0x8000_0000 <= y <= 0x7fff_ffff) ==> !taken
            &&& !(-0x8000_0000 <= app.display.area.right_edge() <= 0x7fff_ffff) && x
                >= app.display.area.left ==> !taken
        }),
{
}

/// A pointer, a button and a key do the same whether they are handed in as
/// events of the window or by themselves. Before the window is open a pointer
/// moves nothing, and a button is only pressed or released, at the last
/// position.
pub proof fn law_events_do_what_their_handlers_do(
    app: RelayApp,
    window_id: u64,
    window_size: (u32, u32),
    position: PointerSample,
    button: WindowButton,
    pressed: bool,
)
    ensures
        app.window_id == Some(window_id) ==> {
            &&& app.pointer_reaction(window_size, position) == app.reaction(
                window_id,
                window_size,
                RelayEvent::CursorMoved { position },
            )
            &&& app.button_reaction(window_size, button, pressed) == app.reaction(
                window_id,
                window_size,
                RelayEvent::MouseInput { button, pressed },
            )
        },
        app.window_id is None ==> app.pointer_reaction(window_size, position) == Seq::<
            RelayAction,
        >::empty(),
        app.window_id is None && app.input.desktop is Windows && app.last_pointer_position is Some
            ==> app.button_reaction(window_size, button, pressed) == match (button, pressed) {
            (WindowButton::Left, true) => seq![pressed_by(2)],
            (WindowButton::Left, false) => seq![pressed_by(4)],
            (WindowButton::Right, true) => seq![pressed_by(8)],
            (WindowButton::Right, false) => seq![pressed_by(16)],
            (WindowButton::Middle, true) => seq![pressed_by(32)],
            (WindowButton::Middle, false) => seq![pressed_by(64)],
            (WindowButton::Other, _) => Seq::empty(),
        },
        app.last_pointer_position is None ==> app.button_reaction(window_size, button, pressed)
            == Seq::<RelayAction>::empty(),
{
    if app.window_id is None && app.last_pointer_position is Some {
        let reaction = app.button_reaction(window_size, button, pressed);
        match forwarded_button(button) {
            None => {
                assert(reaction =~= Seq::<RelayAction>::empty());
            },
            Some(forwarded) => {
                law_buttons_are_pressed_and_released(app.input, forwarded);
                assert(reaction =~= seq![
                    injection(Purpose::ForwardButton, app.input.clicked(forwarded, pressed)),
                ]);
            },
        }
    }
}

/// The injection of a button by its flag.
pub open spec fn pressed_by(flags: u32) -> RelayAction {
    RelayAction::Inject {
        purpose: Purpose::ForwardButton,
        request: InputRequest::Mouse { dx: 0, dy: 0, flags },
    }
}

} // verus!
