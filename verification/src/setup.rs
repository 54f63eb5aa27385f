//! Setting up the capture of a display, step by step.
//!
//! The setup decides and the program around it acts: [`DuplicatorSetup::action`]
//! says what is to be done next, and [`DuplicatorSetup::step`] takes the answer.
//! The first step that fails decides why there is no capture.

use crate::display::{
    create_device, describes_displays, display_named, duplication_error, find_display, is_named,
    locate_output, AdapterOutputs, DisplayError, DisplayErrorView, DisplayHost, DisplayInfoView,
    D3D_FEATURE_LEVEL_11_0, E_ACCESSDENIED,
};
use crate::duplicator::{
    frame_len, law_frames_have_four_bytes_for_each_pixel, DesktopDuplicator,
};
use crate::geometry::DisplayArea;
use vstd::prelude::*;

verus! {

/// What the setup waits for.
#[derive(Debug, Clone)]
pub enum SetupPhase {
    /// The graphics device.
    CreateDevice,
    /// The displays of the host.
    ListDisplays,
    /// The outputs of the adapter that the graphics device is on.
    ReadAdapter { host: DisplayHost, area: DisplayArea },
    /// The duplication of an output of that adapter.
    Duplicate { host: DisplayHost, area: DisplayArea, index: usize },
    /// The texture that frames are read from.
    CreateTexture { host: DisplayHost, area: DisplayArea },
    /// Nothing: frames can be captured.
    Ready { duplicator: DesktopDuplicator },
    /// Nothing: there is no capture.
    Failed { error: DisplayError },
}

/// The model of a [`SetupPhase`].
pub enum SetupPhaseView {
    CreateDevice,
    ListDisplays,
    ReadAdapter { host: DisplayHost, area: DisplayArea },
    Duplicate { host: DisplayHost, area: DisplayArea, index: usize },
    CreateTexture { host: DisplayHost, area: DisplayArea },
    Ready { display: DisplayInfoView, frame_buffer: Seq<u8> },
    Failed { error: DisplayErrorView },
}

impl View for SetupPhase {
    type V = SetupPhaseView;

    open spec fn view(&self) -> SetupPhaseView {
        match self {
            SetupPhase::CreateDevice => SetupPhaseView::CreateDevice,
            SetupPhase::ListDisplays => SetupPhaseView::ListDisplays,
            SetupPhase::ReadAdapter { host, area } => SetupPhaseView::ReadAdapter {
                host: *host,
                area: *area,
            },
            SetupPhase::Duplicate { host, area, index } => SetupPhaseView::Duplicate {
                host: *host,
                area: *area,
                index: *index,
            },
            SetupPhase::CreateTexture { host, area } => SetupPhaseView::CreateTexture {
                host: *host,
                area: *area,
            },
            SetupPhase::Ready { duplicator } => SetupPhaseView::Ready {
                display: duplicator.display@,
                frame_buffer: duplicator.frame_buffer@,
            },
            SetupPhase::Failed { error } => SetupPhaseView::Failed { error: error@ },
        }
    }
}

/// What the setup asks for.
#[derive(Debug, Clone, Copy, PartialEq, Eq, Structural)]
pub enum SetupAction {
    /// Create a graphics device.
    CreateDevice,
    /// List the displays.
    ListDisplays,
    /// Read the names of the outputs of the adapter that the device is on.
    ReadAdapter,
    /// Duplicate the output with this index.
    Duplicate { index: usize },
    /// Create a texture of this size to read frames from.
    CreateTexture { width: u32, height: u32 },
}

/// The answer to an action.
#[derive(Debug, Clone)]
pub enum SetupEvent {
    /// What creating a graphics device returned.
    Device { has_device: bool, has_context: bool, feature_level: i32 },
    /// What listing the displays returned.
    Displays(DisplayHost),
    /// The outputs of the adapter.
    Adapter(AdapterOutputs),
    /// The output is duplicated.
    Duplicated,
    /// The output is not duplicated, for a reason with a code and in words.
    Refused { code: i32, message: String },
    /// What creating a texture returned.
    Texture { has_texture: bool },
    /// The host failed to do what was asked, for a reason in words.
    HostFailed { message: String },
    /// The host has no desktop duplication.
    Unsupported,
}

/// The first output of an adapter with a name.
pub open spec fn first_output(names: Seq<Vec<u16>>, display_name: Seq<char>) -> Option<nat>
    decreases names.len(),
{
    if names.len() == 0 {
        None
    } else if is_named(names[0]@, display_name) {
        Some(0)
    } else {
        match first_output(names.drop_first(), display_name) {
            Some(index) => Some(index + 1),
            None => None,
        }
    }
}

proof fn lemma_first_output(names: Seq<Vec<u16>>, display_name: Seq<char>, index: nat)
    requires
        index < names.len(),
        is_named(names[index as int]@, display_name),
        forall|i: int| 0 <= i < index ==> !is_named((#[trigger] names[i])@, display_name),
    ensures
        first_output(names, display_name) == Some(index),
    decreases names.len(),
{
    if index > 0 {
        assert(!is_named(names[0]@, display_name));
        let rest = names.drop_first();
        assert forall|i: int| 0 <= i < index - 1 implies !is_named(
            (#[trigger] rest[i])@,
            display_name,
        ) by {
            assert(rest[i] == names[i + 1]);
        }
        lemma_first_output(rest, display_name, (index - 1) as nat);
    }
}

proof fn lemma_no_output(names: Seq<Vec<u16>>, display_name: Seq<char>)
    requires
        forall|i: int| 0 <= i < names.len() ==> !is_named((#[trigger] names[i])@, display_name),
    ensures
        first_output(names, display_name) is None,
    decreases names.len(),
{
    if names.len() > 0 {
        assert(!is_named(names[0]@, display_name));
        let rest = names.drop_first();
        assert forall|i: int| 0 <= i < rest.len() implies !is_named(
            (#[trigger] rest[i])@,
            display_name,
        ) by {
            assert(rest[i] == names[i + 1]);
        }
        lemma_no_output(rest, display_name);
    }
}

/// What is wrong with a graphics device, if anything is.
pub open spec fn device_fault(has_device: bool, has_context: bool, feature_level: i32) -> Option<
    DisplayErrorView,
> {
    if !has_device {
        Some(DisplayErrorView::NoDevice)
    } else if !has_context {
        Some(DisplayErrorView::NoContext)
    } else if feature_level != D3D_FEATURE_LEVEL_11_0 {
        Some(DisplayErrorView::OldDevice)
    } else {
        None
    }
}

impl SetupPhaseView {
    /// The end of a setup for a reason.
    pub open spec fn fail(error: DisplayErrorView) -> Self {
        SetupPhaseView::Failed { error }
    }

    /// The place of a phase in the order of the phases.
    pub open spec fn rank(self) -> nat {
        match self {
            SetupPhaseView::CreateDevice => 0,
            SetupPhaseView::ListDisplays => 1,
            SetupPhaseView::ReadAdapter { .. } => 2,
            SetupPhaseView::Duplicate { .. } => 3,
            SetupPhaseView::CreateTexture { .. } => 4,
            SetupPhaseView::Ready { .. } => 5,
            SetupPhaseView::Failed { .. } => 6,
        }
    }

    /// The listing that the display was found in, and its area.
    pub open spec fn found(self) -> Option<(DisplayHost, DisplayArea)> {
        match self {
            SetupPhaseView::ReadAdapter { host, area } => Some((host, area)),
            SetupPhaseView::Duplicate { host, area, index } => Some((host, area)),
            SetupPhaseView::CreateTexture { host, area } => Some((host, area)),
            _ => None,
        }
    }

    /// The display is the one with the name, and a frame of it fits into memory
    /// once it can be captured.
    pub open spec fn well_formed(self, display_name: Seq<char>) -> bool {
        &&& self.found() matches Some(found) ==> {
            &&& describes_displays(found.0)
            &&& display_named(found.0, display_name) matches Ok(display) && display.area == found.1
        }
        &&& self matches SetupPhaseView::Ready { display, frame_buffer } ==> frame_len(display.area)
            <= isize::MAX
    }

    /// What is to be done in a phase.
    pub open spec fn due(self) -> Option<SetupAction> {
        match self {
            SetupPhaseView::CreateDevice => Some(SetupAction::CreateDevice),
            SetupPhaseView::ListDisplays => Some(SetupAction::ListDisplays),
            SetupPhaseView::ReadAdapter { host, area } => Some(SetupAction::ReadAdapter),
            SetupPhaseView::Duplicate { host, area, index } => Some(
                SetupAction::Duplicate { index },
            ),
            SetupPhaseView::CreateTexture { host, area } => Some(
                SetupAction::CreateTexture { width: area.width, height: area.height },
            ),
            _ => None,
        }
    }

    /// Whether an answer can be taken: rectangles have sides, and a frame of
    /// the display fits into memory.
    pub open spec fn takes(self, event: SetupEvent) -> bool {
        match (self, event) {
            (SetupPhaseView::ListDisplays, SetupEvent::Displays(host)) => describes_displays(host),
            (
                SetupPhaseView::CreateTexture { host, area },
                SetupEvent::Texture { has_texture },
            ) => has_texture ==> frame_len(area) <= isize::MAX,
            _ => true,
        }
    }

    /// The phase that follows on an answer. An answer to something that was
    /// not asked changes nothing.
    pub open spec fn next(self, display_name: Seq<char>, event: SetupEvent) -> Self {
        match (self, event) {
            (SetupPhaseView::Ready { .. }, _) => self,
            (SetupPhaseView::Failed { .. }, _) => self,
            (_, SetupEvent::HostFailed { message }) => Self::fail(DisplayErrorView::Query(message@)),
            (_, SetupEvent::Unsupported) => Self::fail(DisplayErrorView::Unsupported),
            (
                SetupPhaseView::CreateDevice,
                SetupEvent::Device { has_device, has_context, feature_level },
            ) => match device_fault(has_device, has_context, feature_level) {
                Some(error) => Self::fail(error),
                None => SetupPhaseView::ListDisplays,
            },
            (SetupPhaseView::ListDisplays, SetupEvent::Displays(host)) => match display_named(
                host,
                display_name,
            ) {
                Err(error) => Self::fail(error),
                Ok(display) => SetupPhaseView::ReadAdapter { host, area: display.area },
            },
            (
                SetupPhaseView::ReadAdapter { host, area },
                SetupEvent::Adapter(adapter),
            ) => match first_output(adapter.device_names@, display_name) {
                Some(index) => SetupPhaseView::Duplicate { host, area, index: index as usize },
                None => Self::fail(
                    match adapter.failure {
                        Some(message) => DisplayErrorView::Query(message@),
                        None => DisplayErrorView::Gone(display_name),
                    },
                ),
            },
            (
                SetupPhaseView::Duplicate { host, area, index },
                SetupEvent::Duplicated,
            ) => SetupPhaseView::CreateTexture { host, area },
            (
                SetupPhaseView::Duplicate { host, area, index },
                SetupEvent::Refused { code, message },
            ) => Self::fail(
                if code == E_ACCESSDENIED {
                    DisplayErrorView::AccessDenied
                } else {
                    DisplayErrorView::Query(message@)
                },
            ),
            (
                SetupPhaseView::CreateTexture { host, area },
                SetupEvent::Texture { has_texture },
            ) => if has_texture {
                SetupPhaseView::Ready {
                    display: display_named(host, display_name)->Ok_0,
                    frame_buffer: Seq::new(frame_len(area), |i: int| 0u8),
                }
            } else {
                Self::fail(DisplayErrorView::NoTexture)
            },
            _ => self,
        }
    }
}

/// The setup of the capture of the display with a name.
#[derive(Debug, Clone)]
pub struct DuplicatorSetup {
    pub display_name: String,
    pub phase: SetupPhase,
}

impl DuplicatorSetup {
    pub open spec fn well_formed(self) -> bool {
        self.phase@.well_formed(self.display_name@)
    }

    /// A setup that is about to begin.
    pub fn new(display_name: &str) -> (setup: Self)
        ensures
            setup.display_name@ == display_name@,
            setup.phase == SetupPhase::CreateDevice,
            setup.well_formed(),
    {
        DuplicatorSetup {
            display_name: display_name.to_owned(),
            phase: SetupPhase::CreateDevice,
        }
    }

    /// What is to be done next, as long as the setup is not over.
    pub fn action(&self) -> (action: Option<SetupAction>)
        ensures
            action == self.phase@.due(),
    {
        match &self.phase {
            SetupPhase::CreateDevice => Some(SetupAction::CreateDevice),
            SetupPhase::ListDisplays => Some(SetupAction::ListDisplays),
            SetupPhase::ReadAdapter { .. } => Some(SetupAction::ReadAdapter),
            SetupPhase::Duplicate { index, .. } => Some(SetupAction::Duplicate { index: *index }),
            SetupPhase::CreateTexture { area, .. } => Some(
                SetupAction::CreateTexture { width: area.width, height: area.height },
            ),
            SetupPhase::Ready { .. } => None,
            SetupPhase::Failed { .. } => None,
        }
    }

    /// Takes the answer to what was asked.
    pub fn step(&mut self, event: SetupEvent)
        requires
            old(self).well_formed(),
            old(self).phase@.takes(event),
        ensures
            final(self).display_name == old(self).display_name,
            final(self).phase@ == old(self).phase@.next(old(self).display_name@, event),
            final(self).well_formed(),
    {
        let mut phase: SetupPhase = SetupPhase::CreateDevice;
        std::mem::swap(&mut phase, &mut self.phase);
        let name: &str = self.display_name.as_str();
        self.phase = match (phase, event) {
            (SetupPhase::Ready { duplicator }, _) => SetupPhase::Ready { duplicator },
            (SetupPhase::Failed { error }, _) => SetupPhase::Failed { error },
            (_, SetupEvent::HostFailed { message }) => SetupPhase::Failed {
                error: DisplayError::Query(message),
            },
            (_, SetupEvent::Unsupported) => SetupPhase::Failed { error: DisplayError::Unsupported },
            (
                SetupPhase::CreateDevice,
                SetupEvent::Device { has_device, has_context, feature_level },
            ) => match create_device(has_device, has_context, feature_level) {
                Ok(_) => SetupPhase::ListDisplays,
                Err(error) => SetupPhase::Failed { error },
            },
            (SetupPhase::ListDisplays, SetupEvent::Displays(host)) => match find_display(
                &host,
                name,
            ) {
                Ok(display) => SetupPhase::ReadAdapter { host, area: display.area },
                Err(error) => SetupPhase::Failed { error },
            },
            (
                SetupPhase::ReadAdapter { host, area },
                SetupEvent::Adapter(adapter),
            ) => match locate_output(&adapter, name) {
                Ok(index) => {
                    proof {
                        lemma_first_output(adapter.device_names@, name@, index as nat);
                    }
                    SetupPhase::Duplicate { host, area, index }
                },
                Err(error) => {
                    proof {
                        lemma_no_output(adapter.device_names@, name@);
                    }
                    SetupPhase::Failed { error }
                },
            },
            (
                SetupPhase::Duplicate { host, area, .. },
                SetupEvent::Duplicated,
            ) => SetupPhase::CreateTexture { host, area },
            (
                SetupPhase::Duplicate { .. },
                SetupEvent::Refused { code, message },
            ) => SetupPhase::Failed { error: duplication_error(code, message) },
            (
                SetupPhase::CreateTexture { host, .. },
                SetupEvent::Texture { has_texture },
            ) => if has_texture {
                match DesktopDuplicator::new(name, &host) {
                    Ok(duplicator) => SetupPhase::Ready { duplicator },
                    Err(error) => SetupPhase::Failed { error },
                }
            } else {
                SetupPhase::Failed { error: DisplayError::NoTexture }
            },
            (phase, _) => phase,
        };
    }
}

/// The phase after a run of answers.
pub open spec fn phase_after(display_name: Seq<char>, events: Seq<SetupEvent>) -> SetupPhaseView
    decreases events.len(),
{
    if events.len() == 0 {
        SetupPhaseView::CreateDevice
    } else {
        phase_after(display_name, events.drop_last()).next(display_name, events.last())
    }
}

/// The steps are gone through one by one and in order: device, listing, output,
/// duplication, texture. None is skipped but by a failure.
pub proof fn law_steps_come_in_order(
    phase: SetupPhaseView,
    display_name: Seq<char>,
    event: SetupEvent,
)
    ensures
        ({
            let next = phase.next(display_name, event);
            next is Failed || next.rank() == phase.rank() || next.rank() == phase.rank() + 1
        }),
{
}

/// The first failure decides: whatever comes after it, its error stays.
pub proof fn law_the_first_failure_decides(
    display_name: Seq<char>,
    events: Seq<SetupEvent>,
    more: Seq<SetupEvent>,
)
    requires
        phase_after(display_name, events) is Failed,
    ensures
        phase_after(display_name, events + more) == phase_after(display_name, events),
    decreases more.len(),
{
    if more.len() == 0 {
        assert(events + more =~= events);
    } else {
        law_the_first_failure_decides(display_name, events, more.drop_last());
        assert((events + more).drop_last() =~= events + more.drop_last());
    }
}

/// What setting up a capture comes to, by what each step returned: the error of
/// the first that does not do, of the device, the listing with the name, the
/// output, its duplication and the texture; or else the capture of the display
/// with the name.
pub open spec fn set_up(
    display_name: Seq<char>,
    device: (bool, bool, i32),
    host: DisplayHost,
    adapter: AdapterOutputs,
    refusal: Option<(i32, String)>,
    has_texture: bool,
) -> Result<DisplayInfoView, DisplayErrorView> {
    match device_fault(device.0, device.1, device.2) {
        Some(error) => Err(error),
        None => match display_named(host, display_name) {
            Err(error) => Err(error),
            Ok(display) => if first_output(adapter.device_names@, display_name) is None {
                Err(
                    match adapter.failure {
                        Some(message) => DisplayErrorView::Query(message@),
                        None => DisplayErrorView::Gone(display_name),
                    },
                )
            } else {
                match refusal {
                    Some((code, message)) => Err(
                        if code == E_ACCESSDENIED {
                            DisplayErrorView::AccessDenied
                        } else {
                            DisplayErrorView::Query(message@)
                        },
                    ),
                    None => if has_texture {
                        Ok(display)
                    } else {
                        Err(DisplayErrorView::NoTexture)
                    },
                }
            },
        },
    }
}

/// The answers of a host that does, or refuses, what it is asked for.
pub open spec fn answers(
    device: (bool, bool, i32),
    host: DisplayHost,
    adapter: AdapterOutputs,
    refusal: Option<(i32, String)>,
    has_texture: bool,
) -> Seq<SetupEvent> {
    seq![
        SetupEvent::Device {
            has_device: device.0,
            has_context: device.1,
            feature_level: device.2,
        },
        SetupEvent::Displays(host),
        SetupEvent::Adapter(adapter),
        match refusal {
            Some((code, message)) => SetupEvent::Refused { code, message },
            None => SetupEvent::Duplicated,
        },
        SetupEvent::Texture { has_texture },
    ]
}

/// A setup comes to what [`set_up`] says.
pub proof fn law_the_first_fault_is_told(
    display_name: Seq<char>,
    device: (bool, bool, i32),
    host: DisplayHost,
    adapter: AdapterOutputs,
    refusal: Option<(i32, String)>,
    has_texture: bool,
)
    ensures
        phase_after(display_name, answers(device, host, adapter, refusal, has_texture)) == (
        match set_up(display_name, device, host, adapter, refusal, has_texture) {
            Ok(display) => SetupPhaseView::Ready {
                display,
                frame_buffer: Seq::new(frame_len(display.area), |i: int| 0u8),
            },
            Err(error) => SetupPhaseView::Failed { error },
        }),
{
    let events = answers(device, host, adapter, refusal, has_texture);
    reveal_with_fuel(phase_after, 6);
    assert(events.drop_last() =~= events.take(4));
    assert(events.take(4).drop_last() =~= events.take(3));
    assert(events.take(3).drop_last() =~= events.take(2));
    assert(events.take(2).drop_last() =~= events.take(1));
    assert(events.take(1).drop_last() =~= Seq::empty());
}

/// A device will do exactly where there is one, it has a context, and it has
/// feature level 11.0; what is missing is told in that order.
pub proof fn law_devices_have_to_be_complete(
    has_device: bool,
    has_context: bool,
    feature_level: i32,
)
    ensures
        device_fault(has_device, has_context, feature_level) is None <==> has_device && has_context
            && feature_level == 45_056,
        device_fault(false, has_context, feature_level) == Some(DisplayErrorView::NoDevice),
        device_fault(true, false, feature_level) == Some(DisplayErrorView::NoContext),
        feature_level != 45_056 ==> device_fault(true, true, feature_level) == Some(
            DisplayErrorView::OldDevice,
        ),
{
}

/// An output is found exactly where one has the name, and then the first.
pub proof fn law_outputs_are_found_by_name(names: Seq<Vec<u16>>, display_name: Seq<char>)
    ensures
        match first_output(names, display_name) {
            Some(index) => {
                &&& index < names.len()
                &&& is_named(names[index as int]@, display_name)
                &&& forall|i: int|
                    0 <= i < index ==> !is_named((#[trigger] names[i])@, display_name)
            },
            None => forall|i: int|
                0 <= i < names.len() ==> !is_named((#[trigger] names[i])@, display_name),
        },
    decreases names.len(),
{
    if names.len() > 0 && !is_named(names[0]@, display_name) {
        let rest = names.drop_first();
        law_outputs_are_found_by_name(rest, display_name);
        assert forall|i: int| 0 < i < names.len() implies #[trigger] names[i] == rest[i - 1] by {}
    }
}

/// What the setup asks for next, by what it asked for and was answered. The
/// texture has the size of the display. A host that fails ends the setup at any
/// step in its own words, and what was not asked for changes nothing.
pub proof fn law_the_setup_goes_on_from_answer_to_answer(
    phase: SetupPhaseView,
    display_name: Seq<char>,
    event: SetupEvent,
)
    requires
        phase.well_formed(display_name),
    ensures
        ({
            let next = phase.next(display_name, event);
            match (phase.due(), event) {
                (None, _) => next == phase,
                (Some(_), SetupEvent::HostFailed { message }) => next == (SetupPhaseView::Failed {
                    error: DisplayErrorView::Query(message@),
                }),
                (Some(_), SetupEvent::Unsupported) => next == (SetupPhaseView::Failed {
                    error: DisplayErrorView::Unsupported,
                }),
                (
                    Some(SetupAction::CreateDevice),
                    SetupEvent::Device { has_device, has_context, feature_level },
                ) => if has_device && has_context && feature_level == 45_056 {
                    next.due() == Some(SetupAction::ListDisplays)
                } else {
                    next is Failed
                },
                (Some(SetupAction::ListDisplays), SetupEvent::Displays(host)) => match display_named(
                    host,
                    display_name,
                ) {
                    Ok(display) => next.due() == Some(SetupAction::ReadAdapter) && next.found()
                        == Some((host, display.area)),
                    Err(error) => next == (SetupPhaseView::Failed { error }),
                },
                (
                    Some(SetupAction::ReadAdapter),
                    SetupEvent::Adapter(adapter),
                ) => match first_output(adapter.device_names@, display_name) {
                    Some(index) => next.due() == Some(
                        SetupAction::Duplicate { index: index as usize },
                    ) && next.found() == phase.found(),
                    None => next == (SetupPhaseView::Failed {
                        error: match adapter.failure {
                            Some(message) => DisplayErrorView::Query(message@),
                            None => DisplayErrorView::Gone(display_name),
                        },
                    }),
                },
                (Some(SetupAction::Duplicate { index }), SetupEvent::Duplicated) => {
                    &&& next.found() == phase.found()
                    &&& phase.found() matches Some(found) && next.due() == Some(
                        SetupAction::CreateTexture { width: found.1.width, height: found.1.height },
                    )
                },
                (
                    Some(SetupAction::Duplicate { index }),
                    SetupEvent::Refused { code, message },
                ) => next == (SetupPhaseView::Failed {
                    error: if code == -2_147_024_891 {
                        DisplayErrorView::AccessDenied
                    } else {
                        DisplayErrorView::Query(message@)
                    },
                }),
                (
                    Some(SetupAction::CreateTexture { width, height }),
                    SetupEvent::Texture { has_texture },
                ) => if has_texture {
                    phase.found() matches Some(found) && (
                    next matches SetupPhaseView::Ready { display, frame_buffer } && {
                        &&& display_named(found.0, display_name) == Ok::<
                            DisplayInfoView,
                            DisplayErrorView,
                        >(display)
                        &&& frame_buffer.len() == 4 * width * height
                        &&& forall|i: int|
                            0 <= i < frame_buffer.len() ==> #[trigger] frame_buffer[i] == 0
                    })
                } else {
                    next == (SetupPhaseView::Failed { error: DisplayErrorView::NoTexture })
                },
                _ => next == phase,
            }
        }),
{
    if let Some(found) = phase.found() {
        law_frames_have_four_bytes_for_each_pixel(found.1, 0, 0, 0, 0);
    }
}

} // verus!
