//! Displays: the outputs of the host's adapters that are part of the desktop.

use crate::geometry::{fits_i32, DisplayArea, VirtualDesktop};
use crate::host::{outcome, Host};
use crate::text::{decimal, eq_ignore_ascii_case, push_decimal, same_but_for_case};
use crate::wide::{before_nul, decoded, utf16_to_string};
use vstd::prelude::*;

verus! {

/// The rotation of an output that is not rotated.
pub const DXGI_MODE_ROTATION_IDENTITY: i32 = 1;

/// The feature level that a graphics device needs.
pub const D3D_FEATURE_LEVEL_11_0: i32 = 0xb000;

/// The error code of a refused access.
pub const E_ACCESSDENIED: i32 = -0x7ff8_fffb;

/// A display of the desktop.
#[derive(Debug, Clone)]
pub struct DisplayInfo {
    pub name: String,
    pub friendly_name: String,
    pub area: DisplayArea,
    pub virtual_desktop: VirtualDesktop,
}

/// The model of a [`DisplayInfo`].
pub struct DisplayInfoView {
    pub name: Seq<char>,
    pub friendly_name: Seq<char>,
    pub area: DisplayArea,
    pub virtual_desktop: VirtualDesktop,
}

impl View for DisplayInfo {
    type V = DisplayInfoView;

    open spec fn view(&self) -> DisplayInfoView {
        DisplayInfoView {
            name: self.name@,
            friendly_name: self.friendly_name@,
            area: self.area,
            virtual_desktop: self.virtual_desktop,
        }
    }
}

/// A rectangle by its edges; the right and the bottom edge are outside.
#[derive(Debug, Clone, Copy, PartialEq, Eq, Structural)]
pub struct Rect {
    pub left: i32,
    pub top: i32,
    pub right: i32,
    pub bottom: i32,
}

/// An output as its adapter describes it.
#[derive(Debug, Clone)]
pub struct OutputDescription {
    /// The name, as a wide string in a buffer.
    pub device_name: Vec<u16>,
    pub desktop_coordinates: Rect,
    pub attached_to_desktop: bool,
    pub rotation: i32,
}

/// The outputs of all adapters, in order, and the bounds of the desktop.
#[derive(Debug, Clone)]
pub struct DisplayOutputs {
    pub outputs: Vec<OutputDescription>,
    pub virtual_bounds: DisplayArea,
}

/// A host's answer when it is asked for its outputs: the outputs, or what it
/// says went wrong.
pub type DisplayHost = Host<Result<DisplayOutputs, String>>;

/// The names of the outputs of one adapter, in order, as far as they could be
/// read, and what went wrong with the next one.
#[derive(Debug, Clone)]
pub struct AdapterOutputs {
    pub device_names: Vec<Vec<u16>>,
    pub failure: Option<String>,
}

/// Why there is no display to capture.
#[derive(Debug, Clone)]
pub enum DisplayError {
    /// The host has no desktop duplication.
    Unsupported,
    /// The host failed to answer.
    Query(String),
    /// No output is attached to the desktop.
    NoOutputs,
    /// No display has the name.
    NotFound(String),
    /// The adapter has no output of that name any more.
    Gone(String),
    /// The session may not capture the display.
    AccessDenied,
    /// No graphics device was created.
    NoDevice,
    /// The graphics device has no context.
    NoContext,
    /// The graphics device is too old.
    OldDevice,
    /// No texture was created to read frames from.
    NoTexture,
}

/// The model of a [`DisplayError`].
pub enum DisplayErrorView {
    Unsupported,
    Query(Seq<char>),
    NoOutputs,
    NotFound(Seq<char>),
    Gone(Seq<char>),
    AccessDenied,
    NoDevice,
    NoContext,
    OldDevice,
    NoTexture,
}

impl View for DisplayError {
    type V = DisplayErrorView;

    open spec fn view(&self) -> DisplayErrorView {
        match self {
            DisplayError::Unsupported => DisplayErrorView::Unsupported,
            DisplayError::Query(message) => DisplayErrorView::Query(message@),
            DisplayError::NoOutputs => DisplayErrorView::NoOutputs,
            DisplayError::NotFound(name) => DisplayErrorView::NotFound(name@),
            DisplayError::Gone(name) => DisplayErrorView::Gone(name@),
            DisplayError::AccessDenied => DisplayErrorView::AccessDenied,
            DisplayError::NoDevice => DisplayErrorView::NoDevice,
            DisplayError::NoContext => DisplayErrorView::NoContext,
            DisplayError::OldDevice => DisplayErrorView::OldDevice,
            DisplayError::NoTexture => DisplayErrorView::NoTexture,
        }
    }
}

impl DisplayErrorView {
    pub open spec fn text(self) -> Seq<char> {
        match self {
            DisplayErrorView::Unsupported => "Desktop Duplication is only supported on Windows"@,
            DisplayErrorView::Query(message) => message,
            DisplayErrorView::NoOutputs => "No desktop-attached outputs were found"@,
            DisplayErrorView::NotFound(name) => "Display '"@ + name + "' was not found"@,
            DisplayErrorView::Gone(name) => "Display '"@ + name + "' is no longer available"@,
            DisplayErrorView::AccessDenied =>
                "Desktop Duplication access was denied. Run from the interactive user session on the GPU that owns the target display"@,
            DisplayErrorView::NoDevice => "D3D11CreateDevice returned no device"@,
            DisplayErrorView::NoContext => "D3D11CreateDevice returned no device context"@,
            DisplayErrorView::OldDevice =>
                "Desktop Duplication requires a D3D11-capable adapter"@,
            DisplayErrorView::NoTexture => "CreateTexture2D returned no staging texture"@,
        }
    }
}

impl DisplayError {
    /// What went wrong, in words.
    pub fn message(&self) -> (message: String)
        ensures
            message@ == self@.text(),
    {
        match self {
            DisplayError::Unsupported =>
                "Desktop Duplication is only supported on Windows".to_owned(),
            DisplayError::Query(message) => message.clone(),
            DisplayError::NoOutputs => "No desktop-attached outputs were found".to_owned(),
            DisplayError::NotFound(name) => {
                let mut message: String = "Display '".to_owned();
                message.append(name.as_str());
                message.append("' was not found");
                message
            },
            DisplayError::Gone(name) => {
                let mut message: String = "Display '".to_owned();
                message.append(name.as_str());
                message.append("' is no longer available");
                message
            },
            DisplayError::AccessDenied =>
                "Desktop Duplication access was denied. Run from the interactive user session on the GPU that owns the target display".to_owned(),
            DisplayError::NoDevice => "D3D11CreateDevice returned no device".to_owned(),
            DisplayError::NoContext => "D3D11CreateDevice returned no device context".to_owned(),
            DisplayError::OldDevice =>
                "Desktop Duplication requires a D3D11-capable adapter".to_owned(),
            DisplayError::NoTexture => "CreateTexture2D returned no staging texture".to_owned(),
        }
    }
}

/// The unsigned reading of a difference: a negative one reads as 2^32 more.
pub open spec fn unsigned(v: int) -> int {
    if v < 0 {
        v + 0x1_0000_0000
    } else {
        v
    }
}

fn unsigned_length(v: i32) -> (length: u32)
    ensures
        length == unsigned(v as int),
{
    proof {
        assert(v >= 0 ==> v as u32 == v) by (bit_vector);
        assert(v < 0 ==> v as u32 == v + 0x1_0000_0000) by (bit_vector);
    }
    #[verifier::truncate]
    (v as u32)
}

impl Rect {
    /// Whether the sides have a length.
    pub open spec fn has_sides(self) -> bool {
        fits_i32(self.right - self.left) && fits_i32(self.bottom - self.top)
    }

    /// The area of a rectangle.
    pub open spec fn area(self) -> DisplayArea {
        DisplayArea {
            left: self.left,
            top: self.top,
            width: unsigned(self.right - self.left) as u32,
            height: unsigned(self.bottom - self.top) as u32,
        }
    }
}

/// Turns edges into a position and a size.
pub fn rect_to_area(rect: Rect) -> (area: DisplayArea)
    requires
        rect.has_sides(),
    ensures
        area == rect.area(),
{
    DisplayArea {
        left: rect.left,
        top: rect.top,
        width: unsigned_length(rect.right - rect.left),
        height: unsigned_length(rect.bottom - rect.top),
    }
}

/// The bounds of the desktop, from the metrics of the virtual screen.
pub fn read_virtual_desktop_bounds(left: i32, top: i32, width: i32, height: i32) -> (bounds:
    DisplayArea)
    ensures
        bounds == (DisplayArea {
            left,
            top,
            width: unsigned(width as int) as u32,
            height: unsigned(height as int) as u32,
        }),
{
    DisplayArea { left, top, width: unsigned_length(width), height: unsigned_length(height) }
}

/// The name in a device name buffer.
pub open spec fn device_name(buffer: Seq<u16>) -> Seq<char> {
    decoded(before_nul(buffer))
}

/// The display that an output is.
pub open spec fn display_of(
    description: OutputDescription,
    virtual_bounds: DisplayArea,
) -> DisplayInfoView {
    let name = device_name(description.device_name@);
    let area = description.desktop_coordinates.area();
    DisplayInfoView {
        name,
        friendly_name: if description.rotation == DXGI_MODE_ROTATION_IDENTITY {
            name + " ("@ + decimal(area.width as nat) + "x"@ + decimal(area.height as nat) + ")"@
        } else {
            name + " (rotated)"@
        },
        area,
        virtual_desktop: VirtualDesktop { bounds: virtual_bounds },
    }
}

/// The display that an output is.
pub fn display_from_desc(description: &OutputDescription, virtual_bounds: DisplayArea) -> (display:
    DisplayInfo)
    requires
        description.desktop_coordinates.has_sides(),
    ensures
        display@ == display_of(*description, virtual_bounds),
{
    let area: DisplayArea = rect_to_area(description.desktop_coordinates);
    let name: String = utf16_to_string(description.device_name.as_slice());
    let mut friendly_name: String = name.clone();
    if description.rotation == DXGI_MODE_ROTATION_IDENTITY {
        friendly_name.append(" (");
        push_decimal(&mut friendly_name, area.width as u64);
        friendly_name.append("x");
        push_decimal(&mut friendly_name, area.height as u64);
        friendly_name.append(")");
    } else {
        friendly_name.append(" (rotated)");
    }
    DisplayInfo {
        name,
        friendly_name,
        area,
        virtual_desktop: VirtualDesktop { bounds: virtual_bounds },
    }
}

/// The displays that the attached outputs are, in order.
pub open spec fn displays_of(
    outputs: Seq<OutputDescription>,
    virtual_bounds: DisplayArea,
) -> Seq<DisplayInfoView>
    decreases outputs.len(),
{
    if outputs.len() == 0 {
        Seq::empty()
    } else {
        let earlier = displays_of(outputs.drop_last(), virtual_bounds);
        if outputs.last().attached_to_desktop {
            earlier.push(display_of(outputs.last(), virtual_bounds))
        } else {
            earlier
        }
    }
}

/// The displays of a host, or why there are none.
pub open spec fn enumerated(host: DisplayHost) -> Result<Seq<DisplayInfoView>, DisplayErrorView> {
    match host {
        Host::Unsupported => Err(DisplayErrorView::Unsupported),
        Host::Windows(Err(message)) => Err(DisplayErrorView::Query(message@)),
        Host::Windows(Ok(found)) => {
            let displays = displays_of(found.outputs@, found.virtual_bounds);
            if displays.len() == 0 {
                Err(DisplayErrorView::NoOutputs)
            } else {
                Ok(displays)
            }
        },
    }
}

/// The models of displays.
pub open spec fn display_views(displays: Seq<DisplayInfo>) -> Seq<DisplayInfoView> {
    displays.map_values(|display: DisplayInfo| display@)
}

/// Whether the rectangles of all attached outputs have sides.
pub open spec fn have_sides(outputs: Seq<OutputDescription>) -> bool {
    forall|i: int|
        0 <= i < outputs.len() && (#[trigger] outputs[i]).attached_to_desktop
            ==> outputs[i].desktop_coordinates.has_sides()
}

/// Whether the displays of a host have areas.
pub open spec fn describes_displays(host: DisplayHost) -> bool {
    host matches Host::Windows(Ok(found)) ==> have_sides(found.outputs@)
}

/// The displays that the attached outputs are.
fn attached_displays(found: &DisplayOutputs) -> (displays: Vec<DisplayInfo>)
    requires
        have_sides(found.outputs@),
    ensures
        display_views(displays@) == displays_of(found.outputs@, found.virtual_bounds),
{
    let mut displays: Vec<DisplayInfo> = Vec::new();
    let mut i: usize = 0;
    let ghost outputs = found.outputs@;
    assert(display_views(displays@) =~= displays_of(outputs.take(0), found.virtual_bounds));
    while i < found.outputs.len()
        invariant
            outputs == found.outputs@,
            have_sides(outputs),
            i <= outputs.len(),
            display_views(displays@) == displays_of(outputs.take(i as int), found.virtual_bounds),
        decreases outputs.len() - i,
    {
        let description: &OutputDescription = &found.outputs[i];
        let ghost before = displays@;
        assert(*description == outputs[i as int]);
        assert(outputs.take(i + 1).drop_last() =~= outputs.take(i as int));
        if description.attached_to_desktop {
            displays.push(display_from_desc(description, found.virtual_bounds));
            assert(display_views(displays@) =~= display_views(before).push(displays@.last()@));
        }
        i = i + 1;
    }
    assert(outputs.take(i as int) =~= outputs);
    displays
}

/// Lists the displays of a host.
pub fn enumerate_displays(host: &DisplayHost) -> (displays: Result<
    Vec<DisplayInfo>,
    DisplayError,
>)
    requires
        describes_displays(*host),
    ensures
        match displays {
            Ok(displays) => enumerated(*host) == Ok::<Seq<DisplayInfoView>, DisplayErrorView>(
                display_views(displays@),
            ),
            Err(error) => enumerated(*host) == Err::<Seq<DisplayInfoView>, DisplayErrorView>(
                error@,
            ),
        },
{
    match host {
        Host::Unsupported => Err(DisplayError::Unsupported),
        Host::Windows(Err(message)) => Err(DisplayError::Query(message.clone())),
        Host::Windows(Ok(found)) => {
            let displays: Vec<DisplayInfo> = attached_displays(found);
            if displays.len() == 0 {
                Err(DisplayError::NoOutputs)
            } else {
                Ok(displays)
            }
        },
    }
}

/// The first display with a name, in any case.
pub open spec fn first_named(displays: Seq<DisplayInfoView>, name: Seq<char>) -> Result<
    DisplayInfoView,
    DisplayErrorView,
>
    decreases displays.len(),
{
    if displays.len() == 0 {
        Err(DisplayErrorView::NotFound(name))
    } else if same_but_for_case(displays[0].name, name) {
        Ok(displays[0])
    } else {
        first_named(displays.drop_first(), name)
    }
}

/// The display of a host with a name.
pub open spec fn display_named(host: DisplayHost, name: Seq<char>) -> Result<
    DisplayInfoView,
    DisplayErrorView,
> {
    match enumerated(host) {
        Err(error) => Err(error),
        Ok(displays) => first_named(displays, name),
    }
}

/// Lists the displays of a host and finds the first with a name.
pub fn find_display(host: &DisplayHost, display_name: &str) -> (display: Result<
    DisplayInfo,
    DisplayError,
>)
    requires
        describes_displays(*host),
    ensures
        outcome(display) == display_named(*host, display_name@),
{
    let displays: Vec<DisplayInfo> = match enumerate_displays(host) {
        Ok(displays) => displays,
        Err(error) => {
            return Err(error);
        },
    };
    let ghost all = display_views(displays@);
    let mut i: usize = 0;
    assert(all.skip(0) =~= all);
    while i < displays.len()
        invariant
            i <= displays.len(),
            all == display_views(displays@),
            enumerated(*host) == Ok::<Seq<DisplayInfoView>, DisplayErrorView>(all),
            first_named(all, display_name@) == first_named(all.skip(i as int), display_name@),
        decreases displays.len() - i,
    {
        let display: &DisplayInfo = &displays[i];
        assert(all.skip(i as int)[0] == display@);
        if eq_ignore_ascii_case(display.name.as_str(), display_name) {
            let chosen: DisplayInfo = DisplayInfo {
                name: display.name.clone(),
                friendly_name: display.friendly_name.clone(),
                area: display.area,
                virtual_desktop: display.virtual_desktop,
            };
            return Ok(chosen);
        }
        assert(all.skip(i as int).drop_first() =~= all.skip(i + 1));
        i = i + 1;
    }
    Err(DisplayError::NotFound(display_name.to_owned()))
}

/// Whether an output has a name, in any case.
pub open spec fn is_named(buffer: Seq<u16>, name: Seq<char>) -> bool {
    same_but_for_case(device_name(buffer), name)
}

/// Finds the first output of an adapter with a name. A name that cannot be
/// read ends the search where none before it is the right one.
pub fn find_output(adapter: &AdapterOutputs, display_name: &str) -> (found: Result<
    Option<usize>,
    DisplayError,
>)
    ensures
        match found {
            Ok(Some(index)) => {
                &&& index < adapter.device_names.len()
                &&& is_named(adapter.device_names[index as int]@, display_name@)
                &&& forall|i: int|
                    0 <= i < index ==> !is_named(
                        (#[trigger] adapter.device_names[i])@,
                        display_name@,
                    )
            },
            Ok(None) => {
                &&& adapter.failure is None
                &&& forall|i: int|
                    0 <= i < adapter.device_names.len() ==> !is_named(
                        (#[trigger] adapter.device_names[i])@,
                        display_name@,
                    )
            },
            Err(error) => {
                &&& adapter.failure matches Some(message) && error@ == DisplayErrorView::Query(
                    message@,
                )
                &&& forall|i: int|
                    0 <= i < adapter.device_names.len() ==> !is_named(
                        (#[trigger] adapter.device_names[i])@,
                        display_name@,
                    )
            },
        },
{
    let mut i: usize = 0;
    while i < adapter.device_names.len()
        invariant
            i <= adapter.device_names.len(),
            forall|k: int|
                0 <= k < i ==> !is_named((#[trigger] adapter.device_names[k])@, display_name@),
        decreases adapter.device_names.len() - i,
    {
        let candidate: String = utf16_to_string(adapter.device_names[i].as_slice());
        if eq_ignore_ascii_case(candidate.as_str(), display_name) {
            return Ok(Some(i));
        }
        i = i + 1;
    }
    match &adapter.failure {
        Some(message) => Err(DisplayError::Query(message.clone())),
        None => Ok(None),
    }
}

/// Finds the output of an adapter that a known display is.
pub fn locate_output(adapter: &AdapterOutputs, display_name: &str) -> (index: Result<
    usize,
    DisplayError,
>)
    ensures
        match index {
            Ok(index) => {
                &&& index < adapter.device_names.len()
                &&& is_named(adapter.device_names[index as int]@, display_name@)
                &&& forall|i: int|
                    0 <= i < index ==> !is_named(
                        (#[trigger] adapter.device_names[i])@,
                        display_name@,
                    )
            },
            Err(error) => {
                &&& forall|i: int|
                    0 <= i < adapter.device_names.len() ==> !is_named(
                        (#[trigger] adapter.device_names[i])@,
                        display_name@,
                    )
                &&& error@ == match adapter.failure {
                    Some(message) => DisplayErrorView::Query(message@),
                    None => DisplayErrorView::Gone(display_name@),
                }
            },
        },
{
    match find_output(adapter, display_name) {
        Ok(Some(index)) => Ok(index),
        Ok(None) => Err(DisplayError::Gone(display_name.to_owned())),
        Err(error) => Err(error),
    }
}

/// What a refusal to duplicate an output means, by its code and the host's
/// words.
pub fn duplication_error(code: i32, message: String) -> (error: DisplayError)
    ensures
        error@ == (if code == E_ACCESSDENIED {
            DisplayErrorView::AccessDenied
        } else {
            DisplayErrorView::Query(message@)
        }),
{
    if code == E_ACCESSDENIED {
        DisplayError::AccessDenied
    } else {
        DisplayError::Query(message)
    }
}

/// Whether a graphics device can capture a display, by what its creation
/// returned.
pub fn create_device(has_device: bool, has_context: bool, feature_level: i32) -> (usable: Result<
    (),
    DisplayError,
>)
    ensures
        match usable {
            Ok(_) => has_device && has_context && feature_level == D3D_FEATURE_LEVEL_11_0,
            Err(error) => if !has_device {
                error@ == DisplayErrorView::NoDevice
            } else if !has_context {
                error@ == DisplayErrorView::NoContext
            } else {
                feature_level != D3D_FEATURE_LEVEL_11_0 && error@ == DisplayErrorView::OldDevice
            },
        },
{
    if !has_device {
        Err(DisplayError::NoDevice)
    } else if !has_context {
        Err(DisplayError::NoContext)
    } else if feature_level != D3D_FEATURE_LEVEL_11_0 {
        Err(DisplayError::OldDevice)
    } else {
        Ok(())
    }
}

/// The area of a rectangle has the edges of the rectangle.
pub proof fn law_areas_keep_the_edges(rect: Rect)
    requires
        rect.has_sides(),
    ensures
        rect.area().left == rect.left,
        rect.area().top == rect.top,
        rect.area().right_edge() == rect.right,
        rect.area().bottom_edge() == rect.bottom,
{
}

/// A name finds a display exactly where one has it, and then the first.
pub proof fn law_displays_are_found_by_name(displays: Seq<DisplayInfoView>, name: Seq<char>)
    ensures
        match first_named(displays, name) {
            Ok(display) => exists|i: int|
                0 <= i < displays.len() && #[trigger] displays[i] == display && same_but_for_case(
                    display.name,
                    name,
                ) && forall|j: int|
                    0 <= j < i ==> !same_but_for_case((#[trigger] displays[j]).name, name),
            Err(error) => error == DisplayErrorView::NotFound(name) && forall|i: int|
                0 <= i < displays.len() ==> !same_but_for_case(
                    (#[trigger] displays[i]).name,
                    name,
                ),
        },
    decreases displays.len(),
{
    if displays.len() > 0 && !same_but_for_case(displays[0].name, name) {
        let rest = displays.drop_first();
        law_displays_are_found_by_name(rest, name);
        assert forall|j: int| 0 < j < displays.len() implies #[trigger] displays[j] == rest[j
            - 1] by {}
        if let Ok(display) = first_named(displays, name) {
            let i = choose|i: int|
                0 <= i < rest.len() && #[trigger] rest[i] == display && same_but_for_case(
                    display.name,
                    name,
                ) && forall|j: int|
                    0 <= j < i ==> !same_but_for_case((#[trigger] rest[j]).name, name);
            assert(displays[i + 1] == display);
        }
    }
}

/// Only outputs that are attached to the desktop are displays.
pub proof fn law_displays_are_attached_outputs(
    outputs: Seq<OutputDescription>,
    virtual_bounds: DisplayArea,
    display: DisplayInfoView,
)
    ensures
        displays_of(outputs, virtual_bounds).contains(display) <==> exists|i: int|
            0 <= i < outputs.len() && (#[trigger] outputs[i]).attached_to_desktop && display
                == display_of(outputs[i], virtual_bounds),
    decreases outputs.len(),
{
    if outputs.len() > 0 {
        let front = outputs.drop_last();
        let earlier = displays_of(front, virtual_bounds);
        let all = displays_of(outputs, virtual_bounds);
        let last = display_of(outputs.last(), virtual_bounds);
        law_displays_are_attached_outputs(front, virtual_bounds, display);
        if earlier.contains(display) {
            let i = choose|i: int|
                0 <= i < front.len() && (#[trigger] front[i]).attached_to_desktop && display
                    == display_of(front[i], virtual_bounds);
            assert(outputs[i] == front[i]);
            let k = choose|k: int| 0 <= k < earlier.len() && earlier[k] == display;
            assert(all[k] == display);
        }
        if outputs.last().attached_to_desktop && display == last {
            assert(all[all.len() - 1] == display);
            assert(outputs[outputs.len() - 1].attached_to_desktop);
        }
        if all.contains(display) && !earlier.contains(display) {
            let k = choose|k: int| 0 <= k < all.len() && all[k] == display;
            assert(k == earlier.len());
        }
        assert forall|i: int|
            0 <= i < outputs.len() && (#[trigger] outputs[i]).attached_to_desktop && display
                == display_of(outputs[i], virtual_bounds) implies all.contains(display) by {
            if i < front.len() {
                assert(front[i] == outputs[i]);
                assert(earlier.contains(display));
            }
        }
    }
}

/// An area has the position of its rectangle, and sides that are the distances
/// of the edges, counted around 2^32.
pub proof fn law_areas_have_the_sides_of_rectangles(rect: Rect)
    requires
        rect.has_sides(),
    ensures
        rect.area().left == rect.left,
        rect.area().top == rect.top,
        rect.right >= rect.left ==> rect.area().width == rect.right - rect.left,
        rect.right < rect.left ==> rect.area().width == 0x1_0000_0000 + rect.right - rect.left,
        rect.bottom >= rect.top ==> rect.area().height == rect.bottom - rect.top,
        rect.bottom < rect.top ==> rect.area().height == 0x1_0000_0000 + rect.bottom - rect.top,
{
}

/// A side of the desktop that is not negative counts as it is; a negative one
/// counts around 2^32.
pub proof fn law_metrics_are_read_as_lengths(v: i32)
    ensures
        v >= 0 ==> unsigned(v as int) == v,
        v < 0 ==> unsigned(v as int) == 0x1_0000_0000 + v,
{
}

/// A display has the name and the rectangle of its output, and belongs to the
/// desktop. It is described by its size where the output is not rotated, and as
/// rotated otherwise.
pub proof fn law_displays_are_described_by_their_outputs(
    description: OutputDescription,
    virtual_bounds: DisplayArea,
)
    ensures
        ({
            let display = display_of(description, virtual_bounds);
            let (width, height) = (display.area.width as nat, display.area.height as nat);
            &&& display.name == decoded(before_nul(description.device_name@))
            &&& display.area == description.desktop_coordinates.area()
            &&& display.virtual_desktop.bounds == virtual_bounds
            &&& description.rotation == 1 ==> display.friendly_name == display.name + " ("@
                + decimal(width) + "x"@ + decimal(height) + ")"@
            &&& description.rotation != 1 ==> display.friendly_name == display.name
                + " (rotated)"@
        }),
{
}

/// Displays are listed output by output: those of two lists of outputs, one
/// after the other, are those of the one list and then those of the other. A
/// single output is one display where it is attached, and none otherwise.
pub proof fn law_displays_are_listed_output_by_output(
    a: Seq<OutputDescription>,
    b: Seq<OutputDescription>,
    output: OutputDescription,
    virtual_bounds: DisplayArea,
)
    ensures
        displays_of(a + b, virtual_bounds) == displays_of(a, virtual_bounds) + displays_of(
            b,
            virtual_bounds,
        ),
        output.attached_to_desktop ==> displays_of(seq![output], virtual_bounds) == seq![
            display_of(output, virtual_bounds),
        ],
        !output.attached_to_desktop ==> displays_of(seq![output], virtual_bounds) == Seq::<
            DisplayInfoView,
        >::empty(),
        displays_of(Seq::empty(), virtual_bounds) == Seq::<DisplayInfoView>::empty(),
    decreases b.len(),
{
    assert(seq![output].drop_last() =~= Seq::<OutputDescription>::empty());
    assert(displays_of(seq![output].drop_last(), virtual_bounds) =~= Seq::<
        DisplayInfoView,
    >::empty());
    if output.attached_to_desktop {
        assert(displays_of(seq![output], virtual_bounds) =~= seq![
            display_of(output, virtual_bounds),
        ]);
    }
    if b.len() == 0 {
        assert(a + b =~= a);
        assert(displays_of(a, virtual_bounds) + displays_of(b, virtual_bounds) =~= displays_of(
            a,
            virtual_bounds,
        ));
    } else {
        law_displays_are_listed_output_by_output(a, b.drop_last(), output, virtual_bounds);
        assert((a + b).drop_last() =~= a + b.drop_last());
        assert(displays_of(a + b, virtual_bounds) =~= displays_of(a, virtual_bounds) + displays_of(
            b,
            virtual_bounds,
        ));
    }
}

/// A host lists the displays of its outputs; it is an error where it has none,
/// where it fails, and where it has no desktop duplication.
pub proof fn law_listings_fail_without_displays(found: DisplayOutputs, message: String)
    ensures
        ({
            let displays = displays_of(found.outputs@, found.virtual_bounds);
            enumerated(Host::Windows(Ok(found))) == if displays == Seq::<DisplayInfoView>::empty() {
                Err::<Seq<DisplayInfoView>, DisplayErrorView>(DisplayErrorView::NoOutputs)
            } else {
                Ok::<Seq<DisplayInfoView>, DisplayErrorView>(displays)
            }
        }),
        enumerated(Host::Windows(Err(message))) == Err::<Seq<DisplayInfoView>, DisplayErrorView>(
            DisplayErrorView::Query(message@),
        ),
        enumerated(Host::Unsupported) == Err::<Seq<DisplayInfoView>, DisplayErrorView>(
            DisplayErrorView::Unsupported,
        ),
{
    let displays = displays_of(found.outputs@, found.virtual_bounds);
    if displays.len() == 0 {
        assert(displays =~= Seq::<DisplayInfoView>::empty());
    }
}

/// A display is looked for among the displays that the host lists; an error in
/// listing them is the error, and so is a name that none of them has.
pub proof fn law_displays_are_looked_for_in_the_list(host: DisplayHost, name: Seq<char>)
    ensures
        match enumerated(host) {
            Ok(displays) => match display_named(host, name) {
                Ok(display) => displays.contains(display) && same_but_for_case(display.name, name),
                Err(error) => error == DisplayErrorView::NotFound(name) && forall|i: int|
                    0 <= i < displays.len() ==> !same_but_for_case(
                        (#[trigger] displays[i]).name,
                        name,
                    ),
            },
            Err(error) => display_named(host, name) == Err::<DisplayInfoView, DisplayErrorView>(
                error,
            ),
        },
{
    if let Ok(displays) = enumerated(host) {
        law_displays_are_found_by_name(displays, name);
    }
}

/// An output has the name that its buffer spells, in any case.
pub proof fn law_outputs_have_the_names_in_their_buffers(buffer: Seq<u16>, name: Seq<char>)
    ensures
        is_named(buffer, name) == same_but_for_case(decoded(before_nul(buffer)), name),
{
}

/// The words of an error are those of its kind around the words that it
/// carries, whatever these are.
pub proof fn law_display_errors_carry_their_words(words: Seq<char>)
    ensures
        DisplayErrorView::Query(words).text() == words,
        DisplayErrorView::NotFound(words).text() == "Display '"@ + words + "' was not found"@,
        DisplayErrorView::Gone(words).text() == "Display '"@ + words + "' is no longer available"@,
{
}

/// The model of a list of displays has the model of each display at its place.
pub proof fn law_models_of_displays_keep_their_place(displays: Seq<DisplayInfo>, i: int)
    requires
        0 <= i < displays.len(),
    ensures
        display_views(displays).len() == displays.len(),
        display_views(displays)[i].name == displays[i].name@,
        display_views(displays)[i].friendly_name == displays[i].friendly_name@,
        display_views(displays)[i].area == displays[i].area,
        display_views(displays)[i].virtual_desktop == displays[i].virtual_desktop,
{
}

} // verus!
