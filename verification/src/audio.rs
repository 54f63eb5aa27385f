//! Audio output devices: listing them, and choosing the two ends of a route.

use crate::host::{outcome, Host};
use crate::text::{
    chars_in, eq_ignore_ascii_case, lowered, lowered_chars, occurs_at, occurs_in,
    same_but_for_case, same_text, texts,
};
use vstd::prelude::*;

verus! {

/// An audio output of the host.
#[derive(Debug, Clone)]
pub struct AudioOutputDevice {
    pub id: String,
    pub friendly_name: String,
    pub is_default: bool,
}

/// The model of an [`AudioOutputDevice`].
pub struct AudioOutputDeviceView {
    pub id: Seq<char>,
    pub friendly_name: Seq<char>,
    pub is_default: bool,
}

impl View for AudioOutputDevice {
    type V = AudioOutputDeviceView;

    open spec fn view(&self) -> AudioOutputDeviceView {
        AudioOutputDeviceView {
            id: self.id@,
            friendly_name: self.friendly_name@,
            is_default: self.is_default,
        }
    }
}

/// An active endpoint as the host reports it.
#[derive(Debug, Clone)]
pub struct AudioEndpoint {
    pub id: String,
    pub friendly_name: String,
}

/// The active endpoints of a host, and which of them is the default.
#[derive(Debug, Clone)]
pub struct AudioEndpoints {
    pub default_id: String,
    pub endpoints: Vec<AudioEndpoint>,
}

/// A host's answer when it is asked for its endpoints: the endpoints, or what
/// it says went wrong.
pub type AudioHost = Host<Result<AudioEndpoints, String>>;

/// Why there is no device.
#[derive(Debug, Clone)]
pub enum AudioError {
    /// The host has no audio routing.
    Unsupported,
    /// The host failed to list its devices.
    Query(String),
    /// No device is the default.
    NoDefault,
    /// No device matches the selector.
    NoMatch(String),
}

/// The model of an [`AudioError`].
pub enum AudioErrorView {
    Unsupported,
    Query(Seq<char>),
    NoDefault,
    NoMatch(Seq<char>),
}

impl View for AudioError {
    type V = AudioErrorView;

    open spec fn view(&self) -> AudioErrorView {
        match self {
            AudioError::Unsupported => AudioErrorView::Unsupported,
            AudioError::Query(message) => AudioErrorView::Query(message@),
            AudioError::NoDefault => AudioErrorView::NoDefault,
            AudioError::NoMatch(selector) => AudioErrorView::NoMatch(selector@),
        }
    }
}

impl AudioErrorView {
    pub open spec fn text(self) -> Seq<char> {
        match self {
            AudioErrorView::Unsupported => "Audio routing is only supported on Windows"@,
            AudioErrorView::Query(message) => message,
            AudioErrorView::NoDefault => "no default audio output device found"@,
            AudioErrorView::NoMatch(selector) => "no audio output matched '"@ + selector + "'"@,
        }
    }
}

impl AudioError {
    /// What went wrong, in words.
    pub fn message(&self) -> (message: String)
        ensures
            message@ == self@.text(),
    {
        match self {
            AudioError::Unsupported => "Audio routing is only supported on Windows".to_owned(),
            AudioError::Query(message) => message.clone(),
            AudioError::NoDefault => "no default audio output device found".to_owned(),
            AudioError::NoMatch(selector) => {
                let mut message: String = "no audio output matched '".to_owned();
                message.append(selector.as_str());
                message.append("'");
                message
            },
        }
    }
}

/// The device that an endpoint is.
pub open spec fn device_of(endpoint: AudioEndpoint, default_id: Seq<char>) -> AudioOutputDeviceView {
    AudioOutputDeviceView {
        id: endpoint.id@,
        friendly_name: endpoint.friendly_name@,
        is_default: endpoint.id@ == default_id,
    }
}

/// The devices that endpoints are, in the same order.
pub open spec fn devices_of(endpoints: Seq<AudioEndpoint>, default_id: Seq<char>) -> Seq<
    AudioOutputDeviceView,
> {
    endpoints.map_values(|endpoint: AudioEndpoint| device_of(endpoint, default_id))
}

/// The devices of a host, or why there are none to list.
pub open spec fn listed(host: AudioHost) -> Result<Seq<AudioOutputDeviceView>, AudioErrorView> {
    match host {
        Host::Unsupported => Err(AudioErrorView::Unsupported),
        Host::Windows(Err(message)) => Err(AudioErrorView::Query(message@)),
        Host::Windows(Ok(found)) => Ok(devices_of(found.endpoints@, found.default_id@)),
    }
}

/// The models of devices.
pub open spec fn views(devices: Seq<AudioOutputDevice>) -> Seq<AudioOutputDeviceView> {
    devices.map_values(|device: AudioOutputDevice| device@)
}

/// Whether a selector means a device: `default`, in any case, means the
/// default device; anything else means the device with that id, and every
/// device in whose name or id it occurs, all in any case.
pub open spec fn selects(selector: Seq<char>, device: AudioOutputDeviceView) -> bool {
    if same_but_for_case(selector, "default"@) {
        device.is_default
    } else {
        ||| same_but_for_case(device.id, selector)
        ||| occurs_in(lowered(selector), lowered(device.friendly_name))
        ||| occurs_in(lowered(selector), lowered(device.id))
    }
}

/// The first device that a selector means.
pub open spec fn selected(
    devices: Seq<AudioOutputDeviceView>,
    selector: Seq<char>,
) -> Result<AudioOutputDeviceView, AudioErrorView>
    decreases devices.len(),
{
    if devices.len() == 0 {
        Err(
            if same_but_for_case(selector, "default"@) {
                AudioErrorView::NoDefault
            } else {
                AudioErrorView::NoMatch(selector)
            },
        )
    } else if selects(selector, devices[0]) {
        Ok(devices[0])
    } else {
        selected(devices.drop_first(), selector)
    }
}

/// The device of a host that a selector means.
pub open spec fn resolved(host: AudioHost, selector: Seq<char>) -> Result<
    AudioOutputDeviceView,
    AudioErrorView,
> {
    match listed(host) {
        Err(error) => Err(error),
        Ok(devices) => selected(devices, selector),
    }
}

/// Turns endpoints into devices.
pub fn read_output_devices(endpoints: &Vec<AudioEndpoint>, default_id: &str) -> (devices: Vec<
    AudioOutputDevice,
>)
    ensures
        views(devices@) == devices_of(endpoints@, default_id@),
{
    let mut devices: Vec<AudioOutputDevice> = Vec::new();
    let mut i: usize = 0;
    while i < endpoints.len()
        invariant
            i <= endpoints.len(),
            devices.len() == i,
            forall|k: int|
                0 <= k < i ==> (#[trigger] devices[k])@ == device_of(endpoints[k], default_id@),
        decreases endpoints.len() - i,
    {
        let endpoint: &AudioEndpoint = &endpoints[i];
        devices.push(
            AudioOutputDevice {
                friendly_name: endpoint.friendly_name.clone(),
                is_default: same_text(endpoint.id.as_str(), default_id),
                id: endpoint.id.clone(),
            },
        );
        i = i + 1;
    }
    assert(views(devices@) =~= devices_of(endpoints@, default_id@));
    devices
}

/// Lists the audio outputs of a host.
pub fn list_output_devices(host: &AudioHost) -> (devices: Result<
    Vec<AudioOutputDevice>,
    AudioError,
>)
    ensures
        match devices {
            Ok(devices) => listed(*host) == Ok::<Seq<AudioOutputDeviceView>, AudioErrorView>(
                views(devices@),
            ),
            Err(error) => listed(*host) == Err::<Seq<AudioOutputDeviceView>, AudioErrorView>(
                error@,
            ),
        },
{
    match host {
        Host::Unsupported => Err(AudioError::Unsupported),
        Host::Windows(Err(message)) => Err(AudioError::Query(message.clone())),
        Host::Windows(Ok(found)) => Ok(
            read_output_devices(&found.endpoints, found.default_id.as_str()),
        ),
    }
}

/// Whether a selector means a device.
fn is_selected(selector: &str, device: &AudioOutputDevice) -> (yes: bool)
    ensures
        yes == selects(selector@, device@),
{
    if eq_ignore_ascii_case(selector, "default") {
        return device.is_default;
    }
    let selector_lower: Vec<char> = lowered_chars(selector);
    eq_ignore_ascii_case(device.id.as_str(), selector) || chars_in(
        &selector_lower,
        &lowered_chars(device.friendly_name.as_str()),
    ) || chars_in(&selector_lower, &lowered_chars(device.id.as_str()))
}

/// Finds the first device that a selector means.
pub fn select_device(devices: &Vec<AudioOutputDevice>, selector: &str) -> (device: Result<
    AudioOutputDevice,
    AudioError,
>)
    ensures
        outcome(device) == selected(views(devices@), selector@),
{
    let ghost all = views(devices@);
    let mut i: usize = 0;
    assert(all.skip(0) =~= all);
    while i < devices.len()
        invariant
            i <= devices.len(),
            all == views(devices@),
            selected(all, selector@) == selected(all.skip(i as int), selector@),
        decreases devices.len() - i,
    {
        let device: &AudioOutputDevice = &devices[i];
        assert(all.skip(i as int)[0] == device@);
        if is_selected(selector, device) {
            let chosen: AudioOutputDevice = AudioOutputDevice {
                id: device.id.clone(),
                friendly_name: device.friendly_name.clone(),
                is_default: device.is_default,
            };
            return Ok(chosen);
        }
        assert(all.skip(i as int).drop_first() =~= all.skip(i + 1));
        i = i + 1;
    }
    if eq_ignore_ascii_case(selector, "default") {
        Err(AudioError::NoDefault)
    } else {
        Err(AudioError::NoMatch(selector.to_owned()))
    }
}

/// Lists the devices of a host and finds the first that a selector means.
pub fn select_output_device(host: &AudioHost, selector: &str) -> (device: Result<
    AudioOutputDevice,
    AudioError,
>)
    ensures
        outcome(device) == resolved(*host, selector@),
{
    match list_output_devices(host) {
        Ok(devices) => select_device(&devices, selector),
        Err(error) => Err(error),
    }
}

/// The two ends of a route.
#[derive(Debug, Clone)]
pub struct AudioRoute {
    pub source: AudioOutputDevice,
    pub target: AudioOutputDevice,
}

/// The model of an [`AudioRoute`].
pub struct AudioRouteView {
    pub source: AudioOutputDeviceView,
    pub target: AudioOutputDeviceView,
}

impl View for AudioRoute {
    type V = AudioRouteView;

    open spec fn view(&self) -> AudioRouteView {
        AudioRouteView { source: self.source@, target: self.target@ }
    }
}

/// Why a route was not taken, or came to its end.
#[derive(Debug, Clone)]
pub enum RouteError {
    /// The host has no audio routing.
    Unsupported,
    /// There is no device for the source selector.
    Source { selector: String, cause: AudioError },
    /// There is no device for the target selector.
    Target { selector: String, cause: AudioError },
    /// The capture of the source device failed to open.
    OpenCapture { device: String, cause: String },
    /// The capture of the source device failed to open in a format.
    InitializeCapture { device: String, format: String, cause: String },
    /// The render side of the target device failed to open.
    OpenRender { device: String, cause: String },
    /// The render side of the target device failed to open in a format.
    InitializeRender { device: String, format: String, cause: String },
    /// The render side failed to start.
    StartRender { cause: String },
    /// The capture failed to start.
    StartCapture { cause: String },
    /// The host failed in some other way.
    Query(String),
}

/// The model of a [`RouteError`].
pub enum RouteErrorView {
    Unsupported,
    Source { selector: Seq<char>, cause: AudioErrorView },
    Target { selector: Seq<char>, cause: AudioErrorView },
    OpenCapture { device: Seq<char>, cause: Seq<char> },
    InitializeCapture { device: Seq<char>, format: Seq<char>, cause: Seq<char> },
    OpenRender { device: Seq<char>, cause: Seq<char> },
    InitializeRender { device: Seq<char>, format: Seq<char>, cause: Seq<char> },
    StartRender { cause: Seq<char> },
    StartCapture { cause: Seq<char> },
    Query(Seq<char>),
}

impl View for RouteError {
    type V = RouteErrorView;

    open spec fn view(&self) -> RouteErrorView {
        match self {
            RouteError::Unsupported => RouteErrorView::Unsupported,
            RouteError::Source { selector, cause } => RouteErrorView::Source {
                selector: selector@,
                cause: cause@,
            },
            RouteError::Target { selector, cause } => RouteErrorView::Target {
                selector: selector@,
                cause: cause@,
            },
            RouteError::OpenCapture { device, cause } => RouteErrorView::OpenCapture {
                device: device@,
                cause: cause@,
            },
            RouteError::InitializeCapture { device, format, cause } =>
                RouteErrorView::InitializeCapture { device: device@, format: format@, cause: cause@ },
            RouteError::OpenRender { device, cause } => RouteErrorView::OpenRender {
                device: device@,
                cause: cause@,
            },
            RouteError::InitializeRender { device, format, cause } =>
                RouteErrorView::InitializeRender { device: device@, format: format@, cause: cause@ },
            RouteError::StartRender { cause } => RouteErrorView::StartRender { cause: cause@ },
            RouteError::StartCapture { cause } => RouteErrorView::StartCapture { cause: cause@ },
            RouteError::Query(message) => RouteErrorView::Query(message@),
        }
    }
}

impl RouteErrorView {
    /// The words for the error itself.
    pub open spec fn text(self) -> Seq<char> {
        match self {
            RouteErrorView::Unsupported => AudioErrorView::Unsupported.text(),
            RouteErrorView::Source { selector, cause } => "failed to resolve source device '"@
                + selector + "'"@,
            RouteErrorView::Target { selector, cause } => "failed to resolve target device '"@
                + selector + "'"@,
            RouteErrorView::OpenCapture { device, cause } => "failed to open loopback capture on "@
                + device,
            RouteErrorView::InitializeCapture { device, format, cause } =>
                "failed to open loopback capture on "@ + device,
            RouteErrorView::OpenRender { device, cause } => "failed to open render client on "@
                + device,
            RouteErrorView::InitializeRender { device, format, cause } =>
                "failed to open render client on "@ + device,
            RouteErrorView::StartRender { cause } => "failed to start render client"@,
            RouteErrorView::StartCapture { cause } => "failed to start capture client"@,
            RouteErrorView::Query(message) => message,
        }
    }

    /// What caused the error, in words, the last cause last.
    pub open spec fn cause_texts(self) -> Seq<Seq<char>> {
        match self {
            RouteErrorView::Unsupported => Seq::empty(),
            RouteErrorView::Source { selector, cause } => seq![cause.text()],
            RouteErrorView::Target { selector, cause } => seq![cause.text()],
            RouteErrorView::OpenCapture { device, cause } => seq![cause],
            RouteErrorView::InitializeCapture { device, format, cause } => seq![
                "capture Initialize failed with source loopback format "@ + format,
                cause,
            ],
            RouteErrorView::OpenRender { device, cause } => seq![cause],
            RouteErrorView::InitializeRender { device, format, cause } => seq![
                "render Initialize failed with format "@ + format,
                cause,
            ],
            RouteErrorView::StartRender { cause } => seq![cause],
            RouteErrorView::StartCapture { cause } => seq![cause],
            RouteErrorView::Query(message) => Seq::empty(),
        }
    }
}

impl RouteError {
    /// What went wrong, in words.
    pub fn message(&self) -> (message: String)
        ensures
            message@ == self@.text(),
    {
        let mut message: String = String::new();
        match self {
            RouteError::Unsupported => {
                message.append(AudioError::Unsupported.message().as_str());
            },
            RouteError::Source { selector, .. } => {
                message.append("failed to resolve source device '");
                message.append(selector.as_str());
                message.append("'");
            },
            RouteError::Target { selector, .. } => {
                message.append("failed to resolve target device '");
                message.append(selector.as_str());
                message.append("'");
            },
            RouteError::OpenCapture { device, .. } => {
                message.append("failed to open loopback capture on ");
                message.append(device.as_str());
            },
            RouteError::InitializeCapture { device, .. } => {
                message.append("failed to open loopback capture on ");
                message.append(device.as_str());
            },
            RouteError::OpenRender { device, .. } => {
                message.append("failed to open render client on ");
                message.append(device.as_str());
            },
            RouteError::InitializeRender { device, .. } => {
                message.append("failed to open render client on ");
                message.append(device.as_str());
            },
            RouteError::StartRender { .. } => {
                message.append("failed to start render client");
            },
            RouteError::StartCapture { .. } => {
                message.append("failed to start capture client");
            },
            RouteError::Query(words) => {
                message.append(words.as_str());
            },
        }
        assert(message@ =~= self@.text());
        message
    }

    /// What caused it, in words, the last cause last.
    pub fn causes(&self) -> (causes: Vec<String>)
        ensures
            texts(causes@) == self@.cause_texts(),
    {
        let mut causes: Vec<String> = Vec::new();
        match self {
            RouteError::Unsupported => {},
            RouteError::Source { cause, .. } => {
                causes.push(cause.message());
            },
            RouteError::Target { cause, .. } => {
                causes.push(cause.message());
            },
            RouteError::OpenCapture { cause, .. } => {
                causes.push(cause.clone());
            },
            RouteError::InitializeCapture { format, cause, .. } => {
                causes.push(
                    "capture Initialize failed with source loopback format ".to_owned().concat(
                        format.as_str(),
                    ),
                );
                causes.push(cause.clone());
            },
            RouteError::OpenRender { cause, .. } => {
                causes.push(cause.clone());
            },
            RouteError::InitializeRender { format, cause, .. } => {
                causes.push(
                    "render Initialize failed with format ".to_owned().concat(format.as_str()),
                );
                causes.push(cause.clone());
            },
            RouteError::StartRender { cause } => {
                causes.push(cause.clone());
            },
            RouteError::StartCapture { cause } => {
                causes.push(cause.clone());
            },
            RouteError::Query(_) => {},
        }
        assert(texts(causes@) =~= self@.cause_texts());
        causes
    }
}

/// The route between two selectors. The devices are listed anew for each of
/// them, the source first.
pub open spec fn routed(
    source_host: AudioHost,
    target_host: AudioHost,
    source_selector: Seq<char>,
    target_selector: Seq<char>,
) -> Result<AudioRouteView, RouteErrorView> {
    if source_host is Unsupported {
        Err(RouteErrorView::Unsupported)
    } else {
        match resolved(source_host, source_selector) {
            Err(cause) => Err(RouteErrorView::Source { selector: source_selector, cause }),
            Ok(source) => match resolved(target_host, target_selector) {
                Err(cause) => Err(RouteErrorView::Target { selector: target_selector, cause }),
                Ok(target) => Ok(AudioRouteView { source, target }),
            },
        }
    }
}

/// Resolves both ends of a route, from one listing of the devices for each.
pub fn run_output_audio_router(
    source_host: &AudioHost,
    target_host: &AudioHost,
    source_selector: &str,
    target_selector: &str,
) -> (route: Result<AudioRoute, RouteError>)
    ensures
        outcome(route) == routed(*source_host, *target_host, source_selector@, target_selector@),
{
    if let Host::Unsupported = source_host {
        return Err(RouteError::Unsupported);
    }
    match select_output_device(source_host, source_selector) {
        Err(cause) => Err(RouteError::Source { selector: source_selector.to_owned(), cause }),
        Ok(source) => match select_output_device(target_host, target_selector) {
            Err(cause) => Err(RouteError::Target { selector: target_selector.to_owned(), cause }),
            Ok(target) => Ok(AudioRoute { source, target }),
        },
    }
}

/// A selector finds a device exactly where it means one, and then the first
/// that it means.
pub proof fn law_selection_is_the_first_match(
    devices: Seq<AudioOutputDeviceView>,
    selector: Seq<char>,
)
    ensures
        match selected(devices, selector) {
            Ok(device) => exists|i: int|
                0 <= i < devices.len() && #[trigger] devices[i] == device && selects(
                    selector,
                    device,
                ) && forall|j: int| 0 <= j < i ==> !selects(selector, #[trigger] devices[j]),
            Err(_) => forall|i: int|
                0 <= i < devices.len() ==> !selects(selector, #[trigger] devices[i]),
        },
    decreases devices.len(),
{
    if devices.len() > 0 && !selects(selector, devices[0]) {
        let rest = devices.drop_first();
        law_selection_is_the_first_match(rest, selector);
        match selected(devices, selector) {
            Ok(device) => {
                let i = choose|i: int|
                    0 <= i < rest.len() && #[trigger] rest[i] == device && selects(
                        selector,
                        device,
                    ) && forall|j: int| 0 <= j < i ==> !selects(selector, #[trigger] rest[j]);
                assert(devices[i + 1] == device);
                assert forall|j: int| 0 <= j < i + 1 implies !selects(
                    selector,
                    #[trigger] devices[j],
                ) by {
                    if j > 0 {
                        assert(rest[j - 1] == devices[j]);
                    }
                }
            },
            Err(_) => {
                assert forall|j: int| 0 <= j < devices.len() implies !selects(
                    selector,
                    #[trigger] devices[j],
                ) by {
                    if j > 0 {
                        assert(rest[j - 1] == devices[j]);
                    }
                }
            },
        }
    }
}

/// The case of a selector's ASCII letters does not matter.
pub proof fn law_selection_ignores_case(
    a: Seq<char>,
    b: Seq<char>,
    device: AudioOutputDeviceView,
)
    requires
        same_but_for_case(a, b),
    ensures
        selects(a, device) == selects(b, device),
{
}

/// A selector that is a device's id, or a part of its id or name, means that
/// device, unless it is the word that means the default device.
pub proof fn law_parts_of_names_select(
    selector: Seq<char>,
    device: AudioOutputDeviceView,
)
    requires
        !same_but_for_case(selector, "default"@),
        selector == device.id || occurs_in(selector, device.id) || occurs_in(
            selector,
            device.friendly_name,
        ),
    ensures
        selects(selector, device),
{
    if occurs_in(selector, device.id) {
        lemma_lowered_part(selector, device.id);
    }
    if occurs_in(selector, device.friendly_name) {
        lemma_lowered_part(selector, device.friendly_name);
    }
}

proof fn lemma_lowered_part(part: Seq<char>, whole: Seq<char>)
    requires
        occurs_in(part, whole),
    ensures
        occurs_in(lowered(part), lowered(whole)),
{
    let i = choose|i: int| occurs_at(part, whole, i);
    assert(lowered(whole).subrange(i, i + part.len()) =~= lowered(
        whole.subrange(i, i + part.len()),
    ));
    assert(occurs_at(lowered(part), lowered(whole), i));
}

/// A selector other than the word default, in any case, means a device exactly
/// where it stands somewhere in the name or in the id of the device, but for
/// case; so one that is longer than both means none. The word default means the
/// default device and no other.
pub proof fn law_selectors_stand_in_names_or_ids(selector: Seq<char>, device: AudioOutputDeviceView)
    ensures
        same_but_for_case(selector, "default"@) ==> selects(selector, device) == device.is_default,
        !same_but_for_case(selector, "default"@) ==> (selects(selector, device) <==> {
            ||| exists|i: int|
                0 <= i <= device.friendly_name.len() - selector.len() && same_but_for_case(
                    #[trigger] device.friendly_name.subrange(i, i + selector.len()),
                    selector,
                )
            ||| exists|i: int|
                0 <= i <= device.id.len() - selector.len() && same_but_for_case(
                    #[trigger] device.id.subrange(i, i + selector.len()),
                    selector,
                )
        }),
        !same_but_for_case(selector, "default"@) && selector.len() > device.friendly_name.len()
            && selector.len() > device.id.len() ==> !selects(selector, device),
{
    lemma_lowered_occurs(selector, device.friendly_name);
    lemma_lowered_occurs(selector, device.id);
    if same_but_for_case(device.id, selector) {
        assert(lowered(device.id).len() == device.id.len());
        assert(lowered(selector).len() == selector.len());
        assert(device.id.subrange(0, 0int + selector.len()) =~= device.id);
    }
}

proof fn lemma_lowered_occurs(part: Seq<char>, whole: Seq<char>)
    ensures
        occurs_in(lowered(part), lowered(whole)) <==> exists|i: int|
            0 <= i <= whole.len() - part.len() && same_but_for_case(
                #[trigger] whole.subrange(i, i + part.len()),
                part,
            ),
{
    let n = part.len() as int;
    assert forall|i: int| 0 <= i <= whole.len() - n implies lowered(whole).subrange(i, i + n)
        == lowered(#[trigger] whole.subrange(i, i + n)) by {
        assert(lowered(whole).subrange(i, i + n) =~= lowered(whole.subrange(i, i + n)));
    }
    if occurs_in(lowered(part), lowered(whole)) {
        let i = choose|i: int| occurs_at(lowered(part), lowered(whole), i);
        assert(same_but_for_case(whole.subrange(i, i + n), part));
    }
    if exists|i: int|
        0 <= i <= whole.len() - part.len() && same_but_for_case(
            #[trigger] whole.subrange(i, i + part.len()),
            part,
        ) {
        let i = choose|i: int|
            0 <= i <= whole.len() - part.len() && same_but_for_case(
                #[trigger] whole.subrange(i, i + part.len()),
                part,
            );
        assert(occurs_at(lowered(part), lowered(whole), i));
    }
}

/// Devices are listed as the host reports them, one for each endpoint and in
/// the same order, and the default device is the one with exactly the id that
/// the host names. A host that fails, or has no audio routing, lists nothing.
pub proof fn law_devices_are_the_endpoints(found: AudioEndpoints, message: String)
    ensures
        listed(Host::Windows(Ok(found))) == Ok::<Seq<AudioOutputDeviceView>, AudioErrorView>(
            devices_of(found.endpoints@, found.default_id@),
        ),
        listed(Host::Windows(Ok(found))) matches Ok(devices) && {
            &&& devices.len() == found.endpoints.len()
            &&& forall|i: int|
                0 <= i < devices.len() ==> {
                    &&& (#[trigger] devices[i]).id == found.endpoints[i].id@
                    &&& devices[i].friendly_name == found.endpoints[i].friendly_name@
                    &&& devices[i].is_default <==> found.endpoints[i].id@ == found.default_id@
                }
        },
        listed(Host::Windows(Err(message))) == Err::<Seq<AudioOutputDeviceView>, AudioErrorView>(
            AudioErrorView::Query(message@),
        ),
        listed(Host::Unsupported) == Err::<Seq<AudioOutputDeviceView>, AudioErrorView>(
            AudioErrorView::Unsupported,
        ),
{
}

/// Where no device is found, the error says whether the default device was
/// asked for, and names the selector otherwise.
pub proof fn law_misses_are_told(devices: Seq<AudioOutputDeviceView>, selector: Seq<char>)
    requires
        forall|i: int| 0 <= i < devices.len() ==> !selects(selector, #[trigger] devices[i]),
    ensures
        same_but_for_case(selector, "default"@) ==> selected(devices, selector) == Err::<
            AudioOutputDeviceView,
            AudioErrorView,
        >(AudioErrorView::NoDefault),
        !same_but_for_case(selector, "default"@) ==> selected(devices, selector) == Err::<
            AudioOutputDeviceView,
            AudioErrorView,
        >(AudioErrorView::NoMatch(selector)),
    decreases devices.len(),
{
    if devices.len() > 0 {
        let rest = devices.drop_first();
        assert(!selects(selector, devices[0]));
        assert forall|i: int| 0 <= i < rest.len() implies !selects(
            selector,
            #[trigger] rest[i],
        ) by {
            assert(rest[i] == devices[i + 1]);
        }
        law_misses_are_told(rest, selector);
    }
}

/// A device is looked for among the devices that the host lists; an error in
/// listing them is the error.
pub proof fn law_devices_are_looked_for_in_the_list(host: AudioHost, selector: Seq<char>)
    ensures
        match listed(host) {
            Ok(devices) => match resolved(host, selector) {
                Ok(device) => devices.contains(device) && selects(selector, device),
                Err(error) => forall|i: int|
                    0 <= i < devices.len() ==> !selects(selector, #[trigger] devices[i]),
            },
            Err(error) => resolved(host, selector) == Err::<AudioOutputDeviceView, AudioErrorView>(
                error,
            ),
        },
{
    if let Ok(devices) = listed(host) {
        law_selection_is_the_first_match(devices, selector);
    }
}

/// A route goes from the device of the source selector to that of the target
/// selector, each in its own list. The source is looked for first, and an error
/// says which of the two was not found, by what selector and why.
pub proof fn law_routes_go_from_source_to_target(
    source_host: AudioHost,
    target_host: AudioHost,
    source: Seq<char>,
    target: Seq<char>,
)
    ensures
        source_host is Unsupported ==> routed(source_host, target_host, source, target) == Err::<
            AudioRouteView,
            RouteErrorView,
        >(RouteErrorView::Unsupported),
        source_host !is Unsupported ==> match routed(source_host, target_host, source, target) {
            Ok(route) => {
                &&& resolved(source_host, source) == Ok::<AudioOutputDeviceView, AudioErrorView>(
                    route.source,
                )
                &&& resolved(target_host, target) == Ok::<AudioOutputDeviceView, AudioErrorView>(
                    route.target,
                )
            },
            Err(RouteErrorView::Source { selector, cause }) => {
                &&& selector == source
                &&& resolved(source_host, source) == Err::<AudioOutputDeviceView, AudioErrorView>(
                    cause,
                )
            },
            Err(RouteErrorView::Target { selector, cause }) => {
                &&& selector == target
                &&& resolved(source_host, source) is Ok
                &&& resolved(target_host, target) == Err::<AudioOutputDeviceView, AudioErrorView>(
                    cause,
                )
            },
            Err(_) => false,
        },
{
}

/// The words of an error are those of its kind around the words that it
/// carries, whatever these are; its causes are told behind it, in order.
pub proof fn law_route_errors_carry_their_words(
    words: Seq<char>,
    format: Seq<char>,
    cause: Seq<char>,
    reason: AudioErrorView,
)
    ensures
        AudioErrorView::Query(words).text() == words,
        AudioErrorView::NoMatch(words).text() == "no audio output matched '"@ + words + "'"@,
        RouteErrorView::Query(words).text() == words,
        (RouteErrorView::Source { selector: words, cause: reason }).text()
            == "failed to resolve source device '"@ + words + "'"@,
        (RouteErrorView::Target { selector: words, cause: reason }).text()
            == "failed to resolve target device '"@ + words + "'"@,
        (RouteErrorView::OpenCapture { device: words, cause }).text()
            == "failed to open loopback capture on "@ + words,
        (RouteErrorView::OpenRender { device: words, cause }).text()
            == "failed to open render client on "@ + words,
        (RouteErrorView::InitializeCapture { device: words, format, cause }).text()
            == "failed to open loopback capture on "@ + words,
        (RouteErrorView::InitializeRender { device: words, format, cause }).text()
            == "failed to open render client on "@ + words,
        (RouteErrorView::Source { selector: words, cause: reason }).cause_texts() == seq![
            reason.text(),
        ],
        (RouteErrorView::Target { selector: words, cause: reason }).cause_texts() == seq![
            reason.text(),
        ],
        (RouteErrorView::OpenCapture { device: words, cause }).cause_texts() == seq![cause],
        (RouteErrorView::OpenRender { device: words, cause }).cause_texts() == seq![cause],
        (RouteErrorView::StartRender { cause }).cause_texts() == seq![cause],
        (RouteErrorView::StartCapture { cause }).cause_texts() == seq![cause],
        (RouteErrorView::InitializeCapture { device: words, format, cause }).cause_texts() == seq![
            "capture Initialize failed with source loopback format "@ + format,
            cause,
        ],
        (RouteErrorView::InitializeRender { device: words, format, cause }).cause_texts() == seq![
            "render Initialize failed with format "@ + format,
            cause,
        ],
{
}

/// The model of a list of devices has the model of each device at its place.
pub proof fn law_models_of_devices_keep_their_place(devices: Seq<AudioOutputDevice>, i: int)
    requires
        0 <= i < devices.len(),
    ensures
        views(devices).len() == devices.len(),
        views(devices)[i].id == devices[i].id@,
        views(devices)[i].friendly_name == devices[i].friendly_name@,
        views(devices)[i].is_default == devices[i].is_default,
{
}

} // verus!
