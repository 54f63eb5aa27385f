use desktop_environment::audio::{
    read_output_devices, select_device, select_output_device, AudioEndpoint, AudioEndpoints,
    AudioError, AudioHost, AudioRoute, RouteError,
};
use desktop_environment::host::Host;
use desktop_environment::pump::{ByteRange, PumpAction, PumpEvent};
use desktop_environment::router::{AudioRouter, RouterAction, RouterEvent, StreamRequest};
use desktop_environment::router_command::list_audio_devices;
use desktop_environment::wave::{wave_format_from_ptr, WaveFormatOwned};
use desktop_environment::{list_output_devices, run_output_audio_router};

fn endpoint(id: &str, friendly_name: &str) -> AudioEndpoint {
    AudioEndpoint { id: id.to_string(), friendly_name: friendly_name.to_string() }
}

fn endpoints() -> Vec<AudioEndpoint> {
    vec![
        endpoint("{0.0}.{AA}", "Speakers (Realtek)"),
        endpoint("{0.0}.{BB}", "Headphones (USB Audio)"),
        endpoint("{0.0}.{CC}", "Capture Card USB"),
    ]
}

fn host_with_default(default_id: &str) -> AudioHost {
    Host::Windows(Ok(AudioEndpoints {
        default_id: default_id.to_string(),
        endpoints: endpoints(),
    }))
}

fn host() -> AudioHost {
    host_with_default("{0.0}.{BB}")
}

fn chosen(selector: &str) -> String {
    select_output_device(&host(), selector).unwrap().id
}

fn route() -> AudioRoute {
    run_output_audio_router(&host(), &host(), "default", "capture card").unwrap()
}

#[test]
fn endpoints_become_devices_in_order() {
    let devices = read_output_devices(&endpoints(), "{0.0}.{BB}");

    let defaults: Vec<bool> = devices.iter().map(|device| device.is_default).collect();
    assert_eq!(defaults, [false, true, false]);
    assert_eq!(devices[2].id, "{0.0}.{CC}");
    assert_eq!(devices[2].friendly_name, "Capture Card USB");
}

#[test]
fn the_default_id_has_to_match_exactly() {
    let devices = read_output_devices(&endpoints(), "{0.0}.{bb}");

    assert!(devices.iter().all(|device| !device.is_default));
}

#[test]
fn devices_are_listed_for_their_host() {
    assert_eq!(list_output_devices(&host()).unwrap().len(), 3);
    let failed = list_output_devices(&Host::Windows(Err("COM".to_string()))).unwrap_err();
    let unsupported = list_output_devices(&Host::Unsupported).unwrap_err();
    assert!(matches!(failed, AudioError::Query(_)));
    assert_eq!(failed.message(), "COM");
    assert!(matches!(unsupported, AudioError::Unsupported));
    assert_eq!(unsupported.message(), "Audio routing is only supported on Windows");
}

#[test]
fn selectors_match_ids_and_parts_of_names_in_any_case() {
    assert_eq!(chosen("{0.0}.{cc}"), "{0.0}.{CC}");
    assert_eq!(chosen("HEADPHONES"), "{0.0}.{BB}");
    assert_eq!(chosen("bb}"), "{0.0}.{BB}");
    assert_eq!(chosen("card"), "{0.0}.{CC}");
}

#[test]
fn the_first_match_is_selected() {
    assert_eq!(chosen("usb"), "{0.0}.{BB}");
    assert_eq!(chosen("{0.0}"), "{0.0}.{AA}");
    assert_eq!(chosen(""), "{0.0}.{AA}");
}

#[test]
fn the_default_device_is_selected_by_word() {
    assert_eq!(chosen("default"), "{0.0}.{BB}");
    assert_eq!(chosen("Default"), "{0.0}.{BB}");
    let none = select_output_device(&host_with_default("other"), "DEFAULT").unwrap_err();
    assert!(matches!(none, AudioError::NoDefault));
    assert_eq!(none.message(), "no default audio output device found");
}

#[test]
fn selectors_without_a_match_are_named() {
    let devices = list_output_devices(&host()).unwrap();
    let error = select_device(&devices, "hdmi").unwrap_err();

    assert!(matches!(error, AudioError::NoMatch(_)));
    assert_eq!(error.message(), "no audio output matched 'hdmi'");
}

#[test]
fn routes_have_a_source_and_a_target() {
    let route = route();

    assert_eq!(route.source.friendly_name, "Headphones (USB Audio)");
    assert_eq!(route.target.friendly_name, "Capture Card USB");
}

#[test]
fn the_source_of_a_route_is_resolved_first() {
    let error = run_output_audio_router(&host(), &host(), "x", "y").unwrap_err();

    assert!(matches!(error, RouteError::Source { .. }));
    assert_eq!(error.message(), "failed to resolve source device 'x'");
    assert_eq!(error.causes(), ["no audio output matched 'x'"]);
}

#[test]
fn the_target_of_a_route_is_resolved_second() {
    let lost = Host::Windows(Err("lost".to_string()));
    let error = run_output_audio_router(&host(), &lost, "usb", "y").unwrap_err();

    assert!(matches!(error, RouteError::Target { .. }));
    assert_eq!(error.message(), "failed to resolve target device 'y'");
    assert_eq!(error.causes(), ["lost"]);
}

#[test]
fn nothing_is_routed_on_other_hosts() {
    let error =
        run_output_audio_router(&Host::Unsupported, &Host::Unsupported, "x", "y").unwrap_err();

    assert!(matches!(error, RouteError::Unsupported));
    assert_eq!(error.message(), "Audio routing is only supported on Windows");
    assert!(error.causes().is_empty());
}

fn source_format() -> WaveFormatOwned {
    let memory = [1, 0, 2, 0, 0x80, 0xbb, 0, 0, 0, 0xee, 2, 0, 8, 0, 32, 0, 1, 0, 0x77];
    wave_format_from_ptr(Some(&memory)).unwrap()
}

fn steps() -> Vec<(RouterAction, RouterEvent)> {
    vec![
        (
            RouterAction::OpenSource { device_id: "{0.0}.{BB}".to_string() },
            RouterEvent::SourceOpened,
        ),
        (
            RouterAction::OpenTarget { device_id: "{0.0}.{CC}".to_string() },
            RouterEvent::TargetOpened,
        ),
        (
            RouterAction::ReadFormat { device_id: "{0.0}.{BB}".to_string() },
            RouterEvent::FormatRead(source_format()),
        ),
        (
            RouterAction::OpenCapture(StreamRequest {
                device_id: "{0.0}.{BB}".to_string(),
                share_mode: 0,
                flags: 0x8802_0000,
                format: source_format().bytes,
            }),
            RouterEvent::CaptureOpened,
        ),
        (RouterAction::ServeCapture, RouterEvent::CaptureServed),
        (
            RouterAction::ActivateRender { device_id: "{0.0}.{CC}".to_string() },
            RouterEvent::RenderActivated,
        ),
        (
            RouterAction::OpenRender(StreamRequest {
                device_id: "{0.0}.{CC}".to_string(),
                share_mode: 0,
                flags: 0x8800_0000,
                format: source_format().bytes,
            }),
            RouterEvent::RenderOpened,
        ),
        (RouterAction::ServeRender, RouterEvent::RenderServed { buffer_frames: 480 }),
        (RouterAction::StartRender, RouterEvent::RenderStarted),
        (RouterAction::StartCapture, RouterEvent::CaptureStarted),
        (
            RouterAction::Pump(PumpAction::NextPacketSize),
            RouterEvent::Pump(PumpEvent::PacketSize(9)),
        ),
        (
            RouterAction::Pump(PumpAction::FetchPacket),
            RouterEvent::Pump(PumpEvent::Packet { frames: 9, flags: 0 }),
        ),
        (
            RouterAction::Pump(PumpAction::CurrentPadding),
            RouterEvent::Pump(PumpEvent::Padding(476)),
        ),
    ]
}

#[test]
fn streams_are_opened_and_started_in_order() {
    let mut router = AudioRouter::new(route());
    for (action, event) in steps() {
        assert_eq!(router.action(), action);
        router.step(RouterEvent::Pump(PumpEvent::Rendered));
        assert_eq!(router.action(), action);
        router.step(event);
    }
    assert_eq!(
        router.action(),
        RouterAction::Pump(PumpAction::Render {
            count: 4,
            flags: 0,
            copy: Some(ByteRange { start: 0, len: 32 })
        })
    );
}

#[test]
fn a_second_format_does_not_replace_the_first() {
    let mut router = AudioRouter::new(route());
    let mut other = source_format();
    other.bytes[12] = 4;
    other.block_align = 4;
    for (action, event) in steps() {
        assert_eq!(router.action(), action);
        router.step(event);
        if !matches!(router.action(), RouterAction::ReadFormat { .. }) {
            router.step(RouterEvent::FormatRead(other.clone()));
        }
    }
}

#[test]
fn failures_are_told_by_what_was_asked() {
    let capture = "failed to open loopback capture on Headphones (USB Audio)";
    let render = "failed to open render client on Capture Card USB";
    let format = "tag=1 channels=2 rate=48000 bits=32 block_align=8 extra=1";
    let capture_format = format!("capture Initialize failed with source loopback format {format}");
    let render_format = format!("render Initialize failed with format {format}");
    let expected: Vec<(&str, Vec<&str>)> = vec![
        ("cause", vec![]),
        ("cause", vec![]),
        (capture, vec!["cause"]),
        (capture, vec![&capture_format, "cause"]),
        (capture, vec!["cause"]),
        (render, vec!["cause"]),
        (render, vec![&render_format, "cause"]),
        (render, vec!["cause"]),
        ("failed to start render client", vec!["cause"]),
        ("failed to start capture client", vec!["cause"]),
        ("cause", vec![]),
        ("cause", vec![]),
        ("cause", vec![]),
    ];
    let mut router = AudioRouter::new(route());
    for ((message, causes), (_, event)) in expected.into_iter().zip(steps()) {
        let error = router.failure("cause".to_string());
        assert_eq!(error.message(), message);
        assert_eq!(error.causes(), causes);
        router.step(event);
    }
}

#[test]
fn devices_are_listed_line_by_line() {
    assert_eq!(
        list_audio_devices(&host()).unwrap(),
        [
            "{0.0}.{AA}\tSpeakers (Realtek)",
            "{0.0}.{BB}\tHeadphones (USB Audio) (default)",
            "{0.0}.{CC}\tCapture Card USB",
        ]
    );
    assert_eq!(
        list_audio_devices(&Host::Unsupported).unwrap_err().message(),
        "Audio routing is only supported on Windows"
    );
}
