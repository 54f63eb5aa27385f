use desktop_environment::display::{
    AdapterOutputs, DisplayError, DisplayHost, DisplayOutputs, OutputDescription, Rect,
};
use desktop_environment::host::Host;
use desktop_environment::setup::{DuplicatorSetup, SetupAction, SetupEvent, SetupPhase};
use desktop_environment::DisplayArea;

fn units(text: &str) -> Vec<u16> {
    text.encode_utf16().chain(Some(0)).collect()
}

fn host() -> DisplayHost {
    Host::Windows(Ok(DisplayOutputs {
        outputs: vec![OutputDescription {
            device_name: units("D1"),
            desktop_coordinates: Rect { left: 5, top: 0, right: 8, bottom: 2 },
            attached_to_desktop: true,
            rotation: 1,
        }],
        virtual_bounds: DisplayArea { left: 0, top: 0, width: 10, height: 10 },
    }))
}

fn device() -> SetupEvent {
    SetupEvent::Device { has_device: true, has_context: true, feature_level: 0xb000 }
}

fn adapter() -> SetupEvent {
    SetupEvent::Adapter(AdapterOutputs {
        device_names: vec![units("D0"), units("d1")],
        failure: None,
    })
}

fn refused(code: u32) -> SetupEvent {
    SetupEvent::Refused { code: code as i32, message: "refused".to_string() }
}

fn after(events: Vec<SetupEvent>) -> DuplicatorSetup {
    let mut setup = DuplicatorSetup::new("D1");
    for event in events {
        setup.step(event);
    }
    setup
}

fn fault(events: Vec<SetupEvent>) -> DisplayError {
    let setup = after(events);
    assert_eq!(setup.action(), None);
    match setup.phase {
        SetupPhase::Failed { error } => error,
        phase => panic!("{phase:?}"),
    }
}

#[test]
fn captures_are_set_up_step_by_step() {
    let steps = [
        (SetupAction::CreateDevice, device()),
        (SetupAction::ListDisplays, SetupEvent::Displays(host())),
        (SetupAction::ReadAdapter, adapter()),
        (SetupAction::Duplicate { index: 1 }, SetupEvent::Duplicated),
        (
            SetupAction::CreateTexture { width: 3, height: 2 },
            SetupEvent::Texture { has_texture: true },
        ),
    ];
    let mut setup = DuplicatorSetup::new("d1");
    for (action, event) in steps {
        assert_eq!(setup.action(), Some(action));
        setup.step(event);
    }
    assert_eq!(setup.action(), None);
    match setup.phase {
        SetupPhase::Ready { duplicator } => {
            assert_eq!(duplicator.display_info().name, "D1");
            assert_eq!(duplicator.display_info().area.left, 5);
            assert_eq!(duplicator.frame_buffer, [0; 24]);
        }
        phase => panic!("{phase:?}"),
    }
}

#[test]
fn answers_to_other_steps_are_not_taken() {
    let setup = after(vec![
        SetupEvent::Displays(host()),
        adapter(),
        SetupEvent::Duplicated,
        refused(0x8007_0005),
        SetupEvent::Texture { has_texture: false },
    ]);

    assert_eq!(setup.action(), Some(SetupAction::CreateDevice));
}

#[test]
fn the_device_comes_first() {
    let late = SetupEvent::Displays(Host::Windows(Err("no factory".to_string())));
    let old = SetupEvent::Device { has_device: true, has_context: true, feature_level: 0xa100 };
    let none = SetupEvent::Device { has_device: false, has_context: false, feature_level: 0 };
    let half = SetupEvent::Device { has_device: true, has_context: false, feature_level: 0 };

    assert!(matches!(fault(vec![old, late.clone()]), DisplayError::OldDevice));
    assert!(matches!(fault(vec![none, late.clone()]), DisplayError::NoDevice));
    assert!(matches!(fault(vec![half, late.clone()]), DisplayError::NoContext));
    assert_eq!(fault(vec![device(), late]).message(), "no factory");
}

#[test]
fn the_name_comes_before_the_output() {
    let gone = AdapterOutputs { device_names: vec![units("D0")], failure: None };
    let broken =
        AdapterOutputs { device_names: vec![units("D0")], failure: Some("broken".to_string()) };
    let mut other = DuplicatorSetup::new("D9");
    other.step(device());
    other.step(SetupEvent::Displays(host()));
    other.step(SetupEvent::Adapter(gone.clone()));

    match other.phase {
        SetupPhase::Failed { error } => assert_eq!(error.message(), "Display 'D9' was not found"),
        phase => panic!("{phase:?}"),
    }
    assert_eq!(
        fault(vec![device(), SetupEvent::Displays(host()), SetupEvent::Adapter(gone)]).message(),
        "Display 'D1' is no longer available"
    );
    assert_eq!(
        fault(vec![device(), SetupEvent::Displays(host()), SetupEvent::Adapter(broken)]).message(),
        "broken"
    );
}

#[test]
fn refusals_come_before_the_texture() {
    let found = || vec![device(), SetupEvent::Displays(host()), adapter()];
    let mut denied = found();
    denied.push(refused(0x8007_0005));
    denied.push(SetupEvent::Texture { has_texture: false });
    let mut other = found();
    other.push(refused(0x8000_4005));
    let mut no_texture = found();
    no_texture.push(SetupEvent::Duplicated);
    no_texture.push(SetupEvent::Texture { has_texture: false });

    assert!(matches!(fault(denied), DisplayError::AccessDenied));
    assert_eq!(fault(other).message(), "refused");
    let no_texture = fault(no_texture);
    assert!(matches!(no_texture, DisplayError::NoTexture));
    assert_eq!(no_texture.message(), "CreateTexture2D returned no staging texture");
}

#[test]
fn the_first_failure_stays() {
    let lost = SetupEvent::HostFailed { message: "lost".to_string() };

    assert_eq!(
        fault(vec![lost.clone(), device(), SetupEvent::Unsupported]).message(),
        "lost"
    );
    assert_eq!(fault(vec![device(), lost]).message(), "lost");
    assert_eq!(
        fault(vec![SetupEvent::Unsupported, device()]).message(),
        "Desktop Duplication is only supported on Windows"
    );
}
