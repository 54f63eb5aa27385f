use desktop_environment::display::{
    create_device, display_from_desc, duplication_error, find_display, find_output, locate_output,
    read_virtual_desktop_bounds, rect_to_area, AdapterOutputs, DisplayError, DisplayHost,
    DisplayOutputs, OutputDescription, Rect,
};
use desktop_environment::host::Host;
use desktop_environment::relay_command::list_displays;
use desktop_environment::{enumerate_displays, DisplayArea};

fn units(text: &str) -> Vec<u16> {
    let mut buffer: Vec<u16> = text.encode_utf16().collect();
    buffer.resize(32, 0);
    buffer
}

fn output(name: &str, left: i32, width: i32, attached: bool, rotation: i32) -> OutputDescription {
    OutputDescription {
        device_name: units(name),
        desktop_coordinates: Rect { left, top: 10, right: left + width, bottom: 1090 },
        attached_to_desktop: attached,
        rotation,
    }
}

fn bounds() -> DisplayArea {
    DisplayArea { left: -1920, top: 0, width: 3840, height: 1090 }
}

fn host(outputs: Vec<OutputDescription>) -> DisplayHost {
    Host::Windows(Ok(DisplayOutputs { outputs, virtual_bounds: bounds() }))
}

fn three_outputs() -> DisplayHost {
    host(vec![
        output("\\\\.\\DISPLAY1", 0, 1920, true, 1),
        output("\\\\.\\DISPLAY2", 1920, 800, false, 1),
        output("\\\\.\\DISPLAY3", -1920, 1920, true, 2),
    ])
}

#[test]
fn rectangles_become_areas_with_the_same_edges() {
    let area = rect_to_area(Rect { left: -5, top: 7, right: 15, bottom: 57 });

    assert_eq!(area, DisplayArea { left: -5, top: 7, width: 20, height: 50 });
    assert_eq!((area.right(), area.bottom()), (15, 57));
}

#[test]
fn rectangles_that_are_inside_out_keep_their_edges_too() {
    let area = rect_to_area(Rect { left: 10, top: 0, right: 8, bottom: 0 });

    assert_eq!(area, DisplayArea { left: 10, top: 0, width: 0xffff_fffe, height: 0 });
    assert_eq!(area.right(), 8);
}

#[test]
fn desktop_bounds_are_read_from_four_metrics() {
    assert_eq!(
        read_virtual_desktop_bounds(-1920, -3, 3840, 1080),
        DisplayArea { left: -1920, top: -3, width: 3840, height: 1080 }
    );
    assert_eq!(
        read_virtual_desktop_bounds(0, 0, -1, 0),
        DisplayArea { left: 0, top: 0, width: u32::MAX, height: 0 }
    );
}

#[test]
fn displays_are_described_by_name_and_size() {
    let display = display_from_desc(&output("\\\\.\\DISPLAY1", 0, 1920, true, 1), bounds());

    assert_eq!(display.name, "\\\\.\\DISPLAY1");
    assert_eq!(display.friendly_name, "\\\\.\\DISPLAY1 (1920x1080)");
    assert_eq!(display.area, DisplayArea { left: 0, top: 10, width: 1920, height: 1080 });
    assert_eq!(display.virtual_desktop.bounds, bounds());
}

#[test]
fn rotated_displays_are_described_as_such() {
    for rotation in [0, 2, 3, 4] {
        let display = display_from_desc(&output("D", 0, 1920, true, rotation), bounds());
        assert_eq!(display.friendly_name, "D (rotated)");
    }
}

#[test]
fn only_attached_outputs_are_displays() {
    let displays = enumerate_displays(&three_outputs()).unwrap();

    let names: Vec<&str> = displays.iter().map(|display| display.name.as_str()).collect();
    assert_eq!(names, ["\\\\.\\DISPLAY1", "\\\\.\\DISPLAY3"]);
}

#[test]
fn listing_fails_without_displays() {
    let nothing = enumerate_displays(&host(vec![output("D", 0, 1, false, 1)])).unwrap_err();
    let failed = enumerate_displays(&Host::Windows(Err("no factory".to_string()))).unwrap_err();
    let unsupported = enumerate_displays(&Host::Unsupported).unwrap_err();

    assert!(matches!(nothing, DisplayError::NoOutputs));
    assert_eq!(nothing.message(), "No desktop-attached outputs were found");
    assert!(matches!(failed, DisplayError::Query(_)));
    assert_eq!(failed.message(), "no factory");
    assert!(matches!(unsupported, DisplayError::Unsupported));
    assert_eq!(unsupported.message(), "Desktop Duplication is only supported on Windows");
}

#[test]
fn displays_are_found_by_name_in_any_case() {
    let display = find_display(&three_outputs(), "\\\\.\\display3").unwrap();

    assert_eq!(display.name, "\\\\.\\DISPLAY3");
    assert_eq!(display.area.left, -1920);
}

#[test]
fn the_first_of_two_displays_with_a_name_is_found() {
    let twice = host(vec![output("D", 1, 5, true, 1), output("d", 2, 5, true, 1)]);

    assert_eq!(find_display(&twice, "d").unwrap().area.left, 1);
}

#[test]
fn displays_that_are_not_attached_are_not_found() {
    let error = find_display(&three_outputs(), "\\\\.\\DISPLAY2").unwrap_err();

    assert!(matches!(error, DisplayError::NotFound(_)));
    assert_eq!(error.message(), "Display '\\\\.\\DISPLAY2' was not found");
    assert!(matches!(
        find_display(&Host::Unsupported, "D").unwrap_err(),
        DisplayError::Unsupported
    ));
}

#[test]
fn outputs_are_found_by_name() {
    let adapter = AdapterOutputs { device_names: vec![units("A"), units("B")], failure: None };

    assert_eq!(find_output(&adapter, "b").unwrap(), Some(1));
    assert_eq!(find_output(&adapter, "C").unwrap(), None);
    assert_eq!(locate_output(&adapter, "B").unwrap(), 1);
    let gone = locate_output(&adapter, "C").unwrap_err();
    assert!(matches!(gone, DisplayError::Gone(_)));
    assert_eq!(gone.message(), "Display 'C' is no longer available");
}

#[test]
fn outputs_before_a_failure_are_still_found() {
    let adapter =
        AdapterOutputs { device_names: vec![units("A")], failure: Some("lost".to_string()) };

    assert_eq!(find_output(&adapter, "a").unwrap(), Some(0));
    assert_eq!(locate_output(&adapter, "a").unwrap(), 0);
    assert_eq!(find_output(&adapter, "B").unwrap_err().message(), "lost");
    assert_eq!(locate_output(&adapter, "B").unwrap_err().message(), "lost");
}

#[test]
fn denied_access_is_explained() {
    let denied = duplication_error(0x8007_0005_u32 as i32, "denied".to_string());

    assert!(matches!(denied, DisplayError::AccessDenied));
    assert_eq!(
        denied.message(),
        "Desktop Duplication access was denied. Run from the interactive user session on the GPU that owns the target display"
    );
    assert_eq!(duplication_error(-1, "other".to_string()).message(), "other");
}

#[test]
fn devices_have_to_be_complete_and_new_enough() {
    assert!(create_device(true, true, 0xb000).is_ok());
    let no_device = create_device(false, true, 0xb000).unwrap_err();
    let no_context = create_device(true, false, 0xb000).unwrap_err();
    let old = create_device(true, true, 0xa100).unwrap_err();
    assert_eq!(no_device.message(), "D3D11CreateDevice returned no device");
    assert_eq!(no_context.message(), "D3D11CreateDevice returned no device context");
    assert_eq!(old.message(), "Desktop Duplication requires a D3D11-capable adapter");
}

#[test]
fn displays_are_listed_line_by_line() {
    assert_eq!(
        list_displays(&three_outputs()).unwrap(),
        [
            "\\\\.\\DISPLAY1\t\\\\.\\DISPLAY1 (1920x1080)\t(0, 10) 1920x1080",
            "\\\\.\\DISPLAY3\t\\\\.\\DISPLAY3 (rotated)\t(-1920, 10) 1920x1080",
        ]
    );
    assert_eq!(
        list_displays(&Host::Unsupported).unwrap_err().message(),
        "Desktop Duplication is only supported on Windows"
    );
}
