use desktop_environment::geometry::{DisplayArea, PointerSample, VirtualDesktop};
use desktop_environment::single::Single;

fn sample(x: f32, y: f32) -> PointerSample {
    PointerSample { x: Single::from_bits(x.to_bits()), y: Single::from_bits(y.to_bits()) }
}

#[test]
fn maps_window_pointer_into_source_display() {
    let desktop = VirtualDesktop {
        bounds: DisplayArea { left: -1920, top: 0, width: 3840, height: 1080 },
    };

    let mapped = desktop.map_window_pointer(
        DisplayArea { left: 0, top: 0, width: 1920, height: 1080 },
        (960, 540),
        sample(480.0, 270.0),
    );

    assert_eq!(mapped, Some((960, 540)));
}

#[test]
fn normalizes_absolute_mouse_coordinates() {
    let desktop =
        VirtualDesktop { bounds: DisplayArea { left: 0, top: 0, width: 1920, height: 1080 } };

    let absolute = desktop.absolute_mouse(1919, 1079);

    assert_eq!(absolute, Some((65_535, 65_535)));
}

fn native_map(
    display: DisplayArea,
    window: (u32, u32),
    x: f32,
    y: f32,
) -> Option<(i32, i32)> {
    if window.0 == 0 || window.1 == 0 {
        return None;
    }
    let x_ratio = x.clamp(0.0, window.0 as f32) / window.0 as f32;
    let y_ratio = y.clamp(0.0, window.1 as f32) / window.1 as f32;
    let display_x = display.left + (x_ratio * display.width as f32).round() as i32;
    let display_y = display.top + (y_ratio * display.height as f32).round() as i32;
    display.contains(display_x, display_y).then_some((display_x, display_y))
}

fn native_absolute(offset: u32, length: u32) -> i32 {
    let span = length.saturating_sub(1).max(1) as f32;
    ((offset as f32 / span) * 65_535.0).round() as i32
}

#[test]
fn edges_are_one_past_the_area() {
    let area = DisplayArea { left: -1920, top: 40, width: 1920, height: 1080 };

    assert_eq!(area.right(), 0);
    assert_eq!(area.bottom(), 1120);
    assert!(area.contains(-1920, 40));
    assert!(area.contains(-1, 1119));
    assert!(!area.contains(0, 40));
    assert!(!area.contains(-1, 1120));
    assert!(!area.contains(-1921, 40));
    assert!(!area.contains(-1, 39));
}

#[test]
fn empty_areas_contain_nothing() {
    let area = DisplayArea { left: 5, top: 5, width: 0, height: 10 };

    assert!(!area.contains(5, 5));
    assert_eq!(area.right(), 5);
}

#[test]
fn lengths_from_two_to_the_31_read_as_negative() {
    let area = DisplayArea { left: 10, top: 0, width: 0xffff_ffff, height: 1 };

    assert_eq!(area.right(), 9);
    assert!(!area.contains(10, 0));
}

#[test]
fn edges_outside_the_coordinates_are_noticed() {
    let wide = DisplayArea { left: i32::MAX, top: 0, width: 1, height: 1 };
    let tall = DisplayArea { left: 0, top: i32::MAX, width: 10, height: 1 };

    assert!(!wide.can_decide(i32::MAX, 0));
    assert!(wide.can_decide(i32::MAX - 1, 0));
    assert!(!wide.contains(i32::MAX - 1, 0));
    assert!(!tall.can_decide(5, i32::MAX));
    assert!(tall.can_decide(5, 0));
    assert!(tall.can_decide(10, i32::MAX));
    assert!(!tall.contains(10, i32::MAX));
}

#[test]
fn empty_windows_map_to_nothing() {
    let desktop = VirtualDesktop {
        bounds: DisplayArea { left: 0, top: 0, width: 1920, height: 1080 },
    };

    assert_eq!(desktop.map_window_pointer(desktop.bounds, (0, 540), sample(1.0, 1.0)), None);
    assert_eq!(desktop.map_window_pointer(desktop.bounds, (960, 0), sample(1.0, 1.0)), None);
}

#[test]
fn window_origin_is_the_display_origin() {
    let area = DisplayArea { left: -1920, top: 17, width: 1920, height: 1080 };
    let desktop = VirtualDesktop { bounds: area };

    for (x, y) in [(0.0, 0.0), (-0.0, -5.5), (-1.0e30, f32::NEG_INFINITY)] {
        assert_eq!(
            desktop.map_window_pointer(area, (800, 600), sample(x, y)),
            Some((-1920, 17))
        );
    }
}

#[test]
fn far_edges_are_outside_the_display() {
    let area = DisplayArea { left: 0, top: 0, width: 1920, height: 1080 };
    let desktop = VirtualDesktop { bounds: area };

    assert_eq!(desktop.map_window_pointer(area, (960, 540), sample(960.0, 10.0)), None);
    assert_eq!(desktop.map_window_pointer(area, (960, 540), sample(10.0, 540.0)), None);
    assert_eq!(desktop.map_window_pointer(area, (960, 540), sample(f32::INFINITY, 10.0)), None);
    assert_eq!(
        desktop.map_window_pointer(area, (960, 540), sample(959.0, 539.0)),
        Some((1918, 1078))
    );
}

#[test]
fn lengths_beyond_single_precision_fall_short_of_the_edge() {
    let area = DisplayArea { left: 0, top: 0, width: 16_777_217, height: 1080 };
    let desktop = VirtualDesktop { bounds: area };

    assert_eq!(
        desktop.map_window_pointer(area, (100, 100), sample(100.0, 0.0)),
        Some((16_777_216, 0))
    );
}

#[test]
fn not_a_number_maps_to_the_first_pixel() {
    let area = DisplayArea { left: 3, top: 4, width: 1920, height: 1080 };
    let desktop = VirtualDesktop { bounds: area };

    assert_eq!(
        desktop.map_window_pointer(area, (960, 540), sample(f32::NAN, f32::NAN)),
        Some((3, 4))
    );
    assert_eq!(native_map(area, (960, 540), f32::NAN, f32::NAN), Some((3, 4)));
}

#[test]
fn mapping_agrees_with_native_singles() {
    let windows = [(1, 1), (3, 7), (960, 540), (1919, 1079), (16_777_217, 99), (u32::MAX, 5)];
    let areas = [
        DisplayArea { left: 0, top: 0, width: 1920, height: 1080 },
        DisplayArea { left: -2560, top: -1, width: 2560, height: 1440 },
        DisplayArea { left: 7, top: -9, width: 1, height: 16_777_219 },
        DisplayArea { left: -5, top: 0, width: 0, height: 3 },
        DisplayArea { left: -2_000_000_000, top: 1, width: 2_000_000_001, height: 2_147_483_000 },
        DisplayArea { left: 0, top: 0, width: u32::MAX, height: 0x8000_0001 },
    ];
    let fixed = [
        0.0,
        -0.0,
        0.5,
        1.0,
        1.5,
        2.999_999_8,
        f32::MIN_POSITIVE,
        f32::from_bits(1),
        f32::from_bits(0x007f_ffff),
        539.5,
        959.999_94,
        1.0e9,
        4.294_967e9,
        f32::MAX,
        f32::INFINITY,
        f32::NEG_INFINITY,
        f32::NAN,
        -7.25,
    ];
    let mut state: u64 = 0x9e37_79b9_7f4a_7c15;
    for window in windows {
        for area in areas {
            let desktop = VirtualDesktop { bounds: area };
            for x in fixed {
                for y in [0.25, 3.0, f32::INFINITY] {
                    assert_eq!(
                        desktop.map_window_pointer(area, window, sample(x, y)),
                        native_map(area, window, x, y),
                        "{x} {y} in {window:?} on {area:?}"
                    );
                }
            }
            for _ in 0..400 {
                state = state.wrapping_mul(6_364_136_223_846_793_005).wrapping_add(1);
                let x = f32::from_bits((state >> 32) as u32);
                state = state.wrapping_mul(6_364_136_223_846_793_005).wrapping_add(1);
                let y = ((state >> 40) as f32 / 16_777_216.0) * window.1 as f32;
                let z = ((state & 0xff_ffff) as f32 / 16_777_216.0) * window.0 as f32;
                for x in [x, z] {
                    assert_eq!(
                        desktop.map_window_pointer(area, window, sample(x, y)),
                        native_map(area, window, x, y),
                        "{x} {y} in {window:?} on {area:?}"
                    );
                }
            }
        }
    }
}

#[test]
fn absolute_coordinates_reach_both_ends() {
    let desktop = VirtualDesktop {
        bounds: DisplayArea { left: -1920, top: -200, width: 3840, height: 1280 },
    };

    assert_eq!(desktop.absolute_mouse(-1920, -200), Some((0, 0)));
    assert_eq!(desktop.absolute_mouse(1919, 1079), Some((65_535, 65_535)));
    assert_eq!(desktop.absolute_mouse(0, 440), Some((32_776, 32_793)));
}

#[test]
fn points_outside_the_desktop_have_no_absolute_coordinates() {
    let desktop =
        VirtualDesktop { bounds: DisplayArea { left: 0, top: 0, width: 1920, height: 1080 } };

    assert_eq!(desktop.absolute_mouse(1920, 0), None);
    assert_eq!(desktop.absolute_mouse(0, 1080), None);
    assert_eq!(desktop.absolute_mouse(-1, 0), None);
    assert_eq!(desktop.absolute_mouse(0, -1), None);
}

#[test]
fn a_desktop_of_one_pixel_has_the_first_coordinate_only() {
    let desktop = VirtualDesktop { bounds: DisplayArea { left: 9, top: 9, width: 1, height: 1 } };

    assert_eq!(desktop.absolute_mouse(9, 9), Some((0, 0)));
}

#[test]
fn absolute_coordinates_agree_with_native_singles_and_keep_the_order() {
    for length in [1, 2, 3, 1080, 1920, 3840, 65_536, 100_003, 16_777_219, 2_147_483_647] {
        let desktop = VirtualDesktop {
            bounds: DisplayArea { left: 0, top: 0, width: length, height: 1 },
        };
        let step = (length / 2000).max(1);
        let mut offset = 0;
        let mut previous = 0;
        while offset < length {
            let (x, y) = desktop.absolute_mouse(offset as i32, 0).unwrap();
            assert_eq!((x, y), (native_absolute(offset, length), 0), "{offset} of {length}");
            assert!(previous <= x && x <= 65_535);
            previous = x;
            offset += step;
        }
    }
}

#[test]
fn mapped_points_of_a_display_lie_on_its_desktop() {
    let desktop = VirtualDesktop {
        bounds: DisplayArea { left: -1920, top: 0, width: 3840, height: 1080 },
    };
    let display = DisplayArea { left: -1920, top: 0, width: 1920, height: 1080 };

    for x in 0..800 {
        let mapped = desktop.map_window_pointer(display, (800, 600), sample(x as f32, 3.0));
        if let Some((x, y)) = mapped {
            assert!(desktop.absolute_mouse(x, y).is_some());
        }
    }
}

#[test]
fn pixels_of_a_window_of_the_same_size_stand_for_themselves() {
    for length in [1, 2, 3, 1080, 1920, 3841, 65_537, 4_194_303, 4_194_304] {
        let area = DisplayArea { left: -7, top: 5, width: length, height: length };
        let desktop = VirtualDesktop { bounds: area };
        let step = (length / 3000).max(1);
        let mut pixel = 0;
        while pixel < length {
            let last = length - 1 - pixel;
            assert_eq!(
                desktop.map_window_pointer(
                    area,
                    (length, length),
                    sample(pixel as f32, last as f32)
                ),
                Some((pixel as i32 - 7, last as i32 + 5))
            );
            pixel += step;
        }
    }
}

#[test]
fn positions_keep_their_order() {
    let area = DisplayArea { left: 0, top: 0, width: 1920, height: 1080 };
    let desktop = VirtualDesktop { bounds: area };
    let mut previous = 0;
    for step in 0..4000 {
        let position = sample(step as f32 * 0.1999, 0.0);
        if let Some((x, _)) = desktop.map_window_pointer(area, (800, 600), position) {
            assert!(previous <= x);
            previous = x;
        }
    }
    assert_eq!(previous, 1919);
}
