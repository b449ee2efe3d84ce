use ambient_lighting::kernel::Kernel;
use ambient_lighting::monitor_config::{
    parse_led_order, Bezel, FrameSize, LEDCount, MapError, Monitor, MonitorConfiguration,
};
use ambient_lighting::side::Side;

fn p7_monitor() -> Monitor {
    Monitor {
        monitor_number: 1,
        led_order: parse_led_order(b"br").unwrap(),
        diagonal_size: 27_000, // 27 inches
        led_distribution: LEDCount { top: 0, left: 0, right: 0, bottom: 4 },
        leds_per_inch: 1_000, // 1 LED per inch
        bezel_thickness: Bezel::default(),
    }
}

#[test]
fn led_order_parses_symbol_pairs() {
    let order = parse_led_order(b"br").unwrap();
    assert_eq!(order.data.len(), 1);
    assert_eq!(order.data[0].side, Side::BOTTOM);
    assert_eq!(order.data[0].direction, Side::RIGHT);

    let order = parse_led_order(b"tlbr").unwrap();
    assert_eq!(order.data.len(), 2);
    assert_eq!(order.data[0].side, Side::TOP);
    assert_eq!(order.data[0].direction, Side::LEFT);
    assert_eq!(order.data[1].side, Side::BOTTOM);
    assert_eq!(order.data[1].direction, Side::RIGHT);

    assert_eq!(parse_led_order(b"").unwrap().data.len(), 0);
}

#[test]
fn unknown_symbols_are_a_hard_layout_error() {
    assert_eq!(parse_led_order(b"bx").unwrap_err(), MapError::LayoutError);
    assert_eq!(parse_led_order(b"qr").unwrap_err(), MapError::LayoutError);
    // a dangling edge symbol with no direction symbol
    assert_eq!(parse_led_order(b"b").unwrap_err(), MapError::LayoutError);
    assert_eq!(parse_led_order(b"brt").unwrap_err(), MapError::LayoutError);
}

#[test]
fn output_length_follows_the_wiring_order_only() {
    // the top edge has LEDs assigned but is absent from the wiring order,
    // so it contributes no coordinates
    let mut monitor = p7_monitor();
    monitor.led_distribution.top = 7;
    let config = MonitorConfiguration { monitors: vec![monitor] };
    let displays = vec![FrameSize { width: 1920, height: 1080 }];
    let k = Kernel::default();
    let coords = config.get_pixel_locations(&k, &displays).unwrap();
    assert_eq!(coords.len(), 4);

    // naming the top edge twice counts it twice
    let mut monitor = p7_monitor();
    monitor.led_distribution.top = 7;
    monitor.led_order = parse_led_order(b"tltl").unwrap();
    let config = MonitorConfiguration { monitors: vec![monitor] };
    let coords = config.get_pixel_locations(&k, &displays).unwrap();
    assert_eq!(coords.len(), 14);
}

#[test]
fn mapper_is_deterministic() {
    let config = MonitorConfiguration { monitors: vec![p7_monitor()] };
    let displays = vec![FrameSize { width: 1920, height: 1080 }];
    let k = Kernel::default();
    let a = config.get_pixel_locations(&k, &displays).unwrap();
    let b = config.get_pixel_locations(&k, &displays).unwrap();
    assert_eq!(a, b);
}

#[test]
fn four_leds_along_the_bottom_edge_of_a_27_inch_monitor() {
    // 27 in diagonal, 1 LED per inch, no bezel, bottom edge read from the
    // right end, on a 1920x1080 frame with the 1x1 identity kernel: LED 0
    // sits at the right end and x descends, about 81.5 pixels per LED
    let config = MonitorConfiguration { monitors: vec![p7_monitor()] };
    let displays = vec![FrameSize { width: 1920, height: 1080 }];
    let k = Kernel::default();
    let coords = config.get_pixel_locations(&k, &displays).unwrap();
    assert_eq!(coords.len(), 4);
    assert_eq!(coords, vec![(1919, 1079), (1838, 1079), (1756, 1079), (1675, 1079)]);
}

#[test]
fn every_coordinate_lies_inside_the_frame() {
    // the bottom run hugs the frame's lower border; every sample center
    // still lies strictly inside the frame
    let config = MonitorConfiguration { monitors: vec![p7_monitor()] };
    let displays = vec![FrameSize { width: 1920, height: 1080 }];
    let k = Kernel::default();
    let coords = config.get_pixel_locations(&k, &displays).unwrap();
    for (x, y) in coords {
        assert!(x < 1920);
        assert!(y < 1080);
    }
}

#[test]
fn direction_names_the_end_holding_the_first_led() {
    // the same edge read from either end gives the same positions in
    // opposite orders
    let mut from_right = p7_monitor();
    from_right.led_order = parse_led_order(b"br").unwrap();
    let mut from_left = p7_monitor();
    from_left.led_order = parse_led_order(b"bl").unwrap();
    let displays = vec![FrameSize { width: 1920, height: 1080 }];
    let k = Kernel::default();
    let rightward = MonitorConfiguration { monitors: vec![from_right] }
        .get_pixel_locations(&k, &displays)
        .unwrap();
    let leftward = MonitorConfiguration { monitors: vec![from_left] }
        .get_pixel_locations(&k, &displays)
        .unwrap();
    assert!(rightward[0].0 > rightward[3].0);
    assert!(leftward[0].0 < leftward[3].0);
    assert_eq!(leftward[0], (1, 1079));
}

#[test]
fn a_monitor_naming_no_display_is_rejected() {
    let mut monitor = p7_monitor();
    monitor.monitor_number = 2;
    let config = MonitorConfiguration { monitors: vec![monitor] };
    let displays = vec![FrameSize { width: 1920, height: 1080 }];
    let k = Kernel::default();
    assert_eq!(config.get_pixel_locations(&k, &displays).unwrap_err(), MapError::NoSuchDisplay);
}

#[test]
fn default_configuration_maps_to_no_leds() {
    let config = MonitorConfiguration::default();
    let displays = vec![FrameSize { width: 1920, height: 1080 }];
    let k = Kernel::default();
    assert_eq!(config.get_pixel_locations(&k, &displays).unwrap().len(), 0);
}

#[test]
fn wiring_order_displays_in_words() {
    let order = parse_led_order(b"brtl").unwrap();
    assert_eq!(order.to_display_string(), "From Bottom To Right, From Top To Left");
    let order = parse_led_order(b"").unwrap();
    assert_eq!(order.to_display_string(), "");
}

#[test]
fn side_symbols_and_names() {
    assert_eq!(Side::from_char('t'), Some(Side::TOP));
    assert_eq!(Side::from_char('b'), Some(Side::BOTTOM));
    assert_eq!(Side::from_char('l'), Some(Side::LEFT));
    assert_eq!(Side::from_char('r'), Some(Side::RIGHT));
    assert_eq!(Side::from_char('x'), None);
    assert_eq!(Side::TOP.name(), "Top");
    assert_eq!(Side::LEFT.name(), "Left");
    assert_eq!(Side::BOTTOM.name(), "Bottom");
    assert_eq!(Side::RIGHT.name(), "Right");
}
