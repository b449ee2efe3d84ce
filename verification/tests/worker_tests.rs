use ambient_lighting::framerate::FramerateLimiter;
use ambient_lighting::kernel::{Kernel, MAX_KERNEL_SIZE, WEIGHT_ONE};
use ambient_lighting::monitor_config::{
    parse_led_order, Bezel, FrameSize, LEDCount, Monitor, MonitorConfiguration,
};
use ambient_lighting::program_config::ProgramConfiguration;
use ambient_lighting::worker::{
    CaptureEvent, ControlMessages, Error, LoopDirective, OutputAction, SerialAction, Worker,
    WorkerStatus,
};

fn test_monitor_config() -> MonitorConfiguration {
    MonitorConfiguration {
        monitors: vec![Monitor {
            monitor_number: 1,
            led_order: parse_led_order(b"br").unwrap(),
            diagonal_size: 27_000,
            led_distribution: LEDCount { top: 0, left: 0, right: 0, bottom: 4 },
            leds_per_inch: 1_000,
            bezel_thickness: Bezel::default(),
        }],
    }
}

fn displays() -> Vec<FrameSize> {
    vec![FrameSize { width: 1920, height: 1080 }]
}

fn running_worker() -> Worker {
    Worker::new(
        &ProgramConfiguration::default(),
        &test_monitor_config(),
        Kernel::default(),
        0,
        &displays(),
        true,
        true,
        0,
    )
    .unwrap()
}

#[test]
fn serial_failure_outranks_capture_failure() {
    let p = ProgramConfiguration::default();
    let m = test_monitor_config();
    let d = displays();
    let both = Worker::new(&p, &m, Kernel::default(), 0, &d, false, false, 0);
    assert!(matches!(both, Err(Error::OpenSerialError)));
    let serial_only = Worker::new(&p, &m, Kernel::default(), 0, &d, false, true, 0);
    assert!(matches!(serial_only, Err(Error::OpenSerialError)));
    let capture_only = Worker::new(&p, &m, Kernel::default(), 0, &d, true, false, 0);
    assert!(matches!(capture_only, Err(Error::OpenCapturerError)));
}

#[test]
fn a_monitor_without_a_display_fails_construction() {
    let p = ProgramConfiguration::default();
    let mut m = test_monitor_config();
    m.monitors[0].monitor_number = 3;
    let r = Worker::new(&p, &m, Kernel::default(), 0, &displays(), true, true, 0);
    assert!(matches!(r, Err(Error::NoSuchDisplay)));
}

#[test]
fn construction_precomputes_the_coordinate_list() {
    let w = running_worker();
    assert_eq!(w.status, WorkerStatus::Running);
    assert_eq!(w.open_port_name, b"COM0".to_vec());
    assert_eq!(w.monitor_number, 1);
    assert_eq!(w.pixel_locations, vec![(1919, 1079), (1838, 1079), (1756, 1079), (1675, 1079)]);
}

#[test]
fn a_missing_frame_skips_the_iteration_for_one_period() {
    let w = running_worker();
    // 20 Hz: the skip sleeps one 50 ms period
    assert_eq!(w.read_and_output(CaptureEvent::NotReady), OutputAction::Wait(50));
}

#[test]
fn a_frame_becomes_one_rgb_byte_per_channel_per_led() {
    // a 2x1 frame with two distinct colors and an identity kernel at
    // coordinates (0,0) and (1,0)
    let w = Worker {
        open_port_name: b"COM0".to_vec(),
        monitor_number: 1,
        display_index: 0,
        frame: FrameSize { width: 2, height: 1 },
        blur_kernel: Kernel::default(),
        refreshrate: FramerateLimiter::new(20_000, 0),
        pixel_locations: vec![(0, 0), (1, 0)],
        status: WorkerStatus::Running,
    };
    let frame = vec![
        1, 2, 3, 0, // pixel (0,0): b=1 g=2 r=3
        4, 5, 6, 0, // pixel (1,0)
    ];
    let out = w.read_and_output(CaptureEvent::Frame(frame));
    assert_eq!(out, OutputAction::Transmit(vec![3, 2, 1, 6, 5, 4]));
}

#[test]
fn stop_requests_stop_within_one_iteration() {
    let mut w = running_worker();
    let d = w.handle_message(Some(ControlMessages::StopWorker), false);
    assert_eq!(d, LoopDirective::Stop);
    assert_eq!(w.status, WorkerStatus::Stopped);
}

#[test]
fn a_hung_up_control_channel_stops_the_worker() {
    let mut w = running_worker();
    let d = w.handle_message(None, true);
    assert_eq!(d, LoopDirective::Stop);
    assert_eq!(w.status, WorkerStatus::Stopped);
}

#[test]
fn update_requests_reload_without_stopping() {
    let mut w = running_worker();
    let d = w.handle_message(Some(ControlMessages::UpdateConfiguration), false);
    assert_eq!(d, LoopDirective::Reload);
    assert_eq!(w.status, WorkerStatus::Running);
    let d = w.handle_message(None, false);
    assert_eq!(d, LoopDirective::Continue);
    assert_eq!(w.status, WorkerStatus::Running);
}

#[test]
fn a_changed_port_name_asks_for_a_reopen() {
    let mut w = running_worker();
    w.open_port_name = b"com0".to_vec();
    let p = ProgramConfiguration::default(); // port COM0
    // case-insensitive: com0 and COM0 are the same port
    let actions = w.update_settings(Some(&p), None, None, &displays());
    assert_eq!(actions.serial, Some(SerialAction::ApplyInPlace));
    let mut changed = ProgramConfiguration::default();
    changed.serial_port = b"COM4".to_vec();
    let actions = w.update_settings(Some(&changed), None, None, &displays());
    assert_eq!(actions.serial, Some(SerialAction::Reopen));
    assert!(actions.swap_capturer.is_none());
}

#[test]
fn a_new_kernel_is_swapped_wholesale() {
    let mut w = running_worker();
    let k = Kernel {
        weights: vec![WEIGHT_ONE; MAX_KERNEL_SIZE],
        width: 3,
        height: 3,
        coefficient_num: 1,
        coefficient_den: 9,
    };
    let actions = w.update_settings(None, None, Some(k), &displays());
    assert!(actions.serial.is_none());
    assert!(actions.swap_capturer.is_none());
    assert_eq!(w.blur_kernel.width, 3);
    assert_eq!(w.blur_kernel.coefficient_den, 9);
}

#[test]
fn a_new_layout_recomputes_coordinates_and_swaps_the_capturer() {
    let mut w = running_worker();
    let mut m = test_monitor_config();
    m.monitors[0].monitor_number = 2;
    m.monitors[0].led_distribution.bottom = 2;
    let two_displays = vec![
        FrameSize { width: 1920, height: 1080 },
        FrameSize { width: 1920, height: 1080 },
    ];
    let actions = w.update_settings(None, Some(&m), None, &two_displays);
    assert_eq!(actions.swap_capturer, Some(2));
    assert_eq!(w.monitor_number, 2);
    assert_eq!(w.pixel_locations.len(), 2);
}

#[test]
fn a_layout_arriving_with_a_kernel_maps_with_the_new_kernel() {
    // a 3x3 kernel insets the starting point by 1.5 pixels; the recomputed
    // top-left run must reflect the incoming kernel, not the outgoing one
    let mut w = running_worker();
    let mut m = test_monitor_config();
    m.monitors[0].led_order = parse_led_order(b"tl").unwrap();
    m.monitors[0].led_distribution = LEDCount { top: 1, left: 0, right: 0, bottom: 0 };
    let k = Kernel::averaging(3, 3).unwrap();
    let _ = w.update_settings(None, Some(&m), Some(k), &displays());
    assert_eq!(w.pixel_locations, vec![(2, 2)]);
    assert_eq!(w.blur_kernel.width, 3);
}

#[test]
fn a_failed_layout_recompute_leaves_the_worker_untouched() {
    let mut w = running_worker();
    let before = w.pixel_locations.clone();
    let mut m = test_monitor_config();
    m.monitors[0].monitor_number = 9; // no such display
    let actions = w.update_settings(None, Some(&m), None, &displays());
    assert!(actions.swap_capturer.is_none());
    assert_eq!(w.monitor_number, 1);
    assert_eq!(w.pixel_locations, before);
}

#[test]
fn ticking_advances_the_rate_limiter() {
    let mut w = running_worker();
    let wait = w.tick(0);
    assert_eq!(wait, 50);
    let wait = w.tick(60);
    assert_eq!(wait, 40);
}
