use ambient_lighting::kernel::{get_pixel_address, Kernel, MAX_KERNEL_SIZE, WEIGHT_ONE};

fn identity_kernel() -> Kernel {
    Kernel {
        weights: vec![WEIGHT_ONE; MAX_KERNEL_SIZE],
        width: 1,
        height: 1,
        coefficient_num: 1,
        coefficient_den: 1,
    }
}

/// A dense BGRA frame of one constant color.
fn flat_frame(width: usize, height: usize, r: u8, g: u8, b: u8) -> Vec<u8> {
    let mut out = Vec::new();
    for _ in 0..width * height {
        out.push(b);
        out.push(g);
        out.push(r);
        out.push(255);
    }
    out
}

#[test]
fn kernel_test() {
    let _k = Kernel {
        weights: vec![WEIGHT_ONE; MAX_KERNEL_SIZE],
        width: 3,
        height: 3,
        coefficient_num: 1,
        coefficient_den: 1,
    };
    assert_eq!(1, 1);
}

#[test]
fn identity_kernel_returns_the_pixel_itself() {
    // 2x2 frame with four distinct colors, BGRA per pixel
    let frame = vec![
        1, 2, 3, 0, // pixel (0,0): b=1 g=2 r=3
        4, 5, 6, 0, // pixel (1,0)
        7, 8, 9, 0, // pixel (0,1)
        10, 11, 12, 0, // pixel (1,1)
    ];
    let k = identity_kernel();
    assert_eq!(k.kernel_pass_result(&frame, 2, 2, 0, 0), [3, 2, 1]);
    assert_eq!(k.kernel_pass_result(&frame, 2, 2, 1, 0), [6, 5, 4]);
    assert_eq!(k.kernel_pass_result(&frame, 2, 2, 0, 1), [9, 8, 7]);
    assert_eq!(k.kernel_pass_result(&frame, 2, 2, 1, 1), [12, 11, 10]);
}

#[test]
fn box_filter_of_a_flat_field_is_the_field() {
    let frame = flat_frame(5, 5, 200, 100, 50);
    for (w, h) in [(1, 1), (2, 2), (3, 3), (2, 3)] {
        let k = Kernel::averaging(w, h).unwrap();
        // center far enough from the border that the window is inside
        assert_eq!(k.kernel_pass_result(&frame, 5, 5, 2, 2), [200, 100, 50]);
    }
}

#[test]
fn out_of_frame_taps_sample_black() {
    // a 3x3 box filter at the frame's corner: only 4 of 9 taps land inside,
    // so the average of a white field darkens to 255 * 4 / 9 = 113
    let frame = flat_frame(4, 4, 255, 255, 255);
    let k = Kernel::averaging(3, 3).unwrap();
    assert_eq!(k.kernel_pass_result(&frame, 4, 4, 0, 0), [113, 113, 113]);
}

#[test]
fn oversized_kernel_requests_fail_validation() {
    assert!(Kernel::averaging(0, 4).is_none());
    assert!(Kernel::averaging(4, 0).is_none());
    assert!(Kernel::averaging(33, 32).is_none());
    assert!(Kernel::averaging(32, 32).is_some());
    assert!(Kernel::averaging(12, 12).is_some());
}

#[test]
fn averaging_coefficient_is_one_over_the_tap_count() {
    let k = Kernel::averaging(12, 12).unwrap();
    assert_eq!(k.width, 12);
    assert_eq!(k.height, 12);
    assert_eq!(k.coefficient_num, 1);
    assert_eq!(k.coefficient_den, 144);
    assert!(k.weights.iter().all(|&w| w == WEIGHT_ONE));
}

#[test]
fn pixel_addresses_are_dense_row_major() {
    assert_eq!(get_pixel_address(0, 0, 4, 4), Some(0));
    assert_eq!(get_pixel_address(3, 0, 4, 4), Some(12));
    assert_eq!(get_pixel_address(0, 1, 4, 4), Some(16));
    assert_eq!(get_pixel_address(3, 3, 4, 4), Some(60));
    assert_eq!(get_pixel_address(4, 0, 4, 4), None);
    assert_eq!(get_pixel_address(0, 4, 4, 4), None);
}

#[test]
fn default_kernel_is_the_identity() {
    let k = Kernel::default();
    assert_eq!(k.width, 1);
    assert_eq!(k.height, 1);
    assert_eq!(k.coefficient_num, 1);
    assert_eq!(k.coefficient_den, 1);
    let frame = vec![9, 8, 7, 0];
    assert_eq!(k.kernel_pass_result(&frame, 1, 1, 0, 0), [7, 8, 9]);
}
