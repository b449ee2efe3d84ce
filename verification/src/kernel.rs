//! Convolution sampler: a weighted average of the frame pixels around a
//! sampling point, with out-of-frame taps contributing black.
//!
//! Tap weights are Q16.16 fixed point (`WEIGHT_ONE` is 1.0) and the
//! coefficient is an exact rational, so an averaging kernel reproduces a flat
//! field exactly.

use vstd::arithmetic::div_mod::*;
use vstd::arithmetic::mul::*;
use vstd::prelude::*;

verus! {

/// Most taps a kernel may hold (a 32 x 32 grid).
pub const MAX_KERNEL_SIZE: usize = 32 * 32;

/// The Q16.16 fixed-point representation of a tap weight of one.
pub const WEIGHT_ONE: u32 = 65536;

/// Byte address of the first channel of pixel `(x, y)` in a dense row-major
/// frame of 4-byte pixels, or `None` when the pixel lies outside the frame.
pub open spec fn spec_pixel_address(x: int, y: int, image_width: int, image_height: int) -> Option<
    int,
> {
    if y >= image_height || x >= image_width {
        None
    } else {
        Some((image_width * y + x) * 4)
    }
}

/// Byte address of pixel `(x, y)` in a `image_width` x `image_height` frame
/// with 4 bytes per pixel, or `None` when the pixel is outside the frame.
pub fn get_pixel_address(x: usize, y: usize, image_width: usize, image_height: usize) -> (r: Option<
    usize,
>)
    requires
        image_width * image_height * 4 <= usize::MAX,
    ensures
        ({
            let s = spec_pixel_address(x as int, y as int, image_width as int, image_height as int);
            match r {
                None => s is None,
                Some(a) => s == Some(a as int),
            }
        }),
        r matches Some(a) ==> a + 3 < image_width * image_height * 4,
{
    if y >= image_height || x >= image_width {
        None
    } else {
        proof {
            assert(image_width * y + x + 1 <= image_width * image_height) by (nonlinear_arith)
                requires
                    y < image_height,
                    x < image_width,
                    0 <= x,
                    0 <= y,
            ;
            lemma_mul_inequality(
                image_width * y + x + 1,
                image_width * image_height,
                4,
            );
        }
        let row = image_width * y;
        let column = x;
        Some((row + column) * 4)
    }
}

/// A convolution kernel: a `width` x `height` grid of Q16.16 tap weights
/// stored row-major in a fixed arena, and a rational scale coefficient
/// `coefficient_num / coefficient_den` applied to the weighted sum.
pub struct Kernel {
    /// Tap weights in Q16.16 fixed point, row-major; only the first
    /// `width * height` entries are meaningful.
    pub weights: Vec<u32>,
    pub width: usize,
    pub height: usize,
    /// Numerator of the scale coefficient.
    pub coefficient_num: u32,
    /// Denominator of the scale coefficient; never zero.
    pub coefficient_den: u32,
}

impl Kernel {
    /// Structural invariant: a full weight arena, a nonempty tap grid that
    /// fits in the arena, and a well-defined coefficient.
    pub open spec fn well_formed(&self) -> bool {
        &&& self.weights.len() == MAX_KERNEL_SIZE
        &&& 1 <= self.width
        &&& 1 <= self.height
        &&& self.width * self.height <= MAX_KERNEL_SIZE
        &&& 1 <= self.coefficient_den
    }

    /// Contribution of tap `(kx, ky)` to the weighted sum of the channel at
    /// byte offset `off`: the channel value times the tap weight, or zero when
    /// the tap falls outside the frame.
    pub open spec fn tap_contribution(
        &self,
        img: Seq<u8>,
        iw: int,
        ih: int,
        cx: int,
        cy: int,
        kx: int,
        ky: int,
        off: int,
    ) -> int {
        let left = self.width as int / 2;
        let top = self.height as int / 2;
        if left <= cx + kx && top <= cy + ky {
            match spec_pixel_address(cx + kx - left, cy + ky - top, iw, ih) {
                None => 0,
                Some(a) => img[a + off] * self.weights[ky * self.width + kx],
            }
        } else {
            0
        }
    }

    /// Weighted sum over the first `kx_end` taps of row `ky`.
    pub open spec fn row_tap_sum(
        &self,
        img: Seq<u8>,
        iw: int,
        ih: int,
        cx: int,
        cy: int,
        ky: int,
        kx_end: int,
        off: int,
    ) -> int
        decreases kx_end,
    {
        if kx_end <= 0 {
            0
        } else {
            self.row_tap_sum(img, iw, ih, cx, cy, ky, kx_end - 1, off) + self.tap_contribution(
                img,
                iw,
                ih,
                cx,
                cy,
                kx_end - 1,
                ky,
                off,
            )
        }
    }

    /// Weighted sum over the first `ky_end` full rows of the tap grid.
    pub open spec fn grid_tap_sum(
        &self,
        img: Seq<u8>,
        iw: int,
        ih: int,
        cx: int,
        cy: int,
        ky_end: int,
        off: int,
    ) -> int
        decreases ky_end,
    {
        if ky_end <= 0 {
            0
        } else {
            self.grid_tap_sum(img, iw, ih, cx, cy, ky_end - 1, off) + self.row_tap_sum(
                img,
                iw,
                ih,
                cx,
                cy,
                ky_end - 1,
                self.width as int,
                off,
            )
        }
    }

    /// The sampled value of one channel: the weighted sum over the whole tap
    /// grid, scaled by the coefficient and by the weight scale, truncated,
    /// and clamped to one byte.
    pub open spec fn channel_value(
        &self,
        img: Seq<u8>,
        iw: int,
        ih: int,
        cx: int,
        cy: int,
        off: int,
    ) -> int {
        scale_value(
            self.grid_tap_sum(img, iw, ih, cx, cy, self.height as int, off),
            self.coefficient_num as int,
            self.coefficient_den as int,
        )
    }

    /// Every tap contribution lies between 0 and `255 * u32::MAX`.
    proof fn lemma_tap_contribution_bound(
        &self,
        img: Seq<u8>,
        iw: int,
        ih: int,
        cx: int,
        cy: int,
        kx: int,
        ky: int,
        off: int,
    )
        ensures
            0 <= self.tap_contribution(img, iw, ih, cx, cy, kx, ky, off) <= 255 * 0xffff_ffff,
    {
        let left = self.width as int / 2;
        let top = self.height as int / 2;
        if left <= cx + kx && top <= cy + ky {
            match spec_pixel_address(cx + kx - left, cy + ky - top, iw, ih) {
                None => {},
                Some(a) => {
                    let c = img[a + off] as int;
                    let w = self.weights[ky * self.width + kx] as int;
                    lemma_mul_nonnegative(c, w);
                    lemma_mul_upper_bound(c, 255, w, 0xffff_ffff);
                },
            }
        }
    }

    /// A row's partial sum is bounded by its tap count times the largest
    /// possible contribution.
    proof fn lemma_row_tap_sum_bound(
        &self,
        img: Seq<u8>,
        iw: int,
        ih: int,
        cx: int,
        cy: int,
        ky: int,
        kx_end: int,
        off: int,
    )
        requires
            0 <= kx_end,
        ensures
            0 <= self.row_tap_sum(img, iw, ih, cx, cy, ky, kx_end, off) <= kx_end * (255
                * 0xffff_ffff),
        decreases kx_end,
    {
        if kx_end == 0 {
        } else {
            self.lemma_row_tap_sum_bound(img, iw, ih, cx, cy, ky, kx_end - 1, off);
            self.lemma_tap_contribution_bound(img, iw, ih, cx, cy, kx_end - 1, ky, off);
            assert((kx_end - 1) * (255 * 0xffff_ffff) + 255 * 0xffff_ffff == kx_end * (255
                * 0xffff_ffff)) by (nonlinear_arith);
        }
    }

    /// The grid's partial sum is bounded by its tap count times the largest
    /// possible contribution.
    proof fn lemma_grid_tap_sum_bound(
        &self,
        img: Seq<u8>,
        iw: int,
        ih: int,
        cx: int,
        cy: int,
        ky_end: int,
        off: int,
    )
        requires
            0 <= ky_end,
            1 <= self.width,
        ensures
            0 <= self.grid_tap_sum(img, iw, ih, cx, cy, ky_end, off) <= ky_end * (
            self.width as int) * (255 * 0xffff_ffff),
        decreases ky_end,
    {
        let w = self.width as int;
        let m = 255 * 0xffff_ffff;
        if ky_end == 0 {
            assert(0 * w * m == 0) by (nonlinear_arith);
        } else {
            self.lemma_grid_tap_sum_bound(img, iw, ih, cx, cy, ky_end - 1, off);
            self.lemma_row_tap_sum_bound(img, iw, ih, cx, cy, ky_end - 1, w, off);
            assert((ky_end - 1) * w * m + w * m == ky_end * w * m) by (nonlinear_arith);
        }
    }

    /// A tap whose frame position overflows the machine word samples black:
    /// the frame itself is addressable, so such a position is beyond it.
    proof fn lemma_far_tap_black(
        &self,
        img: Seq<u8>,
        iw: int,
        ih: int,
        cx: int,
        cy: int,
        kx: int,
        ky: int,
        off: int,
    )
        requires
            self.well_formed(),
            iw * ih * 4 <= usize::MAX,
            0 <= iw,
            0 <= ih,
            0 <= cx,
            0 <= cy,
            0 <= kx < self.width,
            0 <= ky < self.height,
            cx + kx > usize::MAX || cy + ky > usize::MAX,
        ensures
            self.tap_contribution(img, iw, ih, cx, cy, kx, ky, off) == 0,
    {
        let w = self.width as int;
        let h = self.height as int;
        assert(w <= w * h && h <= w * h) by (nonlinear_arith)
            requires
                1 <= w,
                1 <= h,
        ;
        let left = w / 2;
        let top = h / 2;
        if left <= cx + kx && top <= cy + ky {
            let x = cx + kx - left;
            let y = cy + ky - top;
            if cx + kx > usize::MAX {
                if ih == 0 {
                    assert(y >= ih);
                } else {
                    assert(iw * 4 <= iw * ih * 4) by (nonlinear_arith)
                        requires
                            1 <= ih,
                            0 <= iw,
                    ;
                    assert(x >= iw);
                }
            } else {
                if iw == 0 {
                    assert(x >= iw);
                } else {
                    assert(ih * 4 <= iw * ih * 4) by (nonlinear_arith)
                        requires
                            1 <= iw,
                            0 <= ih,
                    ;
                    assert(y >= ih);
                }
            }
        }
    }

    /// Build an averaging (box) kernel: every tap weighs 1.0 and the
    /// coefficient is exactly `1 / (width * height)`.  Returns `None` when a
    /// dimension is zero or the tap grid does not fit the arena.
    pub fn averaging(width: usize, height: usize) -> (r: Option<Kernel>)
        ensures
            match r {
                Some(k) => {
                    &&& 1 <= width && 1 <= height && width * height <= MAX_KERNEL_SIZE
                    &&& k.well_formed()
                    &&& k.width == width
                    &&& k.height == height
                    &&& forall|t: int|
                        0 <= t < MAX_KERNEL_SIZE ==> k.weights[t] == WEIGHT_ONE
                    &&& k.coefficient_num == 1
                    &&& k.coefficient_den == width * height
                },
                None => width == 0 || height == 0 || width * height > MAX_KERNEL_SIZE,
            },
    {
        if width == 0 || height == 0 {
            return None;
        }
        let taps = match width.checked_mul(height) {
            Some(t) => t,
            None => {
                return None;
            },
        };
        if taps > MAX_KERNEL_SIZE {
            return None;
        }
        proof {
            assert(1 <= width * height) by (nonlinear_arith)
                requires
                    1 <= width,
                    1 <= height,
            ;
        }
        Some(
            Kernel {
                weights: vec![WEIGHT_ONE; MAX_KERNEL_SIZE],
                width,
                height,
                coefficient_num: 1,
                coefficient_den: taps as u32,
            },
        )
    }

    /// Run the kernel once, centered at `(kernel_apply_x, kernel_apply_y)`,
    /// over a dense BGRA frame, and return the sampled `[r, g, b]` triple.
    /// Taps that fall outside the frame contribute black.
    pub fn kernel_pass_result(
        &self,
        image_data: &Vec<u8>,
        image_width: usize,
        image_height: usize,
        kernel_apply_x: usize,
        kernel_apply_y: usize,
    ) -> (out: [u8; 3])
        requires
            self.well_formed(),
            image_data.len() == image_width * image_height * 4,
        ensures
            out[0] == self.channel_value(
                image_data@,
                image_width as int,
                image_height as int,
                kernel_apply_x as int,
                kernel_apply_y as int,
                2,
            ),
            out[1] == self.channel_value(
                image_data@,
                image_width as int,
                image_height as int,
                kernel_apply_x as int,
                kernel_apply_y as int,
                1,
            ),
            out[2] == self.channel_value(
                image_data@,
                image_width as int,
                image_height as int,
                kernel_apply_x as int,
                kernel_apply_y as int,
                0,
            ),
    {
        let ghost img = image_data@;
        let ghost iw = image_width as int;
        let ghost ih = image_height as int;
        let ghost cx = kernel_apply_x as int;
        let ghost cy = kernel_apply_y as int;
        let kernel_left_start = self.width / 2;
        let kernel_top_start = self.height / 2;

        let mut sum_r: u64 = 0;
        let mut sum_g: u64 = 0;
        let mut sum_b: u64 = 0;

        let mut k_y: usize = 0;
        while k_y < self.height
            invariant
                self.well_formed(),
                image_data.len() == image_width * image_height * 4,
                img == image_data@,
                iw == image_width as int,
                ih == image_height as int,
                cx == kernel_apply_x as int,
                cy == kernel_apply_y as int,
                kernel_left_start == self.width / 2,
                kernel_top_start == self.height / 2,
                k_y <= self.height,
                sum_r == self.grid_tap_sum(img, iw, ih, cx, cy, k_y as int, 2),
                sum_g == self.grid_tap_sum(img, iw, ih, cx, cy, k_y as int, 1),
                sum_b == self.grid_tap_sum(img, iw, ih, cx, cy, k_y as int, 0),
            decreases self.height - k_y,
        {
            let mut k_x: usize = 0;
            while k_x < self.width
                invariant
                    self.well_formed(),
                    image_data.len() == image_width * image_height * 4,
                    img == image_data@,
                    iw == image_width as int,
                    ih == image_height as int,
                    cx == kernel_apply_x as int,
                    cy == kernel_apply_y as int,
                    kernel_left_start == self.width / 2,
                    kernel_top_start == self.height / 2,
                    k_y < self.height,
                    k_x <= self.width,
                    sum_r == self.grid_tap_sum(img, iw, ih, cx, cy, k_y as int, 2)
                        + self.row_tap_sum(img, iw, ih, cx, cy, k_y as int, k_x as int, 2),
                    sum_g == self.grid_tap_sum(img, iw, ih, cx, cy, k_y as int, 1)
                        + self.row_tap_sum(img, iw, ih, cx, cy, k_y as int, k_x as int, 1),
                    sum_b == self.grid_tap_sum(img, iw, ih, cx, cy, k_y as int, 0)
                        + self.row_tap_sum(img, iw, ih, cx, cy, k_y as int, k_x as int, 0),
                decreases self.width - k_x,
            {
                proof {
                    self.lemma_grid_tap_sum_bound(img, iw, ih, cx, cy, k_y as int, 2);
                    self.lemma_grid_tap_sum_bound(img, iw, ih, cx, cy, k_y as int, 1);
                    self.lemma_grid_tap_sum_bound(img, iw, ih, cx, cy, k_y as int, 0);
                    self.lemma_row_tap_sum_bound(img, iw, ih, cx, cy, k_y as int, k_x as int, 2);
                    self.lemma_row_tap_sum_bound(img, iw, ih, cx, cy, k_y as int, k_x as int, 1);
                    self.lemma_row_tap_sum_bound(img, iw, ih, cx, cy, k_y as int, k_x as int, 0);
                    self.lemma_tap_contribution_bound(
                        img, iw, ih, cx, cy, k_x as int, k_y as int, 2);
                    self.lemma_tap_contribution_bound(
                        img, iw, ih, cx, cy, k_x as int, k_y as int, 1);
                    self.lemma_tap_contribution_bound(
                        img, iw, ih, cx, cy, k_x as int, k_y as int, 0);
                    lemma_grid_limits(self.width as int, self.height as int, k_x as int,
                        k_y as int);
                    let w = self.width as int;
                    let m = 255 * 0xffff_ffffint;
                    assert((k_y as int) * w + (k_x as int) + 1 <= MAX_KERNEL_SIZE);
                    assert(((k_y as int) * w) * m + (k_x as int) * m + m <= 1024 * m)
                        by (nonlinear_arith)
                        requires
                            (k_y as int) * w + (k_x as int) + 1 <= 1024,
                            0 <= (k_y as int) * w,
                            0 <= k_x as int,
                            0 <= m,
                    ;
                }
                // Check the additions and subtractions will not wrap around
                match (kernel_apply_x.checked_add(k_x), kernel_apply_y.checked_add(k_y)) {
                    (Some(tap_x), Some(tap_y)) => {
                        let x_in_bounds = kernel_left_start <= tap_x;
                        let y_in_bounds = kernel_top_start <= tap_y;
                        if x_in_bounds && y_in_bounds {
                            let p_address = get_pixel_address(
                                tap_x - kernel_left_start,
                                tap_y - kernel_top_start,
                                image_width,
                                image_height,
                            );
                            match p_address {
                                None => {
                                    // outside the frame: the tap samples black
                                },
                                Some(address) => {
                                    let weight = self.weights[k_y * self.width + k_x];
                                    let b = image_data[address];
                                    let g = image_data[address + 1];
                                    let r = image_data[address + 2];
                                    proof {
                                        lemma_mul_upper_bound(r as int, 255, weight as int,
                                            0xffff_ffff);
                                        lemma_mul_upper_bound(g as int, 255, weight as int,
                                            0xffff_ffff);
                                        lemma_mul_upper_bound(b as int, 255, weight as int,
                                            0xffff_ffff);
                                        lemma_mul_nonnegative(r as int, weight as int);
                                        lemma_mul_nonnegative(g as int, weight as int);
                                        lemma_mul_nonnegative(b as int, weight as int);
                                    }
                                    sum_r = sum_r + (r as u64) * (weight as u64);
                                    sum_g = sum_g + (g as u64) * (weight as u64);
                                    sum_b = sum_b + (b as u64) * (weight as u64);
                                },
                            };
                        }
                    },
                    _ => {
                        proof {
                            self.lemma_far_tap_black(img, iw, ih, cx, cy, k_x as int, k_y as int,
                                2);
                            self.lemma_far_tap_black(img, iw, ih, cx, cy, k_x as int, k_y as int,
                                1);
                            self.lemma_far_tap_black(img, iw, ih, cx, cy, k_x as int, k_y as int,
                                0);
                        }
                    },
                }
                k_x = k_x + 1;
            }
            k_y = k_y + 1;
        }
        let out_r = scale_channel(sum_r, self.coefficient_num, self.coefficient_den);
        let out_g = scale_channel(sum_g, self.coefficient_num, self.coefficient_den);
        let out_b = scale_channel(sum_b, self.coefficient_num, self.coefficient_den);
        [out_r, out_g, out_b]
    }
}

impl Default for Kernel {
    /// The identity kernel: a single tap of weight 1.0 and coefficient 1.
    fn default() -> (r: Self)
        ensures
            r.well_formed(),
            r.width == 1,
            r.height == 1,
            forall|t: int| 0 <= t < MAX_KERNEL_SIZE ==> r.weights[t] == WEIGHT_ONE,
            r.coefficient_num == 1,
            r.coefficient_den == 1,
    {
        proof {
            assert(1int * 1int <= 1024) by (nonlinear_arith);
        }
        Kernel {
            weights: vec![WEIGHT_ONE; MAX_KERNEL_SIZE],
            width: 1,
            height: 1,
            coefficient_num: 1,
            coefficient_den: 1,
        }
    }
}

/// Identity sampling: a 1 x 1 kernel with its single tap weighing 1.0 and a
/// coefficient of 1 returns exactly the color of the pixel it is applied to.
pub proof fn lemma_identity_sampling(
    k: Kernel,
    img: Seq<u8>,
    iw: int,
    ih: int,
    cx: int,
    cy: int,
)
    requires
        k.well_formed(),
        k.width == 1,
        k.height == 1,
        k.weights[0] == WEIGHT_ONE,
        k.coefficient_num == 1,
        k.coefficient_den == 1,
        0 <= cx < iw,
        0 <= cy < ih,
    ensures
        k.channel_value(img, iw, ih, cx, cy, 2) == img[(iw * cy + cx) * 4 + 2],
        k.channel_value(img, iw, ih, cx, cy, 1) == img[(iw * cy + cx) * 4 + 1],
        k.channel_value(img, iw, ih, cx, cy, 0) == img[(iw * cy + cx) * 4],
{
    lemma_identity_channel(k, img, iw, ih, cx, cy, 2);
    lemma_identity_channel(k, img, iw, ih, cx, cy, 1);
    lemma_identity_channel(k, img, iw, ih, cx, cy, 0);
}

/// One channel of the identity-sampling law.
proof fn lemma_identity_channel(k: Kernel, img: Seq<u8>, iw: int, ih: int, cx: int, cy: int, off: int)
    requires
        k.well_formed(),
        k.width == 1,
        k.height == 1,
        k.weights[0] == WEIGHT_ONE,
        k.coefficient_num == 1,
        k.coefficient_den == 1,
        0 <= cx < iw,
        0 <= cy < ih,
    ensures
        k.channel_value(img, iw, ih, cx, cy, off) == img[(iw * cy + cx) * 4 + off],
{
    let a = (iw * cy + cx) * 4;
    let c = img[a + off] as int;
    assert(k.tap_contribution(img, iw, ih, cx, cy, 0, 0, off) == c * WEIGHT_ONE);
    assert(k.row_tap_sum(img, iw, ih, cx, cy, 0, 0, off) == 0);
    assert(k.row_tap_sum(img, iw, ih, cx, cy, 0, 1, off) == c * WEIGHT_ONE);
    assert(k.grid_tap_sum(img, iw, ih, cx, cy, 0, off) == 0);
    assert(k.grid_tap_sum(img, iw, ih, cx, cy, 1, off) == c * WEIGHT_ONE);
    assert((c * WEIGHT_ONE * 1) / (1 * WEIGHT_ONE as int) == c) by (nonlinear_arith)
        requires
            0 <= c,
    ;
}

/// Box-filter invariance on a flat field: a kernel whose taps are uniformly
/// 1.0 with coefficient `1 / (width * height)`, applied anywhere that its
/// whole window lies inside a frame of one constant color, returns exactly
/// that color, whatever the kernel's size.
pub proof fn lemma_flat_field_sampling(
    k: Kernel,
    img: Seq<u8>,
    iw: int,
    ih: int,
    cx: int,
    cy: int,
    red: u8,
    green: u8,
    blue: u8,
)
    requires
        k.well_formed(),
        forall|t: int| 0 <= t < k.width * k.height ==> k.weights[t] == WEIGHT_ONE,
        k.coefficient_num == 1,
        k.coefficient_den == k.width * k.height,
        img.len() == iw * ih * 4,
        forall|i: int| #![trigger img[i]] 0 <= i < iw * ih * 4 && i % 4 == 2 ==> img[i] == red,
        forall|i: int| #![trigger img[i]] 0 <= i < iw * ih * 4 && i % 4 == 1 ==> img[i] == green,
        forall|i: int| #![trigger img[i]] 0 <= i < iw * ih * 4 && i % 4 == 0 ==> img[i] == blue,
        k.width / 2 <= cx,
        k.height / 2 <= cy,
        cx + k.width - 1 - k.width / 2 < iw,
        cy + k.height - 1 - k.height / 2 < ih,
    ensures
        k.channel_value(img, iw, ih, cx, cy, 2) == red,
        k.channel_value(img, iw, ih, cx, cy, 1) == green,
        k.channel_value(img, iw, ih, cx, cy, 0) == blue,
{
    lemma_flat_channel(k, img, iw, ih, cx, cy, 2, red);
    lemma_flat_channel(k, img, iw, ih, cx, cy, 1, green);
    lemma_flat_channel(k, img, iw, ih, cx, cy, 0, blue);
}

/// One channel of the box-filter law.
proof fn lemma_flat_channel(
    k: Kernel,
    img: Seq<u8>,
    iw: int,
    ih: int,
    cx: int,
    cy: int,
    off: int,
    c: u8,
)
    requires
        k.well_formed(),
        forall|t: int| 0 <= t < k.width * k.height ==> k.weights[t] == WEIGHT_ONE,
        k.coefficient_num == 1,
        k.coefficient_den == k.width * k.height,
        img.len() == iw * ih * 4,
        0 <= off < 4,
        forall|i: int| #![trigger img[i]] 0 <= i < iw * ih * 4 && i % 4 == off ==> img[i] == c,
        k.width / 2 <= cx,
        k.height / 2 <= cy,
        cx + k.width - 1 - k.width / 2 < iw,
        cy + k.height - 1 - k.height / 2 < ih,
    ensures
        k.channel_value(img, iw, ih, cx, cy, off) == c,
{
    let w = k.width as int;
    let h = k.height as int;
    lemma_flat_grid(k, img, iw, ih, cx, cy, h, off, c);
    let total = k.grid_tap_sum(img, iw, ih, cx, cy, h, off);
    assert(total == c * WEIGHT_ONE * (w * h));
    let d = (w * h) * (WEIGHT_ONE as int);
    assert(c * WEIGHT_ONE * (w * h) * 1 == ((w * h) * (WEIGHT_ONE as int)) * c)
        by (nonlinear_arith);
    assert(d > 0) by (nonlinear_arith)
        requires
            1 <= w,
            1 <= h,
            d == (w * h) * (WEIGHT_ONE as int),
    ;
    lemma_div_multiples_vanish(c as int, d);
    assert(total * 1 / ((w * h) * WEIGHT_ONE) == c);
}

/// In a flat field, the byte at channel `off` of any pixel holds the field's
/// value for that channel.
proof fn lemma_flat_lookup(img: Seq<u8>, iw: int, ih: int, off: int, c: u8, p: int)
    requires
        forall|i: int| #![trigger img[i]] 0 <= i < iw * ih * 4 && i % 4 == off ==> img[i] == c,
        0 <= off < 4,
        0 <= p < iw * ih,
    ensures
        img[p * 4 + off] == c,
{
    assert(p * 4 + off < iw * ih * 4) by (nonlinear_arith)
        requires
            0 <= p < iw * ih,
            off < 4,
    ;
    lemma_mod_multiples_vanish(p, off, 4);
    assert(4 * p + off == p * 4 + off) by (nonlinear_arith);
    lemma_small_mod(off as nat, 4);
}

/// Row sums under a uniform kernel over a flat field.
proof fn lemma_flat_row(
    k: Kernel,
    img: Seq<u8>,
    iw: int,
    ih: int,
    cx: int,
    cy: int,
    ky: int,
    kx_end: int,
    off: int,
    c: u8,
)
    requires
        k.well_formed(),
        forall|t: int| 0 <= t < k.width * k.height ==> k.weights[t] == WEIGHT_ONE,
        img.len() == iw * ih * 4,
        0 <= off < 4,
        forall|i: int| #![trigger img[i]] 0 <= i < iw * ih * 4 && i % 4 == off ==> img[i] == c,
        k.width / 2 <= cx,
        k.height / 2 <= cy,
        cx + k.width - 1 - k.width / 2 < iw,
        cy + k.height - 1 - k.height / 2 < ih,
        0 <= kx_end <= k.width,
        0 <= ky < k.height,
    ensures
        k.row_tap_sum(img, iw, ih, cx, cy, ky, kx_end, off) == c * WEIGHT_ONE * kx_end,
    decreases kx_end,
{
    let w = k.width as int;
    let h = k.height as int;
    let left = w / 2;
    let top = h / 2;
    if kx_end == 0 {
        assert(c * WEIGHT_ONE * 0 == 0) by (nonlinear_arith);
    } else {
        lemma_flat_row(k, img, iw, ih, cx, cy, ky, kx_end - 1, off, c);
        let kx = kx_end - 1;
        let x = cx + kx - left;
        let y = cy + ky - top;
        assert(x < iw);
        assert(y < ih);
        let p = iw * y + x;
        assert(iw * y + x < iw * ih) by (nonlinear_arith)
            requires
                0 <= x < iw,
                0 <= y < ih,
        ;
        lemma_flat_lookup(img, iw, ih, off, c, p);
        lemma_grid_limits(w, h, kx, ky);
        assert(k.weights[ky * w + kx] == WEIGHT_ONE);
        assert(k.tap_contribution(img, iw, ih, cx, cy, kx, ky, off) == c * WEIGHT_ONE);
        assert(c * WEIGHT_ONE * (kx_end - 1) + c * WEIGHT_ONE == c * WEIGHT_ONE * kx_end)
            by (nonlinear_arith);
    }
}

/// Grid sums under a uniform kernel over a flat field.
proof fn lemma_flat_grid(
    k: Kernel,
    img: Seq<u8>,
    iw: int,
    ih: int,
    cx: int,
    cy: int,
    ky_end: int,
    off: int,
    c: u8,
)
    requires
        k.well_formed(),
        forall|t: int| 0 <= t < k.width * k.height ==> k.weights[t] == WEIGHT_ONE,
        img.len() == iw * ih * 4,
        0 <= off < 4,
        forall|i: int| #![trigger img[i]] 0 <= i < iw * ih * 4 && i % 4 == off ==> img[i] == c,
        k.width / 2 <= cx,
        k.height / 2 <= cy,
        cx + k.width - 1 - k.width / 2 < iw,
        cy + k.height - 1 - k.height / 2 < ih,
        0 <= ky_end <= k.height,
    ensures
        k.grid_tap_sum(img, iw, ih, cx, cy, ky_end, off) == c * WEIGHT_ONE * (
        k.width as int * ky_end),
    decreases ky_end,
{
    let w = k.width as int;
    if ky_end == 0 {
        assert(c * WEIGHT_ONE * (w * 0) == 0) by (nonlinear_arith);
    } else {
        lemma_flat_grid(k, img, iw, ih, cx, cy, ky_end - 1, off, c);
        lemma_flat_row(k, img, iw, ih, cx, cy, ky_end - 1, w, off, c);
        assert(c * WEIGHT_ONE * (w * (ky_end - 1)) + c * WEIGHT_ONE * w == c * WEIGHT_ONE * (w
            * ky_end)) by (nonlinear_arith);
    }
}

/// Overflow-free usable positions: `kernel_apply + tap` stays within `usize`
/// and the weight index stays within the arena.
proof fn lemma_grid_limits(w: int, h: int, kx: int, ky: int)
    requires
        1 <= w,
        1 <= h,
        w * h <= MAX_KERNEL_SIZE,
        0 <= kx < w,
        0 <= ky < h,
    ensures
        ky * w + kx < w * h <= MAX_KERNEL_SIZE,
        0 <= ky * w + kx,
{
    assert(ky * w + kx < w * h) by (nonlinear_arith)
        requires
            0 <= kx < w,
            0 <= ky < h,
    ;
    assert(0 <= ky * w) by (nonlinear_arith)
        requires
            0 <= ky,
            0 <= w,
    ;
}

/// Scale a weighted sum by the rational coefficient and the weight scale,
/// truncating, and clamp the result to one byte.
pub open spec fn scale_value(total: int, num: int, den: int) -> int {
    let v = (total * num) / (den * WEIGHT_ONE);
    if v > 255 {
        255
    } else {
        v
    }
}

/// Apply the coefficient `num / den` to a Q16.16 weighted sum and clamp.
fn scale_channel(total: u64, num: u32, den: u32) -> (r: u8)
    requires
        1 <= den,
    ensures
        r == scale_value(total as int, num as int, den as int),
{
    proof {
        lemma_mul_nonnegative(total as int, num as int);
        lemma_mul_upper_bound(total as int, u64::MAX as int, num as int, u32::MAX as int);
        lemma_mul_upper_bound(den as int, u32::MAX as int, WEIGHT_ONE as int, 65536);
    }
    let prod: u128 = (total as u128) * (num as u128);
    let divisor: u128 = (den as u128) * (WEIGHT_ONE as u128);
    let v: u128 = prod / divisor;
    proof {
        lemma_div_pos_is_pos(prod as int, divisor as int);
    }
    if v > 255 {
        255
    } else {
        v as u8
    }
}

} // verus!
