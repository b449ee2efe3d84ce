//! Monitor layout description and the geometry mapper: from a physical
//! monitor layout and a captured frame's dimensions to the ordered list of
//! pixel positions that back each LED, in strip-wiring order.
//!
//! Physical lengths are held in thousandths of an inch and LED densities in
//! thousandths of an LED per inch, so the mapping is exact integer
//! arithmetic; pixel positions are computed in Q16.16 fixed point.

use crate::fixed;
use crate::kernel::Kernel;
use crate::side::{spec_side_from_char, Side, SideDirection};
use vstd::arithmetic::mul::*;
use vstd::prelude::*;
use vstd::string::StringExecFns;

verus! {

/// Largest physical length the mapper accepts, in thousandths of an inch
/// (a thousand inches).
pub const MAX_MILLI_INCHES: u32 = 1_000_000;

/// Largest LED density the mapper accepts, in thousandths of an LED per inch.
pub const MAX_MILLI_LEDS_PER_INCH: u32 = 1_000_000;

/// Most LEDs one edge may carry.
pub const MAX_LEDS_PER_EDGE: usize = 10_000;

/// Largest frame dimension, in pixels, the mapper accepts.
pub const MAX_FRAME_DIM: usize = 32_767;

/// Number of LEDs on each edge of a monitor.
#[derive(Copy, Clone, PartialEq, Eq, Structural, Debug)]
pub struct LEDCount {
    pub top: usize,
    pub left: usize,
    pub right: usize,
    pub bottom: usize,
}

impl LEDCount {
    /// Every edge's count stays within the supported bound.
    pub open spec fn valid(&self) -> bool {
        &&& self.top <= MAX_LEDS_PER_EDGE
        &&& self.left <= MAX_LEDS_PER_EDGE
        &&& self.right <= MAX_LEDS_PER_EDGE
        &&& self.bottom <= MAX_LEDS_PER_EDGE
    }
}

impl Default for LEDCount {
    /// No LEDs on any edge.
    fn default() -> (r: Self)
        ensures
            r.top == 0 && r.left == 0 && r.bottom == 0 && r.right == 0,
    {
        LEDCount { top: 0, left: 0, bottom: 0, right: 0 }
    }
}

/// Bezel thickness on each edge, in thousandths of an inch.
#[derive(Copy, Clone, PartialEq, Eq, Structural, Debug)]
pub struct Bezel {
    pub top: u32,
    pub left: u32,
    pub bottom: u32,
    pub right: u32,
}

impl Bezel {
    /// Every edge's thickness stays within the supported bound.
    pub open spec fn valid(&self) -> bool {
        &&& self.top <= MAX_MILLI_INCHES
        &&& self.left <= MAX_MILLI_INCHES
        &&& self.bottom <= MAX_MILLI_INCHES
        &&& self.right <= MAX_MILLI_INCHES
    }
}

impl Default for Bezel {
    /// A bezel-less monitor.
    fn default() -> (r: Self)
        ensures
            r.top == 0 && r.left == 0 && r.bottom == 0 && r.right == 0,
    {
        Bezel { top: 0, left: 0, bottom: 0, right: 0 }
    }
}

/// The edges an LED strip visits, in wiring order, each with the end of the
/// edge its run starts from.
#[derive(Clone, PartialEq, Eq, Debug)]
pub struct LEDDirectionSequence {
    pub data: Vec<SideDirection>,
}

impl Default for LEDDirectionSequence {
    /// An empty wiring order: no LED runs at all.
    fn default() -> (r: Self)
        ensures
            r.data@.len() == 0,
    {
        LEDDirectionSequence { data: Vec::new() }
    }
}

/// The displayable text of the first `n` runs of a wiring order:
/// `From <edge> To <end>`, comma-separated.
pub open spec fn spec_led_order_display(data: Seq<SideDirection>, n: int) -> Seq<char>
    decreases n,
{
    if n <= 0 {
        Seq::empty()
    } else {
        let entry = "From "@ + crate::side::spec_side_name(data[n - 1].side) + " To "@
            + crate::side::spec_side_name(data[n - 1].direction);
        if n == 1 {
            entry
        } else {
            spec_led_order_display(data, n - 1) + ", "@ + entry
        }
    }
}

impl LEDDirectionSequence {
    /// The wiring order as displayable text.
    pub fn to_display_string(&self) -> (r: String)
        ensures
            r@ == spec_led_order_display(self.data@, self.data@.len() as int),
    {
        let mut out_string = String::new();
        let n = self.data.len();
        let mut i: usize = 0;
        while i < n
            invariant
                n == self.data@.len(),
                i <= n,
                out_string@ == spec_led_order_display(self.data@, i as int),
            decreases n - i,
        {
            if i > 0 {
                out_string.append(", ");
            }
            out_string.append("From ");
            out_string.append(self.data[i].side.name());
            out_string.append(" To ");
            out_string.append(self.data[i].direction.name());
            proof {
                assert(out_string@ =~= spec_led_order_display(self.data@, i as int + 1));
            }
            i = i + 1;
        }
        out_string
    }
}

/// Errors of the geometry mapper.
#[derive(Copy, Clone, PartialEq, Eq, Structural, Debug)]
pub enum MapError {
    /// The wiring order held a symbol that names no edge or direction.
    LayoutError,
    /// A monitor's capture-source index matches no available display.
    NoSuchDisplay,
}

/// A wiring-order string parses when it has full `(edge, direction)` pairs
/// and every symbol names a side.
pub open spec fn led_order_parses(s: Seq<u8>) -> bool {
    &&& s.len() % 2 == 0
    &&& forall|i: int| 0 <= i < s.len() ==> #[trigger] spec_side_from_char(s[i] as char) is Some
}

/// The parsed wiring order: consecutive symbol pairs, first the edge, then
/// the end of the edge the run starts from.
pub open spec fn spec_led_order(s: Seq<u8>) -> Seq<SideDirection> {
    Seq::new(
        (s.len() / 2) as nat,
        |i: int|
            SideDirection {
                side: match spec_side_from_char(s[2 * i] as char) {
                    Some(side) => side,
                    None => Side::TOP,
                },
                direction: match spec_side_from_char(s[2 * i + 1] as char) {
                    Some(direction) => direction,
                    None => Side::TOP,
                },
            },
    )
}

/// Parse a wiring-order string of symbol pairs (`"br"` is one run: bottom
/// edge, starting from the right end).  An unknown symbol or a dangling edge
/// symbol is a hard configuration error, never a silent default.
pub fn parse_led_order(to_parse: &[u8]) -> (r: Result<LEDDirectionSequence, MapError>)
    ensures
        match r {
            Ok(order) => led_order_parses(to_parse@) && order.data@ == spec_led_order(to_parse@),
            Err(e) => e == MapError::LayoutError && !led_order_parses(to_parse@),
        },
{
    let n = to_parse.len();
    let mut out: Vec<SideDirection> = Vec::new();
    let mut i: usize = 0;
    while i + 1 < n
        invariant
            n == to_parse@.len(),
            i % 2 == 0,
            i <= n,
            forall|j: int| 0 <= j < i ==> #[trigger] spec_side_from_char(to_parse@[j] as char)
                is Some,
            out@ =~= spec_led_order(to_parse@.take(i as int)),
            out@.len() == i / 2,
        decreases n - i,
    {
        let side = match Side::from_char(to_parse[i] as char) {
            Some(side) => side,
            None => {
                return Err(MapError::LayoutError);
            },
        };
        let direction = match Side::from_char(to_parse[i + 1] as char) {
            Some(direction) => direction,
            None => {
                return Err(MapError::LayoutError);
            },
        };
        out.push(SideDirection { side, direction });
        proof {
            let t = to_parse@;
            let k = i as int;
            assert(t.take(k + 2).len() == k + 2);
            assert forall|j: int| 0 <= j < (k + 2) / 2 implies spec_led_order(t.take(k + 2))[j]
                == out@[j] by {
                assert(t.take(k + 2)[2 * j] == t[2 * j]);
                if j < k / 2 {
                    assert(t.take(k)[2 * j] == t[2 * j]);
                    assert(t.take(k)[2 * j + 1] == t[2 * j + 1]);
                    assert(t.take(k + 2)[2 * j + 1] == t[2 * j + 1]);
                    assert(spec_led_order(t.take(k))[j] == out@[j]);
                } else {
                    assert(2 * j == k && 2 * j + 1 == k + 1);
                }
            }
            assert(out@ =~= spec_led_order(t.take(k + 2)));
        }
        i = i + 2;
    }
    if i < n {
        // a trailing edge symbol with no direction symbol
        proof {
            assert(to_parse@.len() % 2 != 0);
        }
        return Err(MapError::LayoutError);
    }
    proof {
        assert(to_parse@.take(i as int) =~= to_parse@);
    }
    Ok(LEDDirectionSequence { data: out })
}

/// Pixel dimensions of one capture source's frames.
#[derive(Copy, Clone, PartialEq, Eq, Structural, Debug)]
pub struct FrameSize {
    pub width: usize,
    pub height: usize,
}

impl FrameSize {
    /// Both dimensions stay within the supported bound.
    pub open spec fn valid(&self) -> bool {
        &&& self.width <= MAX_FRAME_DIM
        &&& self.height <= MAX_FRAME_DIM
    }
}

/// One physical display: which capture source backs it, its physical size,
/// and how its LEDs are distributed and wired.
pub struct Monitor {
    /// 1-based index of the capture source that shows this monitor.
    pub monitor_number: usize,
    /// The wiring order of the LED runs along the edges.
    pub led_order: LEDDirectionSequence,
    /// Diagonal of the visible screen, in thousandths of an inch.
    pub diagonal_size: u32,
    /// LEDs on each edge.
    pub led_distribution: LEDCount,
    /// LED density along the strip, in thousandths of an LED per inch.
    pub leds_per_inch: u32,
    /// Bezel thickness around the visible screen.
    pub bezel_thickness: Bezel,
}

impl Monitor {
    /// The monitor's description stays within the mapper's supported bounds
    /// and names a capture source.
    pub open spec fn valid(&self) -> bool {
        &&& 1 <= self.monitor_number
        &&& self.diagonal_size <= MAX_MILLI_INCHES
        &&& self.leds_per_inch <= MAX_MILLI_LEDS_PER_INCH
        &&& self.led_distribution.valid()
        &&& self.bezel_thickness.valid()
    }

    /// LEDs on the given edge.
    pub open spec fn spec_num_leds(&self, side: Side) -> usize {
        match side {
            Side::LEFT => self.led_distribution.left,
            Side::RIGHT => self.led_distribution.right,
            Side::TOP => self.led_distribution.top,
            Side::BOTTOM => self.led_distribution.bottom,
        }
    }

    /// Q16.16 pixels between consecutive LEDs: the LED density scaled by the
    /// frame's pixel diagonal (less the kernel diagonal, so the kernel window
    /// can start fully inside the frame) over the monitor's physical
    /// diagonal, bezel included.  A monitor with no physical extent maps to a
    /// zero step.
    pub open spec fn spec_pixels_per_led_q16(&self, frame: FrameSize, k: Kernel) -> int {
        let bez_w = self.bezel_thickness.left + self.bezel_thickness.right;
        let bez_h = self.bezel_thickness.top + self.bezel_thickness.bottom;
        let bezel_diag = fixed::hypot_floor(bez_w as nat, bez_h as nat);
        let phys_diag = bezel_diag + self.diagonal_size;
        let kern_diag_q16 = fixed::sqrt_floor(
            ((k.width * k.width + k.height * k.height) * 0x1_0000_0000) as nat,
        );
        let frame_diag_q16 = fixed::sqrt_floor(
            ((frame.width * frame.width + frame.height * frame.height) * 0x1_0000_0000) as nat,
        );
        let pixel_diag_q16: int = if frame_diag_q16 >= kern_diag_q16 {
            frame_diag_q16 - kern_diag_q16
        } else {
            0
        };
        if phys_diag == 0 {
            0
        } else {
            (self.leds_per_inch * pixel_diag_q16) / (phys_diag as int)
        }
    }

    /// Q16.16 pixels between consecutive LEDs of this monitor.
    pub fn pixels_per_led_q16(&self, frame: FrameSize, blend_kernel: &Kernel) -> (r: u64)
        requires
            self.valid(),
            frame.valid(),
            blend_kernel.well_formed(),
        ensures
            r == self.spec_pixels_per_led_q16(frame, *blend_kernel),
            r <= PPL_Q16_MAX,
    {
        let bez_w = self.bezel_thickness.left + self.bezel_thickness.right;
        let bez_h = self.bezel_thickness.top + self.bezel_thickness.bottom;
        let bezel_diag: u64 = fixed::hypot_u32(bez_w, bez_h);
        proof {
            fixed::lemma_sqrt_floor_bounds((bez_w * bez_w + bez_h * bez_h) as nat);
            assert(bezel_diag * bezel_diag <= 8_000_000_000_000nat) by (nonlinear_arith)
                requires
                    bezel_diag * bezel_diag <= bez_w * bez_w + bez_h * bez_h,
                    bez_w <= 2_000_000,
                    bez_h <= 2_000_000,
                    0 <= bez_w,
                    0 <= bez_h,
            ;
            assert(bezel_diag <= 2_900_000) by (nonlinear_arith)
                requires
                    bezel_diag * bezel_diag <= 8_000_000_000_000nat,
                    0 <= bezel_diag,
            ;
        }
        let phys_diag: u64 = bezel_diag + (self.diagonal_size as u64);
        let kern_diag_q16: u64 = kernel_diagonal_q16(blend_kernel);
        let frame_diag_q16: u64 = frame_diagonal_q16(frame);
        let pixel_diag_q16: u64 = if frame_diag_q16 >= kern_diag_q16 {
            frame_diag_q16 - kern_diag_q16
        } else {
            0
        };
        if phys_diag == 0 {
            0
        } else {
            proof {
                lemma_mul_upper_bound(
                    self.leds_per_inch as int,
                    MAX_MILLI_LEDS_PER_INCH as int,
                    pixel_diag_q16 as int,
                    FRAME_DIAG_Q16_MAX as int,
                );
                lemma_mul_nonnegative(self.leds_per_inch as int, pixel_diag_q16 as int);
                vstd::arithmetic::div_mod::lemma_div_nonincreasing(
                    (self.leds_per_inch * pixel_diag_q16) as int,
                    phys_diag as int,
                );
                vstd::arithmetic::div_mod::lemma_div_pos_is_pos(
                    (self.leds_per_inch * pixel_diag_q16) as int,
                    phys_diag as int,
                );
            }
            ((self.leds_per_inch as u64) * pixel_diag_q16) / phys_diag
        }
    }
}

/// Q16.16 starting pixel of a run along `side` whose first LED sits at the
/// `direction` end.  The start is inset half a kernel dimension from the
/// frame's edges; the direction picks which end of the edge holds LED 0.
pub open spec fn spec_start_q16(side: Side, direction: Side, frame: FrameSize, k: Kernel) -> (
    int,
    int,
) {
    let hw = k.width * 32768;
    let hh = k.height * 32768;
    let sw = frame.width * 65536;
    let sh = frame.height * 65536;
    let x1: int = match side {
        Side::LEFT => hw as int,
        Side::RIGHT => sw - hw,
        _ => 0,
    };
    let y1: int = match side {
        Side::TOP => hh as int,
        Side::BOTTOM => sh - hh,
        _ => 0,
    };
    let x: int = match direction {
        Side::LEFT => hw as int,
        Side::RIGHT => sw - hw,
        _ => x1,
    };
    let y: int = match direction {
        Side::TOP => hh as int,
        Side::BOTTOM => sh - hh,
        _ => y1,
    };
    (x, y)
}

/// Q16.16 step between consecutive LEDs: along the edge, signed towards the
/// far end of the run.
pub open spec fn spec_step_q16(direction: Side, ppl: int) -> (int, int) {
    match direction {
        Side::LEFT => (ppl, 0int),
        Side::RIGHT => (-ppl, 0int),
        Side::TOP => (0int, ppl),
        Side::BOTTOM => (0int, -ppl),
    }
}

impl Monitor {
    /// Pixel position of LED `i` of the run `sd`: the run's start plus `i`
    /// steps, rounded half away from zero and clamped into the frame, so
    /// every position is a valid sample center.
    pub open spec fn spec_led_point(
        &self,
        frame: FrameSize,
        k: Kernel,
        sd: SideDirection,
        i: int,
    ) -> (usize, usize) {
        let ppl = self.spec_pixels_per_led_q16(frame, k);
        let start = spec_start_q16(sd.side, sd.direction, frame, k);
        let step = spec_step_q16(sd.direction, ppl);
        (
            fixed::round_q16_in_frame(start.0 + step.0 * i, frame.width as int) as usize,
            fixed::round_q16_in_frame(start.1 + step.1 * i, frame.height as int) as usize,
        )
    }

    /// All pixel positions of one run, in ascending LED number.
    pub open spec fn spec_run_coords(&self, frame: FrameSize, k: Kernel, sd: SideDirection) -> Seq<
        (usize, usize),
    > {
        Seq::new(
            self.spec_num_leds(sd.side) as nat,
            |i: int| self.spec_led_point(frame, k, sd, i),
        )
    }

    /// Concatenation of the first `n` runs' positions, in wiring order.
    pub open spec fn spec_coords_prefix(&self, frame: FrameSize, k: Kernel, n: int) -> Seq<
        (usize, usize),
    >
        decreases n,
    {
        if n <= 0 {
            Seq::empty()
        } else {
            self.spec_coords_prefix(frame, k, n - 1) + self.spec_run_coords(
                frame,
                k,
                self.led_order.data[n - 1],
            )
        }
    }

    /// The monitor's whole coordinate list: every run of the wiring order,
    /// in order, each run in ascending LED number.
    pub open spec fn spec_pixel_locations(&self, frame: FrameSize, k: Kernel) -> Seq<
        (usize, usize),
    > {
        self.spec_coords_prefix(frame, k, self.led_order.data.len() as int)
    }

    /// Sum of the LED counts of the first `n` runs of the wiring order.
    pub open spec fn spec_led_total(&self, n: int) -> int
        decreases n,
    {
        if n <= 0 {
            0
        } else {
            self.spec_led_total(n - 1) + self.spec_num_leds(self.led_order.data[n - 1].side)
        }
    }

    /// Map this monitor's layout onto one captured frame: one pixel position
    /// per LED, in strip-wiring order.  Every position lies inside the frame,
    /// so each is a valid sample center.
    pub fn pixel_locations(&self, frame: FrameSize, blend_kernel: &Kernel) -> (r: Vec<
        (usize, usize),
    >)
        requires
            self.valid(),
            frame.valid(),
            blend_kernel.well_formed(),
        ensures
            r@ == self.spec_pixel_locations(frame, *blend_kernel),
            forall|i: int|
                0 <= i < r@.len() ==> (frame.width >= 1 ==> (#[trigger] r@[i]).0 < frame.width)
                    && (frame.height >= 1 ==> r@[i].1 < frame.height),
    {
        proof {
            lemma_coords_prefix_in_frame(
                *self,
                frame,
                *blend_kernel,
                self.led_order.data@.len() as int,
            );
        }
        let ppl_u: u64 = self.pixels_per_led_q16(frame, blend_kernel);
        let ppl: i64 = ppl_u as i64;
        let mut output: Vec<(usize, usize)> = Vec::new();
        let runs = self.led_order.data.len();
        let mut run: usize = 0;
        while run < runs
            invariant
                self.valid(),
                frame.valid(),
                blend_kernel.well_formed(),
                runs == self.led_order.data.len(),
                0 <= ppl <= PPL_Q16_MAX,
                ppl == self.spec_pixels_per_led_q16(frame, *blend_kernel),
                run <= runs,
                output@ == self.spec_coords_prefix(frame, *blend_kernel, run as int),
            decreases runs - run,
        {
            let sd = self.led_order.data[run];
            let (x0, y0) = MonitorConfiguration::get_starting_xy(
                sd.side,
                sd.direction,
                frame,
                blend_kernel,
            );
            let num_leds = match sd.side {
                Side::LEFT => self.led_distribution.left,
                Side::RIGHT => self.led_distribution.right,
                Side::TOP => self.led_distribution.top,
                Side::BOTTOM => self.led_distribution.bottom,
            };
            let (step_x, step_y): (i64, i64) = match sd.direction {
                Side::LEFT => (ppl, 0),
                Side::RIGHT => (-ppl, 0),
                Side::TOP => (0, ppl),
                Side::BOTTOM => (0, -ppl),
            };
            let ghost run_coords = self.spec_run_coords(frame, *blend_kernel, sd);
            let mut led: usize = 0;
            while led < num_leds
                invariant
                    self.valid(),
                    frame.valid(),
                    blend_kernel.well_formed(),
                    runs == self.led_order.data.len(),
                    run < runs,
                    sd == self.led_order.data[run as int],
                    0 <= ppl <= PPL_Q16_MAX,
                    ppl == self.spec_pixels_per_led_q16(frame, *blend_kernel),
                    num_leds == self.spec_num_leds(sd.side),
                    num_leds <= MAX_LEDS_PER_EDGE,
                    (x0 as int, y0 as int) == spec_start_q16(sd.side, sd.direction, frame,
                        *blend_kernel),
                    -33_554_432 <= x0 <= 2_147_418_112,
                    -33_554_432 <= y0 <= 2_147_418_112,
                    (step_x as int, step_y as int) == spec_step_q16(sd.direction, ppl as int),
                    -(PPL_Q16_MAX as int) <= step_x <= PPL_Q16_MAX,
                    -(PPL_Q16_MAX as int) <= step_y <= PPL_Q16_MAX,
                    run_coords == self.spec_run_coords(frame, *blend_kernel, sd),
                    led <= num_leds,
                    output@ == self.spec_coords_prefix(frame, *blend_kernel, run as int)
                        + run_coords.take(led as int),
                decreases num_leds - led,
            {
                proof {
                    assert(step_x * led <= 30_370_004_990_000_000_000
                        && step_x * led >= -30_370_004_990_000_000_000) by (nonlinear_arith)
                        requires
                            -3_037_000_499_000_000 <= step_x <= 3_037_000_499_000_000,
                            0 <= led <= 10_000,
                    ;
                    assert(step_y * led <= 30_370_004_990_000_000_000
                        && step_y * led >= -30_370_004_990_000_000_000) by (nonlinear_arith)
                        requires
                            -3_037_000_499_000_000 <= step_y <= 3_037_000_499_000_000,
                            0 <= led <= 10_000,
                    ;
                }
                let vx: i128 = (x0 as i128) + (step_x as i128) * (led as i128);
                let vy: i128 = (y0 as i128) + (step_y as i128) * (led as i128);
                let px = fixed::round_q16_to_px(vx, frame.width);
                let py = fixed::round_q16_to_px(vy, frame.height);
                output.push((px, py));
                proof {
                    assert(run_coords[led as int] == (px, py));
                    assert(run_coords.take(led as int).push(run_coords[led as int])
                        =~= run_coords.take(led as int + 1));
                }
                led = led + 1;
            }
            proof {
                assert(run_coords.take(num_leds as int) =~= run_coords);
            }
            run = run + 1;
        }
        output
    }
}

/// Largest possible Q16.16 frame diagonal: the floor square root of
/// `2 * MAX_FRAME_DIM^2 * 2^32`.
pub const FRAME_DIAG_Q16_MAX: u64 = 3_037_000_499;

/// Largest possible Q16.16 LED step.
pub const PPL_Q16_MAX: u64 = 1_000_000 * 3_037_000_499;

/// All monitors the strip runs along, in wiring order.
pub struct MonitorConfiguration {
    pub monitors: Vec<Monitor>,
}

impl MonitorConfiguration {
    /// Every monitor stays within the mapper's supported bounds.
    pub open spec fn valid(&self) -> bool {
        forall|i: int| 0 <= i < self.monitors.len() ==> (#[trigger] self.monitors[i]).valid()
    }

    /// Every monitor names one of the `nframes` available capture sources.
    pub open spec fn spec_all_displays_known(&self, nframes: int) -> bool {
        forall|i: int|
            0 <= i < self.monitors.len() ==> 1 <= (#[trigger] self.monitors[i]).monitor_number
                <= nframes
    }

    /// Concatenation of the first `n` monitors' coordinate lists, each mapped
    /// onto the frame of the capture source its `monitor_number` names.
    pub open spec fn spec_coords_prefix(
        &self,
        frames: Seq<FrameSize>,
        k: Kernel,
        n: int,
    ) -> Seq<(usize, usize)>
        decreases n,
    {
        if n <= 0 {
            Seq::empty()
        } else {
            self.spec_coords_prefix(frames, k, n - 1) + self.monitors[n - 1].spec_pixel_locations(
                frames[self.monitors[n - 1].monitor_number - 1],
                k,
            )
        }
    }

    /// The whole configuration's coordinate list, in wiring order.
    pub open spec fn spec_pixel_locations(&self, frames: Seq<FrameSize>, k: Kernel) -> Seq<
        (usize, usize),
    > {
        self.spec_coords_prefix(frames, k, self.monitors.len() as int)
    }

    /// Q16.16 starting pixel of one run, inset half a kernel dimension from
    /// the frame's edges, at the end of the edge named by `direction`.
    pub fn get_starting_xy(side: Side, direction: Side, screen: FrameSize, kernel_info: &Kernel)
        -> (r: (i64, i64))
        requires
            screen.valid(),
            kernel_info.well_formed(),
        ensures
            (r.0 as int, r.1 as int) == spec_start_q16(side, direction, screen, *kernel_info),
            -33_554_432 <= r.0 <= 2_147_418_112,
            -33_554_432 <= r.1 <= 2_147_418_112,
    {
        proof {
            assert(kernel_info.width <= 1024 && kernel_info.height <= 1024) by (nonlinear_arith)
                requires
                    1 <= kernel_info.width,
                    1 <= kernel_info.height,
                    kernel_info.width * kernel_info.height <= 1024,
            ;
        }
        let half_kernel_width: i64 = (kernel_info.width as i64) * 32768;
        let half_kernel_height: i64 = (kernel_info.height as i64) * 32768;
        let screen_width: i64 = (screen.width as i64) * 65536;
        let screen_height: i64 = (screen.height as i64) * 65536;
        let mut x: i64 = 0;
        let mut y: i64 = 0;
        match side {
            Side::LEFT => {
                x = half_kernel_width;
            },
            Side::RIGHT => {
                x = screen_width - half_kernel_width;
            },
            Side::TOP => {
                y = half_kernel_height;
            },
            Side::BOTTOM => {
                y = screen_height - half_kernel_height;
            },
        }
        match direction {
            Side::LEFT => {
                x = half_kernel_width;
            },
            Side::RIGHT => {
                x = screen_width - half_kernel_width;
            },
            Side::TOP => {
                y = half_kernel_height;
            },
            Side::BOTTOM => {
                y = screen_height - half_kernel_height;
            },
        }
        (x, y)
    }

    /// Map every monitor of the configuration onto the frame of the capture
    /// source it names: one pixel position per LED, in strip-wiring order.
    /// Fails with `NoSuchDisplay` when a monitor names no available source.
    pub fn get_pixel_locations(&self, blend_kernel: &Kernel, displays: &Vec<FrameSize>) -> (r:
        Result<Vec<(usize, usize)>, MapError>)
        requires
            self.valid(),
            blend_kernel.well_formed(),
            forall|i: int| 0 <= i < displays.len() ==> (#[trigger] displays[i]).valid(),
        ensures
            match r {
                Ok(v) => self.spec_all_displays_known(displays.len() as int) && v@
                    == self.spec_pixel_locations(displays@, *blend_kernel),
                Err(e) => e == MapError::NoSuchDisplay && !self.spec_all_displays_known(
                    displays.len() as int,
                ),
            },
    {
        let mut output: Vec<(usize, usize)> = Vec::new();
        let n = self.monitors.len();
        let mut i: usize = 0;
        while i < n
            invariant
                self.valid(),
                blend_kernel.well_formed(),
                forall|j: int| 0 <= j < displays.len() ==> (#[trigger] displays[j]).valid(),
                n == self.monitors.len(),
                i <= n,
                forall|j: int|
                    0 <= j < i ==> 1 <= (#[trigger] self.monitors[j]).monitor_number
                        <= displays.len(),
                output@ == self.spec_coords_prefix(displays@, *blend_kernel, i as int),
            decreases n - i,
        {
            let monitor = &self.monitors[i];
            let number = monitor.monitor_number;
            if number == 0 || number > displays.len() {
                return Err(MapError::NoSuchDisplay);
            }
            let frame = displays[number - 1];
            let mut part = monitor.pixel_locations(frame, blend_kernel);
            output.append(&mut part);
            i = i + 1;
        }
        Ok(output)
    }
}

impl Default for MonitorConfiguration {
    /// One bezel-less monitor on the first capture source, with no LEDs:
    /// a configuration that maps to an empty coordinate list.
    fn default() -> (r: Self)
        ensures
            r.monitors.len() == 1,
            r.valid(),
            r.monitors[0].monitor_number == 1,
            r.monitors[0].led_order.data@.len() == 0,
            r.monitors[0].diagonal_size == 0,
            r.monitors[0].leds_per_inch == 0,
    {
        let monitor = Monitor {
            monitor_number: 1,
            led_order: LEDDirectionSequence::default(),
            diagonal_size: 0,
            led_distribution: LEDCount::default(),
            leds_per_inch: 0,
            bezel_thickness: Bezel::default(),
        };
        let mut monitors = Vec::new();
        monitors.push(monitor);
        MonitorConfiguration { monitors }
    }
}

/// Every coordinate of the mapper's first `n` runs lies inside the frame,
/// in each dimension the frame extends in.
proof fn lemma_coords_prefix_in_frame(m: Monitor, frame: FrameSize, k: Kernel, n: int)
    ensures
        forall|i: int|
            0 <= i < m.spec_coords_prefix(frame, k, n).len() ==> (frame.width >= 1 ==> (
            #[trigger] m.spec_coords_prefix(frame, k, n)[i]).0 < frame.width) && (frame.height
                >= 1 ==> m.spec_coords_prefix(frame, k, n)[i].1 < frame.height),
    decreases n,
{
    if n > 0 {
        lemma_coords_prefix_in_frame(m, frame, k, n - 1);
        let prev = m.spec_coords_prefix(frame, k, n - 1);
        let run = m.spec_run_coords(frame, k, m.led_order.data[n - 1]);
        assert forall|i: int|
            0 <= i < m.spec_coords_prefix(frame, k, n).len() implies (frame.width >= 1 ==> (
        #[trigger] m.spec_coords_prefix(frame, k, n)[i]).0 < frame.width) && (frame.height >= 1
            ==> m.spec_coords_prefix(frame, k, n)[i].1 < frame.height) by {
            if i >= prev.len() {
                let j = i - prev.len();
                assert(m.spec_coords_prefix(frame, k, n)[i] == run[j]);
                let sd = m.led_order.data[n - 1];
                let ppl = m.spec_pixels_per_led_q16(frame, k);
                let start = spec_start_q16(sd.side, sd.direction, frame, k);
                let step = spec_step_q16(sd.direction, ppl);
                if frame.width >= 1 {
                    fixed::lemma_round_q16_in_frame(start.0 + step.0 * j, frame.width as int);
                }
                if frame.height >= 1 {
                    fixed::lemma_round_q16_in_frame(start.1 + step.1 * j, frame.height as int);
                }
            }
        }
    }
}

/// The geometry mapper is deterministic: the coordinate list is a function
/// of the layout, the frame dimensions and the kernel alone, so equal inputs
/// give byte-identical coordinate sequences.
pub proof fn lemma_mapper_deterministic(
    m1: Monitor,
    m2: Monitor,
    f1: FrameSize,
    f2: FrameSize,
    k1: Kernel,
    k2: Kernel,
)
    requires
        m1 == m2,
        f1 == f2,
        k1 == k2,
    ensures
        m1.spec_pixel_locations(f1, k1) == m2.spec_pixel_locations(f2, k2),
{
}

/// The mapper's output length equals the sum of `led_count` over exactly the
/// edges the wiring order enumerates: an edge missing from the order
/// contributes nothing, however many LEDs it is assigned.
pub proof fn lemma_output_length(m: Monitor, frame: FrameSize, k: Kernel)
    ensures
        m.spec_pixel_locations(frame, k).len() == m.spec_led_total(
            m.led_order.data.len() as int,
        ),
{
    lemma_prefix_length(m, frame, k, m.led_order.data.len() as int);
}

/// Length of each prefix of the mapper's output.
proof fn lemma_prefix_length(m: Monitor, frame: FrameSize, k: Kernel, n: int)
    requires
        0 <= n,
    ensures
        m.spec_coords_prefix(frame, k, n).len() == m.spec_led_total(n),
    decreases n,
{
    if n > 0 {
        lemma_prefix_length(m, frame, k, n - 1);
    }
}

/// Q16.16 diagonal of the kernel's tap grid.
fn kernel_diagonal_q16(k: &Kernel) -> (r: u64)
    requires
        k.well_formed(),
    ensures
        r == fixed::sqrt_floor(((k.width * k.width + k.height * k.height) * 0x1_0000_0000) as nat),
        r <= FRAME_DIAG_Q16_MAX,
{
    proof {
        assert(k.width <= 1024 && k.height <= 1024) by (nonlinear_arith)
            requires
                1 <= k.width,
                1 <= k.height,
                k.width * k.height <= 1024,
        ;
        lemma_mul_upper_bound(k.width as int, 1024, k.width as int, 1024);
        lemma_mul_upper_bound(k.height as int, 1024, k.height as int, 1024);
    }
    let sq: u64 = ((k.width * k.width) as u64 + (k.height * k.height) as u64) * 0x1_0000_0000;
    let r = fixed::isqrt_u64(sq);
    proof {
        fixed::lemma_sqrt_floor_bounds(sq as nat);
        assert(r <= FRAME_DIAG_Q16_MAX) by (nonlinear_arith)
            requires
                r * r <= sq,
                sq <= 9_223_372_036_854_775_807,
                0 <= r,
        ;
    }
    r
}

/// Q16.16 diagonal of a frame.
fn frame_diagonal_q16(frame: FrameSize) -> (r: u64)
    requires
        frame.valid(),
    ensures
        r == fixed::sqrt_floor(
            ((frame.width * frame.width + frame.height * frame.height) * 0x1_0000_0000) as nat,
        ),
        r <= FRAME_DIAG_Q16_MAX,
{
    proof {
        lemma_mul_upper_bound(frame.width as int, MAX_FRAME_DIM as int, frame.width as int,
            MAX_FRAME_DIM as int);
        lemma_mul_upper_bound(frame.height as int, MAX_FRAME_DIM as int, frame.height as int,
            MAX_FRAME_DIM as int);
    }
    let sq: u64 = ((frame.width * frame.width) as u64 + (frame.height * frame.height) as u64)
        * 0x1_0000_0000;
    let r = fixed::isqrt_u64(sq);
    proof {
        fixed::lemma_sqrt_floor_bounds(sq as nat);
        assert(r <= FRAME_DIAG_Q16_MAX) by (nonlinear_arith)
            requires
                r * r <= sq,
                sq <= 9_223_372_036_854_775_807,
                0 <= r,
        ;
    }
    r
}

} // verus!
