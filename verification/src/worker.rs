//! The worker: the capture → sample → transmit cycle under live
//! reconfiguration.
//!
//! The worker is the cycle's decision core.  It owns the kernel, the
//! coordinate list, the pacing state and the lifecycle state, computes every
//! byte that goes to the strip, and decides every action; the thin loop
//! around it performs the capture, serial and sleeping work and feeds each
//! outcome back in as a value.

use crate::framerate::FramerateLimiter;
use crate::kernel::Kernel;
use crate::monitor_config::{FrameSize, MonitorConfiguration};
use crate::program_config::ProgramConfiguration;
use vstd::arithmetic::div_mod::*;
use vstd::prelude::*;

verus! {

/// Why a worker could not be constructed.
#[derive(Copy, Clone, PartialEq, Eq, Structural, Debug)]
pub enum Error {
    /// The serial port could not be opened.  Checked first: when both the
    /// port and the capture source fail, this is the reported error.
    OpenSerialError,
    /// The capture source could not be opened.
    OpenCapturerError,
    /// The selected monitor names no available capture source.
    NoSuchDisplay,
}

/// What the control channel carries to the worker.
#[derive(Copy, Clone, PartialEq, Eq, Structural, Debug)]
pub enum ControlMessages {
    /// Leave the loop, releasing the worker's resources.
    StopWorker,
    /// Re-read the configuration and apply it without restarting.
    UpdateConfiguration,
}

/// The worker's lifecycle state.
#[derive(Copy, Clone, PartialEq, Eq, Structural, Debug)]
pub enum WorkerStatus {
    Running,
    Stopped,
}

/// What the loop must do after the control channel was consumed.
#[derive(Copy, Clone, PartialEq, Eq, Structural, Debug)]
pub enum LoopDirective {
    /// Run this iteration as usual.
    Continue,
    /// Re-read the configuration, then run the iteration.
    Reload,
    /// Leave the loop now.
    Stop,
}

/// What the capture source produced this iteration.
pub enum CaptureEvent {
    /// A whole frame, dense 4-byte pixels, row-major.
    Frame(Vec<u8>),
    /// No frame yet; a transient condition, not an error.
    NotReady,
}

/// What the loop must do with this iteration's outcome.
#[derive(PartialEq, Eq, Debug)]
pub enum OutputAction {
    /// Write these bytes to the serial link, whole or not at all.
    Transmit(Vec<u8>),
    /// Skip this iteration after sleeping this many milliseconds.
    Wait(u64),
}

/// The serial part of applying a new configuration.
#[derive(Copy, Clone, PartialEq, Eq, Structural, Debug)]
pub enum SerialAction {
    /// The port name changed: close the link and open the named port.
    Reopen,
    /// Only the settings changed: re-apply them on the open link.
    ApplyInPlace,
}

/// What the loop must do to finish applying a new configuration.
#[derive(PartialEq, Eq, Debug)]
pub struct UpdateActions {
    /// The serial side, if a serial configuration was supplied.
    pub serial: Option<SerialAction>,
    /// Open the capture source with this 1-based index in place of the
    /// current one.
    pub swap_capturer: Option<usize>,
}

/// The port name uppercased, ASCII-wise, for the case-insensitive port
/// comparison of a reconfiguration.
pub open spec fn spec_ascii_upper(s: Seq<u8>) -> Seq<u8> {
    Seq::new(
        s.len(),
        |i: int|
            if 97 <= s[i] <= 122 {
                (s[i] - 32) as u8
            } else {
                s[i]
            },
    )
}

/// The bytes transmitted for one frame: for each coordinate, in wiring
/// order, the sampled red, green and blue bytes.
pub open spec fn spec_output_colours(
    k: Kernel,
    coords: Seq<(usize, usize)>,
    img: Seq<u8>,
    fw: int,
    fh: int,
) -> Seq<u8> {
    Seq::new(
        (3 * coords.len()) as nat,
        |i: int|
            (
            k.channel_value(img, fw, fh, coords[i / 3].0 as int, coords[i / 3].1 as int, 2 - (i
                % 3)) as u8),
    )
}

/// One capture → sample → transmit worker.
pub struct Worker {
    /// Name of the serial port the loop holds open.
    pub open_port_name: Vec<u8>,
    /// 1-based index of the capture source the loop holds open.
    pub monitor_number: usize,
    /// Which monitor of the configuration this worker drives.
    pub display_index: usize,
    /// Frame dimensions of the open capture source.
    pub frame: FrameSize,
    /// The convolution kernel frames are sampled with.
    pub blur_kernel: Kernel,
    /// Pacing state of the loop.
    pub refreshrate: FramerateLimiter,
    /// One pixel position per LED, in strip-wiring order.
    pub pixel_locations: Vec<(usize, usize)>,
    /// Lifecycle state.
    pub status: WorkerStatus,
}

impl Worker {
    /// Structural invariant: usable kernel and limiter, and a frame whose
    /// byte count fits the machine word.
    pub open spec fn well_formed(&self) -> bool {
        &&& self.blur_kernel.well_formed()
        &&& self.refreshrate.well_formed()
        &&& self.frame.valid()
        &&& self.frame.width * self.frame.height * 4 <= usize::MAX
    }

    /// Construct a worker from the two configurations, after the loop tried
    /// to open the serial port and the capture source.  The serial failure
    /// outranks the capture failure; on success the coordinate list is
    /// precomputed and the worker is `Running`.
    pub fn new(
        p_config: &ProgramConfiguration,
        monitor_config: &MonitorConfiguration,
        b_kernel: Kernel,
        display_index: usize,
        displays: &Vec<FrameSize>,
        serial_opened: bool,
        capturer_opened: bool,
        now_ms: u64,
    ) -> (r: Result<Worker, Error>)
        requires
            p_config.valid(),
            monitor_config.valid(),
            b_kernel.well_formed(),
            display_index < monitor_config.monitors.len(),
            forall|i: int|
                0 <= i < displays.len() ==> (#[trigger] displays[i]).valid() && displays[i].width
                    * displays[i].height * 4 <= usize::MAX,
        ensures
            ({
                let m = monitor_config.monitors[display_index as int];
                let number = m.monitor_number;
                if !serial_opened {
                    r == Err::<Worker, Error>(Error::OpenSerialError)
                } else if !capturer_opened {
                    r == Err::<Worker, Error>(Error::OpenCapturerError)
                } else if number == 0 || number > displays.len() {
                    r == Err::<Worker, Error>(Error::NoSuchDisplay)
                } else {
                    r matches Ok(w) && {
                        &&& w.well_formed()
                        &&& w.status == WorkerStatus::Running
                        &&& w.open_port_name@ == p_config.serial_port@
                        &&& w.display_index == display_index
                        &&& w.monitor_number == number
                        &&& w.frame == displays[number - 1]
                        &&& w.blur_kernel == b_kernel
                        &&& w.refreshrate.tick_rate == p_config.refresh_rate
                        &&& w.refreshrate.spec_previous_tick() == now_ms
                        &&& w.pixel_locations@ == m.spec_pixel_locations(
                            displays[number - 1],
                            b_kernel,
                        )
                    }
                }
            }),
    {
        if !serial_opened {
            return Err(Error::OpenSerialError);
        }
        if !capturer_opened {
            return Err(Error::OpenCapturerError);
        }
        let monitor = &monitor_config.monitors[display_index];
        let number = monitor.monitor_number;
        if number == 0 || number > displays.len() {
            return Err(Error::NoSuchDisplay);
        }
        let frame = displays[number - 1];
        let pixel_locations = monitor.pixel_locations(frame, &b_kernel);
        let mut port_name: Vec<u8> = Vec::new();
        port_name.extend_from_slice(p_config.serial_port.as_slice());
        proof {
            assert(port_name@ =~= p_config.serial_port@);
        }
        Ok(
            Worker {
                open_port_name: port_name,
                monitor_number: number,
                display_index,
                frame,
                blur_kernel: b_kernel,
                refreshrate: p_config.get_refreshrate_controller(now_ms),
                pixel_locations,
                status: WorkerStatus::Running,
            },
        )
    }

    /// Consume what the control channel held this iteration.  A stop
    /// request — or a hung-up channel, treated the same — stops the worker
    /// within this iteration; an update request asks the loop to reload the
    /// configuration; otherwise the iteration runs as usual.
    pub fn handle_message(
        &mut self,
        message: Option<ControlMessages>,
        producer_disconnected: bool,
    ) -> (d: LoopDirective)
        ensures
            final(self).open_port_name == old(self).open_port_name,
            final(self).monitor_number == old(self).monitor_number,
            final(self).display_index == old(self).display_index,
            final(self).frame == old(self).frame,
            final(self).blur_kernel == old(self).blur_kernel,
            final(self).refreshrate == old(self).refreshrate,
            final(self).pixel_locations == old(self).pixel_locations,
            ({
                let stop = message == Some(ControlMessages::StopWorker) || (message is None
                    && producer_disconnected);
                if stop {
                    d == LoopDirective::Stop && final(self).status == WorkerStatus::Stopped
                } else {
                    &&& final(self).status == old(self).status
                    &&& d == if message == Some(ControlMessages::UpdateConfiguration) {
                        LoopDirective::Reload
                    } else {
                        LoopDirective::Continue
                    }
                }
            }),
    {
        match message {
            Some(ControlMessages::StopWorker) => {
                self.status = WorkerStatus::Stopped;
                LoopDirective::Stop
            },
            Some(ControlMessages::UpdateConfiguration) => LoopDirective::Reload,
            None => {
                if producer_disconnected {
                    self.status = WorkerStatus::Stopped;
                    LoopDirective::Stop
                } else {
                    LoopDirective::Continue
                }
            },
        }
    }

    /// Advance the rate limiter once per loop iteration: how long the loop
    /// must sleep so this iteration's tick returns no earlier than one
    /// period after the previous one.
    pub fn tick(&mut self, now_ms: u64) -> (wait_ms: u64)
        requires
            old(self).well_formed(),
            now_ms + 1_000_000 <= u64::MAX,
        ensures
            final(self).well_formed(),
            final(self).open_port_name == old(self).open_port_name,
            final(self).monitor_number == old(self).monitor_number,
            final(self).display_index == old(self).display_index,
            final(self).frame == old(self).frame,
            final(self).blur_kernel == old(self).blur_kernel,
            final(self).pixel_locations == old(self).pixel_locations,
            final(self).status == old(self).status,
            final(self).refreshrate.tick_rate == old(self).refreshrate.tick_rate,
            0 <= wait_ms <= old(self).refreshrate.spec_period(),
            final(self).refreshrate.spec_previous_tick() == now_ms + wait_ms,
            old(self).refreshrate.spec_previous_tick() <= now_ms ==> ({
                let target = old(self).refreshrate.spec_previous_tick() + old(
                    self,
                ).refreshrate.spec_period();
                if now_ms >= target {
                    wait_ms == 0
                } else {
                    now_ms + wait_ms == target
                }
            }),
    {
        self.refreshrate.tick(now_ms)
    }

    /// Turn this iteration's capture outcome into the loop's duty.  A frame
    /// is sampled at every LED coordinate and the triples are concatenated
    /// in wiring order into one transmission; a not-yet-ready frame skips
    /// the iteration after roughly one refresh period.
    pub fn read_and_output(&self, capture: CaptureEvent) -> (a: OutputAction)
        requires
            self.well_formed(),
            self.status == WorkerStatus::Running,
            capture matches CaptureEvent::Frame(f) ==> f@.len() == self.frame.width
                * self.frame.height * 4,
        ensures
            match capture {
                CaptureEvent::NotReady => a == OutputAction::Wait(
                    self.refreshrate.spec_period() as u64,
                ),
                CaptureEvent::Frame(f) => a matches OutputAction::Transmit(bytes) && bytes@
                    == spec_output_colours(
                    self.blur_kernel,
                    self.pixel_locations@,
                    f@,
                    self.frame.width as int,
                    self.frame.height as int,
                ),
            },
    {
        let frame = match capture {
            CaptureEvent::NotReady => {
                return OutputAction::Wait(self.refreshrate.period_ms());
            },
            CaptureEvent::Frame(frame) => frame,
        };
        let ghost img = frame@;
        let ghost coords = self.pixel_locations@;
        let mut output_colours: Vec<u8> = Vec::new();
        let n = self.pixel_locations.len();
        let mut idx: usize = 0;
        while idx < n
            invariant
                self.well_formed(),
                n == coords.len(),
                coords == self.pixel_locations@,
                img == frame@,
                img.len() == self.frame.width * self.frame.height * 4,
                idx <= n,
                output_colours@.len() == 3 * idx,
                forall|i: int|
                    0 <= i < 3 * idx ==> #[trigger] output_colours@[i] == spec_output_colours(
                        self.blur_kernel,
                        coords,
                        img,
                        self.frame.width as int,
                        self.frame.height as int,
                    )[i],
            decreases n - idx,
        {
            let point = self.pixel_locations[idx];
            let rgb = self.blur_kernel.kernel_pass_result(
                &frame,
                self.frame.width,
                self.frame.height,
                point.0,
                point.1,
            );
            output_colours.push(rgb[0]);
            output_colours.push(rgb[1]);
            output_colours.push(rgb[2]);
            proof {
                let k = idx as int;
                lemma_div_multiples_vanish_fancy(k, 0, 3);
                lemma_div_multiples_vanish_fancy(k, 1, 3);
                lemma_div_multiples_vanish_fancy(k, 2, 3);
                lemma_mod_multiples_vanish(k, 0, 3);
                lemma_mod_multiples_vanish(k, 1, 3);
                lemma_mod_multiples_vanish(k, 2, 3);
                assert(3 * k + 0 == 3 * k);
                assert((3 * k) / 3 == k && (3 * k) % 3 == 0);
                assert((3 * k + 1) / 3 == k && (3 * k + 1) % 3 == 1);
                assert((3 * k + 2) / 3 == k && (3 * k + 2) % 3 == 2);
            }
            idx = idx + 1;
        }
        OutputAction::Transmit(output_colours)
    }

    /// Record the port name the loop holds open, after it reopened the
    /// serial link on a reconfiguration.
    pub fn set_open_port_name(&mut self, name: Vec<u8>)
        ensures
            final(self).open_port_name == name,
            final(self).monitor_number == old(self).monitor_number,
            final(self).display_index == old(self).display_index,
            final(self).frame == old(self).frame,
            final(self).blur_kernel == old(self).blur_kernel,
            final(self).refreshrate == old(self).refreshrate,
            final(self).pixel_locations == old(self).pixel_locations,
            final(self).status == old(self).status,
    {
        self.open_port_name = name;
    }

    /// Apply a reconfiguration field by field, each part optional and
    /// independent, without stopping the worker.
    ///
    /// Serial: a changed port name (compared case-insensitively against the
    /// open port) asks the loop to reopen; an unchanged name asks it to
    /// re-apply the settings in place.  Layout: the coordinate list is
    /// recomputed and the capture source swapped when the selected display
    /// changed; when the new layout does not cover this worker's display or
    /// names no available source, the previous list and source stay
    /// untouched.  Kernel: swapped wholesale, and a layout arriving in the
    /// same call is mapped with the incoming kernel.
    pub fn update_settings(
        &mut self,
        p_config: Option<&ProgramConfiguration>,
        monitor_config: Option<&MonitorConfiguration>,
        conv_kernel: Option<Kernel>,
        displays: &Vec<FrameSize>,
    ) -> (actions: UpdateActions)
        requires
            old(self).well_formed(),
            p_config matches Some(c) ==> c.valid(),
            monitor_config matches Some(m) ==> m.valid(),
            conv_kernel matches Some(k) ==> k.well_formed(),
            forall|i: int|
                0 <= i < displays.len() ==> (#[trigger] displays[i]).valid() && displays[i].width
                    * displays[i].height * 4 <= usize::MAX,
        ensures
            final(self).well_formed(),
            final(self).status == old(self).status,
            final(self).display_index == old(self).display_index,
            final(self).refreshrate == old(self).refreshrate,
            final(self).open_port_name == old(self).open_port_name,
            final(self).blur_kernel == match conv_kernel {
                Some(k) => k,
                None => old(self).blur_kernel,
            },
            match p_config {
                None => actions.serial is None,
                Some(c) => actions.serial == Some(
                    if spec_ascii_upper(old(self).open_port_name@) != c.serial_port@ {
                        SerialAction::Reopen
                    } else {
                        SerialAction::ApplyInPlace
                    },
                ),
            },
            ({
                let layout_applies = match monitor_config {
                    Some(m) => ({
                        &&& old(self).display_index < m.monitors.len()
                        &&& 1 <= m.monitors[old(self).display_index as int].monitor_number
                            <= displays.len()
                    }),
                    None => false,
                };
                if layout_applies {
                    let m = monitor_config->Some_0.monitors[old(self).display_index as int];
                    let number = m.monitor_number;
                    &&& final(self).monitor_number == number
                    &&& final(self).frame == displays[number - 1]
                    &&& final(self).pixel_locations@ == m.spec_pixel_locations(
                        displays[number - 1],
                        final(self).blur_kernel,
                    )
                    &&& actions.swap_capturer == if number != old(self).monitor_number {
                        Some(number)
                    } else {
                        None::<usize>
                    }
                } else {
                    &&& final(self).monitor_number == old(self).monitor_number
                    &&& final(self).frame == old(self).frame
                    &&& final(self).pixel_locations == old(self).pixel_locations
                    &&& actions.swap_capturer is None
                }
            }),
    {
        let serial_action: Option<SerialAction> = match p_config {
            None => None,
            Some(config) => {
                if !ascii_upper_eq(&self.open_port_name, &config.serial_port) {
                    Some(SerialAction::Reopen)
                } else {
                    Some(SerialAction::ApplyInPlace)
                }
            },
        };
        match conv_kernel {
            Some(k) => {
                self.blur_kernel = k;
            },
            None => {},
        }
        let mut swap_capturer: Option<usize> = None;
        match monitor_config {
            None => {},
            Some(config) => {
                if self.display_index < config.monitors.len() {
                    let monitor = &config.monitors[self.display_index];
                    let number = monitor.monitor_number;
                    if 1 <= number && number <= displays.len() {
                        let frame = displays[number - 1];
                        self.pixel_locations = monitor.pixel_locations(frame, &self.blur_kernel);
                        self.frame = frame;
                        if number != self.monitor_number {
                            swap_capturer = Some(number);
                        }
                        self.monitor_number = number;
                    }
                }
            },
        }
        UpdateActions { serial: serial_action, swap_capturer }
    }
}

/// Does the ASCII-uppercased left name equal the right name?
fn ascii_upper_eq(name: &Vec<u8>, other: &Vec<u8>) -> (r: bool)
    ensures
        r == (spec_ascii_upper(name@) == other@),
{
    if name.len() != other.len() {
        proof {
            assert(spec_ascii_upper(name@).len() == name@.len());
        }
        return false;
    }
    let n = name.len();
    let mut i: usize = 0;
    while i < n
        invariant
            n == name@.len() == other@.len(),
            i <= n,
            forall|j: int| 0 <= j < i ==> spec_ascii_upper(name@)[j] == other@[j],
        decreases n - i,
    {
        let b = name[i];
        let upper: u8 = if 97 <= b && b <= 122 {
            b - 32
        } else {
            b
        };
        if upper != other[i] {
            proof {
                assert(spec_ascii_upper(name@)[i as int] != other@[i as int]);
            }
            return false;
        }
        i = i + 1;
    }
    proof {
        assert(spec_ascii_upper(name@) =~= other@);
    }
    true
}

} // verus!
