//! The serial-link and refresh-rate configuration, and its saved text: a
//! small fixed-shape JSON object that verified code writes and parses, with
//! a proved round trip.
//!
//! The saved shape is
//! `{"refresh_rate": W.FFF, "baud_rate": N, "serial_port": "P"}`:
//! the refresh rate in hertz with exactly three fractional digits, the baud
//! rate as its numeric wire value, and the port name as a quoted string of
//! printable characters.

use crate::baudrate::{spec_baud_from_int, spec_baud_value, Baudrate};
use crate::codec;
use crate::framerate::FramerateLimiter;
use vstd::arithmetic::div_mod::*;
use vstd::prelude::*;

verus! {

/// A usable port name: printable ASCII without quotes or backslashes, so it
/// embeds in the saved text unescaped.
pub open spec fn spec_port_name_ok(s: Seq<u8>) -> bool {
    forall|i: int|
        0 <= i < s.len() ==> 32 <= #[trigger] s[i] <= 126 && s[i] != 34 && s[i] != 92
}

/// The serial link and pacing configuration.
pub struct ProgramConfiguration {
    /// Serial port name, as printable-ASCII bytes.
    pub serial_port: Vec<u8>,
    /// LED refresh rate, in thousandths of a hertz; never zero.
    pub refresh_rate: u32,
    /// Wire rate of the serial link.
    pub baudrate: Baudrate,
}

/// Serial frame settings: the configured wire rate and the fixed frame
/// shape — 8 data bits, no parity, 1 stop bit, no flow control.
#[derive(Clone, Copy, PartialEq, Eq, Structural, Debug)]
pub struct SerialPortSettings {
    pub baud_rate: u32,
    pub data_bits: u8,
    pub parity_enabled: bool,
    pub stop_bits: u8,
    pub flow_control_enabled: bool,
}

/// The saved text's opening: `{"refresh_rate": `.
pub open spec fn lit_head() -> Seq<u8> {
    seq![
        123u8, 34u8, 114u8, 101u8, 102u8, 114u8, 101u8, 115u8, 104u8, 95u8, 114u8, 97u8, 116u8, 101u8,
        34u8, 58u8, 32u8,
    ]
}

/// The second key: `, "baud_rate": `.
pub open spec fn lit_baud() -> Seq<u8> {
    seq![44u8, 32u8, 34u8, 98u8, 97u8, 117u8, 100u8, 95u8, 114u8, 97u8, 116u8, 101u8, 34u8, 58u8, 32u8]
}

/// The third key: `, "serial_port": "`.
pub open spec fn lit_port() -> Seq<u8> {
    seq![
        44u8, 32u8, 34u8, 115u8, 101u8, 114u8, 105u8, 97u8, 108u8, 95u8, 112u8, 111u8, 114u8, 116u8,
        34u8, 58u8, 32u8, 34u8,
    ]
}

/// The saved text's closing: `"}`.
pub open spec fn lit_tail() -> Seq<u8> {
    seq![34u8, 125u8]
}

/// Three zero-padded decimal digits of `f` (for `0 <= f <= 999`).
pub open spec fn spec_frac3(f: int) -> Seq<u8> {
    seq![
        codec::spec_digit(f / 100),
        codec::spec_digit((f / 10) % 10),
        codec::spec_digit(f % 10),
    ]
}

/// The saved text of a configuration.
pub open spec fn spec_to_json(c: ProgramConfiguration) -> Seq<u8> {
    lit_head() + codec::spec_digits((c.refresh_rate / 1000) as nat) + seq![46u8] + spec_frac3(
        (c.refresh_rate % 1000) as int,
    ) + lit_baud() + codec::spec_digits(spec_baud_value(c.baudrate) as nat) + lit_port()
        + c.serial_port@ + lit_tail()
}

/// What a saved text denotes: the refresh rate in thousandths of a hertz,
/// the baud rate, and the port name — or `None` for text that is not the
/// canonical shape, a zero or overlarge rate, a number outside the closed
/// rate set, or an unusable port name.
pub open spec fn spec_from_json(s: Seq<u8>) -> Option<(u32, Baudrate, Seq<u8>)> {
    if !codec::spec_match_at(s, 0, lit_head()) {
        None
    } else {
        let i1 = lit_head().len() as int;
        match codec::spec_parse_number(s, i1) {
            None => None,
            Some((whole, i2)) => {
                if !(i2 + 4 <= s.len() && s[i2] == 46 && codec::spec_is_digit(s[i2 + 1])
                    && codec::spec_is_digit(s[i2 + 2]) && codec::spec_is_digit(s[i2 + 3])) {
                    None
                } else {
                    let frac = (s[i2 + 1] - 48) * 100 + (s[i2 + 2] - 48) * 10 + (s[i2 + 3] - 48);
                    let rr = whole * 1000 + frac;
                    let i3 = i2 + 4;
                    if rr < 1 || rr > u32::MAX {
                        None
                    } else if !codec::spec_match_at(s, i3, lit_baud()) {
                        None
                    } else {
                        let i4 = i3 + lit_baud().len();
                        match codec::spec_parse_number(s, i4) {
                            None => None,
                            Some((bv, i5)) => match spec_baud_from_int(bv) {
                                None => None,
                                Some(baud) => {
                                    if !codec::spec_match_at(s, i5, lit_port()) {
                                        None
                                    } else {
                                        let i6 = i5 + lit_port().len();
                                        let e = codec::spec_quote_end(s, i6);
                                        if e >= s.len() {
                                            None
                                        } else {
                                            let port = s.subrange(i6, e);
                                            if !spec_port_name_ok(port) {
                                                None
                                            } else if !(codec::spec_match_at(s, e, lit_tail())
                                                && e + 2 == s.len()) {
                                                None
                                            } else {
                                                Some((rr as u32, baud, port))
                                            }
                                        }
                                    }
                                },
                            },
                        }
                    }
                }
            },
        }
    }
}

/// The opening literal as bytes.
fn lit_head_vec() -> (v: Vec<u8>)
    ensures
        v@ == lit_head(),
{
    let mut v: Vec<u8> = Vec::new();
    v.push(123u8);
    v.push(34u8);
    v.push(114u8);
    v.push(101u8);
    v.push(102u8);
    v.push(114u8);
    v.push(101u8);
    v.push(115u8);
    v.push(104u8);
    v.push(95u8);
    v.push(114u8);
    v.push(97u8);
    v.push(116u8);
    v.push(101u8);
    v.push(34u8);
    v.push(58u8);
    v.push(32u8);
    proof {
        assert(v@ =~= lit_head());
    }
    v
}

/// The second key's literal as bytes.
fn lit_baud_vec() -> (v: Vec<u8>)
    ensures
        v@ == lit_baud(),
{
    let mut v: Vec<u8> = Vec::new();
    v.push(44u8);
    v.push(32u8);
    v.push(34u8);
    v.push(98u8);
    v.push(97u8);
    v.push(117u8);
    v.push(100u8);
    v.push(95u8);
    v.push(114u8);
    v.push(97u8);
    v.push(116u8);
    v.push(101u8);
    v.push(34u8);
    v.push(58u8);
    v.push(32u8);
    proof {
        assert(v@ =~= lit_baud());
    }
    v
}

/// The third key's literal as bytes.
fn lit_port_vec() -> (v: Vec<u8>)
    ensures
        v@ == lit_port(),
{
    let mut v: Vec<u8> = Vec::new();
    v.push(44u8);
    v.push(32u8);
    v.push(34u8);
    v.push(115u8);
    v.push(101u8);
    v.push(114u8);
    v.push(105u8);
    v.push(97u8);
    v.push(108u8);
    v.push(95u8);
    v.push(112u8);
    v.push(111u8);
    v.push(114u8);
    v.push(116u8);
    v.push(34u8);
    v.push(58u8);
    v.push(32u8);
    v.push(34u8);
    proof {
        assert(v@ =~= lit_port());
    }
    v
}

/// The closing literal as bytes.
fn lit_tail_vec() -> (v: Vec<u8>)
    ensures
        v@ == lit_tail(),
{
    let mut v: Vec<u8> = Vec::new();
    v.push(34u8);
    v.push(125u8);
    proof {
        assert(v@ =~= lit_tail());
    }
    v
}

impl ProgramConfiguration {
    /// The configuration is usable: a positive refresh rate and a port name
    /// that embeds in the saved text.
    pub open spec fn valid(&self) -> bool {
        &&& 1 <= self.refresh_rate
        &&& spec_port_name_ok(self.serial_port@)
    }

    /// The settings to open the serial link with: the configured wire rate
    /// and the fixed 8-N-1 frame shape without flow control.
    pub fn get_serial_port_settings(&self) -> (r: SerialPortSettings)
        ensures
            r.baud_rate == spec_baud_value(self.baudrate),
            r.data_bits == 8,
            !r.parity_enabled,
            r.stop_bits == 1,
            !r.flow_control_enabled,
    {
        SerialPortSettings {
            baud_rate: self.baudrate.as_u32(),
            data_bits: 8,
            parity_enabled: false,
            stop_bits: 1,
            flow_control_enabled: false,
        }
    }

    /// A rate limiter paced to the configured refresh rate, as if its last
    /// tick returned at `now_ms`.
    pub fn get_refreshrate_controller(&self, now_ms: u64) -> (r: FramerateLimiter)
        requires
            self.valid(),
        ensures
            r.well_formed(),
            r.tick_rate == self.refresh_rate,
            r.spec_previous_tick() == now_ms,
    {
        FramerateLimiter::new(self.refresh_rate, now_ms)
    }

    /// The saved text of this configuration.
    pub fn to_json(&self) -> (r: Vec<u8>)
        ensures
            r@ == spec_to_json(*self),
    {
        let mut out = lit_head_vec();
        let mut whole = codec::fmt_u64((self.refresh_rate / 1000) as u64);
        out.append(&mut whole);
        out.push(46u8);
        let f = self.refresh_rate % 1000;
        out.push(48 + ((f / 100) as u8));
        out.push(48 + (((f / 10) % 10) as u8));
        out.push(48 + ((f % 10) as u8));
        let mut l2 = lit_baud_vec();
        out.append(&mut l2);
        let mut baud = codec::fmt_u64(self.baudrate.as_u32() as u64);
        out.append(&mut baud);
        let mut l3 = lit_port_vec();
        out.append(&mut l3);
        let ghost before_port = out@;
        out.extend_from_slice(self.serial_port.as_slice());
        proof {
            assert forall|i: int| 0 <= i < out@.len() implies out@[i] == (before_port
                + self.serial_port@)[i] by {}
            assert(out@ =~= before_port + self.serial_port@);
        }
        let mut l4 = lit_tail_vec();
        out.append(&mut l4);
        proof {
            lemma_mod_bound(self.refresh_rate as int, 1000);
            assert(out@ =~= spec_to_json(*self));
        }
        out
    }

    /// Parse a saved text.  `None` exactly on text that `spec_from_json`
    /// rejects; a parsed configuration is always usable.
    #[verifier::loop_isolation(false)]
    pub fn from_json(s: &[u8]) -> (r: Option<ProgramConfiguration>)
        ensures
            match r {
                Some(c) => spec_from_json(s@) == Some(
                    (c.refresh_rate, c.baudrate, c.serial_port@),
                ) && c.valid(),
                None => spec_from_json(s@) is None,
            },
    {
        let l1 = lit_head_vec();
        if !codec::match_at(s, 0, &l1) {
            return None;
        }
        let i1 = l1.len();
        let (whole, i2) = match codec::parse_number(s, i1) {
            Some(p) => p,
            None => {
                proof {
                    match codec::spec_parse_number(s@, i1 as int) {
                        Some(_) => lemma_whole_overflow_rejects(s@, i1 as int),
                        None => {},
                    }
                }
                return None;
            },
        };
        if s.len() < 4 || i2 > s.len() - 4 {
            return None;
        }
        if !(s[i2] == 46 && 48 <= s[i2 + 1] && s[i2 + 1] <= 57 && 48 <= s[i2 + 2] && s[i2 + 2]
            <= 57 && 48 <= s[i2 + 3] && s[i2 + 3] <= 57) {
            return None;
        }
        let frac: u32 = ((s[i2 + 1] - 48) as u32) * 100 + ((s[i2 + 2] - 48) as u32) * 10 + ((s[i2
            + 3] - 48) as u32);
        let i3 = i2 + 4;
        if whole > 0xffff_ffffu64 {
            proof {
                let w = codec::spec_parse_number(s@, i1 as int)->Some_0.0;
                assert(w * 1000 > u32::MAX) by (nonlinear_arith)
                    requires
                        w > 0xffff_ffff,
                ;
            }
            return None;
        }
        let rr64: u64 = whole * 1000 + (frac as u64);
        if rr64 < 1 || rr64 > 0xffff_ffffu64 {
            return None;
        }
        let rr: u32 = rr64 as u32;
        let l2 = lit_baud_vec();
        if !codec::match_at(s, i3, &l2) {
            return None;
        }
        let i4 = i3 + l2.len();
        let (bv, i5) = match codec::parse_number(s, i4) {
            Some(p) => p,
            None => {
                proof {
                    match codec::spec_parse_number(s@, i4 as int) {
                        Some(_) => lemma_baud_overflow_rejects(s@, i4 as int),
                        None => {},
                    }
                }
                return None;
            },
        };
        let baud = if bv > 0xffff_ffffu64 {
            proof {
                assert(spec_baud_from_int(
                    codec::spec_parse_number(s@, i4 as int)->Some_0.0) is None);
            }
            return None;
        } else {
            match Baudrate::from_u32(bv as u32) {
                Some(b) => b,
                None => {
                    return None;
                },
            }
        };
        let l3 = lit_port_vec();
        if !codec::match_at(s, i5, &l3) {
            return None;
        }
        let i6 = i5 + l3.len();
        let e = match codec::find_quote(s, i6) {
            Some(e) => e,
            None => {
                return None;
            },
        };
        let mut port: Vec<u8> = Vec::new();
        let mut j: usize = i6;
        proof {
            assert(port@ =~= s@.subrange(i6 as int, i6 as int));
        }
        while j < e
            invariant
                i6 <= j <= e < s@.len(),
                port@ == s@.subrange(i6 as int, j as int),
                forall|t: int|
                    0 <= t < port@.len() ==> 32 <= #[trigger] port@[t] <= 126 && port@[t] != 34
                        && port@[t] != 92,
            decreases e - j,
        {
            let b = s[j];
            if !(32 <= b && b <= 126) || b == 34 || b == 92 {
                proof {
                    assert(s@.subrange(i6 as int, e as int)[j - i6] == s@[j as int]);
                    assert(!spec_port_name_ok(s@.subrange(i6 as int, e as int)));
                }
                return None;
            }
            port.push(b);
            proof {
                assert(port@ =~= s@.subrange(i6 as int, j as int + 1));
            }
            j = j + 1;
        }
        let l4 = lit_tail_vec();
        if !codec::match_at(s, e, &l4) {
            return None;
        }
        if e + 2 != s.len() {
            return None;
        }
        Some(ProgramConfiguration { serial_port: port, refresh_rate: rr, baudrate: baud })
    }
}

/// When the whole-hertz field overflows a `u64`, the denoted rate overflows
/// a `u32` as well, so the text denotes nothing.
proof fn lemma_whole_overflow_rejects(s: Seq<u8>, i1: int)
    requires
        codec::spec_parse_number(s, i1) matches Some((v, _)) && v > u64::MAX,
    ensures
        spec_from_json(s) is None || i1 != lit_head().len(),
{
    if i1 == lit_head().len() {
        let v = codec::spec_parse_number(s, i1)->Some_0.0;
        assert(v * 1000 > u32::MAX) by (nonlinear_arith)
            requires
                v > 0xffff_ffff_ffff_ffff,
        ;
    }
}

/// When the baud field overflows a `u64`, it lies outside the closed rate
/// set, so the text denotes nothing.
proof fn lemma_baud_overflow_rejects(s: Seq<u8>, i4: int)
    requires
        codec::spec_parse_number(s, i4) matches Some((v, _)) && v > u64::MAX,
    ensures
        spec_baud_from_int(codec::spec_parse_number(s, i4)->Some_0.0) is None,
{
}

/// Round trip: the saved text of a usable configuration parses back to the
/// same refresh rate, baud rate and port name, field for field.
pub proof fn lemma_config_round_trip(c: ProgramConfiguration)
    requires
        c.valid(),
    ensures
        spec_from_json(spec_to_json(c)) == Some((c.refresh_rate, c.baudrate, c.serial_port@)),
{
    let s = spec_to_json(c);
    let l1 = lit_head();
    let l2 = lit_baud();
    let l3 = lit_port();
    let l4 = lit_tail();
    let rrw = (c.refresh_rate / 1000) as nat;
    let bdv = spec_baud_value(c.baudrate) as nat;
    let wh = codec::spec_digits(rrw);
    let f = c.refresh_rate as int % 1000;
    let fr = spec_frac3(f);
    let bd = codec::spec_digits(bdv);
    let port = c.serial_port@;
    let i1 = l1.len() as int;
    let i2 = i1 + wh.len();
    let i3 = i2 + 4;
    let i4 = i3 + l2.len();
    let i5 = i4 + bd.len();
    let i6 = i5 + l3.len();
    let e = i6 + port.len();
    codec::lemma_digits_are_digits(rrw);
    codec::lemma_digits_are_digits(bdv);
    lemma_mod_bound(c.refresh_rate as int, 1000);
    assert(s.len() == e + 2);

    // the opening literal stands first
    assert(s.subrange(0, i1) =~= l1);

    // the whole-hertz digits form the maximal run, ended by the dot
    assert forall|j: int| i1 <= j < i2 implies codec::spec_is_digit(s[j]) by {
        assert(s[j] == wh[j - i1]);
    }
    assert(s[i2] == 46);
    codec::lemma_num_end_of_run(s, i1, i2);
    assert(s.subrange(i1, i2) =~= wh);
    codec::lemma_digits_round_trip(rrw);
    assert(codec::spec_parse_number(s, i1) == Some((c.refresh_rate as int / 1000, i2)));

    // the three fractional digits recover the thousandths
    assert(s[i2 + 1] == codec::spec_digit(f / 100));
    assert(s[i2 + 2] == codec::spec_digit((f / 10) % 10));
    assert(s[i2 + 3] == codec::spec_digit(f % 10));
    lemma_mod_bound(f, 10);
    lemma_mod_bound(f / 10, 10);
    lemma_div_pos_is_pos(f, 10);
    assert(0 <= f / 100 <= 9);
    lemma_breakdown(f, 10, 10);
    assert(f % 100 == 10 * ((f / 10) % 10) + f % 10);
    lemma_fundamental_div_mod(f, 100);
    lemma_mod_bound(f, 100);
    assert(f == (f / 100) * 100 + ((f / 10) % 10) * 10 + (f % 10)) by (nonlinear_arith)
        requires
            f == 100 * (f / 100) + f % 100,
            f % 100 == 10 * ((f / 10) % 10) + f % 10,
    ;
    lemma_fundamental_div_mod(c.refresh_rate as int, 1000);
    assert((c.refresh_rate as int / 1000) * 1000 + f == c.refresh_rate) by (nonlinear_arith)
        requires
            c.refresh_rate as int == 1000 * (c.refresh_rate as int / 1000) + c.refresh_rate as int
                % 1000,
            f == c.refresh_rate as int % 1000,
    ;

    // the second literal follows the dot and the fraction
    assert(s.subrange(i3, i3 + l2.len()) =~= l2);

    // the baud digits form the maximal run, ended by the comma of the
    // third literal
    assert forall|j: int| i4 <= j < i5 implies codec::spec_is_digit(s[j]) by {
        assert(s[j] == bd[j - i4]);
    }
    assert(s[i5] == 44);
    codec::lemma_num_end_of_run(s, i4, i5);
    assert(s.subrange(i4, i5) =~= bd);
    codec::lemma_digits_round_trip(bdv);
    crate::baudrate::lemma_baud_round_trip(c.baudrate);
    assert(codec::spec_parse_number(s, i4) == Some((spec_baud_value(c.baudrate) as int, i5)));

    // the third literal follows the baud digits
    assert(s.subrange(i5, i5 + l3.len()) =~= l3);

    // the port name runs exactly to the closing quote
    assert forall|j: int| i6 <= j < e implies s[j] != 34 by {
        assert(s[j] == port[j - i6]);
    }
    assert(s[e] == 34);
    codec::lemma_quote_end_of_run(s, i6, e);
    assert(s.subrange(i6, e) =~= port);

    // the closing literal ends the text
    assert(s.subrange(e, e + 2) =~= l4);
}

impl Default for ProgramConfiguration {
    /// The documented fallback: port `COM0`, 20 Hz, and the default rate.
    fn default() -> (r: Self)
        ensures
            r.valid(),
            r.serial_port@ == seq![67u8, 79u8, 77u8, 48u8],
            r.refresh_rate == 20_000,
            r.baudrate == Baudrate::B115200,
    {
        let mut port: Vec<u8> = Vec::new();
        port.push(67u8);
        port.push(79u8);
        port.push(77u8);
        port.push(48u8);
        proof {
            assert(port@ =~= seq![67u8, 79u8, 77u8, 48u8]);
        }
        ProgramConfiguration { serial_port: port, refresh_rate: 20_000, baudrate: Baudrate::B115200 }
    }
}

} // verus!
