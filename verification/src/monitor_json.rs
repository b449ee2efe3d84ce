//! The monitor layout's saved text: a fixed-shape JSON object listing each
//! monitor's capture source, wiring order, physical size, LED distribution
//! and bezel, parsed by verified code.
//!
//! The saved shape is
//! `{"monitor_configuration": [M, ...]}` with each monitor `M` of the form
//! `{"monitor": N, "led_order": "S", "diagonal_size": W.FFF,
//! "led_count": {"top": N, "left": N, "right": N, "bottom": N},
//! "leds_per_inch": W.FFF,
//! "bezel_thickness": {"top": W.FFF, "left": W.FFF, "right": W.FFF,
//! "bottom": W.FFF}}`: physical lengths in inches with exactly three
//! fractional digits, and the wiring order as edge/direction symbol pairs.

use crate::codec;
use crate::monitor_config::{
    led_order_parses, parse_led_order, spec_led_order, Bezel, LEDCount, LEDDirectionSequence,
    Monitor, MonitorConfiguration, MAX_LEDS_PER_EDGE, MAX_MILLI_INCHES, MAX_MILLI_LEDS_PER_INCH,
};
use crate::side::SideDirection;
use vstd::prelude::*;

verus! {

/// Largest capture-source index the layout text may name.
pub const MAX_MONITOR_NUMBER: usize = 65_535;

/// The literal `{\"monitor_configuration\": [` of the layout text.
pub open spec fn lit_mc_head() -> Seq<u8> {
    seq![123u8, 34u8, 109u8, 111u8, 110u8, 105u8, 116u8, 111u8, 114u8, 95u8, 99u8, 111u8, 110u8, 102u8, 105u8, 103u8, 117u8, 114u8, 97u8, 116u8, 105u8, 111u8, 110u8, 34u8, 58u8, 32u8, 91u8]
}

/// The same literal as bytes.
fn lit_mc_head_vec() -> (v: Vec<u8>)
    ensures
        v@ == lit_mc_head(),
{
    let mut v: Vec<u8> = Vec::new();
    v.push(123u8);
    v.push(34u8);
    v.push(109u8);
    v.push(111u8);
    v.push(110u8);
    v.push(105u8);
    v.push(116u8);
    v.push(111u8);
    v.push(114u8);
    v.push(95u8);
    v.push(99u8);
    v.push(111u8);
    v.push(110u8);
    v.push(102u8);
    v.push(105u8);
    v.push(103u8);
    v.push(117u8);
    v.push(114u8);
    v.push(97u8);
    v.push(116u8);
    v.push(105u8);
    v.push(111u8);
    v.push(110u8);
    v.push(34u8);
    v.push(58u8);
    v.push(32u8);
    v.push(91u8);
    proof {
        assert(v@ =~= lit_mc_head());
    }
    v
}

/// The literal `{\"monitor\": ` of the layout text.
pub open spec fn lit_mon_number() -> Seq<u8> {
    seq![123u8, 34u8, 109u8, 111u8, 110u8, 105u8, 116u8, 111u8, 114u8, 34u8, 58u8, 32u8]
}

/// The same literal as bytes.
fn lit_mon_number_vec() -> (v: Vec<u8>)
    ensures
        v@ == lit_mon_number(),
{
    let mut v: Vec<u8> = Vec::new();
    v.push(123u8);
    v.push(34u8);
    v.push(109u8);
    v.push(111u8);
    v.push(110u8);
    v.push(105u8);
    v.push(116u8);
    v.push(111u8);
    v.push(114u8);
    v.push(34u8);
    v.push(58u8);
    v.push(32u8);
    proof {
        assert(v@ =~= lit_mon_number());
    }
    v
}

/// The literal `, \"led_order\": \"` of the layout text.
pub open spec fn lit_mon_order() -> Seq<u8> {
    seq![44u8, 32u8, 34u8, 108u8, 101u8, 100u8, 95u8, 111u8, 114u8, 100u8, 101u8, 114u8, 34u8, 58u8, 32u8, 34u8]
}

/// The same literal as bytes.
fn lit_mon_order_vec() -> (v: Vec<u8>)
    ensures
        v@ == lit_mon_order(),
{
    let mut v: Vec<u8> = Vec::new();
    v.push(44u8);
    v.push(32u8);
    v.push(34u8);
    v.push(108u8);
    v.push(101u8);
    v.push(100u8);
    v.push(95u8);
    v.push(111u8);
    v.push(114u8);
    v.push(100u8);
    v.push(101u8);
    v.push(114u8);
    v.push(34u8);
    v.push(58u8);
    v.push(32u8);
    v.push(34u8);
    proof {
        assert(v@ =~= lit_mon_order());
    }
    v
}

/// The literal `\", \"diagonal_size\": ` of the layout text.
pub open spec fn lit_mon_diag() -> Seq<u8> {
    seq![34u8, 44u8, 32u8, 34u8, 100u8, 105u8, 97u8, 103u8, 111u8, 110u8, 97u8, 108u8, 95u8, 115u8, 105u8, 122u8, 101u8, 34u8, 58u8, 32u8]
}

/// The same literal as bytes.
fn lit_mon_diag_vec() -> (v: Vec<u8>)
    ensures
        v@ == lit_mon_diag(),
{
    let mut v: Vec<u8> = Vec::new();
    v.push(34u8);
    v.push(44u8);
    v.push(32u8);
    v.push(34u8);
    v.push(100u8);
    v.push(105u8);
    v.push(97u8);
    v.push(103u8);
    v.push(111u8);
    v.push(110u8);
    v.push(97u8);
    v.push(108u8);
    v.push(95u8);
    v.push(115u8);
    v.push(105u8);
    v.push(122u8);
    v.push(101u8);
    v.push(34u8);
    v.push(58u8);
    v.push(32u8);
    proof {
        assert(v@ =~= lit_mon_diag());
    }
    v
}

/// The literal `, \"led_count\": {\"top\": ` of the layout text.
pub open spec fn lit_mon_count() -> Seq<u8> {
    seq![44u8, 32u8, 34u8, 108u8, 101u8, 100u8, 95u8, 99u8, 111u8, 117u8, 110u8, 116u8, 34u8, 58u8, 32u8, 123u8, 34u8, 116u8, 111u8, 112u8, 34u8, 58u8, 32u8]
}

/// The same literal as bytes.
fn lit_mon_count_vec() -> (v: Vec<u8>)
    ensures
        v@ == lit_mon_count(),
{
    let mut v: Vec<u8> = Vec::new();
    v.push(44u8);
    v.push(32u8);
    v.push(34u8);
    v.push(108u8);
    v.push(101u8);
    v.push(100u8);
    v.push(95u8);
    v.push(99u8);
    v.push(111u8);
    v.push(117u8);
    v.push(110u8);
    v.push(116u8);
    v.push(34u8);
    v.push(58u8);
    v.push(32u8);
    v.push(123u8);
    v.push(34u8);
    v.push(116u8);
    v.push(111u8);
    v.push(112u8);
    v.push(34u8);
    v.push(58u8);
    v.push(32u8);
    proof {
        assert(v@ =~= lit_mon_count());
    }
    v
}

/// The literal `, \"left\": ` of the layout text.
pub open spec fn lit_key_left() -> Seq<u8> {
    seq![44u8, 32u8, 34u8, 108u8, 101u8, 102u8, 116u8, 34u8, 58u8, 32u8]
}

/// The same literal as bytes.
fn lit_key_left_vec() -> (v: Vec<u8>)
    ensures
        v@ == lit_key_left(),
{
    let mut v: Vec<u8> = Vec::new();
    v.push(44u8);
    v.push(32u8);
    v.push(34u8);
    v.push(108u8);
    v.push(101u8);
    v.push(102u8);
    v.push(116u8);
    v.push(34u8);
    v.push(58u8);
    v.push(32u8);
    proof {
        assert(v@ =~= lit_key_left());
    }
    v
}

/// The literal `, \"right\": ` of the layout text.
pub open spec fn lit_key_right() -> Seq<u8> {
    seq![44u8, 32u8, 34u8, 114u8, 105u8, 103u8, 104u8, 116u8, 34u8, 58u8, 32u8]
}

/// The same literal as bytes.
fn lit_key_right_vec() -> (v: Vec<u8>)
    ensures
        v@ == lit_key_right(),
{
    let mut v: Vec<u8> = Vec::new();
    v.push(44u8);
    v.push(32u8);
    v.push(34u8);
    v.push(114u8);
    v.push(105u8);
    v.push(103u8);
    v.push(104u8);
    v.push(116u8);
    v.push(34u8);
    v.push(58u8);
    v.push(32u8);
    proof {
        assert(v@ =~= lit_key_right());
    }
    v
}

/// The literal `, \"bottom\": ` of the layout text.
pub open spec fn lit_key_bottom() -> Seq<u8> {
    seq![44u8, 32u8, 34u8, 98u8, 111u8, 116u8, 116u8, 111u8, 109u8, 34u8, 58u8, 32u8]
}

/// The same literal as bytes.
fn lit_key_bottom_vec() -> (v: Vec<u8>)
    ensures
        v@ == lit_key_bottom(),
{
    let mut v: Vec<u8> = Vec::new();
    v.push(44u8);
    v.push(32u8);
    v.push(34u8);
    v.push(98u8);
    v.push(111u8);
    v.push(116u8);
    v.push(116u8);
    v.push(111u8);
    v.push(109u8);
    v.push(34u8);
    v.push(58u8);
    v.push(32u8);
    proof {
        assert(v@ =~= lit_key_bottom());
    }
    v
}

/// The literal `}, \"leds_per_inch\": ` of the layout text.
pub open spec fn lit_mon_lpi() -> Seq<u8> {
    seq![125u8, 44u8, 32u8, 34u8, 108u8, 101u8, 100u8, 115u8, 95u8, 112u8, 101u8, 114u8, 95u8, 105u8, 110u8, 99u8, 104u8, 34u8, 58u8, 32u8]
}

/// The same literal as bytes.
fn lit_mon_lpi_vec() -> (v: Vec<u8>)
    ensures
        v@ == lit_mon_lpi(),
{
    let mut v: Vec<u8> = Vec::new();
    v.push(125u8);
    v.push(44u8);
    v.push(32u8);
    v.push(34u8);
    v.push(108u8);
    v.push(101u8);
    v.push(100u8);
    v.push(115u8);
    v.push(95u8);
    v.push(112u8);
    v.push(101u8);
    v.push(114u8);
    v.push(95u8);
    v.push(105u8);
    v.push(110u8);
    v.push(99u8);
    v.push(104u8);
    v.push(34u8);
    v.push(58u8);
    v.push(32u8);
    proof {
        assert(v@ =~= lit_mon_lpi());
    }
    v
}

/// The literal `, \"bezel_thickness\": {\"top\": ` of the layout text.
pub open spec fn lit_mon_bezel() -> Seq<u8> {
    seq![44u8, 32u8, 34u8, 98u8, 101u8, 122u8, 101u8, 108u8, 95u8, 116u8, 104u8, 105u8, 99u8, 107u8, 110u8, 101u8, 115u8, 115u8, 34u8, 58u8, 32u8, 123u8, 34u8, 116u8, 111u8, 112u8, 34u8, 58u8, 32u8]
}

/// The same literal as bytes.
fn lit_mon_bezel_vec() -> (v: Vec<u8>)
    ensures
        v@ == lit_mon_bezel(),
{
    let mut v: Vec<u8> = Vec::new();
    v.push(44u8);
    v.push(32u8);
    v.push(34u8);
    v.push(98u8);
    v.push(101u8);
    v.push(122u8);
    v.push(101u8);
    v.push(108u8);
    v.push(95u8);
    v.push(116u8);
    v.push(104u8);
    v.push(105u8);
    v.push(99u8);
    v.push(107u8);
    v.push(110u8);
    v.push(101u8);
    v.push(115u8);
    v.push(115u8);
    v.push(34u8);
    v.push(58u8);
    v.push(32u8);
    v.push(123u8);
    v.push(34u8);
    v.push(116u8);
    v.push(111u8);
    v.push(112u8);
    v.push(34u8);
    v.push(58u8);
    v.push(32u8);
    proof {
        assert(v@ =~= lit_mon_bezel());
    }
    v
}

/// The literal `}}` of the layout text.
pub open spec fn lit_mon_close() -> Seq<u8> {
    seq![125u8, 125u8]
}

/// The same literal as bytes.
fn lit_mon_close_vec() -> (v: Vec<u8>)
    ensures
        v@ == lit_mon_close(),
{
    let mut v: Vec<u8> = Vec::new();
    v.push(125u8);
    v.push(125u8);
    proof {
        assert(v@ =~= lit_mon_close());
    }
    v
}

/// The literal `, ` of the layout text.
pub open spec fn lit_mc_sep() -> Seq<u8> {
    seq![44u8, 32u8]
}

/// The same literal as bytes.
fn lit_mc_sep_vec() -> (v: Vec<u8>)
    ensures
        v@ == lit_mc_sep(),
{
    let mut v: Vec<u8> = Vec::new();
    v.push(44u8);
    v.push(32u8);
    proof {
        assert(v@ =~= lit_mc_sep());
    }
    v
}

/// The literal `]}` of the layout text.
pub open spec fn lit_mc_tail() -> Seq<u8> {
    seq![93u8, 125u8]
}

/// The same literal as bytes.
fn lit_mc_tail_vec() -> (v: Vec<u8>)
    ensures
        v@ == lit_mc_tail(),
{
    let mut v: Vec<u8> = Vec::new();
    v.push(93u8);
    v.push(125u8);
    proof {
        assert(v@ =~= lit_mc_tail());
    }
    v
}

/// One parsed monitor, as plain values.
pub struct MonitorShape {
    pub monitor_number: int,
    pub led_order: Seq<SideDirection>,
    pub diagonal_size: int,
    pub led_top: int,
    pub led_left: int,
    pub led_right: int,
    pub led_bottom: int,
    pub leds_per_inch: int,
    pub bez_top: int,
    pub bez_left: int,
    pub bez_right: int,
    pub bez_bottom: int,
}

/// The plain values a monitor holds.
pub open spec fn spec_monitor_shape(m: Monitor) -> MonitorShape {
    MonitorShape {
        monitor_number: m.monitor_number as int,
        led_order: m.led_order.data@,
        diagonal_size: m.diagonal_size as int,
        led_top: m.led_distribution.top as int,
        led_left: m.led_distribution.left as int,
        led_right: m.led_distribution.right as int,
        led_bottom: m.led_distribution.bottom as int,
        leds_per_inch: m.leds_per_inch as int,
        bez_top: m.bezel_thickness.top as int,
        bez_left: m.bezel_thickness.left as int,
        bez_right: m.bezel_thickness.right as int,
        bez_bottom: m.bezel_thickness.bottom as int,
    }
}

/// Parse one monitor object at `i`: its plain values and where it ends.
/// `None` for any other shape, a value beyond its bound, or a wiring order
/// with an unknown symbol.
pub open spec fn spec_parse_monitor(s: Seq<u8>, i: int) -> Option<(MonitorShape, int)> {
    if !codec::spec_match_at(s, i, lit_mon_number()) {
        None
    } else {
        let i1 = i + lit_mon_number().len();
        match codec::spec_parse_number(s, i1) {
            None => None,
            Some((number, i2)) => {
                if !(1 <= number <= MAX_MONITOR_NUMBER && codec::spec_match_at(s, i2,
                lit_mon_order())) {
                    None
                } else {
                    let i3 = i2 + lit_mon_order().len();
                    let q = codec::spec_quote_end(s, i3);
                    if !(q < s.len() && led_order_parses(s.subrange(i3, q))
                        && codec::spec_match_at(s, q, lit_mon_diag())) {
                        None
                    } else {
                        let order = spec_led_order(s.subrange(i3, q));
                        let i4 = q + lit_mon_diag().len();
                        match codec::spec_parse_milli(s, i4) {
                            None => None,
                            Some((diag, i5)) => {
                                if !(diag <= MAX_MILLI_INCHES && codec::spec_match_at(s, i5,
                                lit_mon_count())) {
                                    None
                                } else {
                                    spec_parse_monitor_counts(
                                        s,
                                        i5 + lit_mon_count().len(),
                                        number,
                                        order,
                                        diag,
                                    )
                                }
                            },
                        }
                    }
                }
            },
        }
    }
}

/// Parse the LED counts, density and bezel that finish a monitor object.
pub open spec fn spec_parse_monitor_counts(
    s: Seq<u8>,
    i: int,
    number: int,
    order: Seq<SideDirection>,
    diag: int,
) -> Option<(MonitorShape, int)> {
    match spec_parse_count4(s, i, lit_mon_lpi(), MAX_LEDS_PER_EDGE as int) {
        None => None,
        Some((t, l, r, b, i6)) => match codec::spec_parse_milli(s, i6) {
            None => None,
            Some((lpi, i7)) => {
                if !(lpi <= MAX_MILLI_LEDS_PER_INCH && codec::spec_match_at(s, i7,
                lit_mon_bezel())) {
                    None
                } else {
                    match spec_parse_milli4(s, i7 + lit_mon_bezel().len(), lit_mon_close()) {
                        None => None,
                        Some((bt, bl, br, bb, end)) => Some(
                            (
                                MonitorShape {
                                    monitor_number: number,
                                    led_order: order,
                                    diagonal_size: diag,
                                    led_top: t,
                                    led_left: l,
                                    led_right: r,
                                    led_bottom: b,
                                    leds_per_inch: lpi,
                                    bez_top: bt,
                                    bez_left: bl,
                                    bez_right: br,
                                    bez_bottom: bb,
                                },
                                end,
                            ),
                        ),
                    }
                }
            },
        },
    }
}

/// Parse four bounded whole numbers under the keys top, left, right and
/// bottom, closed by `after`.
pub open spec fn spec_parse_count4(s: Seq<u8>, i: int, after: Seq<u8>, max: int) -> Option<
    (int, int, int, int, int),
> {
    match codec::spec_parse_number(s, i) {
        None => None,
        Some((t, j1)) => {
            if !(0 <= t <= max && codec::spec_match_at(s, j1, lit_key_left())) {
                None
            } else {
                match codec::spec_parse_number(s, j1 + lit_key_left().len()) {
                    None => None,
                    Some((l, j2)) => {
                        if !(0 <= l <= max && codec::spec_match_at(s, j2, lit_key_right())) {
                            None
                        } else {
                            match codec::spec_parse_number(s, j2 + lit_key_right().len()) {
                                None => None,
                                Some((r, j3)) => {
                                    if !(0 <= r <= max && codec::spec_match_at(s, j3,
                                    lit_key_bottom())) {
                                        None
                                    } else {
                                        match codec::spec_parse_number(
                                            s,
                                            j3 + lit_key_bottom().len(),
                                        ) {
                                            None => None,
                                            Some((b, j4)) => {
                                                if !(0 <= b <= max && codec::spec_match_at(s, j4,
                                                after)) {
                                                    None
                                                } else {
                                                    Some((t, l, r, b, j4 + after.len()))
                                                }
                                            },
                                        }
                                    }
                                },
                            }
                        }
                    },
                }
            }
        },
    }
}

/// Parse four bounded thousandths values under the keys top, left, right
/// and bottom, closed by `after`.
pub open spec fn spec_parse_milli4(s: Seq<u8>, i: int, after: Seq<u8>) -> Option<
    (int, int, int, int, int),
> {
    match codec::spec_parse_milli(s, i) {
        None => None,
        Some((t, j1)) => {
            if !(t <= MAX_MILLI_INCHES && codec::spec_match_at(s, j1, lit_key_left())) {
                None
            } else {
                match codec::spec_parse_milli(s, j1 + lit_key_left().len()) {
                    None => None,
                    Some((l, j2)) => {
                        if !(l <= MAX_MILLI_INCHES && codec::spec_match_at(s, j2,
                        lit_key_right())) {
                            None
                        } else {
                            match codec::spec_parse_milli(s, j2 + lit_key_right().len()) {
                                None => None,
                                Some((r, j3)) => {
                                    if !(r <= MAX_MILLI_INCHES && codec::spec_match_at(s, j3,
                                    lit_key_bottom())) {
                                        None
                                    } else {
                                        match codec::spec_parse_milli(
                                            s,
                                            j3 + lit_key_bottom().len(),
                                        ) {
                                            None => None,
                                            Some((b, j4)) => {
                                                if !(b <= MAX_MILLI_INCHES
                                                    && codec::spec_match_at(s, j4, after)) {
                                                    None
                                                } else {
                                                    Some((t, l, r, b, j4 + after.len()))
                                                }
                                            },
                                        }
                                    }
                                },
                            }
                        }
                    },
                }
            }
        },
    }
}

/// Parse four bounded whole numbers under the keys top, left, right and
/// bottom, closed by `after`.
fn parse_count4(s: &[u8], from: usize, after: &Vec<u8>, max: usize) -> (r: Option<
    (usize, usize, usize, usize, usize),
>)
    requires
        from <= s@.len(),
    ensures
        match r {
            Some((t, l, rr, b, e)) => spec_parse_count4(s@, from as int, after@, max as int)
                == Some((t as int, l as int, rr as int, b as int, e as int)),
            None => spec_parse_count4(s@, from as int, after@, max as int) is None,
        },
{
    let total = s.len();
    proof {
        assert(total == s@.len());
    }
    let (t, j1) = match codec::parse_number(s, from) {
        Some(p) => p,
        None => {
            return None;
        },
    };
    if t > max as u64 || !codec::match_at(s, j1, &lit_key_left_vec()) {
        return None;
    }
    let j1b = j1 + lit_key_left_vec().len();
    let (l, j2) = match codec::parse_number(s, j1b) {
        Some(p) => p,
        None => {
            return None;
        },
    };
    if l > max as u64 || !codec::match_at(s, j2, &lit_key_right_vec()) {
        return None;
    }
    let j2b = j2 + lit_key_right_vec().len();
    let (rr, j3) = match codec::parse_number(s, j2b) {
        Some(p) => p,
        None => {
            return None;
        },
    };
    if rr > max as u64 || !codec::match_at(s, j3, &lit_key_bottom_vec()) {
        return None;
    }
    let j3b = j3 + lit_key_bottom_vec().len();
    let (b, j4) = match codec::parse_number(s, j3b) {
        Some(p) => p,
        None => {
            return None;
        },
    };
    if b > max as u64 || !codec::match_at(s, j4, after) {
        return None;
    }
    Some((t as usize, l as usize, rr as usize, b as usize, j4 + after.len()))
}

/// Parse four bounded thousandths values under the keys top, left, right
/// and bottom, closed by `after`.
fn parse_milli4(s: &[u8], from: usize, after: &Vec<u8>) -> (r: Option<
    (u32, u32, u32, u32, usize),
>)
    requires
        from <= s@.len(),
    ensures
        match r {
            Some((t, l, rr, b, e)) => spec_parse_milli4(s@, from as int, after@) == Some(
                (t as int, l as int, rr as int, b as int, e as int),
            ),
            None => spec_parse_milli4(s@, from as int, after@) is None,
        },
{
    let total = s.len();
    proof {
        assert(total == s@.len());
    }
    let (t, j1) = match codec::parse_milli(s, from) {
        Some(p) => p,
        None => {
            return None;
        },
    };
    if t > MAX_MILLI_INCHES || !codec::match_at(s, j1, &lit_key_left_vec()) {
        return None;
    }
    proof {
        lemma_milli_end_in_range(s@, from as int);
    }
    let j1b = j1 + lit_key_left_vec().len();
    let (l, j2) = match codec::parse_milli(s, j1b) {
        Some(p) => p,
        None => {
            return None;
        },
    };
    if l > MAX_MILLI_INCHES || !codec::match_at(s, j2, &lit_key_right_vec()) {
        return None;
    }
    let j2b = j2 + lit_key_right_vec().len();
    let (rr, j3) = match codec::parse_milli(s, j2b) {
        Some(p) => p,
        None => {
            return None;
        },
    };
    if rr > MAX_MILLI_INCHES || !codec::match_at(s, j3, &lit_key_bottom_vec()) {
        return None;
    }
    let j3b = j3 + lit_key_bottom_vec().len();
    let (b, j4) = match codec::parse_milli(s, j3b) {
        Some(p) => p,
        None => {
            return None;
        },
    };
    if b > MAX_MILLI_INCHES || !codec::match_at(s, j4, after) {
        return None;
    }
    Some((t, l, rr, b, j4 + after.len()))
}

/// A parsed thousandths value ends inside the string.
proof fn lemma_milli_end_in_range(s: Seq<u8>, i: int)
    requires
        0 <= i <= s.len(),
        codec::spec_parse_milli(s, i) is Some,
    ensures
        i < codec::spec_parse_milli(s, i)->Some_0.1 <= s.len(),
{
    codec::lemma_num_end_shape(s, i);
}

/// Parse one monitor object at `from`.
#[verifier::rlimit(100)]
fn parse_monitor(s: &[u8], from: usize) -> (r: Option<(Monitor, usize)>)
    requires
        from <= s@.len(),
    ensures
        match r {
            Some((m, e)) => {
                &&& spec_parse_monitor(s@, from as int) == Some(
                    (spec_monitor_shape(m), e as int),
                )
                &&& m.valid()
                &&& from < e <= s@.len()
            },
            None => spec_parse_monitor(s@, from as int) is None,
        },
{
    let total = s.len();
    proof {
        assert(total == s@.len());
    }
    if !codec::match_at(s, from, &lit_mon_number_vec()) {
        return None;
    }
    let i1 = from + lit_mon_number_vec().len();
    let (number, i2) = match codec::parse_number(s, i1) {
        Some(p) => p,
        None => {
            return None;
        },
    };
    if number == 0 || number > MAX_MONITOR_NUMBER as u64 || !codec::match_at(
        s,
        i2,
        &lit_mon_order_vec(),
    ) {
        return None;
    }
    proof {
        codec::lemma_num_end_shape(s@, i1 as int);
    }
    let i3 = i2 + lit_mon_order_vec().len();
    let q = match codec::find_quote(s, i3) {
        Some(q) => q,
        None => {
            return None;
        },
    };
    let order = match parse_led_order(&s[i3..q]) {
        Ok(order) => order,
        Err(_) => {
            return None;
        },
    };
    if !codec::match_at(s, q, &lit_mon_diag_vec()) {
        return None;
    }
    let i4 = q + lit_mon_diag_vec().len();
    let (diag, i5) = match codec::parse_milli(s, i4) {
        Some(p) => p,
        None => {
            return None;
        },
    };
    if diag > MAX_MILLI_INCHES || !codec::match_at(s, i5, &lit_mon_count_vec()) {
        return None;
    }
    proof {
        lemma_milli_end_in_range(s@, i4 as int);
    }
    let i5b = i5 + lit_mon_count_vec().len();
    let (counts, lpi, bezel, end) = match parse_monitor_counts(
        s,
        i5b,
        Ghost(number as int),
        Ghost(order.data@),
        Ghost(diag as int),
    ) {
        Some(p) => p,
        None => {
            return None;
        },
    };
    let monitor = Monitor {
        monitor_number: number as usize,
        led_order: order,
        diagonal_size: diag,
        led_distribution: counts,
        leds_per_inch: lpi,
        bezel_thickness: bezel,
    };
    Some((monitor, end))
}

/// Parse the LED counts, density and bezel that finish a monitor object.
#[verifier::rlimit(100)]
fn parse_monitor_counts(
    s: &[u8],
    from: usize,
    number: Ghost<int>,
    order: Ghost<Seq<SideDirection>>,
    diag: Ghost<int>,
) -> (r: Option<(LEDCount, u32, Bezel, usize)>)
    requires
        from <= s@.len(),
    ensures
        match r {
            Some((counts, lpi, bezel, e)) => spec_parse_monitor_counts(
                s@,
                from as int,
                number@,
                order@,
                diag@,
            ) == Some(
                (
                    MonitorShape {
                        monitor_number: number@,
                        led_order: order@,
                        diagonal_size: diag@,
                        led_top: counts.top as int,
                        led_left: counts.left as int,
                        led_right: counts.right as int,
                        led_bottom: counts.bottom as int,
                        leds_per_inch: lpi as int,
                        bez_top: bezel.top as int,
                        bez_left: bezel.left as int,
                        bez_right: bezel.right as int,
                        bez_bottom: bezel.bottom as int,
                    },
                    e as int,
                ),
            ) && from < e <= s@.len(),
            None => spec_parse_monitor_counts(s@, from as int, number@, order@, diag@) is None,
        },
{
    let total = s.len();
    proof {
        assert(total == s@.len());
    }
    let (t, l, rr, b, i6) = match parse_count4(s, from, &lit_mon_lpi_vec(), MAX_LEDS_PER_EDGE) {
        Some(p) => p,
        None => {
            return None;
        },
    };
    proof {
        lemma_count4_end_in_range(s@, from as int, lit_mon_lpi(), MAX_LEDS_PER_EDGE as int);
    }
    let (lpi, i7) = match codec::parse_milli(s, i6) {
        Some(p) => p,
        None => {
            return None;
        },
    };
    if lpi > MAX_MILLI_LEDS_PER_INCH || !codec::match_at(s, i7, &lit_mon_bezel_vec()) {
        return None;
    }
    proof {
        lemma_milli_end_in_range(s@, i6 as int);
    }
    let i7b = i7 + lit_mon_bezel_vec().len();
    let (bt, bl, br, bb, end) = match parse_milli4(s, i7b, &lit_mon_close_vec()) {
        Some(p) => p,
        None => {
            return None;
        },
    };
    proof {
        lemma_milli4_end_in_range(s@, i7b as int, lit_mon_close());
    }
    Some((
        LEDCount { top: t, left: l, right: rr, bottom: b },
        lpi,
        Bezel { top: bt, left: bl, bottom: bb, right: br },
        end,
    ))
}

/// Parsed bezel values end inside the string, past where they began.
proof fn lemma_milli4_end_in_range(s: Seq<u8>, i: int, after: Seq<u8>)
    requires
        0 <= i <= s.len(),
        spec_parse_milli4(s, i, after) is Some,
    ensures
        i < spec_parse_milli4(s, i, after)->Some_0.4 <= s.len(),
{
    lemma_milli_end_in_range(s, i);
    let j1 = codec::spec_parse_milli(s, i)->Some_0.1;
    let i2 = j1 + lit_key_left().len();
    lemma_milli_end_in_range(s, i2);
    let j2 = codec::spec_parse_milli(s, i2)->Some_0.1;
    let i3 = j2 + lit_key_right().len();
    lemma_milli_end_in_range(s, i3);
    let j3 = codec::spec_parse_milli(s, i3)->Some_0.1;
    let i4 = j3 + lit_key_bottom().len();
    lemma_milli_end_in_range(s, i4);
}

/// Parsed counts end inside the string, past where they began.
proof fn lemma_count4_end_in_range(s: Seq<u8>, i: int, after: Seq<u8>, max: int)
    requires
        0 <= i <= s.len(),
        spec_parse_count4(s, i, after, max) is Some,
    ensures
        i < spec_parse_count4(s, i, after, max)->Some_0.4 <= s.len(),
{
    codec::lemma_num_end_shape(s, i);
    let j1 = codec::spec_parse_number(s, i)->Some_0.1;
    let i2 = j1 + lit_key_left().len();
    codec::lemma_num_end_shape(s, i2);
    let j2 = codec::spec_parse_number(s, i2)->Some_0.1;
    let i3 = j2 + lit_key_right().len();
    codec::lemma_num_end_shape(s, i3);
    let j3 = codec::spec_parse_number(s, i3)->Some_0.1;
    let i4 = j3 + lit_key_bottom().len();
    codec::lemma_num_end_shape(s, i4);
}

/// Parse the monitor list at `from`: each object's plain values and where
/// the list's last object ends.
pub open spec fn spec_parse_monitors(s: Seq<u8>, i: int) -> Option<(Seq<MonitorShape>, int)>
    decreases s.len() - i,
{
    match spec_parse_monitor(s, i) {
        None => None,
        Some((m, j)) => {
            if !(i < j <= s.len()) {
                None
            } else if codec::spec_match_at(s, j, lit_mc_sep()) {
                match spec_parse_monitors(s, j + lit_mc_sep().len()) {
                    None => None,
                    Some((rest, end)) => Some((seq![m] + rest, end)),
                }
            } else {
                Some((seq![m], j))
            }
        },
    }
}

/// Parse the monitor list at `from`.
#[verifier::rlimit(100)]
fn parse_monitors(s: &[u8], from: usize) -> (r: Option<(Vec<Monitor>, usize)>)
    requires
        from <= s@.len(),
    ensures
        match r {
            Some((v, e)) => {
                &&& spec_parse_monitors(s@, from as int) == Some(
                    (v@.map_values(|m: Monitor| spec_monitor_shape(m)), e as int),
                )
                &&& forall|k: int| 0 <= k < v@.len() ==> (#[trigger] v@[k]).valid()
                &&& e <= s@.len()
            },
            None => spec_parse_monitors(s@, from as int) is None,
        },
{
    let total = s.len();
    proof {
        assert(total == s@.len());
    }
    let mut monitors: Vec<Monitor> = Vec::new();
    let mut i = from;
    loop
        invariant
            s@.len() <= usize::MAX,
            from <= i <= s@.len(),
            forall|k: int| 0 <= k < monitors@.len() ==> (#[trigger] monitors@[k]).valid(),
            ({
                let acc = monitors@.map_values(|m: Monitor| spec_monitor_shape(m));
                match spec_parse_monitors(s@, i as int) {
                    Some((rest, end)) => spec_parse_monitors(s@, from as int) == Some(
                        (acc + rest, end),
                    ),
                    None => spec_parse_monitors(s@, from as int) is None,
                }
            }),
        decreases s@.len() - i,
    {
        let ghost acc = monitors@.map_values(|m: Monitor| spec_monitor_shape(m));
        let (m, j) = match parse_monitor(s, i) {
            Some(p) => p,
            None => {
                return None;
            },
        };
        monitors.push(m);
        proof {
            assert(monitors@.map_values(|mm: Monitor| spec_monitor_shape(mm)) =~= acc + seq![
                spec_monitor_shape(m),
            ]);
        }
        if codec::match_at(s, j, &lit_mc_sep_vec()) {
            proof {
                let acc2 = acc + seq![spec_monitor_shape(m)];
                match spec_parse_monitors(s@, j as int + 2) {
                    Some((rest, end)) => {
                        assert(spec_parse_monitors(s@, i as int) == Some(
                            (seq![spec_monitor_shape(m)] + rest, end),
                        ));
                        assert(acc + (seq![spec_monitor_shape(m)] + rest) =~= acc2 + rest);
                    },
                    None => {},
                }
            }
            i = j + 2;
        } else {
            proof {
                assert(spec_parse_monitors(s@, i as int) == Some(
                    (seq![spec_monitor_shape(m)], j as int),
                ));
                assert(acc + seq![spec_monitor_shape(m)] =~= monitors@.map_values(
                    |mm: Monitor| spec_monitor_shape(mm),
                ));
            }
            return Some((monitors, j));
        }
    }
}

/// What a saved layout text denotes: the plain values of each monitor, in
/// order — or `None` for text that is not the canonical shape or holds a
/// value beyond its bound.
pub open spec fn spec_layout_from_json(s: Seq<u8>) -> Option<Seq<MonitorShape>> {
    if !codec::spec_match_at(s, 0, lit_mc_head()) {
        None
    } else {
        let i = lit_mc_head().len() as int;
        if codec::spec_match_at(s, i, lit_mc_tail()) && i + 2 == s.len() {
            Some(Seq::empty())
        } else {
            match spec_parse_monitors(s, i) {
                None => None,
                Some((ms, j)) => {
                    if codec::spec_match_at(s, j, lit_mc_tail()) && j + 2 == s.len() {
                        Some(ms)
                    } else {
                        None
                    }
                },
            }
        }
    }
}

impl MonitorConfiguration {
    /// Parse a saved layout text.  `None` exactly on text that
    /// `spec_layout_from_json` rejects; a parsed configuration is always
    /// within the mapper's bounds.
    #[verifier::rlimit(100)]
    pub fn from_json(s: &[u8]) -> (r: Option<MonitorConfiguration>)
        ensures
            match r {
                Some(c) => {
                    &&& spec_layout_from_json(s@) == Some(
                        c.monitors@.map_values(|m: Monitor| spec_monitor_shape(m)),
                    )
                    &&& c.valid()
                },
                None => spec_layout_from_json(s@) is None,
            },
    {
        let total = s.len();
        proof {
            assert(total == s@.len());
        }
        if !codec::match_at(s, 0, &lit_mc_head_vec()) {
            return None;
        }
        let i = lit_mc_head_vec().len();
        if codec::match_at(s, i, &lit_mc_tail_vec()) && i + 2 == s.len() {
            let empty: Vec<Monitor> = Vec::new();
            proof {
                assert(empty@.map_values(|m: Monitor| spec_monitor_shape(m)) =~= Seq::<
                    MonitorShape,
                >::empty());
            }
            return Some(MonitorConfiguration { monitors: empty });
        }
        let (monitors, j) = match parse_monitors(s, i) {
            Some(p) => p,
            None => {
                return None;
            },
        };
        if !codec::match_at(s, j, &lit_mc_tail_vec()) {
            return None;
        }
        if j + 2 != s.len() {
            return None;
        }
        Some(MonitorConfiguration { monitors })
    }
}

} // verus!
