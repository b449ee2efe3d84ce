//! The closed set of serial baud rates the link supports, with its exact
//! numeric wire values.  Arbitrary integers never turn into a rate without
//! validation.

use crate::codec;
use vstd::prelude::*;

verus! {

/// A standard serial baud rate.
#[allow(missing_docs)]
#[derive(Clone, Copy, Debug, PartialEq, Eq, Structural)]
pub enum Baudrate {
    B300,
    B1200,
    B2400,
    B4800,
    B9600,
    B19200,
    B38400,
    B57600,
    B74880,
    B115200,
    B230400,
    B250000,
    B500000,
    B1000000,
    B2000000,
}

/// The numeric wire value of each rate.
pub open spec fn spec_baud_value(b: Baudrate) -> u32 {
    match b {
        Baudrate::B300 => 300,
        Baudrate::B1200 => 1200,
        Baudrate::B2400 => 2400,
        Baudrate::B4800 => 4800,
        Baudrate::B9600 => 9600,
        Baudrate::B19200 => 19200,
        Baudrate::B38400 => 38400,
        Baudrate::B57600 => 57600,
        Baudrate::B74880 => 74880,
        Baudrate::B115200 => 115200,
        Baudrate::B230400 => 230400,
        Baudrate::B250000 => 250000,
        Baudrate::B500000 => 500000,
        Baudrate::B1000000 => 1000000,
        Baudrate::B2000000 => 2000000,
    }
}

/// The rate a number denotes, or `None` for a number outside the closed set.
pub open spec fn spec_baud_from_int(v: int) -> Option<Baudrate> {
    if v == 300 {
        Some(Baudrate::B300)
    } else if v == 1200 {
        Some(Baudrate::B1200)
    } else if v == 2400 {
        Some(Baudrate::B2400)
    } else if v == 4800 {
        Some(Baudrate::B4800)
    } else if v == 9600 {
        Some(Baudrate::B9600)
    } else if v == 19200 {
        Some(Baudrate::B19200)
    } else if v == 38400 {
        Some(Baudrate::B38400)
    } else if v == 57600 {
        Some(Baudrate::B57600)
    } else if v == 74880 {
        Some(Baudrate::B74880)
    } else if v == 115200 {
        Some(Baudrate::B115200)
    } else if v == 230400 {
        Some(Baudrate::B230400)
    } else if v == 250000 {
        Some(Baudrate::B250000)
    } else if v == 500000 {
        Some(Baudrate::B500000)
    } else if v == 1000000 {
        Some(Baudrate::B1000000)
    } else if v == 2000000 {
        Some(Baudrate::B2000000)
    } else {
        None
    }
}

/// A rate text parses only when it is exactly the canonical decimal
/// spelling of one of the fifteen rates; any other text — a leading zero,
/// extra characters, a number outside the set — denotes nothing.
pub open spec fn spec_baud_from_string(s: Seq<u8>) -> Option<Baudrate> {
    if s == codec::spec_digits(300) {
        Some(Baudrate::B300)
    } else if s == codec::spec_digits(1200) {
        Some(Baudrate::B1200)
    } else if s == codec::spec_digits(2400) {
        Some(Baudrate::B2400)
    } else if s == codec::spec_digits(4800) {
        Some(Baudrate::B4800)
    } else if s == codec::spec_digits(9600) {
        Some(Baudrate::B9600)
    } else if s == codec::spec_digits(19200) {
        Some(Baudrate::B19200)
    } else if s == codec::spec_digits(38400) {
        Some(Baudrate::B38400)
    } else if s == codec::spec_digits(57600) {
        Some(Baudrate::B57600)
    } else if s == codec::spec_digits(74880) {
        Some(Baudrate::B74880)
    } else if s == codec::spec_digits(115200) {
        Some(Baudrate::B115200)
    } else if s == codec::spec_digits(230400) {
        Some(Baudrate::B230400)
    } else if s == codec::spec_digits(250000) {
        Some(Baudrate::B250000)
    } else if s == codec::spec_digits(500000) {
        Some(Baudrate::B500000)
    } else if s == codec::spec_digits(1000000) {
        Some(Baudrate::B1000000)
    } else if s == codec::spec_digits(2000000) {
        Some(Baudrate::B2000000)
    } else {
        None
    }
}

impl Baudrate {
    /// The numeric wire value of this rate.
    pub fn as_u32(&self) -> (r: u32)
        ensures
            r == spec_baud_value(*self),
    {
        match self {
            Baudrate::B300 => 300,
            Baudrate::B1200 => 1200,
            Baudrate::B2400 => 2400,
            Baudrate::B4800 => 4800,
            Baudrate::B9600 => 9600,
            Baudrate::B19200 => 19200,
            Baudrate::B38400 => 38400,
            Baudrate::B57600 => 57600,
            Baudrate::B74880 => 74880,
            Baudrate::B115200 => 115200,
            Baudrate::B230400 => 230400,
            Baudrate::B250000 => 250000,
            Baudrate::B500000 => 500000,
            Baudrate::B1000000 => 1000000,
            Baudrate::B2000000 => 2000000,
        }
    }

    /// The rate a number denotes, or `None` for any number outside the
    /// closed set.
    pub fn from_u32(v: u32) -> (r: Option<Baudrate>)
        ensures
            r == spec_baud_from_int(v as int),
    {
        match v {
            300u32 => Some(Baudrate::B300),
            1200u32 => Some(Baudrate::B1200),
            2400u32 => Some(Baudrate::B2400),
            4800u32 => Some(Baudrate::B4800),
            9600u32 => Some(Baudrate::B9600),
            19200u32 => Some(Baudrate::B19200),
            38400u32 => Some(Baudrate::B38400),
            57600u32 => Some(Baudrate::B57600),
            74880u32 => Some(Baudrate::B74880),
            115200u32 => Some(Baudrate::B115200),
            230400u32 => Some(Baudrate::B230400),
            250000u32 => Some(Baudrate::B250000),
            500000u32 => Some(Baudrate::B500000),
            1000000u32 => Some(Baudrate::B1000000),
            2000000u32 => Some(Baudrate::B2000000),
            _ => None,
        }
    }

    /// Parse a rate's canonical decimal spelling: the whole string must be
    /// exactly one of the fifteen rate texts, else `None`, never a fault.
    pub fn _from_string(name: &[u8]) -> (r: Option<Baudrate>)
        ensures
            r == spec_baud_from_string(name@),
    {
        if codec::bytes_equal(name, &codec::fmt_u64(300)) {
            Some(Baudrate::B300)
        } else if codec::bytes_equal(name, &codec::fmt_u64(1200)) {
            Some(Baudrate::B1200)
        } else if codec::bytes_equal(name, &codec::fmt_u64(2400)) {
            Some(Baudrate::B2400)
        } else if codec::bytes_equal(name, &codec::fmt_u64(4800)) {
            Some(Baudrate::B4800)
        } else if codec::bytes_equal(name, &codec::fmt_u64(9600)) {
            Some(Baudrate::B9600)
        } else if codec::bytes_equal(name, &codec::fmt_u64(19200)) {
            Some(Baudrate::B19200)
        } else if codec::bytes_equal(name, &codec::fmt_u64(38400)) {
            Some(Baudrate::B38400)
        } else if codec::bytes_equal(name, &codec::fmt_u64(57600)) {
            Some(Baudrate::B57600)
        } else if codec::bytes_equal(name, &codec::fmt_u64(74880)) {
            Some(Baudrate::B74880)
        } else if codec::bytes_equal(name, &codec::fmt_u64(115200)) {
            Some(Baudrate::B115200)
        } else if codec::bytes_equal(name, &codec::fmt_u64(230400)) {
            Some(Baudrate::B230400)
        } else if codec::bytes_equal(name, &codec::fmt_u64(250000)) {
            Some(Baudrate::B250000)
        } else if codec::bytes_equal(name, &codec::fmt_u64(500000)) {
            Some(Baudrate::B500000)
        } else if codec::bytes_equal(name, &codec::fmt_u64(1000000)) {
            Some(Baudrate::B1000000)
        } else if codec::bytes_equal(name, &codec::fmt_u64(2000000)) {
            Some(Baudrate::B2000000)
        } else {
            None
        }
    }

    /// Every rate of the closed set, in ascending numeric value.
    pub fn all_values() -> (r: Vec<Baudrate>)
        ensures
            r@ == seq![
                Baudrate::B300, Baudrate::B1200, Baudrate::B2400, Baudrate::B4800,
                Baudrate::B9600, Baudrate::B19200, Baudrate::B38400, Baudrate::B57600,
                Baudrate::B74880, Baudrate::B115200, Baudrate::B230400, Baudrate::B250000,
                Baudrate::B500000, Baudrate::B1000000, Baudrate::B2000000,
            ],
    {
        let mut v: Vec<Baudrate> = Vec::new();
        v.push(Baudrate::B300);
        v.push(Baudrate::B1200);
        v.push(Baudrate::B2400);
        v.push(Baudrate::B4800);
        v.push(Baudrate::B9600);
        v.push(Baudrate::B19200);
        v.push(Baudrate::B38400);
        v.push(Baudrate::B57600);
        v.push(Baudrate::B74880);
        v.push(Baudrate::B115200);
        v.push(Baudrate::B230400);
        v.push(Baudrate::B250000);
        v.push(Baudrate::B500000);
        v.push(Baudrate::B1000000);
        v.push(Baudrate::B2000000);
        proof {
            assert(v@ =~= seq![
                Baudrate::B300, Baudrate::B1200, Baudrate::B2400, Baudrate::B4800,
                Baudrate::B9600, Baudrate::B19200, Baudrate::B38400, Baudrate::B57600,
                Baudrate::B74880, Baudrate::B115200, Baudrate::B230400, Baudrate::B250000,
                Baudrate::B500000, Baudrate::B1000000, Baudrate::B2000000,
            ]);
        }
        v
    }

    /// The rate's decimal text, for display.
    pub fn to_display_bytes(&self) -> (r: Vec<u8>)
        ensures
            r@ == codec::spec_digits(spec_baud_value(*self) as nat),
    {
        codec::fmt_u64(self.as_u32() as u64)
    }
}

impl Default for Baudrate {
    /// The customary default rate of the serial link.
    fn default() -> (r: Self)
        ensures
            r == Baudrate::B115200,
    {
        Baudrate::B115200
    }
}

/// The numeric value of a rate names that rate and no other: reading a
/// saved wire value back always recovers the rate that was saved.
pub proof fn lemma_baud_round_trip(b: Baudrate)
    ensures
        spec_baud_from_int(spec_baud_value(b) as int) == Some(b),
{
}

} // verus!
