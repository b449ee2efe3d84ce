//! Byte-level text helpers for the configuration format: decimal digits of
//! unsigned integers, maximal digit runs, literal matching, and quoted-string
//! ends, each with an exact specification and the round-trip lemmas the
//! configuration codec builds on.

use vstd::arithmetic::div_mod::*;
use vstd::prelude::*;

verus! {

/// Is `b` an ASCII decimal digit?
pub open spec fn spec_is_digit(b: u8) -> bool {
    48 <= b <= 57
}

/// The digit character of `d` (for `0 <= d <= 9`).
pub open spec fn spec_digit(d: int) -> u8 {
    (48 + d) as u8
}

/// Decimal digits of `n`, most significant first, no leading zeros.
pub open spec fn spec_digits(n: nat) -> Seq<u8>
    decreases n,
{
    if n < 10 {
        seq![spec_digit(n as int)]
    } else {
        spec_digits(n / 10) + seq![spec_digit((n % 10) as int)]
    }
}

/// Every byte of `spec_digits` is a digit, and there is at least one.
pub proof fn lemma_digits_are_digits(n: nat)
    ensures
        spec_digits(n).len() >= 1,
        forall|i: int|
            0 <= i < spec_digits(n).len() ==> spec_is_digit(#[trigger] spec_digits(n)[i]),
    decreases n,
{
    if n < 10 {
    } else {
        lemma_digits_are_digits(n / 10);
        lemma_mod_bound(n as int, 10);
        assert forall|i: int|
            0 <= i < spec_digits(n).len() implies spec_is_digit(#[trigger] spec_digits(n)[i]) by {
            if i < spec_digits(n / 10).len() {
                assert(spec_digits(n)[i] == spec_digits(n / 10)[i]);
            }
        }
    }
}

/// Numeric value of a digit string, most significant first.
pub open spec fn spec_digits_value(s: Seq<u8>) -> int
    decreases s.len(),
{
    if s.len() == 0 {
        0
    } else {
        spec_digits_value(s.drop_last()) * 10 + (s.last() - 48)
    }
}

/// A digit string's value is nonnegative.
pub proof fn lemma_digits_value_nonneg(s: Seq<u8>)
    requires
        forall|i: int| 0 <= i < s.len() ==> spec_is_digit(#[trigger] s[i]),
    ensures
        spec_digits_value(s) >= 0,
    decreases s.len(),
{
    if s.len() > 0 {
        lemma_digits_value_nonneg(s.drop_last());
        let v = spec_digits_value(s.drop_last());
        assert(v * 10 >= 0) by (nonlinear_arith)
            requires
                v >= 0,
        ;
    }
}

/// Reading the digits of `n` back yields `n`.
pub proof fn lemma_digits_round_trip(n: nat)
    ensures
        spec_digits_value(spec_digits(n)) == n,
    decreases n,
{
    if n < 10 {
        let s = spec_digits(n);
        assert(s.drop_last() =~= Seq::<u8>::empty());
        assert(spec_digits_value(Seq::<u8>::empty()) == 0);
        assert(s.last() == spec_digit(n as int));
        assert(spec_digits_value(s) == 0 * 10 + (spec_digit(n as int) - 48));
    } else {
        lemma_digits_round_trip(n / 10);
        let s = spec_digits(n);
        let hd = spec_digits(n / 10);
        assert(s.drop_last() =~= hd);
        assert(s.last() == spec_digit((n % 10) as int));
        lemma_mod_bound(n as int, 10);
        lemma_fundamental_div_mod(n as int, 10);
        assert((n / 10) * 10 == 10 * (n / 10)) by (nonlinear_arith);
    }
}

/// End of the maximal digit run beginning at `i`.
pub open spec fn spec_num_end(s: Seq<u8>, i: int) -> int
    decreases s.len() - i,
{
    if 0 <= i < s.len() && spec_is_digit(s[i]) {
        spec_num_end(s, i + 1)
    } else {
        i
    }
}

/// The maximal digit run: its bytes are digits and it ends at a non-digit or
/// at the end of the string.
pub proof fn lemma_num_end_shape(s: Seq<u8>, i: int)
    requires
        0 <= i <= s.len(),
    ensures
        i <= spec_num_end(s, i) <= s.len(),
        forall|j: int| i <= j < spec_num_end(s, i) ==> spec_is_digit(#[trigger] s[j]),
        spec_num_end(s, i) < s.len() ==> !spec_is_digit(s[spec_num_end(s, i)]),
    decreases s.len() - i,
{
    if i < s.len() && spec_is_digit(s[i]) {
        lemma_num_end_shape(s, i + 1);
    }
}

/// A run of digits at `i`, ended by a non-digit or the end of the string,
/// is the maximal run.
pub proof fn lemma_num_end_of_run(s: Seq<u8>, i: int, e: int)
    requires
        0 <= i <= e <= s.len(),
        forall|j: int| i <= j < e ==> spec_is_digit(#[trigger] s[j]),
        e < s.len() ==> !spec_is_digit(s[e]),
    ensures
        spec_num_end(s, i) == e,
    decreases e - i,
{
    if i < e {
        lemma_num_end_of_run(s, i + 1, e);
    }
}

/// Parse the maximal digit run at `i`: its value and where it ends, or
/// `None` when no digit stands at `i`.
pub open spec fn spec_parse_number(s: Seq<u8>, i: int) -> Option<(int, int)> {
    let e = spec_num_end(s, i);
    if e == i {
        None
    } else {
        Some((spec_digits_value(s.subrange(i, e)), e))
    }
}

/// A parsed number is nonnegative.
pub proof fn lemma_parse_number_nonneg(s: Seq<u8>, i: int)
    requires
        0 <= i <= s.len(),
        spec_parse_number(s, i) is Some,
    ensures
        spec_parse_number(s, i)->Some_0.0 >= 0,
{
    lemma_num_end_shape(s, i);
    let e = spec_num_end(s, i);
    let run = s.subrange(i, e);
    assert forall|j: int| 0 <= j < run.len() implies spec_is_digit(#[trigger] run[j]) by {
        assert(run[j] == s[i + j]);
    }
    lemma_digits_value_nonneg(run);
}

/// Does `lit` stand at position `i` of `s`?
pub open spec fn spec_match_at(s: Seq<u8>, i: int, lit: Seq<u8>) -> bool {
    &&& 0 <= i
    &&& i + lit.len() <= s.len()
    &&& s.subrange(i, i + lit.len()) == lit
}

/// First position at or after `i` holding a quote, if any.
pub open spec fn spec_quote_end(s: Seq<u8>, i: int) -> int
    decreases s.len() - i,
{
    if 0 <= i < s.len() {
        if s[i] == 34 {
            i
        } else {
            spec_quote_end(s, i + 1)
        }
    } else {
        i
    }
}

/// The span up to the first quote: no quote inside, a quote (or the string's
/// end) at its end.
pub proof fn lemma_quote_end_shape(s: Seq<u8>, i: int)
    requires
        0 <= i <= s.len(),
    ensures
        i <= spec_quote_end(s, i) <= s.len(),
        forall|j: int| i <= j < spec_quote_end(s, i) ==> s[j] != 34,
        spec_quote_end(s, i) < s.len() ==> s[spec_quote_end(s, i)] == 34,
    decreases s.len() - i,
{
    if i < s.len() && s[i] != 34 {
        lemma_quote_end_shape(s, i + 1);
    }
}

/// A quote-free run at `i` followed by a quote locates the first quote.
pub proof fn lemma_quote_end_of_run(s: Seq<u8>, i: int, e: int)
    requires
        0 <= i <= e <= s.len(),
        forall|j: int| i <= j < e ==> s[j] != 34,
        e < s.len() ==> s[e] == 34,
    ensures
        spec_quote_end(s, i) == e,
    decreases e - i,
{
    if i < e {
        lemma_quote_end_of_run(s, i + 1, e);
    }
}

/// Decimal digits of `n`, most significant first.
pub fn fmt_u64(n: u64) -> (r: Vec<u8>)
    ensures
        r@ == spec_digits(n as nat),
    decreases n,
{
    if n < 10 {
        let mut v: Vec<u8> = Vec::new();
        v.push(48 + (n as u8));
        proof {
            assert(v@ =~= spec_digits(n as nat));
        }
        v
    } else {
        let mut v = fmt_u64(n / 10);
        v.push(48 + ((n % 10) as u8));
        proof {
            assert(v@ =~= spec_digits(n as nat));
        }
        v
    }
}

/// Parse the maximal digit run at `from`.  `None` when no digit stands
/// there or the value does not fit a `u64`; the specification keeps the two
/// apart through `spec_parse_number`.
pub fn parse_number(s: &[u8], from: usize) -> (r: Option<(u64, usize)>)
    requires
        from <= s@.len(),
    ensures
        match r {
            Some((v, e)) => spec_parse_number(s@, from as int) == Some((v as int, e as int)),
            None => spec_parse_number(s@, from as int) is None || (
            spec_parse_number(s@, from as int) matches Some((v, _)) && v > u64::MAX),
        },
{
    let n = s.len();
    let mut i: usize = from;
    let mut val: u64 = 0;
    let mut overflow = false;
    proof {
        assert(s@.subrange(from as int, from as int) =~= Seq::<u8>::empty());
    }
    while i < n && 48 <= s[i] && s[i] <= 57
        invariant
            n == s@.len(),
            from <= i <= n,
            forall|j: int| from <= j < i ==> spec_is_digit(#[trigger] s@[j]),
            !overflow ==> val == spec_digits_value(s@.subrange(from as int, i as int)),
            overflow ==> spec_digits_value(s@.subrange(from as int, i as int)) > u64::MAX,
        decreases n - i,
    {
        let d: u8 = s[i] - 48;
        let ghost prefix = s@.subrange(from as int, i as int);
        let ghost longer = s@.subrange(from as int, i as int + 1);
        proof {
            assert(longer.drop_last() =~= prefix);
            assert(longer.last() == s@[i as int]);
            lemma_digits_value_nonneg(prefix);
        }
        let next: u128 = (val as u128) * 10 + (d as u128);
        if overflow || next > u64::MAX as u128 {
            proof {
                let pv = spec_digits_value(prefix);
                if overflow {
                    assert(pv * 10 + (longer.last() - 48) > u64::MAX) by (nonlinear_arith)
                        requires
                            pv > u64::MAX,
                            longer.last() - 48 >= 0,
                    ;
                }
            }
            overflow = true;
        } else {
            val = next as u64;
        }
        i = i + 1;
    }
    proof {
        lemma_num_end_of_run(s@, from as int, i as int);
    }
    if i == from || overflow {
        None
    } else {
        proof {
            lemma_digits_value_nonneg(s@.subrange(from as int, i as int));
        }
        Some((val, i))
    }
}

/// Parse a fixed-point value `W.FFF` at `i` — whole digits, a dot, exactly
/// three fractional digits — denoting thousandths.  Any other shape, or a
/// value beyond `u32`, denotes nothing.
pub open spec fn spec_parse_milli(s: Seq<u8>, i: int) -> Option<(int, int)> {
    match spec_parse_number(s, i) {
        None => None,
        Some((w, j)) => {
            if !(j + 4 <= s.len() && s[j] == 46 && spec_is_digit(s[j + 1]) && spec_is_digit(
                s[j + 2],
            ) && spec_is_digit(s[j + 3])) {
                None
            } else {
                let v = w * 1000 + (s[j + 1] - 48) * 100 + (s[j + 2] - 48) * 10 + (s[j + 3] - 48);
                if v > u32::MAX {
                    None
                } else {
                    Some((v, j + 4))
                }
            }
        },
    }
}

/// Parse a `W.FFF` thousandths value at `from`.
pub fn parse_milli(s: &[u8], from: usize) -> (r: Option<(u32, usize)>)
    requires
        from <= s@.len(),
    ensures
        match r {
            Some((v, e)) => spec_parse_milli(s@, from as int) == Some((v as int, e as int)),
            None => spec_parse_milli(s@, from as int) is None,
        },
{
    let (w, j) = match parse_number(s, from) {
        Some(p) => p,
        None => {
            proof {
                if codec_parse_is_big(s@, from as int) {
                    lemma_big_whole_milli_rejects(s@, from as int);
                }
            }
            return None;
        },
    };
    proof {
        lemma_num_end_shape(s@, from as int);
    }
    if s.len() < 4 || j > s.len() - 4 {
        return None;
    }
    if !(s[j] == 46 && 48 <= s[j + 1] && s[j + 1] <= 57 && 48 <= s[j + 2] && s[j + 2] <= 57 && 48
        <= s[j + 3] && s[j + 3] <= 57) {
        return None;
    }
    if w > 0xffff_ffffu64 {
        proof {
            lemma_big_whole_milli_rejects(s@, from as int);
        }
        return None;
    }
    let frac: u64 = ((s[j + 1] - 48) as u64) * 100 + ((s[j + 2] - 48) as u64) * 10 + ((s[j + 3]
        - 48) as u64);
    let v: u64 = w * 1000 + frac;
    if v > 0xffff_ffffu64 {
        return None;
    }
    Some((v as u32, j + 4))
}

/// A whole part beyond `u32` pushes the thousandths value beyond `u32`, so
/// the text denotes nothing.
proof fn lemma_big_whole_milli_rejects(s: Seq<u8>, i: int)
    requires
        codec_parse_is_big(s, i),
    ensures
        spec_parse_milli(s, i) is None,
{
    let (w, j) = spec_parse_number(s, i)->Some_0;
    assert(w * 1000 > u32::MAX) by (nonlinear_arith)
        requires
            w > 0xffff_ffff,
    ;
}

/// The number at `i` parses and overflows `u32`.
pub open spec fn codec_parse_is_big(s: Seq<u8>, i: int) -> bool {
    spec_parse_number(s, i) matches Some((w, _)) && w > u32::MAX
}

/// Does `lit` stand at position `from` of `s`?
pub fn match_at(s: &[u8], from: usize, lit: &Vec<u8>) -> (r: bool)
    ensures
        r == spec_match_at(s@, from as int, lit@),
{
    let n = s.len();
    let m = lit.len();
    if from > n || m > n - from {
        return false;
    }
    let mut j: usize = 0;
    while j < m
        invariant
            n == s@.len(),
            m == lit@.len(),
            from + m <= n,
            j <= m,
            forall|t: int| 0 <= t < j ==> s@[from + t] == lit@[t],
        decreases m - j,
    {
        if s[from + j] != lit[j] {
            return false;
        }
        j = j + 1;
    }
    proof {
        assert(s@.subrange(from as int, from as int + m as int) =~= lit@);
    }
    true
}

/// Is `s` exactly the bytes of `t`?
pub fn bytes_equal(s: &[u8], t: &Vec<u8>) -> (r: bool)
    ensures
        r == (s@ == t@),
{
    if s.len() != t.len() {
        return false;
    }
    let r = match_at(s, 0, t);
    proof {
        assert(s@.subrange(0, t@.len() as int) =~= s@);
    }
    r
}

/// First position at or after `from` holding a quote.
pub fn find_quote(s: &[u8], from: usize) -> (r: Option<usize>)
    requires
        from <= s@.len(),
    ensures
        match r {
            Some(e) => spec_quote_end(s@, from as int) == e as int && from <= e < s@.len(),
            None => spec_quote_end(s@, from as int) == s@.len(),
        },
{
    let n = s.len();
    let mut i: usize = from;
    while i < n && s[i] != 34
        invariant
            n == s@.len(),
            from <= i <= n,
            forall|j: int| from <= j < i ==> s@[j] != 34,
        decreases n - i,
    {
        i = i + 1;
    }
    proof {
        lemma_quote_end_of_run(s@, from as int, i as int);
    }
    if i < n {
        Some(i)
    } else {
        None
    }
}

} // verus!
