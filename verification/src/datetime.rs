//! Dates and instants as the warehouse sends them.
//!
//! A date cell is an integer count of days since the Unix epoch. A timestamp
//! cell is `<integer-seconds>.<fractional-subsecond-digits>`, optionally
//! followed by a space and a timezone offset in minutes. Whole seconds above
//! the far-future boundary are clamped to it; offset minutes are normalized
//! modulo 1440 before they are applied, a policy for sources that bias every
//! offset by one day.

use vstd::prelude::*;

use crate::civil;
use crate::error::Error;
use crate::numstr;
use crate::scan;

verus! {

/// Seconds from the epoch to the latest representable instant,
/// 9999-12-31 23:59:59 UTC.
pub const MAX_TS: i64 = 253402300799;

/// Seconds from the epoch to the earliest representable instant,
/// -9999-01-01 00:00:00 UTC.
pub const MIN_TS: i64 = -377705116800;

/// A calendar date, held as its count of days since 1970-01-01 (negative for
/// earlier dates).
#[derive(Clone, Copy, Debug, PartialEq, Eq, Structural)]
pub struct Date {
    pub days: i64,
}

/// An instant with a display offset: seconds and nanoseconds since the
/// epoch, and the offset in seconds that only changes how the instant is
/// displayed, never which instant it is.
#[derive(Clone, Copy, Debug, PartialEq, Eq, Structural)]
pub struct Timestamp {
    pub secs: i64,
    pub nanos: u32,
    pub offset_secs: i32,
}

/// A well-formed timestamp: within the representable range, nanoseconds
/// below one second, offset below one day and a whole number of minutes.
pub open spec fn ts_valid(t: Timestamp) -> bool {
    &&& MIN_TS <= t.secs <= MAX_TS
    &&& t.nanos < 1000000000
    &&& -86400 < t.offset_secs < 86400
    &&& (t.offset_secs as int) % 60 == 0
}

/// What a date cell denotes: the day count, when the text is a canonical
/// integer in range.
pub open spec fn date_of_str(s: Seq<char>) -> Option<int> {
    match numstr::int_of_str(s) {
        Some(v) => if i64::MIN <= v <= i64::MAX {
            Some(v)
        } else {
            None
        },
        None => None,
    }
}

/// Truncated remainder modulo 1440, as the offset normalization computes it.
pub open spec fn tmod1440(m: int) -> int {
    if m >= 0 {
        m % 1440
    } else {
        -((-m) % 1440)
    }
}

/// Nanoseconds denoted by a fractional-digits text: zero-padded or truncated
/// to nanosecond precision.
pub open spec fn nanos_of_frac(f: Seq<char>) -> nat {
    if f.len() >= 9 {
        numstr::digits_val(f.take(9))
    } else {
        numstr::digits_val(f) * numstr::pow10((9 - f.len()) as nat)
    }
}

/// Splits a timestamp cell at the first space into the instant part and the
/// optional offset part.
pub open spec fn split_clock(s: Seq<char>) -> (Seq<char>, Option<Seq<char>>) {
    let i = scan::first_index_of(s, ' ');
    if i < 0 {
        (s, None)
    } else {
        (s.take(i), Some(s.skip(i + 1)))
    }
}

/// The whole-seconds text of an instant part: everything before the first
/// dot.
pub open spec fn secs_str_of(dt: Seq<char>) -> Seq<char> {
    let i = scan::first_index_of(dt, '.');
    if i < 0 {
        dt
    } else {
        dt.take(i)
    }
}

/// The fractional text of an instant part: between the first dot and the
/// second dot or the end; `None` when there is no dot.
pub open spec fn frac_str_of(dt: Seq<char>) -> Option<Seq<char>> {
    let i = scan::first_index_of(dt, '.');
    if i < 0 {
        None
    } else {
        let rest = dt.skip(i + 1);
        let j = scan::first_index_of(rest, '.');
        if j < 0 {
            Some(rest)
        } else {
            Some(rest.take(j))
        }
    }
}

/// What an instant part denotes: seconds (clamped at the far-future
/// boundary) and nanoseconds; `None` when any stage fails to parse or the
/// seconds lie below the representable range.
pub open spec fn instant_of_str(dt: Seq<char>) -> Option<(int, int)> {
    match numstr::int_of_str(secs_str_of(dt)) {
        None => None,
        Some(v) => {
            if v > i64::MAX as int {
                None
            } else if v < MIN_TS as int {
                None
            } else {
                let secs = if v > MAX_TS as int {
                    MAX_TS as int
                } else {
                    v
                };
                match frac_str_of(dt) {
                    None => Some((secs, 0)),
                    Some(f) => if f.len() > 0 && numstr::is_digit_seq(f) {
                        Some((secs, nanos_of_frac(f) as int))
                    } else {
                        None
                    },
                }
            }
        },
    }
}

/// How offset minutes are turned into an effective offset. The modulo
/// policy exists for sources that report every offset biased by exactly
/// one day (+1440 minutes); it is right only for such a source, so it is
/// chosen per call, not built in.
#[derive(Clone, Copy, Debug, PartialEq, Eq, Structural)]
pub enum OffsetPolicy {
    /// Normalize the minutes modulo 1440 before applying them.
    NormalizeDayBias,
    /// Apply the minutes as sent; a day or more is out of range.
    Verbatim,
}

/// The effective offset in seconds that the minutes `m` denote under a
/// policy; nothing when they denote no representable offset.
pub open spec fn offset_secs_of(policy: OffsetPolicy, m: int) -> Option<int> {
    match policy {
        OffsetPolicy::NormalizeDayBias => Some(tmod1440(m) * 60),
        OffsetPolicy::Verbatim => if -1440 < m < 1440 {
            Some(m * 60)
        } else {
            None
        },
    }
}

/// What a timestamp cell denotes under an offset policy: seconds,
/// nanoseconds and the effective offset in seconds.
pub open spec fn timestamp_of_str_with(policy: OffsetPolicy, s: Seq<char>) -> Option<
    (int, int, int),
> {
    let (dt, off) = split_clock(s);
    match instant_of_str(dt) {
        None => None,
        Some((secs, nanos)) => match off {
            None => Some((secs, nanos, 0)),
            Some(ostr) => match numstr::int_of_str(ostr) {
                Some(m) => if i32::MIN <= m <= i32::MAX {
                    match offset_secs_of(policy, m) {
                        Some(o) => Some((secs, nanos, o)),
                        None => None,
                    }
                } else {
                    None
                },
                None => None,
            },
        },
    }
}

/// What a timestamp cell denotes under the day-bias policy: seconds,
/// nanoseconds and the effective offset in seconds,
/// `(offset_minutes mod 1440) * 60`.
pub open spec fn timestamp_of_str(s: Seq<char>) -> Option<(int, int, int)> {
    timestamp_of_str_with(OffsetPolicy::NormalizeDayBias, s)
}

/// Whether everything of the cell parsed and only the policy rejected the
/// offset minutes: the one failure that is a `Value` error, not `Format`.
pub open spec fn offset_rejected(policy: OffsetPolicy, s: Seq<char>) -> bool {
    let (dt, off) = split_clock(s);
    &&& instant_of_str(dt) is Some
    &&& (match off {
        Some(ostr) => (match numstr::int_of_str(ostr) {
            Some(m) => i32::MIN <= m <= i32::MAX && offset_secs_of(policy, m) is None,
            None => false,
        }),
        None => false,
    })
}

/// A `Format` error that keeps the original wire text.
fn format_err(given: &str, msg: &str) -> (r: Error)
    ensures
        (r matches Error::Format { given: g, err: _ } && g@ == given@),
{
    Error::Format { given: given.to_owned(), err: msg.to_owned() }
}

/// Ten to the power `e`, for small `e`.
fn pow10_u32(e: usize) -> (r: u32)
    requires
        e <= 9,
    ensures
        r as nat == numstr::pow10(e as nat),
{
    proof {
        reveal_with_fuel(numstr::pow10, 11);
    }
    if e == 0 {
        1
    } else if e == 1 {
        10
    } else if e == 2 {
        100
    } else if e == 3 {
        1000
    } else if e == 4 {
        10000
    } else if e == 5 {
        100000
    } else if e == 6 {
        1000000
    } else if e == 7 {
        10000000
    } else if e == 8 {
        100000000
    } else {
        1000000000
    }
}

/// `pow10` turns addition of exponents into multiplication.
pub proof fn lemma_pow10_mult(a: nat, b: nat)
    ensures
        numstr::pow10(a) * numstr::pow10(b) == numstr::pow10(a + b),
    decreases a,
{
    if a > 0 {
        lemma_pow10_mult((a - 1) as nat, b);
        assert(numstr::pow10(a) * numstr::pow10(b) == 10 * (numstr::pow10((a - 1) as nat)
            * numstr::pow10(b))) by (nonlinear_arith)
            requires
                numstr::pow10(a) == 10 * numstr::pow10((a - 1) as nat),
        ;
        assert(((a - 1) as nat) + b == (a + b - 1) as nat);
        assert(numstr::pow10(((a - 1) as nat) + b) == numstr::pow10((a + b - 1) as nat));
        assert(numstr::pow10(a + b) == 10 * numstr::pow10((a + b - 1) as nat));
        assert(numstr::pow10(a) * numstr::pow10(b) == 10 * numstr::pow10((a + b - 1) as nat));
    } else {
        assert(numstr::pow10(0) == 1);
        assert(numstr::pow10(a) * numstr::pow10(b) == 1 * numstr::pow10(b));
    }
}

/// The nanoseconds a fractional text denotes stay below one second.
pub proof fn lemma_nanos_of_frac_bound(f: Seq<char>)
    requires
        numstr::is_digit_seq(f),
        f.len() > 0,
    ensures
        nanos_of_frac(f) < 1000000000,
{
    reveal_with_fuel(numstr::pow10, 11);
    assert(numstr::pow10(9) == 1000000000);
    if f.len() >= 9 {
        assert(numstr::is_digit_seq(f.take(9)));
        numstr::lemma_digits_val_bound(f.take(9));
    } else {
        numstr::lemma_digits_val_bound(f);
        let k = (9 - f.len()) as nat;
        lemma_pow10_mult(f.len() as nat, k);
        assert(numstr::digits_val(f) * numstr::pow10(k) < numstr::pow10(f.len() as nat)
            * numstr::pow10(k)) by (nonlinear_arith)
            requires
                numstr::digits_val(f) < numstr::pow10(f.len() as nat),
                numstr::pow10(k) >= 1,
        ;
    }
}

/// Every power of ten is at least one.
pub proof fn lemma_pow10_pos(n: nat)
    ensures
        numstr::pow10(n) >= 1,
    decreases n,
{
    if n > 0 {
        lemma_pow10_pos((n - 1) as nat);
    }
}

/// Reads a fractional-digits text as nanoseconds, zero-padded or truncated
/// to nanosecond precision.
fn parse_frac_nanos(f: &str) -> (r: Option<u32>)
    ensures
        match r {
            Some(v) => {
                &&& f@.len() > 0
                &&& numstr::is_digit_seq(f@)
                &&& v == nanos_of_frac(f@)
                &&& v < 1000000000
            },
            None => f@.len() == 0 || !numstr::is_digit_seq(f@),
        },
{
    let len = f.unicode_len();
    if len == 0 {
        return None;
    }
    let mut i: usize = 0;
    while i < len
        invariant
            0 <= i <= len,
            len == f@.len(),
            forall|j: int| 0 <= j < i ==> numstr::is_digit(#[trigger] f@[j]),
        decreases len - i,
    {
        let c = f.get_char(i);
        if c < '0' || c > '9' {
            assert(!numstr::is_digit(f@[i as int]));
            return None;
        }
        i = i + 1;
    }
    assert(numstr::is_digit_seq(f@));
    proof {
        lemma_nanos_of_frac_bound(f@);
    }
    if len >= 9 {
        let head = f.substring_char(0, 9);
        proof {
            assert(head@ =~= f@.take(9));
            assert(head@.skip(0) =~= head@);
            assert(numstr::is_digit_seq(head@));
            reveal_with_fuel(numstr::pow10, 11);
            assert(numstr::pow10(9) == 1000000000);
            numstr::lemma_digits_val_bound(head@);
        }
        match numstr::parse_digits_u128(head, 0) {
            Some(v) => Some(v as u32),
            None => {
                // nine digits always parse; this arm is unreachable
                proof {
                    assert(false);
                }
                None
            },
        }
    } else {
        proof {
            assert(f@.skip(0) =~= f@);
            numstr::lemma_digits_val_bound(f@);
            lemma_pow10_pos((9 - f@.len()) as nat);
            reveal_with_fuel(numstr::pow10, 11);
            assert(numstr::pow10(9) == 1000000000);
            lemma_pow10_mult(f@.len() as nat, (9 - f@.len()) as nat);
            assert(numstr::digits_val(f@) * numstr::pow10((9 - f@.len()) as nat)
                < numstr::pow10(f@.len() as nat) * numstr::pow10((9 - f@.len()) as nat))
                by (nonlinear_arith)
                requires
                    numstr::digits_val(f@) < numstr::pow10(f@.len() as nat),
                    numstr::pow10((9 - f@.len()) as nat) >= 1,
            ;
            assert(numstr::pow10(f@.len() as nat) <= 1000000000) by (nonlinear_arith)
                requires
                    numstr::pow10(f@.len() as nat) * numstr::pow10((9 - f@.len()) as nat)
                        == 1000000000,
                    numstr::pow10((9 - f@.len()) as nat) >= 1,
                    numstr::pow10(f@.len() as nat) >= 0,
            ;
        }
        match numstr::parse_digits_u128(f, 0) {
            Some(v) => {
                let scale = pow10_u32(9 - len);
                let prod: u128 = v * (scale as u128);
                Some(prod as u32)
            },
            None => {
                // fewer than nine digits always parse; this arm is unreachable
                proof {
                    assert(false);
                }
                None
            },
        }
    }
}

/// Decodes the instant part of a timestamp cell: whole seconds, a dot, and
/// fractional digits. Seconds beyond the far-future boundary clamp to it;
/// seconds below the range, or any malformed stage, fail with `Format`
/// carrying the original text.
fn decode_instant(s: &str) -> (r: Result<(i64, u32), Error>)
    ensures
        match instant_of_str(s@) {
            Some((secs, nanos)) => {
                &&& r matches Ok(p) && p.0 == secs && p.1 == nanos
                &&& MIN_TS <= secs <= MAX_TS
                &&& 0 <= nanos < 1000000000
            },
            None => (r matches Err(e) && e matches Error::Format { given, err: _ } && given@
                == s@),
        },
{
    let n = s.unicode_len();
    let dot = scan::find_char(s, '.');
    let secs_end: usize = match dot {
        None => n,
        Some(i) => i,
    };
    proof {
        scan::lemma_first_index_of(s@, '.');
        assert(s@.take(n as int) =~= s@);
    }
    let secs_str = s.substring_char(0, secs_end);
    proof {
        assert(secs_str@ =~= secs_str_of(s@));
    }
    let v = match numstr::parse_i64_str(secs_str) {
        Some(v) => v,
        None => {
            return Err(format_err(s, "parsing whole seconds"));
        },
    };
    if v < MIN_TS {
        return Err(format_err(s, "seconds below the representable range"));
    }
    let secs: i64 = if v > MAX_TS {
        MAX_TS
    } else {
        v
    };
    match dot {
        None => {
            assert(frac_str_of(s@) is None);
            Ok((secs, 0))
        },
        Some(i) => {
            let rest = s.substring_char(i + 1, n);
            proof {
                assert(rest@ =~= s@.skip(i + 1));
            }
            let restdot = scan::find_char(rest, '.');
            proof {
                scan::lemma_first_index_of(rest@, '.');
            }
            let frac_end: usize = match restdot {
                None => n,
                Some(j) => i + 1 + j,
            };
            let frac = s.substring_char(i + 1, frac_end);
            proof {
                let restg = s@.skip(i + 1);
                let j = scan::first_index_of(restg, '.');
                if j < 0 {
                    assert(frac@ =~= restg);
                } else {
                    assert(frac@ =~= restg.take(j));
                }
                assert(Some(frac@) == frac_str_of(s@));
            }
            match parse_frac_nanos(frac) {
                Some(nanos) => Ok((secs, nanos)),
                None => Err(format_err(s, "parsing subseconds")),
            }
        },
    }
}

/// Decodes a timestamp cell under the day-bias offset policy, the one the
/// observed source needs: offset minutes are normalized modulo 1440 before
/// they are applied.
pub fn decode_timestamp(s: &str) -> (r: Result<Timestamp, Error>)
    ensures
        match timestamp_of_str(s@) {
            Some((secs, nanos, off)) => {
                &&& (r matches Ok(t) && t.secs == secs && t.nanos == nanos && t.offset_secs
                    == off)
                &&& (r matches Ok(t) && ts_valid(t))
            },
            None => (r matches Err(e) && e matches Error::Format { given, err: _ } && (given@
                == s@ || given@ == split_clock(s@).0)),
        },
{
    let r = decode_timestamp_with(s, OffsetPolicy::NormalizeDayBias);
    proof {
        assert(!offset_rejected(OffsetPolicy::NormalizeDayBias, s@));
    }
    r
}

/// Decodes a timestamp cell: the instant, and an optional offset in
/// minutes after a space, turned into the effective offset by the chosen
/// policy and applied without altering the instant. Offset minutes the
/// policy rejects are a `Value` error; every other failure is `Format`.
pub fn decode_timestamp_with(s: &str, policy: OffsetPolicy) -> (r: Result<Timestamp, Error>)
    ensures
        match timestamp_of_str_with(policy, s@) {
            Some((secs, nanos, off)) => {
                &&& (r matches Ok(t) && t.secs == secs && t.nanos == nanos && t.offset_secs
                    == off)
                &&& (r matches Ok(t) && ts_valid(t))
            },
            None => (r matches Err(e) && (if offset_rejected(policy, s@) {
                e matches Error::Value { given, err: _ } && given@ == s@
            } else {
                e matches Error::Format { given, err: _ } && (given@ == s@ || given@
                    == split_clock(s@).0)
            })),
        },
{
    let n = s.unicode_len();
    match scan::find_char(s, ' ') {
        None => {
            match decode_instant(s) {
                Ok((secs, nanos)) => Ok(Timestamp { secs, nanos, offset_secs: 0 }),
                Err(e) => Err(e),
            }
        },
        Some(i) => {
            proof {
                scan::lemma_first_index_of(s@, ' ');
            }
            let dt = s.substring_char(0, i);
            let off = s.substring_char(i + 1, n);
            proof {
                assert(dt@ =~= s@.take(i as int));
                assert(off@ =~= s@.skip(i + 1));
            }
            let (secs, nanos) = match decode_instant(dt) {
                Ok(p) => p,
                Err(e) => {
                    return Err(e);
                },
            };
            let m = match numstr::parse_i64_str(off) {
                Some(m) => m,
                None => {
                    return Err(format_err(s, "parsing offset minutes"));
                },
            };
            if m < i32::MIN as i64 || m > i32::MAX as i64 {
                return Err(format_err(s, "offset minutes overflow a 32-bit count"));
            }
            let modv: i64 = match policy {
                OffsetPolicy::NormalizeDayBias => {
                    if m >= 0 {
                        m % 1440
                    } else {
                        -((-m) % 1440)
                    }
                },
                OffsetPolicy::Verbatim => {
                    if m <= -1440 || m >= 1440 {
                        return Err(
                            Error::Value {
                                given: s.to_owned(),
                                err: "offset minutes outside the representable range".to_owned(),
                            },
                        );
                    }
                    m
                },
            };
            assert(Some(modv * 60) == offset_secs_of(policy, m as int));
            let eff: i32 = (modv * 60) as i32;
            proof {
                assert((modv * 60) as int % 60 == 0) by (nonlinear_arith)
                    requires
                        -1440 < modv < 1440,
                ;
            }
            Ok(Timestamp { secs, nanos, offset_secs: eff })
        },
    }
}

/// Decodes a date cell: an integer count of days since the epoch. Any other
/// text fails with `Format` carrying the original text.
pub fn decode_date(s: &str) -> (r: Result<Date, Error>)
    ensures
        match date_of_str(s@) {
            Some(v) => (r matches Ok(d) && d.days == v),
            None => (r matches Err(e) && e matches Error::Format { given, err: _ } && given@
                == s@),
        },
{
    match numstr::parse_i64_str(s) {
        Some(v) => Ok(Date { days: v }),
        None => Err(
            format_err(s, "a date is the number of days since the epoch, as an integer"),
        ),
    }
}

impl Date {
    /// The date of a civil year, month and day.
    pub fn from_civil(y: i64, m: u8, d: u8) -> (r: Date)
        requires
            civil::valid_civil(y as int, m as int, d as int),
        ensures
            r.days == civil::day_number(y as int, m as int, d as int),
    {
        Date { days: civil::day_number_exec(y, m, d) }
    }
}

impl Timestamp {
    /// The instant of a civil date-time taken in UTC, displayed at the given
    /// offset.
    pub fn from_civil(
        y: i64,
        m: u8,
        d: u8,
        h: u8,
        mi: u8,
        sec: u8,
        nanos: u32,
        offset_secs: i32,
    ) -> (r: Timestamp)
        requires
            civil::valid_civil(y as int, m as int, d as int),
            civil::valid_clock(h as int, mi as int, sec as int),
            nanos < 1000000000,
            -86400 < offset_secs < 86400,
            (offset_secs as int) % 60 == 0,
        ensures
            r.secs == civil::civil_secs(y as int, m as int, d as int, h as int, mi as int,
                sec as int),
            r.nanos == nanos,
            r.offset_secs == offset_secs,
            ts_valid(r),
    {
        let dn = civil::day_number_exec(y, m, d);
        let secs: i64 = dn * 86400 + (h as i64) * 3600 + (mi as i64) * 60 + (sec as i64);
        proof {
            lemma_civil_secs_in_range(y as int, m as int, d as int, h as int, mi as int,
                sec as int);
        }
        Timestamp { secs, nanos, offset_secs }
    }
}

/// The wire text of a date: the day count as a decimal integer.
pub open spec fn date_wire(d: Date) -> Seq<char> {
    numstr::dec_int(d.days as int)
}

/// A run of `k` zero digits.
pub open spec fn zeros(k: nat) -> Seq<char> {
    Seq::new(k, |i: int| '0')
}

/// The nine-digit fractional text of a nanosecond count.
pub open spec fn frac9(n: nat) -> Seq<char> {
    let d = numstr::dec_digits(n);
    zeros((9 - d.len()) as nat) + d
}

/// The wire text of a timestamp: seconds, a dot, nine fractional digits, a
/// space, and the offset in minutes.
pub open spec fn ts_wire(t: Timestamp) -> Seq<char> {
    numstr::dec_int(t.secs as int) + seq!['.'] + frac9(t.nanos as nat) + seq![' ']
        + numstr::dec_int((t.offset_secs as int) / 60)
}

/// Encodes a date to its wire text.
pub fn encode_date(d: &Date) -> (r: String)
    ensures
        r@ == date_wire(*d),
{
    numstr::i64_to_string(d.days)
}

/// A decimal text of at most `k` digits, for a value below ten to the `k`.
pub proof fn lemma_dec_digits_len(n: nat, k: nat)
    requires
        k >= 1,
        n < numstr::pow10(k),
    ensures
        numstr::dec_digits(n).len() <= k,
    decreases n,
{
    if n >= 10 {
        assert(numstr::pow10(1) == 10) by {
            reveal_with_fuel(numstr::pow10, 2);
        }
        if k == 1 {
            assert(false);
        }
        assert(numstr::pow10(k) == 10 * numstr::pow10((k - 1) as nat));
        vstd::arithmetic::div_mod::lemma_multiply_divide_lt(
            n as int,
            10,
            numstr::pow10((k - 1) as nat) as int,
        );
        lemma_dec_digits_len(n / 10, (k - 1) as nat);
    }
}

/// A run of zero digits denotes zero.
proof fn lemma_zeros_val(k: nat)
    ensures
        numstr::is_digit_seq(zeros(k)),
        numstr::digits_val(zeros(k)) == 0,
    decreases k,
{
    if k > 0 {
        lemma_zeros_val((k - 1) as nat);
        assert(zeros(k).drop_last() =~= zeros((k - 1) as nat));
        assert(numstr::digit_val('0') == 0);
    }
}

/// Zero digits in front change nothing about the value.
proof fn lemma_zero_prefix_val(k: nat, d: Seq<char>)
    ensures
        numstr::digits_val(zeros(k) + d) == numstr::digits_val(d),
    decreases d.len(),
{
    if d.len() == 0 {
        assert(zeros(k) + d =~= zeros(k));
        lemma_zeros_val(k);
    } else {
        lemma_zero_prefix_val(k, d.drop_last());
        assert((zeros(k) + d).drop_last() =~= zeros(k) + d.drop_last());
        assert((zeros(k) + d).last() == d.last());
    }
}

/// The nine-digit fractional text of a nanosecond count is nine digits and
/// denotes that count again.
pub proof fn lemma_frac9(n: nat)
    requires
        n < 1000000000,
    ensures
        numstr::is_digit_seq(frac9(n)),
        frac9(n).len() == 9,
        nanos_of_frac(frac9(n)) == n,
{
    reveal_with_fuel(numstr::pow10, 11);
    numstr::lemma_dec_digits(n);
    lemma_dec_digits_len(n, 9);
    let d = numstr::dec_digits(n);
    let k = (9 - d.len()) as nat;
    lemma_zeros_val(k);
    let f = frac9(n);
    assert(f.len() == 9);
    assert forall|i: int| 0 <= i < f.len() implies numstr::is_digit(#[trigger] f[i]) by {
        if i < k {
            assert(f[i] == zeros(k)[i]);
        } else {
            assert(f[i] == d[i - k]);
        }
    }
    assert(f.take(9) =~= f);
    lemma_zero_prefix_val(k, d);
}

/// Encodes a timestamp to its wire text.
pub fn encode_timestamp(t: &Timestamp) -> (r: String)
    requires
        ts_valid(*t),
    ensures
        r@ == ts_wire(*t),
{
    let mut r = numstr::i64_to_string(t.secs);
    r.append(".");
    let d = numstr::u128_to_string(t.nanos as u128);
    proof {
        lemma_frac9(t.nanos as nat);
        reveal_with_fuel(numstr::pow10, 11);
        lemma_dec_digits_len(t.nanos as nat, 9);
    }
    let dlen = d.as_str().unicode_len();
    let mut pad: usize = 9 - dlen;
    let ghost padn = pad as nat;
    proof {
        reveal_strlit(".");
        assert(r@ =~= numstr::dec_int(t.secs as int) + seq!['.'] + zeros(0));
    }
    let mut i: usize = 0;
    while i < pad
        invariant
            0 <= i <= pad,
            pad == padn,
            r@ == numstr::dec_int(t.secs as int) + seq!['.'] + zeros(i as nat),
        decreases pad - i,
    {
        r.append("0");
        proof {
            reveal_strlit(".");
            reveal_strlit("0");
            assert(zeros((i + 1) as nat) =~= zeros(i as nat) + seq!['0']);
        }
        i = i + 1;
    }
    r.append(d.as_str());
    r.append(" ");
    let minutes: i64 = offset_minutes(t.offset_secs);
    let m = numstr::i64_to_string(minutes);
    r.append(m.as_str());
    proof {
        reveal_strlit(".");
        reveal_strlit(" ");
        assert(r@ =~= ts_wire(*t));
    }
    r
}

/// The offset in whole minutes of an offset in seconds that is a whole
/// number of minutes.
fn offset_minutes(off: i32) -> (r: i64)
    requires
        -86400 < off < 86400,
        (off as int) % 60 == 0,
    ensures
        r == (off as int) / 60,
        -1440 < r < 1440,
{
    if off >= 0 {
        let r = (off as i64) / 60;
        proof {
            vstd::arithmetic::div_mod::lemma_fundamental_div_mod(off as int, 60);
        }
        r
    } else {
        let mag = (-(off as i64)) / 60;
        proof {
            let q = (off as int) / 60;
            vstd::arithmetic::div_mod::lemma_fundamental_div_mod(off as int, 60);
            assert(off as int == 60 * q);
            assert(-(off as int) == (-q) * 60 + 0) by (nonlinear_arith)
                requires
                    off as int == 60 * q,
            ;
            vstd::arithmetic::div_mod::lemma_fundamental_div_mod_converse(
                -(off as int),
                60,
                -q,
                0,
            );
            assert(q > -1440) by (nonlinear_arith)
                requires
                    off as int == 60 * q,
                    off > -86400,
            ;
        }
        -mag
    }
}

/// Every digit is neither a space, a dot, a sign, nor a plus.
proof fn lemma_digits_not_special(s: Seq<char>)
    requires
        numstr::is_digit_seq(s),
    ensures
        scan::first_index_of(s, ' ') == -1,
        scan::first_index_of(s, '.') == -1,
        forall|j: int| 0 <= j < s.len() ==> s[j] != ' ' && s[j] != '.',
{
    assert forall|j: int| 0 <= j < s.len() implies s[j] != ' ' && s[j] != '.' by {
        assert(numstr::is_digit(s[j]));
    }
    scan::lemma_first_index_of_absent(s, ' ');
    scan::lemma_first_index_of_absent(s, '.');
}

/// The decimal text of an integer holds no space and no dot.
proof fn lemma_dec_int_not_special(v: int)
    ensures
        scan::first_index_of(numstr::dec_int(v), ' ') == -1,
        scan::first_index_of(numstr::dec_int(v), '.') == -1,
        forall|j: int|
            0 <= j < numstr::dec_int(v).len() ==> numstr::dec_int(v)[j] != ' '
                && numstr::dec_int(v)[j] != '.',
        numstr::dec_int(v).len() >= 1,
{
    let s = numstr::dec_int(v);
    if v < 0 {
        numstr::lemma_dec_digits((-v) as nat);
        assert forall|j: int| 0 <= j < s.len() implies s[j] != ' ' && s[j] != '.' by {
            if j > 0 {
                assert(s[j] == numstr::dec_digits((-v) as nat)[j - 1]);
                assert(numstr::is_digit(s[j]));
            }
        }
    } else {
        numstr::lemma_dec_digits(v as nat);
        assert forall|j: int| 0 <= j < s.len() implies s[j] != ' ' && s[j] != '.' by {
            assert(numstr::is_digit(s[j]));
        }
    }
    scan::lemma_first_index_of_absent(s, ' ');
    scan::lemma_first_index_of_absent(s, '.');
}

/// Law: decoding the wire text of any day count yields exactly that date —
/// the date a day count denotes is the day count itself, whatever it is.
pub proof fn lemma_date_roundtrip(d: Date)
    ensures
        date_of_str(date_wire(d)) == Some(d.days as int),
{
    numstr::lemma_int_roundtrip(d.days as int);
}

/// Law: decoding `<secs>.<frac>` for any in-range seconds and any
/// fractional digits yields the instant that many seconds and nanoseconds
/// after the epoch, in UTC.
pub proof fn lemma_instant_roundtrip(secs: i64, frac: Seq<char>)
    requires
        MIN_TS <= secs <= MAX_TS,
        frac.len() > 0,
        numstr::is_digit_seq(frac),
    ensures
        timestamp_of_str(numstr::dec_int(secs as int) + seq!['.'] + frac) == Some(
            (secs as int, nanos_of_frac(frac) as int, 0int),
        ),
{
    let a = numstr::dec_int(secs as int);
    let s = a + seq!['.'] + frac;
    numstr::lemma_int_roundtrip(secs as int);
    lemma_dec_int_not_special(secs as int);
    lemma_digits_not_special(frac);
    lemma_nanos_of_frac_bound(frac);
    // no space anywhere: the whole text is the instant part
    scan::lemma_first_index_of_concat(a + seq!['.'], frac, ' ');
    scan::lemma_first_index_of_concat(a, seq!['.'], ' ');
    scan::lemma_first_index_of_absent(seq![' '].drop_last(), ' ');
    assert(scan::first_index_of(seq!['.'], ' ') == -1) by {
        scan::lemma_first_index_of_absent(seq!['.'], ' ');
    }
    assert(scan::first_index_of(s, ' ') == -1) by {
        assert(s =~= (a + seq!['.']) + frac);
    }
    assert(split_clock(s) == (s, None::<Seq<char>>));
    // the first dot sits right after the seconds text
    assert(scan::first_index_of(seq!['.'], '.') == 0);
    scan::lemma_first_index_of_concat(a, seq!['.'], '.');
    scan::lemma_first_index_of_concat(a + seq!['.'], frac, '.');
    assert(scan::first_index_of(s, '.') == a.len()) by {
        assert(s =~= (a + seq!['.']) + frac);
    }
    assert(secs_str_of(s) =~= a);
    assert(s.skip(a.len() as int) =~= seq!['.'] + frac);
    assert(s.skip(a.len() as int + 1) =~= frac);
    assert(frac_str_of(s) == Some(frac)) by {
        scan::lemma_first_index_of_absent(frac, '.');
    }
}

/// Law: whole seconds beyond the far-future boundary clamp to it rather
/// than erroring, whatever the seconds text denotes above the boundary.
pub proof fn lemma_far_future_clamps(s: Seq<char>)
    requires
        timestamp_of_str(s) is Some,
        (match numstr::int_of_str(secs_str_of(split_clock(s).0)) {
            Some(v) => v > MAX_TS as int,
            None => false,
        }),
    ensures
        (match timestamp_of_str(s) {
            Some((secs, _, _)) => secs == MAX_TS as int,
            None => false,
        }),
{
}

/// Law: the offset minutes of a timestamp cell are normalized modulo 1440
/// before they are applied, for every instant text and every offset.
pub proof fn lemma_offset_normalized(dt: Seq<char>, m: i32)
    requires
        instant_of_str(dt) is Some,
        scan::first_index_of(dt, ' ') == -1,
    ensures
        (match (instant_of_str(dt), timestamp_of_str(dt + seq![' '] + numstr::dec_int(m as int))) {
            (Some((secs, nanos)), Some((s2, n2, off))) => {
                s2 == secs && n2 == nanos && off == tmod1440(m as int) * 60
            },
            _ => false,
        }),
{
    let a = dt + seq![' '];
    let o = numstr::dec_int(m as int);
    let s = a + o;
    numstr::lemma_int_roundtrip(m as int);
    lemma_dec_int_not_special(m as int);
    assert(scan::first_index_of(seq![' '], ' ') == 0);
    scan::lemma_first_index_of_concat(dt, seq![' '], ' ');
    scan::lemma_first_index_of_concat(a, o, ' ');
    assert(scan::first_index_of(s, ' ') == dt.len());
    assert(s.take(dt.len() as int) =~= dt);
    assert(s.skip(dt.len() as int + 1) =~= o);
    assert(split_clock(s) == (dt, Some(o)));
}

/// Law: encoding a timestamp to its wire text and decoding it back yields
/// the same seconds, nanoseconds and offset.
pub proof fn lemma_timestamp_roundtrip(t: Timestamp)
    requires
        ts_valid(t),
    ensures
        timestamp_of_str(ts_wire(t)) == Some(
            (t.secs as int, t.nanos as int, t.offset_secs as int),
        ),
{
    let f = frac9(t.nanos as nat);
    let minutes = (t.offset_secs as int) / 60;
    lemma_frac9(t.nanos as nat);
    let a = numstr::dec_int(t.secs as int);
    let dt = a + seq!['.'] + f;
    lemma_instant_roundtrip(t.secs, f);
    lemma_dec_int_not_special(t.secs as int);
    lemma_digits_not_special(f);
    assert(scan::first_index_of(dt, ' ') == -1) by {
        scan::lemma_first_index_of_absent(seq!['.'], ' ');
        scan::lemma_first_index_of_concat(a, seq!['.'], ' ');
        scan::lemma_first_index_of_concat(a + seq!['.'], f, ' ');
        assert(dt =~= (a + seq!['.']) + f);
    }
    lemma_offset_normalized_minutes(t, dt, minutes);
    assert(ts_wire(t) =~= dt + seq![' '] + numstr::dec_int(minutes));
}

/// The offset leg of the timestamp round trip: in-range whole minutes pass
/// through the normalization unchanged.
proof fn lemma_offset_normalized_minutes(t: Timestamp, dt: Seq<char>, minutes: int)
    requires
        ts_valid(t),
        minutes == (t.offset_secs as int) / 60,
        instant_of_str(dt) == Some((t.secs as int, t.nanos as int)),
        scan::first_index_of(dt, ' ') == -1,
    ensures
        timestamp_of_str(dt + seq![' '] + numstr::dec_int(minutes)) == Some(
            (t.secs as int, t.nanos as int, t.offset_secs as int),
        ),
{
    vstd::arithmetic::div_mod::lemma_fundamental_div_mod(t.offset_secs as int, 60);
    assert(t.offset_secs as int == 60 * minutes);
    assert(-1440 < minutes < 1440) by (nonlinear_arith)
        requires
            t.offset_secs as int == 60 * minutes,
            -86400 < t.offset_secs < 86400,
    ;
    lemma_offset_normalized(dt, minutes as i32);
    if minutes >= 0 {
        vstd::arithmetic::div_mod::lemma_small_mod(minutes as nat, 1440);
    } else {
        vstd::arithmetic::div_mod::lemma_small_mod((-minutes) as nat, 1440);
    }
    assert(tmod1440(minutes) == minutes);
    assert(tmod1440(minutes) * 60 == t.offset_secs as int) by (nonlinear_arith)
        requires
            tmod1440(minutes) == minutes,
            t.offset_secs as int == 60 * minutes,
    ;
}

/// The far-future boundary is the last second of the year 9999.
pub proof fn lemma_max_ts_is_civil()
    ensures
        MAX_TS as int == civil::civil_secs(9999, 12, 31, 23, 59, 59),
{
    civil::lemma_days_to_year_top();
    civil::lemma_days_to_year_step(9999);
    civil::lemma_year_month_sum(9999);
    assert(civil::days_before_month(9999, 13) == civil::days_before_month(9999, 12)
        + civil::days_in_month(9999, 12));
}

/// Every civil date-time lies within the representable instant range.
pub proof fn lemma_civil_secs_in_range(y: int, m: int, d: int, h: int, mi: int, s: int)
    requires
        civil::valid_civil(y, m, d),
        civil::valid_clock(h, mi, s),
    ensures
        MIN_TS <= civil::civil_secs(y, m, d, h, mi, s) <= MAX_TS,
{
    let dn = civil::day_number(y, m, d);
    civil::lemma_days_to_year_mono(1, y);
    civil::lemma_days_to_year_mono(y + 1, 10000);
    civil::lemma_days_to_year_step(y);
    civil::lemma_days_to_year_top();
    civil::lemma_days_to_year_bottom();
    civil::lemma_year_month_sum(y);
    civil::lemma_days_before_month_mono(y, m + 1, 13);
    civil::lemma_days_before_month_bound(y, m);
    assert(civil::days_before_month(y, m + 1) == civil::days_before_month(y, m)
        + civil::days_in_month(y, m));
    assert(dn <= civil::days_to_year(y) + civil::days_in_year(y) - 1);
    assert(dn <= 2932896);
    assert(dn >= -719162);
    assert(dn * 86400 <= 2932896 * 86400) by (nonlinear_arith)
        requires
            dn <= 2932896,
    ;
    assert(dn * 86400 >= (-719162) * 86400) by (nonlinear_arith)
        requires
            dn >= -719162,
    ;
}

} // verus!
