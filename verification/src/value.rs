//! The value decoder: one optional wire string into one typed value.
//!
//! Cells are not their type: every cell is a string (or absent) and has to
//! be converted. An absent cell decodes only into an optional target type,
//! whose empty state it yields; everywhere else it is `UnexpectedNull`.

use vstd::prelude::*;

use crate::datetime;
use crate::datetime::Date;
use crate::datetime::Timestamp;
use crate::error::Error;
use crate::numstr;
use crate::uuid_val;
use crate::uuid_val::UuidVal;

verus! {

/// Decoding of one wire cell into one typed value. Implement this to decode
/// custom types, for example enums carried as text.
pub trait FromValue: Sized {
    /// When `v` is the value that the cell text `s` decodes to.
    spec fn value_spec(s: Seq<char>, v: Self) -> bool;

    /// Whether some value decodes from the cell text `s`.
    spec fn decodable(s: Seq<char>) -> bool;

    /// What decoding an absent cell yields: `UnexpectedNull` for required
    /// types, the empty state for optional ones.
    spec fn absent_spec(r: Result<Self, Error>) -> bool;

    /// What an error of decoding the cell text `s` looks like: the failure
    /// keeps the original wire text.
    spec fn error_spec(s: Seq<char>, e: Error) -> bool;

    /// Decodes a present cell.
    fn from_value(s: &str) -> (r: Result<Self, Error>)
        ensures
            r matches Ok(v) ==> Self::value_spec(s@, v),
            Self::decodable(s@) <==> r is Ok,
            r matches Err(e) ==> Self::error_spec(s@, e),
    ;

    /// Decodes an optional cell.
    fn from_optional_value(s: Option<&str>) -> (r: Result<Self, Error>)
        ensures
            s is None ==> Self::absent_spec(r),
            s matches Some(x) ==> {
                &&& (r matches Ok(v) ==> Self::value_spec(x@, v))
                &&& (Self::decodable(x@) <==> r is Ok)
                &&& (r matches Err(e) ==> Self::error_spec(x@, e))
            },
    ;
}

impl FromValue for bool {
    open spec fn value_spec(s: Seq<char>, v: Self) -> bool {
        if v {
            s == "true"@
        } else {
            s == "false"@
        }
    }

    open spec fn decodable(s: Seq<char>) -> bool {
        s == "true"@ || s == "false"@
    }

    open spec fn absent_spec(r: Result<Self, Error>) -> bool {
        r == Err::<Self, Error>(Error::UnexpectedNull)
    }

    open spec fn error_spec(s: Seq<char>, e: Error) -> bool {
        e matches Error::Format { given, err: _ } && given@ == s
    }

    fn from_value(s: &str) -> (r: Result<Self, Error>) {
        if text_eq(s, "true") {
            Ok(true)
        } else if text_eq(s, "false") {
            Ok(false)
        } else {
            Err(Error::format(s, "provided string was not `true` or `false`"))
        }
    }

    fn from_optional_value(s: Option<&str>) -> (r: Result<Self, Error>) {
        match s {
            None => Err(Error::UnexpectedNull),
            Some(x) => Self::from_value(x),
        }
    }
}

/// The wire text of a boolean.
pub open spec fn bool_wire(b: bool) -> Seq<char> {
    if b {
        "true"@
    } else {
        "false"@
    }
}

/// Law: decoding the wire text of a boolean yields exactly that boolean.
pub proof fn lemma_bool_roundtrip(b: bool)
    ensures
        <bool as FromValue>::decodable(bool_wire(b)),
        <bool as FromValue>::value_spec(bool_wire(b), b),
        forall|v: bool| <bool as FromValue>::value_spec(bool_wire(b), v) ==> v == b,
{
    reveal_strlit("true");
    reveal_strlit("false");
    assert("true"@.len() == 4);
    assert("false"@.len() == 5);
}

/// Law: decoding the decimal text of an unsigned count yields exactly that
/// count.
pub proof fn lemma_u64_roundtrip(n: u64)
    ensures
        <u64 as FromValue>::decodable(numstr::dec_digits(n as nat)),
        <u64 as FromValue>::value_spec(numstr::dec_digits(n as nat), n),
{
    numstr::lemma_uint_roundtrip(n as nat);
}

/// Law: decoding the decimal text of a signed count yields exactly that
/// count.
pub proof fn lemma_i64_roundtrip(v: i64)
    ensures
        <i64 as FromValue>::decodable(numstr::dec_int(v as int)),
        <i64 as FromValue>::value_spec(numstr::dec_int(v as int), v),
{
    numstr::lemma_int_roundtrip(v as int);
}

/// Whether two texts hold the same characters.
fn text_eq(a: &str, b: &str) -> (r: bool)
    ensures
        r == (a@ == b@),
{
    let sa = a.to_owned();
    let sb = b.to_owned();
    sa == sb
}

impl FromValue for String {
    open spec fn value_spec(s: Seq<char>, v: Self) -> bool {
        v@ == s
    }

    open spec fn decodable(s: Seq<char>) -> bool {
        true
    }

    open spec fn absent_spec(r: Result<Self, Error>) -> bool {
        r matches Err(e) && e is UnexpectedNull
    }

    open spec fn error_spec(s: Seq<char>, e: Error) -> bool {
        false
    }

    fn from_value(s: &str) -> (r: Result<Self, Error>) {
        Ok(s.to_owned())
    }

    fn from_optional_value(s: Option<&str>) -> (r: Result<Self, Error>) {
        match s {
            None => Err(Error::UnexpectedNull),
            Some(x) => Self::from_value(x),
        }
    }
}

impl<T: FromValue> FromValue for Option<T> {
    open spec fn value_spec(s: Seq<char>, v: Self) -> bool {
        match v {
            Some(x) => T::value_spec(s, x),
            None => false,
        }
    }

    open spec fn decodable(s: Seq<char>) -> bool {
        T::decodable(s)
    }

    open spec fn absent_spec(r: Result<Self, Error>) -> bool {
        r matches Ok(v) && v is None
    }

    open spec fn error_spec(s: Seq<char>, e: Error) -> bool {
        T::error_spec(s, e)
    }

    fn from_value(s: &str) -> (r: Result<Self, Error>) {
        match T::from_value(s) {
            Ok(v) => Ok(Some(v)),
            Err(e) => Err(e),
        }
    }

    fn from_optional_value(s: Option<&str>) -> (r: Result<Self, Error>) {
        match s {
            None => Ok(None),
            Some(x) => Self::from_value(x),
        }
    }
}

impl FromValue for Date {
    open spec fn value_spec(s: Seq<char>, v: Self) -> bool {
        match datetime::date_of_str(s) {
            Some(d) => v.days == d,
            None => false,
        }
    }

    open spec fn decodable(s: Seq<char>) -> bool {
        datetime::date_of_str(s) is Some
    }

    open spec fn absent_spec(r: Result<Self, Error>) -> bool {
        r == Err::<Self, Error>(Error::UnexpectedNull)
    }

    open spec fn error_spec(s: Seq<char>, e: Error) -> bool {
        e matches Error::Format { given, err: _ } && given@ == s
    }

    fn from_value(s: &str) -> (r: Result<Self, Error>) {
        datetime::decode_date(s)
    }

    fn from_optional_value(s: Option<&str>) -> (r: Result<Self, Error>) {
        match s {
            None => Err(Error::UnexpectedNull),
            Some(x) => Self::from_value(x),
        }
    }
}

impl FromValue for Timestamp {
    open spec fn value_spec(s: Seq<char>, v: Self) -> bool {
        match datetime::timestamp_of_str(s) {
            Some((secs, nanos, off)) => v.secs == secs && v.nanos == nanos && v.offset_secs
                == off,
            None => false,
        }
    }

    open spec fn decodable(s: Seq<char>) -> bool {
        datetime::timestamp_of_str(s) is Some
    }

    open spec fn absent_spec(r: Result<Self, Error>) -> bool {
        r == Err::<Self, Error>(Error::UnexpectedNull)
    }

    open spec fn error_spec(s: Seq<char>, e: Error) -> bool {
        e matches Error::Format { given, err: _ } && (given@ == s || given@
            == datetime::split_clock(s).0)
    }

    fn from_value(s: &str) -> (r: Result<Self, Error>) {
        datetime::decode_timestamp(s)
    }

    fn from_optional_value(s: Option<&str>) -> (r: Result<Self, Error>) {
        match s {
            None => Err(Error::UnexpectedNull),
            Some(x) => Self::from_value(x),
        }
    }
}

impl FromValue for UuidVal {
    open spec fn value_spec(s: Seq<char>, v: Self) -> bool {
        uuid_val::uuid_value(s) == Some(v.bits)
    }

    open spec fn decodable(s: Seq<char>) -> bool {
        uuid_val::uuid_value(s) is Some
    }

    open spec fn absent_spec(r: Result<Self, Error>) -> bool {
        r == Err::<Self, Error>(Error::UnexpectedNull)
    }

    open spec fn error_spec(s: Seq<char>, e: Error) -> bool {
        e matches Error::Format { given, err: _ } && given@ == s
    }

    fn from_value(s: &str) -> (r: Result<Self, Error>) {
        match uuid_val::parse_uuid_bits(s) {
            Some(b) => Ok(UuidVal { bits: b }),
            None => Err(Error::format(s, "provided string was not a UUID")),
        }
    }

    fn from_optional_value(s: Option<&str>) -> (r: Result<Self, Error>) {
        match s {
            None => Err(Error::UnexpectedNull),
            Some(x) => Self::from_value(x),
        }
    }
}

impl FromValue for u64 {
    open spec fn value_spec(s: Seq<char>, v: Self) -> bool {
        numstr::uint_of_str(s) == Some(v as nat)
    }

    open spec fn decodable(s: Seq<char>) -> bool {
        match numstr::uint_of_str(s) {
            Some(n) => n <= u64::MAX,
            None => false,
        }
    }

    open spec fn absent_spec(r: Result<Self, Error>) -> bool {
        r == Err::<Self, Error>(Error::UnexpectedNull)
    }

    open spec fn error_spec(s: Seq<char>, e: Error) -> bool {
        e matches Error::Format { given, err: _ } && given@ == s
    }

    fn from_value(s: &str) -> (r: Result<Self, Error>) {
        match numstr::parse_u64_str(s) {
            Some(v) => Ok(v),
            None => Err(Error::format(s, "parsing as u64")),
        }
    }

    fn from_optional_value(s: Option<&str>) -> (r: Result<Self, Error>) {
        match s {
            None => Err(Error::UnexpectedNull),
            Some(x) => Self::from_value(x),
        }
    }
}

impl FromValue for u128 {
    open spec fn value_spec(s: Seq<char>, v: Self) -> bool {
        numstr::uint_of_str(s) == Some(v as nat)
    }

    open spec fn decodable(s: Seq<char>) -> bool {
        match numstr::uint_of_str(s) {
            Some(n) => n <= u128::MAX,
            None => false,
        }
    }

    open spec fn absent_spec(r: Result<Self, Error>) -> bool {
        r == Err::<Self, Error>(Error::UnexpectedNull)
    }

    open spec fn error_spec(s: Seq<char>, e: Error) -> bool {
        e matches Error::Format { given, err: _ } && given@ == s
    }

    fn from_value(s: &str) -> (r: Result<Self, Error>) {
        match numstr::parse_uint_str(s) {
            Some(v) => Ok(v),
            None => Err(Error::format(s, "parsing as u128")),
        }
    }

    fn from_optional_value(s: Option<&str>) -> (r: Result<Self, Error>) {
        match s {
            None => Err(Error::UnexpectedNull),
            Some(x) => Self::from_value(x),
        }
    }
}

impl FromValue for u8 {
    open spec fn value_spec(s: Seq<char>, v: Self) -> bool {
        numstr::uint_of_str(s) == Some(v as nat)
    }

    open spec fn decodable(s: Seq<char>) -> bool {
        match numstr::uint_of_str(s) {
            Some(n) => n <= u8::MAX,
            None => false,
        }
    }

    open spec fn absent_spec(r: Result<Self, Error>) -> bool {
        r == Err::<Self, Error>(Error::UnexpectedNull)
    }

    open spec fn error_spec(s: Seq<char>, e: Error) -> bool {
        e matches Error::Format { given, err: _ } && given@ == s
    }

    fn from_value(s: &str) -> (r: Result<Self, Error>) {
        match numstr::parse_u64_str(s) {
            Some(v) => if v <= u8::MAX as u64 {
                Ok(v as u8)
            } else {
                Err(Error::format(s, "number too large for u8"))
            },
            None => Err(Error::format(s, "parsing as u8")),
        }
    }

    fn from_optional_value(s: Option<&str>) -> (r: Result<Self, Error>) {
        match s {
            None => Err(Error::UnexpectedNull),
            Some(x) => Self::from_value(x),
        }
    }
}

impl FromValue for u16 {
    open spec fn value_spec(s: Seq<char>, v: Self) -> bool {
        numstr::uint_of_str(s) == Some(v as nat)
    }

    open spec fn decodable(s: Seq<char>) -> bool {
        match numstr::uint_of_str(s) {
            Some(n) => n <= u16::MAX,
            None => false,
        }
    }

    open spec fn absent_spec(r: Result<Self, Error>) -> bool {
        r == Err::<Self, Error>(Error::UnexpectedNull)
    }

    open spec fn error_spec(s: Seq<char>, e: Error) -> bool {
        e matches Error::Format { given, err: _ } && given@ == s
    }

    fn from_value(s: &str) -> (r: Result<Self, Error>) {
        match numstr::parse_u64_str(s) {
            Some(v) => if v <= u16::MAX as u64 {
                Ok(v as u16)
            } else {
                Err(Error::format(s, "number too large for u16"))
            },
            None => Err(Error::format(s, "parsing as u16")),
        }
    }

    fn from_optional_value(s: Option<&str>) -> (r: Result<Self, Error>) {
        match s {
            None => Err(Error::UnexpectedNull),
            Some(x) => Self::from_value(x),
        }
    }
}

impl FromValue for u32 {
    open spec fn value_spec(s: Seq<char>, v: Self) -> bool {
        numstr::uint_of_str(s) == Some(v as nat)
    }

    open spec fn decodable(s: Seq<char>) -> bool {
        match numstr::uint_of_str(s) {
            Some(n) => n <= u32::MAX,
            None => false,
        }
    }

    open spec fn absent_spec(r: Result<Self, Error>) -> bool {
        r == Err::<Self, Error>(Error::UnexpectedNull)
    }

    open spec fn error_spec(s: Seq<char>, e: Error) -> bool {
        e matches Error::Format { given, err: _ } && given@ == s
    }

    fn from_value(s: &str) -> (r: Result<Self, Error>) {
        match numstr::parse_u64_str(s) {
            Some(v) => if v <= u32::MAX as u64 {
                Ok(v as u32)
            } else {
                Err(Error::format(s, "number too large for u32"))
            },
            None => Err(Error::format(s, "parsing as u32")),
        }
    }

    fn from_optional_value(s: Option<&str>) -> (r: Result<Self, Error>) {
        match s {
            None => Err(Error::UnexpectedNull),
            Some(x) => Self::from_value(x),
        }
    }
}

impl FromValue for usize {
    open spec fn value_spec(s: Seq<char>, v: Self) -> bool {
        numstr::uint_of_str(s) == Some(v as nat)
    }

    open spec fn decodable(s: Seq<char>) -> bool {
        match numstr::uint_of_str(s) {
            Some(n) => n <= usize::MAX,
            None => false,
        }
    }

    open spec fn absent_spec(r: Result<Self, Error>) -> bool {
        r == Err::<Self, Error>(Error::UnexpectedNull)
    }

    open spec fn error_spec(s: Seq<char>, e: Error) -> bool {
        e matches Error::Format { given, err: _ } && given@ == s
    }

    fn from_value(s: &str) -> (r: Result<Self, Error>) {
        match numstr::parse_uint_str(s) {
            Some(v) => if v <= usize::MAX as u128 {
                Ok(v as usize)
            } else {
                Err(Error::format(s, "number too large for usize"))
            },
            None => Err(Error::format(s, "parsing as usize")),
        }
    }

    fn from_optional_value(s: Option<&str>) -> (r: Result<Self, Error>) {
        match s {
            None => Err(Error::UnexpectedNull),
            Some(x) => Self::from_value(x),
        }
    }
}

impl FromValue for i64 {
    open spec fn value_spec(s: Seq<char>, v: Self) -> bool {
        numstr::int_of_str(s) == Some(v as int)
    }

    open spec fn decodable(s: Seq<char>) -> bool {
        match numstr::int_of_str(s) {
            Some(n) => i64::MIN <= n <= i64::MAX,
            None => false,
        }
    }

    open spec fn absent_spec(r: Result<Self, Error>) -> bool {
        r == Err::<Self, Error>(Error::UnexpectedNull)
    }

    open spec fn error_spec(s: Seq<char>, e: Error) -> bool {
        e matches Error::Format { given, err: _ } && given@ == s
    }

    fn from_value(s: &str) -> (r: Result<Self, Error>) {
        match numstr::parse_i64_str(s) {
            Some(v) => Ok(v),
            None => Err(Error::format(s, "parsing as i64")),
        }
    }

    fn from_optional_value(s: Option<&str>) -> (r: Result<Self, Error>) {
        match s {
            None => Err(Error::UnexpectedNull),
            Some(x) => Self::from_value(x),
        }
    }
}

impl FromValue for i16 {
    open spec fn value_spec(s: Seq<char>, v: Self) -> bool {
        numstr::int_of_str(s) == Some(v as int)
    }

    open spec fn decodable(s: Seq<char>) -> bool {
        match numstr::int_of_str(s) {
            Some(n) => i16::MIN <= n <= i16::MAX,
            None => false,
        }
    }

    open spec fn absent_spec(r: Result<Self, Error>) -> bool {
        r == Err::<Self, Error>(Error::UnexpectedNull)
    }

    open spec fn error_spec(s: Seq<char>, e: Error) -> bool {
        e matches Error::Format { given, err: _ } && given@ == s
    }

    fn from_value(s: &str) -> (r: Result<Self, Error>) {
        match numstr::parse_i64_str(s) {
            Some(v) => if i16::MIN as i64 <= v && v <= i16::MAX as i64 {
                Ok(v as i16)
            } else {
                Err(Error::format(s, "number out of range for i16"))
            },
            None => Err(Error::format(s, "parsing as i16")),
        }
    }

    fn from_optional_value(s: Option<&str>) -> (r: Result<Self, Error>) {
        match s {
            None => Err(Error::UnexpectedNull),
            Some(x) => Self::from_value(x),
        }
    }
}

impl FromValue for i32 {
    open spec fn value_spec(s: Seq<char>, v: Self) -> bool {
        numstr::int_of_str(s) == Some(v as int)
    }

    open spec fn decodable(s: Seq<char>) -> bool {
        match numstr::int_of_str(s) {
            Some(n) => i32::MIN <= n <= i32::MAX,
            None => false,
        }
    }

    open spec fn absent_spec(r: Result<Self, Error>) -> bool {
        r == Err::<Self, Error>(Error::UnexpectedNull)
    }

    open spec fn error_spec(s: Seq<char>, e: Error) -> bool {
        e matches Error::Format { given, err: _ } && given@ == s
    }

    fn from_value(s: &str) -> (r: Result<Self, Error>) {
        match numstr::parse_i64_str(s) {
            Some(v) => if i32::MIN as i64 <= v && v <= i32::MAX as i64 {
                Ok(v as i32)
            } else {
                Err(Error::format(s, "number out of range for i32"))
            },
            None => Err(Error::format(s, "parsing as i32")),
        }
    }

    fn from_optional_value(s: Option<&str>) -> (r: Result<Self, Error>) {
        match s {
            None => Err(Error::UnexpectedNull),
            Some(x) => Self::from_value(x),
        }
    }
}

impl FromValue for isize {
    open spec fn value_spec(s: Seq<char>, v: Self) -> bool {
        numstr::int_of_str(s) == Some(v as int)
    }

    open spec fn decodable(s: Seq<char>) -> bool {
        match numstr::int_of_str(s) {
            Some(n) => isize::MIN <= n <= isize::MAX,
            None => false,
        }
    }

    open spec fn absent_spec(r: Result<Self, Error>) -> bool {
        r == Err::<Self, Error>(Error::UnexpectedNull)
    }

    open spec fn error_spec(s: Seq<char>, e: Error) -> bool {
        e matches Error::Format { given, err: _ } && given@ == s
    }

    fn from_value(s: &str) -> (r: Result<Self, Error>) {
        match numstr::parse_i64_str(s) {
            Some(v) => if isize::MIN as i64 <= v && v <= isize::MAX as i64 {
                Ok(v as isize)
            } else {
                Err(Error::format(s, "number out of range for isize"))
            },
            None => Err(Error::format(s, "parsing as isize")),
        }
    }

    fn from_optional_value(s: Option<&str>) -> (r: Result<Self, Error>) {
        match s {
            None => Err(Error::UnexpectedNull),
            Some(x) => Self::from_value(x),
        }
    }
}

impl FromValue for i128 {
    open spec fn value_spec(s: Seq<char>, v: Self) -> bool {
        numstr::int_of_str(s) == Some(v as int)
    }

    open spec fn decodable(s: Seq<char>) -> bool {
        match numstr::int_of_str(s) {
            Some(n) => i128::MIN <= n <= i128::MAX,
            None => false,
        }
    }

    open spec fn absent_spec(r: Result<Self, Error>) -> bool {
        r == Err::<Self, Error>(Error::UnexpectedNull)
    }

    open spec fn error_spec(s: Seq<char>, e: Error) -> bool {
        e matches Error::Format { given, err: _ } && given@ == s
    }

    fn from_value(s: &str) -> (r: Result<Self, Error>) {
        match numstr::parse_sint_str(s) {
            Some((neg, m)) => {
                if !neg {
                    if m <= i128::MAX as u128 {
                        Ok(m as i128)
                    } else {
                        Err(Error::format(s, "number out of range for i128"))
                    }
                } else {
                    if m <= i128::MAX as u128 {
                        Ok(-(m as i128))
                    } else if m == (i128::MAX as u128) + 1 {
                        Ok(i128::MIN)
                    } else {
                        Err(Error::format(s, "number out of range for i128"))
                    }
                }
            },
            None => Err(Error::format(s, "parsing as i128")),
        }
    }

    fn from_optional_value(s: Option<&str>) -> (r: Result<Self, Error>) {
        match s {
            None => Err(Error::UnexpectedNull),
            Some(x) => Self::from_value(x),
        }
    }
}

} // verus!
