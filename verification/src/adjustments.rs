//! Absolute or relative value adjustments typed into a prompt, such as
//! `50`, `=-10`, `+10` or `-5`.

use vstd::prelude::*;
use vstd::string::*;
use crate::text::{chars_of, trim_chars, sub_chars, parse_i32, parse_u32, parse_usize, trim, spec_parse_int};

verus! {

/// An absolute value or a relative change to a value.
#[derive(Debug, Clone, Copy, PartialEq, Eq)]
pub enum Adjustment<T> {
    /// Set the value.
    Absolute(T),
    /// Add to the value.
    RelativeAdd(T),
    /// Subtract from the value.
    RelativeSub(T),
}

/// Which of the three adjustments an input denotes.
#[derive(Debug, Clone, Copy, PartialEq, Eq, Structural)]
pub enum AdjustmentKind {
    Absolute,
    RelativeAdd,
    RelativeSub,
}

/// The adjustment of the given kind carrying `v`.
pub open spec fn make_adjustment<T>(k: AdjustmentKind, v: T) -> Adjustment<T> {
    match k {
        AdjustmentKind::Absolute => Adjustment::Absolute(v),
        AdjustmentKind::RelativeAdd => Adjustment::RelativeAdd(v),
        AdjustmentKind::RelativeSub => Adjustment::RelativeSub(v),
    }
}

/// Splits trimmed input into its kind and the number text: a leading `=`
/// marks an absolute value, `+` an addition, `-` a subtraction; input with no
/// such prefix is absolute. Empty input has no kind.
pub open spec fn spec_split_adjustment(s: Seq<char>) -> Option<(AdjustmentKind, Seq<char>)> {
    let t = trim(s);
    if t.len() == 0 {
        None
    } else if t[0] == '=' {
        Some((AdjustmentKind::Absolute, t.skip(1)))
    } else if t[0] == '+' {
        Some((AdjustmentKind::RelativeAdd, t.skip(1)))
    } else if t[0] == '-' {
        Some((AdjustmentKind::RelativeSub, t.skip(1)))
    } else {
        Some((AdjustmentKind::Absolute, t))
    }
}

/// The message reported when the number text of an adjustment does not parse.
pub open spec fn adjustment_error_message(k: AdjustmentKind) -> Seq<char> {
    match k {
        AdjustmentKind::Absolute => "Invalid absolute value"@,
        AdjustmentKind::RelativeAdd => "Invalid positive offset"@,
        AdjustmentKind::RelativeSub => "Invalid negative offset"@,
    }
}

/// Splits prompt input into the adjustment kind and the number text, or
/// reports "Empty input".
pub fn split_adjustment(s: &str) -> (r: Result<(AdjustmentKind, Vec<char>), String>)
    ensures
        match spec_split_adjustment(s@) {
            None => r is Err && r->Err_0@ == "Empty input"@,
            Some((k, rest)) => r is Ok && r->Ok_0.0 == k && r->Ok_0.1@ == rest,
        },
{
    let v = chars_of(s);
    let t = trim_chars(v.as_slice());
    if t.len() == 0 {
        return Err(String::from_str("Empty input"));
    }
    let c = t[0];
    if c == '=' {
        Ok((AdjustmentKind::Absolute, sub_chars(t.as_slice(), 1, t.len())))
    } else if c == '+' {
        Ok((AdjustmentKind::RelativeAdd, sub_chars(t.as_slice(), 1, t.len())))
    } else if c == '-' {
        Ok((AdjustmentKind::RelativeSub, sub_chars(t.as_slice(), 1, t.len())))
    } else {
        Ok((AdjustmentKind::Absolute, t))
    }
}

/// The message for a number text that does not parse.
pub fn adjustment_error(k: AdjustmentKind) -> (r: String)
    ensures
        r@ == adjustment_error_message(k),
{
    match k {
        AdjustmentKind::Absolute => String::from_str("Invalid absolute value"),
        AdjustmentKind::RelativeAdd => String::from_str("Invalid positive offset"),
        AdjustmentKind::RelativeSub => String::from_str("Invalid negative offset"),
    }
}

/// The result of parsing prompt input as an adjustment of an integer type with
/// the given range.
pub open spec fn spec_parse_adjustment(s: Seq<char>, signed: bool, min: int, max: int) -> Result<
    (AdjustmentKind, int),
    Seq<char>,
> {
    match spec_split_adjustment(s) {
        None => Err("Empty input"@),
        Some((k, rest)) => match spec_parse_int(rest, signed, min, max) {
            Some(v) => Ok((k, v)),
            None => Err(adjustment_error_message(k)),
        },
    }
}

/// Parses prompt input as an `i32` adjustment.
pub fn parse_adjustment_i32(s: &str) -> (r: Result<Adjustment<i32>, String>)
    ensures
        match spec_parse_adjustment(s@, true, i32::MIN as int, i32::MAX as int) {
            Ok((k, v)) => r == Ok::<Adjustment<i32>, String>(make_adjustment(k, v as i32)),
            Err(msg) => r is Err && r->Err_0@ == msg,
        },
{
    let (k, rest) = split_adjustment(s)?;
    match parse_i32(rest.as_slice()) {
        Some(v) => Ok(
            match k {
                AdjustmentKind::Absolute => Adjustment::Absolute(v),
                AdjustmentKind::RelativeAdd => Adjustment::RelativeAdd(v),
                AdjustmentKind::RelativeSub => Adjustment::RelativeSub(v),
            },
        ),
        None => Err(adjustment_error(k)),
    }
}

/// Parses prompt input as a `u32` adjustment.
pub fn parse_adjustment_u32(s: &str) -> (r: Result<Adjustment<u32>, String>)
    ensures
        match spec_parse_adjustment(s@, false, 0, u32::MAX as int) {
            Ok((k, v)) => r == Ok::<Adjustment<u32>, String>(make_adjustment(k, v as u32)),
            Err(msg) => r is Err && r->Err_0@ == msg,
        },
{
    let (k, rest) = split_adjustment(s)?;
    match parse_u32(rest.as_slice()) {
        Some(v) => Ok(
            match k {
                AdjustmentKind::Absolute => Adjustment::Absolute(v),
                AdjustmentKind::RelativeAdd => Adjustment::RelativeAdd(v),
                AdjustmentKind::RelativeSub => Adjustment::RelativeSub(v),
            },
        ),
        None => Err(adjustment_error(k)),
    }
}

/// Parses prompt input as a `usize` adjustment.
pub fn parse_adjustment_usize(s: &str) -> (r: Result<Adjustment<usize>, String>)
    ensures
        match spec_parse_adjustment(s@, false, 0, usize::MAX as int) {
            Ok((k, v)) => r == Ok::<Adjustment<usize>, String>(make_adjustment(k, v as usize)),
            Err(msg) => r is Err && r->Err_0@ == msg,
        },
{
    let (k, rest) = split_adjustment(s)?;
    match parse_usize(rest.as_slice()) {
        Some(v) => Ok(
            match k {
                AdjustmentKind::Absolute => Adjustment::Absolute(v),
                AdjustmentKind::RelativeAdd => Adjustment::RelativeAdd(v),
                AdjustmentKind::RelativeSub => Adjustment::RelativeSub(v),
            },
        ),
        None => Err(adjustment_error(k)),
    }
}

} // verus!
