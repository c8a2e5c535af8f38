//! The random value synthesizer: a fresh number of the same kind as the
//! original, within a range derived from it.

use vstd::prelude::*;
use crate::json::Json;
use crate::json::JsonNumber;
use crate::json::NumberModel;

verus! {

/// `rand::Rng::gen_range` on the generator of the current thread, over the
/// inclusive range from `low` to `high`. It panics on an empty range, which
/// `requires` leaves out; what it returns lies in the range.
#[verifier::external_body]
fn random_between(low: u64, high: u64) -> (r: u64)
    requires
        low <= high,
    ensures
        low <= r <= high,
{
    rand::Rng::gen_range(&mut rand::thread_rng(), low..=high)
}

/// The largest value that may replace the integer `original`: twice the
/// original, and never less than 1.
pub open spec fn integer_upper_bound(original: int) -> int {
    if 2 * original > 1 {
        2 * original
    } else {
        1
    }
}

/// Whether `n` is an integer that a signed 64-bit word holds. These are the
/// numbers that get an integer replacement.
pub open spec fn is_small_integer(n: NumberModel) -> bool {
    n matches NumberModel::Integer(v) && i64::MIN <= v <= i64::MAX
}

/// The largest value that may replace the integer `original`.
pub fn integer_upper(original: i64) -> (high: u64)
    ensures
        high == integer_upper_bound(original as int),
{
    if original >= 1 {
        2 * (original as u64)
    } else {
        1
    }
}

/// Draws a replacement for the integer `original`: a random integer from 1
/// up to its upper bound.
pub fn synthesize_integer(original: i64) -> (r: u64)
    ensures
        1 <= r <= integer_upper_bound(original as int),
{
    random_between(1, integer_upper(original))
}

/// Why no replacement was made.
#[derive(Clone, Copy, Debug, PartialEq, Eq, Structural)]
pub enum SynthesisError {
    /// The source of non-integer draws gave nothing.
    NoDraw,
}

/// Whether `new` may replace the number `original`. An integer that a signed
/// 64-bit word holds is replaced by an integer from 1 up to its upper bound;
/// any other number by what `redraw` gives for it.
pub open spec fn may_replace<F: Fn(&JsonNumber) -> Option<JsonNumber>>(
    original: JsonNumber,
    new: JsonNumber,
    redraw: F,
) -> bool {
    if is_small_integer(original@) {
        new matches JsonNumber::Integer(x) && 1 <= x <= integer_upper_bound(
            original@->Integer_0,
        )
    } else {
        call_ensures(redraw, (&original,), Some(new))
    }
}

/// Whether the replacement of the number `original` may fail: only where it
/// is left to `redraw`, and `redraw` may give nothing.
pub open spec fn may_fail<F: Fn(&JsonNumber) -> Option<JsonNumber>>(
    original: JsonNumber,
    redraw: F,
) -> bool {
    !is_small_integer(original@) && call_ensures(redraw, (&original,), None::<JsonNumber>)
}

/// Draws a replacement for the number `original`.
pub fn synthesize_number<F: Fn(&JsonNumber) -> Option<JsonNumber>>(
    original: &JsonNumber,
    redraw: &F,
) -> (r: Result<JsonNumber, SynthesisError>)
    requires
        forall|n: &JsonNumber| call_requires(redraw, (n,)),
    ensures
        match r {
            Ok(new) => may_replace(*original, new, *redraw),
            Err(_) => may_fail(*original, *redraw),
        },
{
    match original {
        JsonNumber::Integer(v) => {
            if -0x8000_0000_0000_0000 <= *v && *v <= 0x7fff_ffff_ffff_ffff {
                let drawn = synthesize_integer(*v as i64);
                return Ok(JsonNumber::Integer(drawn as i128));
            }
        },
        JsonNumber::Real(_) => {},
    }
    match redraw(original) {
        Some(new) => Ok(new),
        None => Err(SynthesisError::NoDraw),
    }
}

/// Draws a replacement for `original` where it is a number, and hands back
/// a copy of it where it is not.
pub fn generate_random_value<F: Fn(&JsonNumber) -> Option<JsonNumber>>(
    original: &Json,
    redraw: &F,
) -> (r: Result<Json, SynthesisError>)
    requires
        forall|n: &JsonNumber| call_requires(redraw, (n,)),
    ensures
        match original {
            Json::Number(n) => match r {
                Ok(new) => new matches Json::Number(m) && may_replace(*n, m, *redraw),
                Err(_) => may_fail(*n, *redraw),
            },
            _ => r matches Ok(new) && new@ == original@,
        },
{
    match original {
        Json::Number(n) => match synthesize_number(n, redraw) {
            Ok(new) => Ok(Json::Number(new)),
            Err(e) => Err(e),
        },
        _ => Ok(original.clone()),
    }
}

} // verus!
