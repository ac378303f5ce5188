//! The functions that the host offers to programs.

use vstd::prelude::*;
use std::time::{Duration, SystemTime};
use crate::environment::Heap;
use crate::number::Number;
use crate::tokens::{Callable, EnvRef, Literal, LiteralView, LoxCallable, LoxCallableView, CallableView, Native};

verus! {

/// A point in time as the system clock gives it.
#[verifier::external_type_specification]
#[verifier::external_body]
pub struct ExSystemTime(SystemTime);

/// Reads the system clock with `SystemTime::now`. Nothing is known of the
/// time that comes back.
#[verifier::external_body]
fn now() -> SystemTime {
    SystemTime::now()
}

/// The time that has passed since the Unix epoch, by
/// `SystemTime::duration_since`; `None` for a time before the epoch.
#[verifier::external_body]
fn since_epoch(time: &SystemTime) -> Option<Duration> {
    time.duration_since(SystemTime::UNIX_EPOCH).ok()
}

/// The whole microseconds of a duration, by `Duration::as_micros`.
#[verifier::external_body]
fn whole_micros(duration: &Duration) -> u128 {
    duration.as_micros()
}

/// The number of seconds for a count of microseconds; zero where the
/// count is beyond what a number holds.
pub fn seconds(micros: u128) -> (n: Number)
    ensures
        micros <= crate::number::MAX_MANTISSA ==> n@.mantissa == micros && n@.scale == 6,
        micros > crate::number::MAX_MANTISSA ==> n@.mantissa == 0 && n@.scale == 0,
{
    if micros <= 0xFFFF_FFFF_FFFF_FFFF_FFFF_FFFF {
        match Number::new(micros as i128, 6) {
            Some(n) => n,
            None => Number::from_i64(0),
        }
    } else {
        Number::from_i64(0)
    }
}

/// The seconds since the Unix epoch, as a number value.
pub fn clock() -> (v: Literal)
    ensures
        v is Number,
{
    let time = now();
    let micros = match since_epoch(&time) {
        Some(d) => whole_micros(&d),
        None => 0,
    };
    Literal::Number(seconds(micros))
}

/// Calls a host function.
pub fn call_native(native: Native) -> (v: Literal)
    ensures
        v is Number,
{
    match native {
        Native::Clock => clock(),
    }
}

/// The value under which `clock` is known to programs.
pub open spec fn clock_value() -> LiteralView {
    LiteralView::Callable(
        LoxCallableView { name: "clock"@, callable: CallableView::Native(Native::Clock) },
    )
}

/// Binds `clock` in `env`.
fn define_clock(env: EnvRef, heap: &mut Heap)
    ensures
        final(heap)@ == old(heap)@.define(env, "clock"@, clock_value()),
{
    env.define(
        heap,
        "clock",
        Literal::Callable(LoxCallable::new(String::from_str("clock"), Callable::Native(Native::Clock))),
    );
}

/// Binds the host functions in `env`: `clock`, which takes no argument.
pub fn define_native_functions(env: EnvRef, heap: &mut Heap)
    ensures
        final(heap)@ == old(heap)@.define(env, "clock"@, clock_value()),
{
    define_clock(env, heap)
}

} // verus!
