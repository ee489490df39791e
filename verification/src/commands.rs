//! The few entry points that do not touch the store.

use vstd::prelude::*;

verus! {

/// The idle time to report for what the operating system answered: the
/// seconds it gave, and 0 where it gave none.
pub fn idle_seconds_or_zero(answer: Option<u64>) -> (seconds: u64)
    ensures
        seconds == match answer {
            Some(n) => n,
            None => 0,
        },
{
    match answer {
        Some(n) => n,
        None => 0,
    }
}

/// The greeting for `name`.
pub fn greet(name: &str) -> (greeting: String)
    ensures
        greeting@ == "Hello, "@ + name@ + "! You've been greeted from Rust!"@,
{
    let mut greeting = String::from_str("Hello, ");
    greeting.append(name);
    greeting.append("! You've been greeted from Rust!");
    greeting
}

} // verus!
