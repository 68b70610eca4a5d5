use vstd::prelude::*;
use vstd::string::StringExecFns;

verus! {

/// The decimal digits of `n`, without leading zeros.
pub open spec fn decimal(n: u64) -> Seq<char>
    decreases n,
{
    let last = ((0x30 + n % 10) as u8) as char;
    if n < 10 {
        seq![last]
    } else {
        decimal(n / 10).push(last)
    }
}

/// `format!` with `{}` for an unsigned integer: the number in decimal digits,
/// without sign, padding or leading zeros.
#[verifier::external_body]
fn to_decimal(n: u64) -> (text: String)
    ensures
        text@ == decimal(n),
{
    format!("{}", n)
}

/// What a failed sleep is reported with, behind which the status stands.
pub open spec fn failure_prefix() -> Seq<char> {
    "Error in sleep syscall: "@
}

/// Reads the outcome of a sleep off the registers with which the call
/// returned: the time slept in milliseconds where the status is zero,
/// otherwise a report of the status.
pub fn sleep_result(actual_sleep_time: u32, error: u64) -> (slept: Result<u32, String>)
    ensures
        error == 0 ==> slept == Ok::<u32, String>(actual_sleep_time),
        error != 0 ==> slept is Err && slept->Err_0@ == failure_prefix() + decimal(error),
{
    if error != 0 {
        let number = to_decimal(error);
        Err(String::from_str("Error in sleep syscall: ").concat(number.as_str()))
    } else {
        Ok(actual_sleep_time)
    }
}

} // verus!
