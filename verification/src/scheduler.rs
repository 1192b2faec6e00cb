//! Scheduling support: turning a funding-poll interval into a six-field
//! cron expression.

use vstd::prelude::*;

use crate::text::{i64_to_dec_str, int_str_of};

verus! {

/// How an interval can be rejected.
#[derive(Clone, Copy, Debug, PartialEq, Eq, Structural)]
pub enum CronError {
    /// The interval fits no supported cron shape.
    UnsupportedInterval,
}

/// The cron expression for a polling interval in minutes: hourly, every
/// eight hours, every `m` minutes for sub-hour intervals, every `m / 60`
/// hours for whole-hour multiples; anything else is unsupported.
pub open spec fn spec_minutes_to_cron(m: int) -> Option<Seq<char>> {
    if m == 60 {
        Some("0 0 * * * *"@)
    } else if m == 480 {
        Some("0 0 */8 * * *"@)
    } else if m < 60 {
        Some("0 */"@ + int_str_of(m) + " * * * *"@)
    } else if m % 60 == 0 {
        Some("0 0 */"@ + int_str_of(m / 60) + " * * *"@)
    } else {
        None
    }
}

/// Render a funding-poll interval as a cron expression.
pub fn minutes_to_cron(minutes: i32) -> (r: Result<String, CronError>)
    ensures
        match r {
            Ok(s) => spec_minutes_to_cron(minutes as int) == Some(s@),
            Err(e) => e == CronError::UnsupportedInterval && spec_minutes_to_cron(
                minutes as int,
            ) is None,
        },
{
    if minutes == 60 {
        Ok("0 0 * * * *".to_owned())
    } else if minutes == 480 {
        Ok("0 0 */8 * * *".to_owned())
    } else if minutes < 60 {
        let r = "0 */".to_owned().concat(i64_to_dec_str(minutes as i64).as_str()).concat(
            " * * * *",
        );
        Ok(r)
    } else if minutes % 60 == 0 {
        let r = "0 0 */".to_owned().concat(i64_to_dec_str((minutes / 60) as i64).as_str()).concat(
            " * * *",
        );
        Ok(r)
    } else {
        Err(CronError::UnsupportedInterval)
    }
}

} // verus!
