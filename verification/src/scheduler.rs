//! What one scheduled attempt of a probe records.
use vstd::prelude::*;
use crate::probe::{ProbeRunResult, ProbeStatus};
use crate::state::ProbeUpdate;
use crate::text::{chars_of, decimal, decimal_string, string_from_chars};

verus! {

/// The error recorded when an attempt ran out of time.
pub open spec fn timeout_message(timeout_seconds: u64) -> Seq<char> {
    "probe execution timed out after "@ + decimal(timeout_seconds as nat) + "s"@
}

/// The update for one attempt that started at `attempted_at_unix_ms` and
/// took `duration_ms`: the probe's own result when it finished in time
/// (`Some`), otherwise a failure that keeps the previous value and says
/// that the timeout ran out.
pub fn attempt_update(
    finished: Option<ProbeRunResult>,
    timeout_seconds: u64,
    attempted_at_unix_ms: u64,
    duration_ms: u64,
) -> (res: ProbeUpdate)
    ensures
        res.attempted_at_unix_ms == attempted_at_unix_ms,
        res.duration_ms == duration_ms,
        match finished {
            Some(r) => res.status == r.status && res.value == Some(r.value) && res.error
                == r.error,
            None => {
                &&& res.status == ProbeStatus::Fail
                &&& res.value is None
                &&& res.error matches Some(e) && e@ == timeout_message(timeout_seconds)
            },
        },
{
    match finished {
        Some(result) => ProbeUpdate {
            status: result.status,
            value: Some(result.value),
            error: result.error,
            attempted_at_unix_ms,
            duration_ms,
        },
        None => {
            let mut text = chars_of("probe execution timed out after ");
            let secs = decimal_string(timeout_seconds);
            let mut digits = chars_of(secs.as_str());
            let mut unit = chars_of("s");
            text.append(&mut digits);
            text.append(&mut unit);
            ProbeUpdate {
                status: ProbeStatus::Fail,
                value: None,
                error: Some(string_from_chars(text.as_slice())),
                attempted_at_unix_ms,
                duration_ms,
            }
        },
    }
}

} // verus!
