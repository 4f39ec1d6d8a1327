//! The telemetry client's decisions: where a device's measurement endpoint
//! lives, and what one response means for the polling cycle.
//!
//! The HTTP transport lives outside this crate; it fetches the body with
//! bounded timeouts and hands it across as a plain value — or nothing, when
//! the request failed in any way.

use crate::codec::parse_doc;
use crate::codec::decode;
use crate::codec::MeasurementRecord;
use crate::scheduler::PollOutcome;
use vstd::prelude::*;

verus! {

/// Read and connect/write timeout, in seconds, for one measurement request.
pub const HTTP_TIMEOUT_SECS: u64 = 5;

/// The measurement endpoint under a device address: plain transport, fixed
/// well-known path.
pub open spec fn url_text(addr: Seq<char>) -> Seq<char> {
    "http://"@ + addr + "/api/v1/data"@
}

/// Builds the measurement endpoint's URL for a device address.
pub fn device_url(addr: &str) -> (r: String)
    ensures
        r@ == url_text(addr@),
{
    let mut out = String::from_str("http://");
    out.append(addr);
    out.append("/api/v1/data");
    proof {
        assert(out@ =~= url_text(addr@));
    }
    out
}

/// Classifies one cycle's response. `None` stands for a request that failed
/// in any way — refused, timed out, bad status — and yields a fetch failure;
/// a body that is not a well-formed measurement document yields a parse
/// failure; a well-formed body yields success and its record.
pub fn evaluate_response(body: &Option<String>) -> (r: (PollOutcome, Option<MeasurementRecord>))
    ensures
        match *body {
            Option::None => r.0 == PollOutcome::FetchFailure && r.1 is None,
            Option::Some(b) => match parse_doc(b@) {
                Option::Some(v) => r.0 == PollOutcome::Success && (r.1 matches Some(rec) && rec@
                    == v),
                Option::None => r.0 == PollOutcome::ParseFailure && r.1 is None,
            },
        },
{
    match body {
        None => (PollOutcome::FetchFailure, None),
        Some(b) => match decode(b.as_str()) {
            Ok(rec) => (PollOutcome::Success, Some(rec)),
            Err(_) => (PollOutcome::ParseFailure, None),
        },
    }
}

} // verus!
