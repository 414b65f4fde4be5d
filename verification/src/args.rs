use vstd::prelude::*;

verus! {

/// Configuration surface of the poller: where durable state lives and how
/// many seconds pass between two polling cycles.  The default interval is
/// two seconds.  Command-line and environment parsing happen outside the
/// verified boundary; the parsed values are handed over in this plain form.
pub struct Args {
    pub persist_path: String,
    pub fetch_interval: u64,
}

/// The documented default of the polling interval, in seconds.
pub const DEFAULT_FETCH_INTERVAL: u64 = 2;

impl Args {
    /// Builds the configuration, substituting the documented default when
    /// no interval was given.
    pub fn new(persist_path: String, fetch_interval: Option<u64>) -> (r: Args)
        ensures
            r.persist_path@ == persist_path@,
            r.fetch_interval == (match fetch_interval {
                Some(v) => v,
                None => DEFAULT_FETCH_INTERVAL,
            }),
    {
        let interval: u64 = match fetch_interval {
            Some(v) => v,
            None => DEFAULT_FETCH_INTERVAL,
        };
        Args { persist_path, fetch_interval: interval }
    }
}

} // verus!
