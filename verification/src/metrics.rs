//! Request counters and their Prometheus-style rendering. The counters
//! are plain integers; sharing them across tasks is the embedding
//! program's business.

use vstd::prelude::*;
use crate::text::{dec_rep, u64_to_dec};

verus! {

/// Counts handled requests. The total is always the sum of the
/// successful and the failed count.
#[derive(Debug)]
pub struct Metrics {
    pub total_requests: u64,
    pub successful_requests: u64,
    pub failed_requests: u64,
}

/// The exported Prometheus text for the given counter values.
pub open spec fn prometheus_rep(total: int, successful: int, failed: int) -> Seq<char> {
    "# HELP feathergate_requests_total Total number of requests\n# TYPE feathergate_requests_total counter\nfeathergate_requests_total "@
        + dec_rep(total)
        + "\n# HELP feathergate_requests_successful Successful requests\n# TYPE feathergate_requests_successful counter\nfeathergate_requests_successful "@
        + dec_rep(successful)
        + "\n# HELP feathergate_requests_failed Failed requests\n# TYPE feathergate_requests_failed counter\nfeathergate_requests_failed "@
        + dec_rep(failed)
        + "\n"@
}

impl Metrics {
    /// All counters equal between themselves: the total matches the
    /// two outcomes.
    pub open spec fn well_formed(&self) -> bool {
        self.total_requests == self.successful_requests + self.failed_requests
    }

    /// Fresh counters, all zero.
    pub fn new() -> (m: Metrics)
        ensures
            m.total_requests == 0,
            m.successful_requests == 0,
            m.failed_requests == 0,
            m.well_formed(),
    {
        Metrics { total_requests: 0, successful_requests: 0, failed_requests: 0 }
    }

    /// Counts one successful request.
    pub fn record_success(&mut self)
        requires
            old(self).well_formed(),
            old(self).total_requests < u64::MAX,
        ensures
            final(self).total_requests == old(self).total_requests + 1,
            final(self).successful_requests == old(self).successful_requests + 1,
            final(self).failed_requests == old(self).failed_requests,
            final(self).well_formed(),
    {
        self.total_requests = self.total_requests + 1;
        self.successful_requests = self.successful_requests + 1;
    }

    /// Counts one failed request.
    pub fn record_failure(&mut self)
        requires
            old(self).well_formed(),
            old(self).total_requests < u64::MAX,
        ensures
            final(self).total_requests == old(self).total_requests + 1,
            final(self).successful_requests == old(self).successful_requests,
            final(self).failed_requests == old(self).failed_requests + 1,
            final(self).well_formed(),
    {
        self.total_requests = self.total_requests + 1;
        self.failed_requests = self.failed_requests + 1;
    }

    /// Renders the counters in the Prometheus exposition format.
    pub fn export_prometheus(&self) -> (r: String)
        ensures
            r@ == prometheus_rep(
                self.total_requests as int,
                self.successful_requests as int,
                self.failed_requests as int,
            ),
    {
        let mut out = String::from_str(
            "# HELP feathergate_requests_total Total number of requests\n# TYPE feathergate_requests_total counter\nfeathergate_requests_total ",
        );
        let t = u64_to_dec(self.total_requests);
        out.append(t.as_str());
        out.append(
            "\n# HELP feathergate_requests_successful Successful requests\n# TYPE feathergate_requests_successful counter\nfeathergate_requests_successful ",
        );
        let s = u64_to_dec(self.successful_requests);
        out.append(s.as_str());
        out.append(
            "\n# HELP feathergate_requests_failed Failed requests\n# TYPE feathergate_requests_failed counter\nfeathergate_requests_failed ",
        );
        let f = u64_to_dec(self.failed_requests);
        out.append(f.as_str());
        out.append("\n");
        out
    }
}

} // verus!
