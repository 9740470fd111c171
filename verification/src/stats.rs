//! The statistics counters of a Lambda backend.

use vstd::prelude::*;

verus! {

/// Varnish statistics counters for Lambda backend
///
/// The counters start again at zero where they run over.
#[derive(Clone, Copy, Debug, PartialEq, Eq, Structural)]
pub struct LambdaBackendStats {
    /// Backend requests
    pub req: u64,
    /// Request header bytes sent
    pub bereq_hdrbytes: u64,
    /// Request body bytes sent
    pub bereq_bodybytes: u64,
    /// Response header bytes received
    pub beresp_hdrbytes: u64,
    /// Response body bytes received
    pub beresp_bodybytes: u64,
    /// Failed requests
    pub fail: u64,
    /// Lambda function errors (non-2xx status or FunctionError)
    pub function_error: u64,
    /// Timeout errors
    pub timeout: u64,
    /// Throttled requests (TooManyRequestsException)
    pub throttled: u64,
    /// In-flight Lambda invocations
    pub inflight: u64,
    /// Cumulative Lambda invocation time in milliseconds
    pub invoke_time_ms: u64,
    /// Health probe bitmap (last 64 results)
    pub happy: u64,
}

impl LambdaBackendStats {
    /// All counters at zero.
    pub open spec fn zero() -> LambdaBackendStats {
        LambdaBackendStats {
            req: 0,
            bereq_hdrbytes: 0,
            bereq_bodybytes: 0,
            beresp_hdrbytes: 0,
            beresp_bodybytes: 0,
            fail: 0,
            function_error: 0,
            timeout: 0,
            throttled: 0,
            inflight: 0,
            invoke_time_ms: 0,
            happy: 0,
        }
    }

    /// Counters that have counted nothing yet.
    pub fn new() -> (stats: LambdaBackendStats)
        ensures
            stats == LambdaBackendStats::zero(),
    {
        LambdaBackendStats {
            req: 0,
            bereq_hdrbytes: 0,
            bereq_bodybytes: 0,
            beresp_hdrbytes: 0,
            beresp_bodybytes: 0,
            fail: 0,
            function_error: 0,
            timeout: 0,
            throttled: 0,
            inflight: 0,
            invoke_time_ms: 0,
            happy: 0,
        }
    }

    /// One request more.
    pub open spec fn with_request(self) -> LambdaBackendStats {
        LambdaBackendStats { req: self.req.wrapping_add(1), ..self }
    }

    /// One failed request more.
    pub open spec fn with_failure(self) -> LambdaBackendStats {
        LambdaBackendStats { fail: self.fail.wrapping_add(1), ..self }
    }

    /// One function error more.
    pub open spec fn with_function_error(self) -> LambdaBackendStats {
        LambdaBackendStats { function_error: self.function_error.wrapping_add(1), ..self }
    }

    /// One timeout more.
    pub open spec fn with_timeout(self) -> LambdaBackendStats {
        LambdaBackendStats { timeout: self.timeout.wrapping_add(1), ..self }
    }

    /// One throttled request more.
    pub open spec fn with_throttling(self) -> LambdaBackendStats {
        LambdaBackendStats { throttled: self.throttled.wrapping_add(1), ..self }
    }

    /// The gauge of health set to a probe history.
    pub open spec fn with_history(self, bitmap: u64) -> LambdaBackendStats {
        LambdaBackendStats { happy: bitmap, ..self }
    }

    /// Bytes of a request sent.
    pub open spec fn with_sent(self, header_bytes: u64, body_bytes: u64) -> LambdaBackendStats {
        LambdaBackendStats {
            bereq_hdrbytes: self.bereq_hdrbytes.wrapping_add(header_bytes),
            bereq_bodybytes: self.bereq_bodybytes.wrapping_add(body_bytes),
            ..self
        }
    }

    /// Bytes of a response received.
    pub open spec fn with_received(self, header_bytes: u64, body_bytes: u64) -> LambdaBackendStats {
        LambdaBackendStats {
            beresp_hdrbytes: self.beresp_hdrbytes.wrapping_add(header_bytes),
            beresp_bodybytes: self.beresp_bodybytes.wrapping_add(body_bytes),
            ..self
        }
    }

    /// One invocation more under way.
    pub open spec fn with_invocation_begun(self) -> LambdaBackendStats {
        LambdaBackendStats { inflight: self.inflight.wrapping_add(1), ..self }
    }

    /// One invocation less under way, and the time it took counted.
    pub open spec fn with_invocation_ended(self, elapsed_ms: u64) -> LambdaBackendStats {
        LambdaBackendStats {
            inflight: self.inflight.wrapping_sub(1),
            invoke_time_ms: self.invoke_time_ms.wrapping_add(elapsed_ms),
            ..self
        }
    }

    /// Counts the start of an invocation.
    pub fn invocation_started(&mut self)
        ensures
            *final(self) == old(self).with_invocation_begun(),
    {
        self.inflight = self.inflight.wrapping_add(1);
    }

    /// Counts the end of an invocation, and the time it took.
    pub fn invocation_finished(&mut self, elapsed_ms: u64)
        ensures
            *final(self) == old(self).with_invocation_ended(elapsed_ms),
    {
        self.inflight = self.inflight.wrapping_sub(1);
        self.invoke_time_ms = self.invoke_time_ms.wrapping_add(elapsed_ms);
    }
}

} // verus!
