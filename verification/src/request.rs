//! Options of a single request.

use std::time::Duration;
use vstd::prelude::*;

verus! {

/// Options of one request. With none set, the node's defaults apply.
#[derive(Debug, Clone)]
pub struct RequestOptions {
    /// How long to wait for the response; `None` for the node's default.
    pub timeout: Option<Duration>,
    /// A label that the caller finds again in logs and traces.
    pub correlation: Option<String>,
}

impl Default for RequestOptions {
    fn default() -> (options: Self)
        ensures
            options == (RequestOptions { timeout: None, correlation: None }),
    {
        RequestOptions { timeout: None, correlation: None }
    }
}

impl RequestOptions {
    /// No option set.
    pub fn new() -> (options: Self)
        ensures
            options == (RequestOptions { timeout: None, correlation: None }),
    {
        Self::default()
    }

    /// Sets how long to wait for the response.
    pub fn with_timeout(self, timeout: Duration) -> (options: Self)
        ensures
            options == (RequestOptions { timeout: Some(timeout), ..self }),
    {
        RequestOptions { timeout: Some(timeout), ..self }
    }

    /// Sets the label for logs and traces.
    pub fn with_correlation<T: Into<String>>(self, correlation: T) -> (options: Self)
        ensures
            options.timeout == self.timeout,
            options.correlation is Some,
            call_ensures(T::into, (correlation,), options.correlation->0),
    {
        RequestOptions { correlation: Some(correlation.into()), ..self }
    }
}

} // verus!
