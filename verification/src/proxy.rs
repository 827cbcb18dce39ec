//! The proxy path around one upstream call: retries over channels, the
//! upstream URL and headers, and the usage entry recorded per request.
use vstd::prelude::*;
use crate::endpoint::{path_of, EndpointConfig, EndpointType};
use crate::errors::{is_server_error, is_success, server_error_status, success_status, ProxyError};
use crate::sse::{body_usage, extract_usage, response_usage, usage_counts, StreamUsage, TokenCounts};
use vstd::string::StringSliceAdditionalSpecFns;
use crate::routing::id_listed;

verus! {

/// How many channels a request tries at most.
pub const MAX_RETRIES: usize = 3;

/// What to do after a failed attempt.
#[derive(Debug)]
pub enum RetryStep {
    /// Try another channel; count a failure against the one that failed,
    /// as a server error when `server_error` is set.
    Retry { server_error: bool },
    /// Stop and report this error.
    GiveUp(ProxyError),
}

/// Retry bookkeeping of one request: attempts made, channels to skip, and
/// the last upstream error.
#[derive(Debug)]
pub struct RetryState {
    pub attempts: usize,
    pub exclude_ids: Vec<String>,
    pub last_error: Option<ProxyError>,
}

impl RetryState {
    /// The state is consistent: at most three attempts, one skipped channel
    /// per failed attempt that may be retried.
    pub open spec fn wf(&self) -> bool {
        self.exclude_ids@.len() <= self.attempts <= MAX_RETRIES
    }

    /// No attempt made yet.
    pub fn new() -> (r: RetryState)
        ensures
            r.wf(),
            r.attempts == 0,
            r.exclude_ids@.len() == 0,
            r.last_error is None,
    {
        RetryState { attempts: 0, exclude_ids: Vec::new(), last_error: None }
    }

    /// Whether another attempt may be made.
    pub fn may_attempt(&self) -> (r: bool)
        ensures
            r == (self.attempts < MAX_RETRIES),
    {
        self.attempts < MAX_RETRIES
    }

    /// Takes note of a failed attempt on `channel_id`: an upstream error
    /// excludes the channel and is retried; any other error ends the request.
    pub fn record_failure(&mut self, channel_id: String, error: ProxyError) -> (r: RetryStep)
        requires
            old(self).wf(),
            old(self).attempts < MAX_RETRIES,
        ensures
            final(self).wf(),
            final(self).attempts == old(self).attempts + 1,
            match error {
                ProxyError::UpstreamError { status, .. } => r matches RetryStep::Retry { server_error }
                    && server_error == server_error_status(status)
                    && final(self).exclude_ids@ == old(self).exclude_ids@.push(channel_id)
                    && final(self).last_error == Some(error),
                _ => r matches RetryStep::GiveUp(e) && e == error
                    && final(self).exclude_ids@ == old(self).exclude_ids@
                    && final(self).last_error == old(self).last_error,
            },
    {
        self.attempts = self.attempts + 1;
        match error {
            ProxyError::UpstreamError { status, body } => {
                let server_error = is_server_error(status);
                self.exclude_ids.push(channel_id);
                self.last_error = Some(ProxyError::UpstreamError { status, body });
                RetryStep::Retry { server_error }
            },
            other => RetryStep::GiveUp(other),
        }
    }

    /// The error reported when every attempt failed: the last upstream error,
    /// or that no channel is available.
    pub fn final_error(self) -> (r: ProxyError)
        ensures
            match self.last_error {
                Some(e) => r == e,
                None => r matches ProxyError::NoAvailableChannel(m) && m@ == "所有渠道都不可用"@,
            },
    {
        match self.last_error {
            Some(e) => e,
            None => ProxyError::NoAvailableChannel(String::from_str("所有渠道都不可用")),
        }
    }
}

/// A request makes at most three attempts and skips at most three channels:
/// in a consistent retry state the counts never pass three.
pub proof fn lemma_retry_bounded(s: RetryState)
    requires
        s.wf(),
    ensures
        s.attempts <= MAX_RETRIES,
        s.exclude_ids@.len() <= MAX_RETRIES,
{
}

/// A retry never goes back to a channel that failed: after a failure on
/// `failed` is recorded, a channel chosen outside the exclusion list (as
/// `ChannelSelector::step` guarantees for a selection started with that
/// list) is neither the channel that just failed nor any that failed before.
pub proof fn lemma_retry_avoids_failed(before: RetryState, after: RetryState, failed: String, chosen: Seq<char>)
    requires
        after.exclude_ids@ == before.exclude_ids@.push(failed),
        !id_listed(after.exclude_ids@, chosen),
    ensures
        chosen != failed@,
        !id_listed(before.exclude_ids@, chosen),
{
    let n = before.exclude_ids@.len() as int;
    assert(after.exclude_ids@[n] == failed);
    if id_listed(before.exclude_ids@, chosen) {
        let j = choose|j: int| 0 <= j < before.exclude_ids@.len() && #[trigger] before.exclude_ids@[j]@ == chosen;
        assert(after.exclude_ids@[j] == before.exclude_ids@[j]);
    }
}

/// Whether a request must be converted between protocols.
pub open spec fn conversion_needed(client: EndpointType, upstream: EndpointType) -> bool {
    client != upstream
}

/// Whether a request must be converted between protocols.
pub fn needs_conversion(client: &EndpointType, upstream: &EndpointType) -> (r: bool)
    ensures
        r == conversion_needed(*client, *upstream),
{
    *client != *upstream
}

/// The URL of the upstream call: the endpoint's base URL and its type's path.
pub fn upstream_url(endpoint: &EndpointConfig) -> (r: String)
    ensures
        r@ == endpoint.base_url@ + path_of(endpoint.endpoint_type),
{
    let mut url = endpoint.base_url.clone();
    url.append(endpoint.endpoint_type.path());
    url
}

/// Header name and value.
pub type Header = (String, String);

/// Authentication headers of an unconverted request: Anthropic takes the key
/// as `x-api-key` with a fixed `anthropic-version`; the others take a bearer
/// token.
pub open spec fn direct_auth_spec(client: EndpointType, api_key: Seq<char>) -> Seq<(Seq<char>, Seq<char>)> {
    match client {
        EndpointType::Anthropic => seq![("x-api-key"@, api_key), ("anthropic-version"@, "2023-06-01"@)],
        _ => seq![("Authorization"@, "Bearer "@ + api_key)],
    }
}

/// Authentication headers of an unconverted request.
pub fn direct_auth_headers(client: &EndpointType, api_key: &str) -> (r: Vec<Header>)
    ensures
        r@.len() == direct_auth_spec(*client, api_key@).len(),
        forall|i: int| 0 <= i < r@.len() ==> (#[trigger] r@[i]).0@ == direct_auth_spec(*client, api_key@)[i].0
            && r@[i].1@ == direct_auth_spec(*client, api_key@)[i].1,
{
    let mut headers: Vec<Header> = Vec::new();
    match client {
        EndpointType::Anthropic => {
            headers.push((String::from_str("x-api-key"), String::from_str(api_key)));
            headers.push((String::from_str("anthropic-version"), String::from_str("2023-06-01")));
        },
        _ => {
            let mut value = String::from_str("Bearer ");
            value.append(api_key);
            headers.push((String::from_str("Authorization"), value));
        },
    }
    headers
}

/// What is recorded about one proxied call.
#[derive(Debug, Clone)]
pub struct UsageEntry {
    pub channel_id: String,
    pub requested_model: String,
    pub actual_model: String,
    pub input_tokens: i32,
    pub output_tokens: i32,
    pub cache_read_tokens: i32,
    pub cache_creation_tokens: i32,
    pub latency_ms: i32,
    pub status_code: i32,
    pub error_message: Option<String>,
}

/// Token counts recorded for a response: its usage when the status is
/// 2xx or 3xx, none otherwise.
pub open spec fn recorded_counts(status: u16, body: Seq<u8>, upstream: EndpointType) -> TokenCounts {
    if 200 <= status < 400 {
        usage_counts(body_usage(body), upstream)
    } else {
        (0, 0, 0, 0)
    }
}

/// The entry recorded for a non-streamed call: token counts from the
/// response's usage (successful and redirect statuses only), the latency and
/// status, and the response text as error message when the status is not 2xx.
pub fn usage_entry(
    channel_id: &str,
    requested_model: &str,
    actual_model: &str,
    upstream: &EndpointType,
    response_body: &str,
    latency_ms: i64,
    status: u16,
) -> (r: UsageEntry)
    ensures
        r.channel_id@ == channel_id@,
        r.requested_model@ == requested_model@,
        r.actual_model@ == actual_model@,
        (r.input_tokens, r.output_tokens, r.cache_read_tokens, r.cache_creation_tokens)
            == recorded_counts(status, response_body.spec_bytes(), *upstream),
        r.latency_ms == latency_ms as i32,
        r.status_code == status as i32,
        success_status(status) ==> r.error_message is None,
        !success_status(status) ==> (r.error_message matches Some(m) && m@ == response_body@),
{
    let counts: TokenCounts = if 200 <= status && status < 400 {
        let u = response_usage(response_body.as_bytes());
        extract_usage(&u, upstream)
    } else {
        (0, 0, 0, 0)
    };
    let error_message = if is_success(status) {
        None
    } else {
        Some(String::from_str(response_body))
    };
    UsageEntry {
        channel_id: String::from_str(channel_id),
        requested_model: String::from_str(requested_model),
        actual_model: String::from_str(actual_model),
        input_tokens: counts.0,
        output_tokens: counts.1,
        cache_read_tokens: counts.2,
        cache_creation_tokens: counts.3,
        latency_ms: latency_ms as i32,
        status_code: status as i32,
        error_message,
    }
}

/// The entry recorded when a stream ends: the counts of the last usage the
/// stream reported (zeros when none), the latency, status 200 and no error.
pub fn stream_usage_entry(
    channel_id: &str,
    requested_model: &str,
    actual_model: &str,
    upstream: &EndpointType,
    usage: &StreamUsage,
    latency_ms: i64,
) -> (r: UsageEntry)
    ensures
        r.channel_id@ == channel_id@,
        r.requested_model@ == requested_model@,
        r.actual_model@ == actual_model@,
        (r.input_tokens, r.output_tokens, r.cache_read_tokens, r.cache_creation_tokens) == match usage.last {
            Some(u) => usage_counts(u, *upstream),
            None => (0i32, 0i32, 0i32, 0i32),
        },
        r.latency_ms == latency_ms as i32,
        r.status_code == 200,
        r.error_message is None,
{
    let counts = usage.totals(upstream);
    UsageEntry {
        channel_id: String::from_str(channel_id),
        requested_model: String::from_str(requested_model),
        actual_model: String::from_str(actual_model),
        input_tokens: counts.0,
        output_tokens: counts.1,
        cache_read_tokens: counts.2,
        cache_creation_tokens: counts.3,
        latency_ms: latency_ms as i32,
        status_code: 200,
        error_message: None,
    }
}

} // verus!
