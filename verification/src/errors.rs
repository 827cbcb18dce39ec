//! Errors of the proxy path and the replies that report them to clients.
use vstd::prelude::*;
use crate::text::{decimal, decimal_spec};

verus! {

/// Text of an HTTP status code as `axum::http::StatusCode` displays it
/// (`None` for a number that is not a status code).
pub uninterp spec fn status_line(code: u16) -> Option<Seq<char>>;

/// Displays the HTTP status code `code` through `axum::http::StatusCode`
/// (`from_u16`, then `to_string`). The text itself is only named; `from_u16`
/// accepts exactly the numbers from 100 to 999.
#[verifier::external_body]
pub(crate) fn status_text(code: u16) -> (r: Option<String>)
    ensures
        r is Some <==> 100 <= code <= 999,
        match r {
            Some(s) => status_line(code) == Some(s@),
            None => status_line(code) is None,
        },
{
    match axum::http::StatusCode::from_u16(code) {
        Ok(c) => Some(c.to_string()),
        Err(_) => None,
    }
}

/// Whether an HTTP status is a server error (5xx).
pub open spec fn server_error_status(status: u16) -> bool {
    500 <= status <= 599
}

/// Whether an HTTP status is a success (2xx).
pub open spec fn success_status(status: u16) -> bool {
    200 <= status <= 299
}

/// Whether an HTTP status is a server error (5xx).
pub fn is_server_error(status: u16) -> (r: bool)
    ensures
        r == server_error_status(status),
{
    500 <= status && status <= 599
}

/// Whether an HTTP status is a success (2xx).
pub fn is_success(status: u16) -> (r: bool)
    ensures
        r == success_status(status),
{
    200 <= status && status <= 299
}

/// Error of a proxied request.
#[derive(Debug, Clone)]
pub enum ProxyError {
    DatabaseError(String),
    ChannelNotFound(String),
    NoAvailableChannel(String),
    RequestError(String),
    TransformError(String),
    UpstreamError { status: u16, body: String },
    /// No queue permit came in time; the text says so.
    QueueTimeout(String),
}

/// Human-readable text of a proxy error.
pub open spec fn proxy_error_text(e: ProxyError) -> Seq<char> {
    match e {
        ProxyError::DatabaseError(m) => "数据库错误: "@ + m@,
        ProxyError::ChannelNotFound(m) => "渠道不存在: "@ + m@,
        ProxyError::NoAvailableChannel(m) => "没有可用渠道: "@ + m@,
        ProxyError::RequestError(m) => "请求失败: "@ + m@,
        ProxyError::TransformError(m) => "转换失败: "@ + m@,
        ProxyError::UpstreamError { status, .. } => "上游错误: "@ + match status_line(status) {
            Some(t) => t,
            None => decimal_spec(status as nat),
        },
        ProxyError::QueueTimeout(m) => m@,
    }
}

impl ProxyError {
    /// Human-readable text of this error.
    pub fn to_text(&self) -> (r: String)
        ensures
            r@ == proxy_error_text(*self),
    {
        match self {
            ProxyError::DatabaseError(m) => {
                let mut s = String::from_str("数据库错误: ");
                s.append(m.as_str());
                s
            },
            ProxyError::ChannelNotFound(m) => {
                let mut s = String::from_str("渠道不存在: ");
                s.append(m.as_str());
                s
            },
            ProxyError::NoAvailableChannel(m) => {
                let mut s = String::from_str("没有可用渠道: ");
                s.append(m.as_str());
                s
            },
            ProxyError::RequestError(m) => {
                let mut s = String::from_str("请求失败: ");
                s.append(m.as_str());
                s
            },
            ProxyError::TransformError(m) => {
                let mut s = String::from_str("转换失败: ");
                s.append(m.as_str());
                s
            },
            ProxyError::UpstreamError { status, .. } => {
                let mut s = String::from_str("上游错误: ");
                match status_text(*status) {
                    Some(t) => s.append(t.as_str()),
                    None => {
                        let d = decimal(*status as u64);
                        s.append(d.as_str());
                    },
                }
                s
            },
            ProxyError::QueueTimeout(m) => m.clone(),
        }
    }
}

/// Error of the request queue.
#[derive(Debug, Clone, Copy, PartialEq, Eq, Structural)]
pub enum QueueError {
    QueueFull { max: usize, timeout: u64 },
    QueueClosed,
}

/// Human-readable text of a queue error.
pub open spec fn queue_error_text(e: QueueError) -> Seq<char> {
    match e {
        QueueError::QueueFull { max, timeout } => "队列已满，最大排队数: "@ + decimal_spec(max as nat)
            + "，超时: "@ + decimal_spec(timeout as nat) + "s"@,
        QueueError::QueueClosed => "队列已关闭"@,
    }
}

impl QueueError {
    /// Human-readable text of this error.
    pub fn to_text(&self) -> (r: String)
        ensures
            r@ == queue_error_text(*self),
    {
        match self {
            QueueError::QueueFull { max, timeout } => {
                let mut s = String::from_str("队列已满，最大排队数: ");
                let m = decimal(*max as u64);
                s.append(m.as_str());
                s.append("，超时: ");
                let t = decimal(*timeout);
                s.append(t.as_str());
                s.append("s");
                s
            },
            QueueError::QueueClosed => String::from_str("队列已关闭"),
        }
    }

    /// The proxy error reported when waiting in the queue fails: a wait
    /// that timed out is a `QueueTimeout` (answered 429), a closed queue a
    /// request error; either carries `排队失败: ` and this error's text.
    pub fn into_proxy_error(&self) -> (r: ProxyError)
        ensures
            match *self {
                QueueError::QueueFull { .. } => r matches ProxyError::QueueTimeout(m)
                    && m@ == "排队失败: "@ + queue_error_text(*self),
                QueueError::QueueClosed => r matches ProxyError::RequestError(m)
                    && m@ == "排队失败: "@ + queue_error_text(*self),
            },
    {
        let mut s = String::from_str("排队失败: ");
        let t = self.to_text();
        s.append(t.as_str());
        match self {
            QueueError::QueueFull { .. } => ProxyError::QueueTimeout(s),
            QueueError::QueueClosed => ProxyError::RequestError(s),
        }
    }
}

/// Error of an outbound protocol conversion.
#[derive(Debug, Clone)]
pub enum OutboundError {
    TransformError(String),
    ParseError(String),
    UpstreamError { status: u16, message: String },
}

/// Human-readable text of an outbound conversion error.
pub open spec fn outbound_error_text(e: OutboundError) -> Seq<char> {
    match e {
        OutboundError::TransformError(m) => "转换请求失败: "@ + m@,
        OutboundError::ParseError(m) => "解析响应失败: "@ + m@,
        OutboundError::UpstreamError { status, message } => "上游错误: "@ + decimal_spec(
            status as nat,
        ) + " "@ + message@,
    }
}

impl OutboundError {
    /// Human-readable text of this error.
    pub fn to_text(&self) -> (r: String)
        ensures
            r@ == outbound_error_text(*self),
    {
        match self {
            OutboundError::TransformError(m) => {
                let mut s = String::from_str("转换请求失败: ");
                s.append(m.as_str());
                s
            },
            OutboundError::ParseError(m) => {
                let mut s = String::from_str("解析响应失败: ");
                s.append(m.as_str());
                s
            },
            OutboundError::UpstreamError { status, message } => {
                let mut s = String::from_str("上游错误: ");
                let d = decimal(*status as u64);
                s.append(d.as_str());
                s.append(" ");
                s.append(message.as_str());
                s
            },
        }
    }

    /// The proxy error a failed conversion turns into.
    pub fn into_proxy_error(&self) -> (r: ProxyError)
        ensures
            r matches ProxyError::TransformError(m) && m@ == outbound_error_text(*self),
    {
        ProxyError::TransformError(self.to_text())
    }
}

/// Shape of the error body a client expects.
#[derive(Debug, Clone, Copy, PartialEq, Eq, Structural)]
pub enum ErrorFormat {
    OpenAi,
    Anthropic,
}

/// An error reply: HTTP status, error type and message, in the client's format.
/// OpenAI shape: `{"error": {"message", "type"}}`; Anthropic shape:
/// `{"type": "error", "error": {"type", "message"}}`.
#[derive(Debug, Clone)]
pub struct ErrorReply {
    pub status: u16,
    pub format: ErrorFormat,
    pub error_type: String,
    pub message: String,
}

/// Error type named in a reply of the given format.
pub open spec fn error_type_of(format: ErrorFormat) -> Seq<char> {
    match format {
        ErrorFormat::OpenAi => "server_error"@,
        ErrorFormat::Anthropic => "api_error"@,
    }
}

/// Status of the reply that reports a proxy error.
pub open spec fn reply_status(e: ProxyError) -> u16 {
    match e {
        ProxyError::NoAvailableChannel(_) => 503,
        ProxyError::UpstreamError { status, .. } => status,
        ProxyError::QueueTimeout(_) => 429,
        _ => 502,
    }
}

/// Message of the reply that reports a proxy error.
pub open spec fn reply_message(e: ProxyError) -> Seq<char> {
    match e {
        ProxyError::NoAvailableChannel(m) => m@,
        ProxyError::UpstreamError { body, .. } => body@,
        ProxyError::QueueTimeout(m) => m@,
        _ => proxy_error_text(e),
    }
}

/// The reply that reports a proxy error to a client: an exhausted channel
/// pool is 503, an upstream failure keeps its status and body, a queue wait
/// that timed out is 429 Too Many Requests, anything else is 502 with the
/// error's text.
pub fn format_proxy_error(e: ProxyError, format: &ErrorFormat) -> (r: ErrorReply)
    ensures
        r.status == reply_status(e),
        r.format == *format,
        r.error_type@ == error_type_of(*format),
        r.message@ == reply_message(e),
{
    let error_type = match format {
        ErrorFormat::OpenAi => String::from_str("server_error"),
        ErrorFormat::Anthropic => String::from_str("api_error"),
    };
    let (status, message) = match e {
        ProxyError::NoAvailableChannel(m) => (503u16, m),
        ProxyError::UpstreamError { status, body } => (status, body),
        ProxyError::QueueTimeout(m) => (429u16, m),
        other => {
            let t = other.to_text();
            (502u16, t)
        },
    };
    ErrorReply { status, format: *format, error_type, message }
}

} // verus!
