//! The admin "test a model" call: the request sent straight to a channel's
//! upstream for a protocol, and the verdict drawn from what came back.
use vstd::prelude::*;
use vstd::string::*;
use crate::admin::{ApiError, bad_request};
use crate::endpoint::{EndpointConfig, EndpointType, endpoint_named, parse_protocol, path_of};
use crate::proxy::{Header, direct_auth_spec, direct_auth_headers};
use crate::errors::{status_line, status_text, success_status, is_success};
use crate::text::{decimal, decimal_spec};
use crate::json::{JsonStep, json_text_at, json_len_at, json_has_key, read_json_text, read_json_len, read_json_has_key};

verus! {

/// Prompt sent by every model test.
pub const TEST_PROMPT: &'static str = "Hello! Please respond with a brief greeting in one sentence.";

/// Request to test a model of a channel over a protocol.
#[derive(Debug, Clone)]
pub struct TestModelRequest {
    pub channel_id: String,
    pub model: String,
    pub test_protocol: String,
    pub user_agent: Option<String>,
}

/// Outcome of a model test.
#[derive(Debug, Clone)]
pub struct TestModelResponse {
    pub success: bool,
    pub message: String,
    pub latency_ms: u64,
    pub input_prompt: String,
    pub output_content: Option<String>,
}

/// A header configured on a channel, sent with its upstream calls.
#[derive(Debug, Clone)]
pub struct CustomHeader {
    pub key: String,
    pub value: String,
}

/// Lower-case hexadecimal digit of `n` (below 16).
pub open spec fn hex_digit(n: u32) -> char {
    if n < 10 { ((48 + n) as u8) as char } else { ((87 + n) as u8) as char }
}

/// How a JSON string literal writes the character `c`: a quote and a
/// backslash behind a backslash, the control characters that have a short
/// escape with it, the other control characters as `\u00` and two
/// hexadecimal digits, and every other character as itself.
pub open spec fn json_escape(c: char) -> Seq<char> {
    if c == '"' {
        seq!['\\', '"']
    } else if c == '\\' {
        seq!['\\', '\\']
    } else if c == '\x08' {
        seq!['\\', 'b']
    } else if c == '\t' {
        seq!['\\', 't']
    } else if c == '\n' {
        seq!['\\', 'n']
    } else if c == '\x0c' {
        seq!['\\', 'f']
    } else if c == '\r' {
        seq!['\\', 'r']
    } else if (c as u32) < 32 {
        seq!['\\', 'u', '0', '0', hex_digit((c as u32) / 16), hex_digit((c as u32) % 16)]
    } else {
        seq![c]
    }
}

/// The escaped characters of `s`, in order.
pub open spec fn json_escaped(s: Seq<char>) -> Seq<char>
    decreases s.len(),
{
    if s.len() == 0 {
        Seq::empty()
    } else {
        json_escape(s[0]) + json_escaped(s.drop_first())
    }
}

/// `s` as a JSON string literal, as `serde_json::to_string` writes it.
pub open spec fn json_string(s: Seq<char>) -> Seq<char> {
    seq!['"'] + json_escaped(s) + seq!['"']
}

/// Writes `s` as a JSON string literal with `serde_json::to_string`. Writing a
/// `str` into memory cannot fail in serde_json's source (its writer is a
/// `Vec<u8>`). Its escape table escapes exactly the quote, the backslash and
/// the bytes below 0x20 (`\b`, `\t`, `\n`, `\f`, `\r`, else `\u00` with two
/// lower-case hexadecimal digits), so every other character, non-ASCII ones
/// included, is written as it is. Claimed: the text is that literal.
#[verifier::external_body]
fn quote_json(s: &str) -> (r: String)
    ensures
        r@ == json_string(s@),
{
    serde_json::to_string(s).unwrap_or_default()
}

/// Body of a test request for each protocol, with `quoted` the model's JSON
/// literal: serde_json writes object keys in sorted order.
pub open spec fn test_body_spec(t: EndpointType, quoted: Seq<char>) -> Option<Seq<char>> {
    match t {
        EndpointType::OpenAiChat => Some(
            "{\"max_tokens\":100,\"messages\":[{\"content\":\"Hello! Please respond with a brief greeting in one sentence.\",\"role\":\"user\"}],\"model\":"@
                + quoted + ",\"stream\":false}"@),
        EndpointType::OpenAiResponse => Some(
            "{\"input\":\"Hello! Please respond with a brief greeting in one sentence.\",\"max_output_tokens\":100,\"model\":"@
                + quoted + "}"@),
        EndpointType::Anthropic => Some(
            "{\"max_tokens\":100,\"messages\":[{\"content\":\"Hello! Please respond with a brief greeting in one sentence.\",\"role\":\"user\"}],\"model\":"@
                + quoted + "}"@),
        EndpointType::OpenAiEmbedding => Some(
            "{\"input\":\"Hello! Please respond with a brief greeting in one sentence.\",\"model\":"@
                + quoted + "}"@),
        EndpointType::OpenAiImages => Some(
            "{\"model\":"@ + quoted
                + ",\"n\":1,\"prompt\":\"Hello! Please respond with a brief greeting in one sentence.\",\"size\":\"256x256\"}"@),
        EndpointType::Gemini => None,
    }
}

fn wrap(pre: &str, mid: &str, post: &str) -> (r: String)
    ensures
        r@ == pre@ + mid@ + post@,
{
    let mut s = String::from_str(pre);
    s.append(mid);
    s.append(post);
    s
}

/// The body and upstream path of a test over protocol `t` (`None` for a
/// protocol that cannot be tested).
pub fn get_test_config(t: &EndpointType, model: &str) -> (r: Option<(String, &'static str)>)
    ensures
        match test_body_spec(*t, json_string(model@)) {
            Some(b) => r matches Some(p) && p.0@ == b && p.1@ == path_of(*t),
            None => r is None,
        },
{
    let q = quote_json(model);
    match t {
        EndpointType::OpenAiChat => Some((wrap(
            "{\"max_tokens\":100,\"messages\":[{\"content\":\"Hello! Please respond with a brief greeting in one sentence.\",\"role\":\"user\"}],\"model\":",
            q.as_str(), ",\"stream\":false}"), t.path())),
        EndpointType::OpenAiResponse => Some((wrap(
            "{\"input\":\"Hello! Please respond with a brief greeting in one sentence.\",\"max_output_tokens\":100,\"model\":",
            q.as_str(), "}"), t.path())),
        EndpointType::Anthropic => Some((wrap(
            "{\"max_tokens\":100,\"messages\":[{\"content\":\"Hello! Please respond with a brief greeting in one sentence.\",\"role\":\"user\"}],\"model\":",
            q.as_str(), "}"), t.path())),
        EndpointType::OpenAiEmbedding => Some((wrap(
            "{\"input\":\"Hello! Please respond with a brief greeting in one sentence.\",\"model\":",
            q.as_str(), "}"), t.path())),
        EndpointType::OpenAiImages => Some((wrap("{\"model\":", q.as_str(),
            ",\"n\":1,\"prompt\":\"Hello! Please respond with a brief greeting in one sentence.\",\"size\":\"256x256\"}"),
            t.path())),
        EndpointType::Gemini => None,
    }
}

/// A request refused with status 400 and `message`.
pub open spec fn refused_with<T>(r: Result<T, ApiError>, message: Seq<char>) -> bool {
    r matches Err(e) && e.status == 400 && e.message@ == message
}

/// A test call resolved from the requested protocol: its protocol, body and
/// upstream path.
#[derive(Debug, Clone)]
pub struct TestCall {
    pub endpoint_type: EndpointType,
    pub body: String,
    pub path: &'static str,
}

/// Resolves the requested protocol; one that is unknown, or cannot be tested,
/// is refused with `不支持的测试协议: ` and its name.
pub fn resolve_test_call(req: &TestModelRequest) -> (r: Result<TestCall, ApiError>)
    ensures
        match endpoint_named(req.test_protocol@) {
            Some(t) => match test_body_spec(t, json_string(req.model@)) {
                Some(b) => r matches Ok(c) && c.endpoint_type == t && c.body@ == b && c.path@ == path_of(t),
                None => refused_with(r, "不支持的测试协议: "@ + req.test_protocol@),
            },
            None => refused_with(r, "不支持的测试协议: "@ + req.test_protocol@),
        },
{
    let mut unsupported = String::from_str("不支持的测试协议: ");
    unsupported.append(req.test_protocol.as_str());
    match parse_protocol(req.test_protocol.as_str()) {
        Some(t) => match get_test_config(&t, req.model.as_str()) {
            Some((body, path)) => Ok(TestCall { endpoint_type: t, body, path }),
            None => Err(bad_request(unsupported.as_str())),
        },
        None => Err(bad_request(unsupported.as_str())),
    }
}

/// The refusal of a test on a channel that does not exist or is disabled.
pub fn channel_unavailable() -> (r: ApiError)
    ensures
        r.status == 400,
        r.message@ == "渠道不存在或已禁用"@,
{
    bad_request("渠道不存在或已禁用")
}

/// Whether `c` may stand in a header name (an HTTP token character; upper
/// case letters are taken as lower case).
pub open spec fn header_name_char(c: char) -> bool {
    ('a' <= c && c <= 'z') || ('A' <= c && c <= 'Z') || ('0' <= c && c <= '9') || c == '!' || c == '#'
        || c == '$' || c == '%' || c == '&' || c == '\'' || c == '*' || c == '+' || c == '-' || c == '.'
        || c == '^' || c == '_' || c == '`' || c == '|' || c == '~'
}

/// Whether `name` is a valid HTTP header name: one to 65535 token characters.
pub open spec fn header_name_valid(name: Seq<char>) -> bool {
    &&& 1 <= name.len() <= 65535
    &&& forall|i: int| 0 <= i < name.len() ==> header_name_char(#[trigger] name[i])
}

/// Whether `c` may stand in a header value: a tab, or any character from
/// the space on except DEL (so every non-ASCII character, whose UTF-8 bytes
/// all lie at or above 0x80).
pub open spec fn header_value_char(c: char) -> bool {
    c == '\t' || (' ' <= c && c != '\x7f')
}

/// Whether `value` is a valid HTTP header value: every character may stand in one.
pub open spec fn header_value_valid(value: Seq<char>) -> bool {
    forall|i: int| 0 <= i < value.len() ==> header_value_char(#[trigger] value[i])
}

/// Parses `name` with `reqwest::header::HeaderName::from_bytes`, which
/// accepts one to 65535 bytes that its table maps to token characters (and
/// refuses every byte of a non-ASCII character). Claimed: it accepts
/// exactly the valid names.
#[verifier::external_body]
fn header_name_ok(name: &str) -> (r: bool)
    ensures
        r == header_name_valid(name@),
{
    reqwest::header::HeaderName::from_bytes(name.as_bytes()).is_ok()
}

/// Parses `value` as a `reqwest::header::HeaderValue`, which refuses a byte
/// below 0x20 other than a tab, and the byte 0x7f. Claimed: it accepts
/// exactly the valid values.
#[verifier::external_body]
fn header_value_ok(value: &str) -> (r: bool)
    ensures
        r == header_value_valid(value@),
{
    value.parse::<reqwest::header::HeaderValue>().is_ok()
}

/// Header names and values of a list of headers.
pub open spec fn header_views(v: Seq<Header>) -> Seq<(Seq<char>, Seq<char>)> {
    v.map_values(|h: Header| (h.0@, h.1@))
}

/// The channel's headers that are valid, in order.
pub open spec fn custom_spec(hs: Seq<CustomHeader>) -> Seq<(Seq<char>, Seq<char>)>
    decreases hs.len(),
{
    if hs.len() == 0 {
        Seq::empty()
    } else {
        let rest = custom_spec(hs.drop_last());
        let h = hs.last();
        if header_name_valid(h.key@) && header_value_valid(h.value@) {
            rest.push((h.key@, h.value@))
        } else {
            rest
        }
    }
}

/// Headers of a test call: JSON content, the protocol's authentication, the
/// channel's valid headers, and a non-empty user agent.
pub open spec fn test_headers_spec(
    t: EndpointType,
    key: Seq<char>,
    custom: Seq<CustomHeader>,
    user_agent: Option<Seq<char>>,
) -> Seq<(Seq<char>, Seq<char>)> {
    let base = seq![("Content-Type"@, "application/json"@)] + direct_auth_spec(t, key) + custom_spec(custom);
    match user_agent {
        Some(u) => if u.len() > 0 { base.push(("User-Agent"@, u)) } else { base },
        None => base,
    }
}

/// `s` without its trailing `/` characters.
pub open spec fn trim_slashes(s: Seq<char>) -> Seq<char>
    decreases s.len(),
{
    if s.len() > 0 && s.last() == '/' {
        trim_slashes(s.drop_last())
    } else {
        s
    }
}

/// Index of the endpoint a test uses: the first of the tested protocol, else
/// the first one.
pub open spec fn test_endpoint_spec(endpoints: Seq<EndpointConfig>, t: EndpointType, i: int) -> Option<int>
    decreases endpoints.len() - i,
{
    if i < 0 || i >= endpoints.len() {
        if endpoints.len() > 0 { Some(0) } else { None }
    } else if endpoints[i].endpoint_type == t {
        Some(i)
    } else {
        test_endpoint_spec(endpoints, t, i + 1)
    }
}

fn trim_end_slashes(s: &str) -> (r: &str)
    ensures
        r@ == trim_slashes(s@),
{
    let n = s.unicode_len();
    let mut i: usize = n;
    assert(s@.subrange(0, n as int) =~= s@);
    while i > 0 && s.get_char(i - 1) == '/'
        invariant
            n == s@.len(),
            0 <= i <= n,
            trim_slashes(s@) == trim_slashes(s@.subrange(0, i as int)),
        decreases i,
    {
        assert(s@.subrange(0, i as int).drop_last() =~= s@.subrange(0, i - 1));
        i = i - 1;
    }
    s.substring_char(0, i)
}

/// The call a model test makes.
#[derive(Debug, Clone)]
pub struct TestPlan {
    pub url: String,
    pub headers: Vec<Header>,
    pub body: String,
}

/// What a planned test call holds: the URL of the chosen endpoint, the
/// call's body, and the headers of the first key.
pub open spec fn planned(
    p: TestPlan,
    call: TestCall,
    api_keys: Seq<String>,
    endpoints: Seq<EndpointConfig>,
    custom: Seq<CustomHeader>,
    user_agent: Option<String>,
) -> bool {
    let e = endpoints[test_endpoint_spec(endpoints, call.endpoint_type, 0)->0];
    &&& p.url@ == trim_slashes(e.base_url@) + path_of(call.endpoint_type)
    &&& p.body@ == call.body@
    &&& header_views(p.headers@) == test_headers_spec(call.endpoint_type, api_keys[0]@, custom,
        match user_agent { Some(u) => Some(u@), None => None })
}

/// Plans the upstream call of a model test on a channel: the endpoint is the
/// first of the tested protocol, else the first one (400 `渠道没有可用端点`
/// when there is none); the key is the first one (400 `渠道没有配置 API Key`
/// when there is none); the URL is the endpoint's base URL without trailing
/// `/` followed by the protocol's path.
pub fn plan_test_request(
    call: &TestCall,
    api_keys: &Vec<String>,
    endpoints: &Vec<EndpointConfig>,
    custom_headers: &Vec<CustomHeader>,
    user_agent: &Option<String>,
) -> (r: Result<TestPlan, ApiError>)
    requires
        call.path@ == path_of(call.endpoint_type),
    ensures
        endpoints@.len() == 0 ==> refused_with(r, "渠道没有可用端点"@),
        endpoints@.len() > 0 && api_keys@.len() == 0 ==> refused_with(r, "渠道没有配置 API Key"@),
        endpoints@.len() > 0 && api_keys@.len() > 0 ==> (r matches Ok(p)
            && planned(p, *call, api_keys@, endpoints@, custom_headers@, *user_agent)),
{
    let n = endpoints.len();
    let mut i: usize = 0;
    while i < n
        invariant
            n == endpoints@.len(),
            0 <= i <= n,
            test_endpoint_spec(endpoints@, call.endpoint_type, 0) == test_endpoint_spec(endpoints@, call.endpoint_type, i as int),
        ensures
            0 <= i <= n,
            test_endpoint_spec(endpoints@, call.endpoint_type, 0) == test_endpoint_spec(endpoints@, call.endpoint_type, i as int),
            i < n ==> endpoints@[i as int].endpoint_type == call.endpoint_type,
        decreases n - i,
    {
        if endpoints[i].endpoint_type == call.endpoint_type {
            break;
        }
        i = i + 1;
    }
    if n == 0 {
        return Err(bad_request("渠道没有可用端点"));
    }
    let chosen: usize = if i < n { i } else { 0 };
    assert(test_endpoint_spec(endpoints@, call.endpoint_type, 0) == Some(chosen as int));
    if api_keys.len() == 0 {
        return Err(bad_request("渠道没有配置 API Key"));
    }
    let key = api_keys[0].as_str();
    let mut url = String::from_str(trim_end_slashes(endpoints[chosen].base_url.as_str()));
    url.append(call.path);

    let mut headers: Vec<Header> = Vec::new();
    headers.push((String::from_str("Content-Type"), String::from_str("application/json")));
    let auth = direct_auth_headers(&call.endpoint_type, key);
    let ghost base = seq![("Content-Type"@, "application/json"@)];
    assert(header_views(headers@) =~= base);
    let mut k: usize = 0;
    while k < auth.len()
        invariant
            0 <= k <= auth@.len(),
            auth@.len() == direct_auth_spec(call.endpoint_type, key@).len(),
            forall|j: int| 0 <= j < auth@.len() ==> (#[trigger] auth@[j]).0@ == direct_auth_spec(call.endpoint_type, key@)[j].0
                && auth@[j].1@ == direct_auth_spec(call.endpoint_type, key@)[j].1,
            header_views(headers@) =~= base + direct_auth_spec(call.endpoint_type, key@).subrange(0, k as int),
        decreases auth@.len() - k,
    {
        let h = (auth[k].0.clone(), auth[k].1.clone());
        let ghost before = headers@;
        headers.push(h);
        assert(header_views(headers@) =~= header_views(before).push((auth@[k as int].0@, auth@[k as int].1@)));
        k = k + 1;
    }
    let ghost auth_part = base + direct_auth_spec(call.endpoint_type, key@);
    assert(direct_auth_spec(call.endpoint_type, key@).subrange(0, auth@.len() as int) =~= direct_auth_spec(call.endpoint_type, key@));
    let mut c: usize = 0;
    while c < custom_headers.len()
        invariant
            0 <= c <= custom_headers@.len(),
            header_views(headers@) =~= auth_part + custom_spec(custom_headers@.subrange(0, c as int)),
        decreases custom_headers@.len() - c,
    {
        let h = &custom_headers[c];
        assert(custom_headers@.subrange(0, c + 1).drop_last() =~= custom_headers@.subrange(0, c as int));
        if header_name_ok(h.key.as_str()) && header_value_ok(h.value.as_str()) {
            let ghost before = headers@;
            headers.push((h.key.clone(), h.value.clone()));
            assert(header_views(headers@) =~= header_views(before).push((h.key@, h.value@)));
        }
        c = c + 1;
    }
    assert(custom_headers@.subrange(0, custom_headers@.len() as int) =~= custom_headers@);
    match user_agent {
        Some(ua) => {
            if ua.as_str().unicode_len() > 0 {
                let ghost before = headers@;
                headers.push((String::from_str("User-Agent"), ua.clone()));
                assert(header_views(headers@) =~= header_views(before).push(("User-Agent"@, ua@)));
            }
        },
        None => {},
    }
    Ok(TestPlan { url, headers, body: call.body.clone() })
}

/// Where a chat completion's text is.
pub open spec fn chat_text_path() -> Seq<JsonStep> {
    seq![JsonStep::Key("choices"), JsonStep::Index(0), JsonStep::Key("message"), JsonStep::Key("content")]
}

/// Where a response's text is.
pub open spec fn response_text_path() -> Seq<JsonStep> {
    seq![JsonStep::Key("output"), JsonStep::Index(0), JsonStep::Key("content"), JsonStep::Index(0), JsonStep::Key("text")]
}

/// Where an Anthropic message's text is.
pub open spec fn anthropic_text_path() -> Seq<JsonStep> {
    seq![JsonStep::Key("content"), JsonStep::Index(0), JsonStep::Key("text")]
}

/// Where an embedding's or an image generation's results are.
pub open spec fn data_path() -> Seq<JsonStep> {
    seq![JsonStep::Key("data")]
}

/// Where an error's message is.
pub open spec fn error_message_path() -> Seq<JsonStep> {
    seq![JsonStep::Key("error"), JsonStep::Key("message")]
}

/// A text found, or a fallback.
pub open spec fn text_or(o: Option<Seq<char>>, fallback: Seq<char>) -> Seq<char> {
    match o {
        Some(s) => s,
        None => fallback,
    }
}

/// A count found, or zero.
pub open spec fn count_or_zero(o: Option<usize>) -> nat {
    match o {
        Some(n) => n as nat,
        None => 0,
    }
}

/// What a successful test reports as the model's output, per protocol.
pub open spec fn content_spec(body: Seq<char>, t: EndpointType) -> Seq<char> {
    match t {
        EndpointType::OpenAiChat => text_or(json_text_at(body, chat_text_path()), "(无内容)"@),
        EndpointType::OpenAiResponse => text_or(json_text_at(body, response_text_path()), "(无内容)"@),
        EndpointType::Anthropic => text_or(json_text_at(body, anthropic_text_path()), "(无内容)"@),
        EndpointType::OpenAiEmbedding => "Embedding 返回 "@ + decimal_spec(count_or_zero(json_len_at(body, data_path())))
            + " 条向量数据"@,
        EndpointType::OpenAiImages => "图片生成成功，共 "@ + decimal_spec(count_or_zero(json_len_at(body, data_path())))
            + " 张"@,
        EndpointType::Gemini => "(未知协议)"@,
    }
}

fn text_at_or(body: &str, path: Vec<JsonStep>, fallback: &str) -> (r: String)
    ensures
        r@ == text_or(json_text_at(body@, path@), fallback@),
{
    match read_json_text(body, &path) {
        Some(s) => s,
        None => String::from_str(fallback),
    }
}

fn count_text(body: &str, pre: &str, post: &str) -> (r: String)
    ensures
        r@ == pre@ + decimal_spec(count_or_zero(json_len_at(body@, data_path()))) + post@,
{
    let path = vec![JsonStep::Key("data")];
    assert(path@ == data_path());
    let n: usize = match read_json_len(body, &path) {
        Some(n) => n,
        None => 0,
    };
    let mut s = String::from_str(pre);
    let d = decimal(n as u64);
    s.append(d.as_str());
    s.append(post);
    s
}

/// What a successful test reports as the model's output.
pub fn extract_content(body: &str, t: &EndpointType) -> (r: String)
    ensures
        r@ == content_spec(body@, *t),
{
    match t {
        EndpointType::OpenAiChat => {
            let path = vec![JsonStep::Key("choices"), JsonStep::Index(0), JsonStep::Key("message"), JsonStep::Key("content")];
            assert(path@ == chat_text_path());
            text_at_or(body, path, "(无内容)")
        },
        EndpointType::OpenAiResponse => {
            let path = vec![JsonStep::Key("output"), JsonStep::Index(0), JsonStep::Key("content"), JsonStep::Index(0), JsonStep::Key("text")];
            assert(path@ == response_text_path());
            text_at_or(body, path, "(无内容)")
        },
        EndpointType::Anthropic => {
            let path = vec![JsonStep::Key("content"), JsonStep::Index(0), JsonStep::Key("text")];
            assert(path@ == anthropic_text_path());
            text_at_or(body, path, "(无内容)")
        },
        EndpointType::OpenAiEmbedding => count_text(body, "Embedding 返回 ", " 条向量数据"),
        EndpointType::OpenAiImages => count_text(body, "图片生成成功，共 ", " 张"),
        EndpointType::Gemini => String::from_str("(未知协议)"),
    }
}

/// What came back from a test's upstream call.
#[derive(Debug, Clone)]
pub enum UpstreamReply {
    /// The call failed, with the transport error's text.
    SendFailed(String),
    /// The upstream answered with a status and a body.
    Answered { status: u16, body: String },
}

/// The verdict of a test: success, message, and the model's output.
pub open spec fn verdict_spec(reply: UpstreamReply, t: EndpointType) -> (bool, Seq<char>, Option<Seq<char>>) {
    match reply {
        UpstreamReply::SendFailed(e) => (false, "请求上游失败: "@ + e@, None),
        UpstreamReply::Answered { status, body } => if !success_status(status) {
            (false, "上游返回 HTTP "@ + status_line(status)->0 + ": "@ + body@, None)
        } else if json_has_key(body@, "error"@) {
            (false, "模型返回错误: "@ + text_or(json_text_at(body@, error_message_path()), "未知错误"@), None)
        } else {
            (true, "模型测试成功"@, Some(content_spec(body@, t)))
        },
    }
}

/// Text of an optional string.
pub open spec fn opt_text(o: Option<String>) -> Option<Seq<char>> {
    match o {
        Some(s) => Some(s@),
        None => None,
    }
}

fn joined(a: &str, b: &str) -> (r: String)
    ensures
        r@ == a@ + b@,
{
    let mut s = String::from_str(a);
    s.append(b);
    s
}

/// The report of a model test from what its upstream call gave back: a
/// failed call, a non-2xx status, or a body with an `error` is a failure;
/// otherwise the model's output is extracted for the protocol.
pub fn test_outcome(reply: &UpstreamReply, t: &EndpointType, latency_ms: u64) -> (r: TestModelResponse)
    requires
        reply matches UpstreamReply::Answered { status, .. } ==> 100 <= *status <= 999,
    ensures
        (r.success, r.message@, opt_text(r.output_content)) == verdict_spec(*reply, *t),
        r.latency_ms == latency_ms,
        r.input_prompt@ == TEST_PROMPT@,
{
    let prompt = String::from_str(TEST_PROMPT);
    match reply {
        UpstreamReply::SendFailed(e) => TestModelResponse {
            success: false,
            message: joined("请求上游失败: ", e.as_str()),
            latency_ms,
            input_prompt: prompt,
            output_content: None,
        },
        UpstreamReply::Answered { status, body } => {
            if !is_success(*status) {
                let line = match status_text(*status) {
                    Some(l) => l,
                    None => String::new(),
                };
                let mut m = joined("上游返回 HTTP ", line.as_str());
                m.append(": ");
                m.append(body.as_str());
                TestModelResponse { success: false, message: m, latency_ms, input_prompt: prompt, output_content: None }
            } else if read_json_has_key(body.as_str(), "error") {
                let path = vec![JsonStep::Key("error"), JsonStep::Key("message")];
                assert(path@ == error_message_path());
                let detail = text_at_or(body.as_str(), path, "未知错误");
                TestModelResponse {
                    success: false,
                    message: joined("模型返回错误: ", detail.as_str()),
                    latency_ms,
                    input_prompt: prompt,
                    output_content: None,
                }
            } else {
                TestModelResponse {
                    success: true,
                    message: String::from_str("模型测试成功"),
                    latency_ms,
                    input_prompt: prompt,
                    output_content: Some(extract_content(body.as_str(), t)),
                }
            }
        },
    }
}

} // verus!
