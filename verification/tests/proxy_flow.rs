use galaxy_proxy::endpoint::{EndpointConfig, EndpointType};
use galaxy_proxy::errors::{format_proxy_error, is_server_error, is_success, ErrorFormat, OutboundError, ProxyError, QueueError};
use galaxy_proxy::proxy::{
    direct_auth_headers, needs_conversion, stream_usage_entry, upstream_url, usage_entry, RetryState, RetryStep,
    MAX_RETRIES,
};
use galaxy_proxy::routing::{ChannelInfo, GroupInfo, GroupItemInfo, ModelMaps};
use galaxy_proxy::selection::{
    requested_model, session_hash_for, ChannelSelector, SelectionAction, SelectionEvent, SelectionMode,
};
use galaxy_proxy::sse::StreamUsage;

fn chat_channel(id: &str) -> ChannelInfo {
    ChannelInfo {
        id: id.to_string(),
        name: id.to_string(),
        api_keys: vec!["sk".to_string()],
        endpoints: vec![EndpointConfig { endpoint_type: EndpointType::OpenAiChat, base_url: "https://u".to_string() }],
        model_maps: ModelMaps::parse(r#"{"m": "upstream-m"}"#),
    }
}

#[test]
fn error_replies() {
    let r = format_proxy_error(ProxyError::NoAvailableChannel("没有可用渠道".to_string()), &ErrorFormat::OpenAi);
    assert_eq!(r.status, 503);
    assert_eq!(r.error_type, "server_error");
    assert_eq!(r.message, "没有可用渠道");
    let r = format_proxy_error(ProxyError::UpstreamError { status: 429, body: "slow down".to_string() }, &ErrorFormat::Anthropic);
    assert_eq!(r.status, 429);
    assert_eq!(r.error_type, "api_error");
    assert_eq!(r.message, "slow down");
    let r = format_proxy_error(ProxyError::RequestError("timeout".to_string()), &ErrorFormat::OpenAi);
    assert_eq!(r.status, 502);
    assert_eq!(r.message, "请求失败: timeout");
}

#[test]
fn error_texts() {
    assert_eq!(ProxyError::DatabaseError("x".to_string()).to_text(), "数据库错误: x");
    assert_eq!(ProxyError::ChannelNotFound("c".to_string()).to_text(), "渠道不存在: c");
    assert_eq!(ProxyError::TransformError("t".to_string()).to_text(), "转换失败: t");
    assert_eq!(ProxyError::UpstreamError { status: 404, body: String::new() }.to_text(), "上游错误: 404 Not Found");
    assert_eq!(QueueError::QueueFull { max: 10, timeout: 30 }.to_text(), "队列已满，最大排队数: 10，超时: 30s");
    assert_eq!(QueueError::QueueClosed.to_text(), "队列已关闭");
    match QueueError::QueueClosed.into_proxy_error() {
        ProxyError::RequestError(m) => assert_eq!(m, "排队失败: 队列已关闭"),
        other => panic!("unexpected {:?}", other),
    }
    match (QueueError::QueueFull { max: 5, timeout: 3 }).into_proxy_error() {
        ProxyError::QueueTimeout(m) => assert_eq!(m, "排队失败: 队列已满，最大排队数: 5，超时: 3s"),
        other => panic!("unexpected {:?}", other),
    }
    assert_eq!(OutboundError::ParseError("p".to_string()).to_text(), "解析响应失败: p");
    assert!(is_server_error(503));
    assert!(!is_server_error(404));
    assert!(is_success(204));
    assert!(!is_success(302));
}

#[test]
fn retries_stop_after_three_attempts() {
    let mut state = RetryState::new();
    let mut tried = 0;
    while state.may_attempt() {
        tried += 1;
        let step = state.record_failure(format!("c{}", tried), ProxyError::UpstreamError { status: 500, body: "boom".to_string() });
        assert!(matches!(step, RetryStep::Retry { server_error: true }));
    }
    assert_eq!(tried, MAX_RETRIES);
    assert_eq!(state.exclude_ids, vec!["c1".to_string(), "c2".to_string(), "c3".to_string()]);
    match state.final_error() {
        ProxyError::UpstreamError { status, body } => {
            assert_eq!(status, 500);
            assert_eq!(body, "boom");
        },
        other => panic!("unexpected {:?}", other),
    }
}

#[test]
fn non_upstream_failure_ends_the_request() {
    let mut state = RetryState::new();
    let step = state.record_failure("c1".to_string(), ProxyError::RequestError("dns".to_string()));
    assert!(matches!(step, RetryStep::GiveUp(ProxyError::RequestError(_))));
    assert!(state.exclude_ids.is_empty());
    let fresh = RetryState::new();
    match fresh.final_error() {
        ProxyError::NoAvailableChannel(m) => assert_eq!(m, "所有渠道都不可用"),
        other => panic!("unexpected {:?}", other),
    }
}

#[test]
fn request_preparation() {
    assert!(needs_conversion(&EndpointType::OpenAiChat, &EndpointType::Anthropic));
    assert!(!needs_conversion(&EndpointType::Anthropic, &EndpointType::Anthropic));
    let ep = EndpointConfig { endpoint_type: EndpointType::Anthropic, base_url: "https://api.x/v1".to_string() };
    assert_eq!(upstream_url(&ep), "https://api.x/v1/messages");
    let h = direct_auth_headers(&EndpointType::Anthropic, "key");
    assert_eq!(h, vec![("x-api-key".to_string(), "key".to_string()), ("anthropic-version".to_string(), "2023-06-01".to_string())]);
    let h = direct_auth_headers(&EndpointType::OpenAiChat, "key");
    assert_eq!(h, vec![("Authorization".to_string(), "Bearer key".to_string())]);
}

#[test]
fn usage_recorded_for_calls() {
    let body = r#"{"usage": {"prompt_tokens": 11, "completion_tokens": 7, "prompt_tokens_details": {"cached_tokens": 3}}}"#;
    let e = usage_entry("c", "m", "um", &EndpointType::OpenAiChat, body, 120, 200);
    assert_eq!((e.input_tokens, e.output_tokens, e.cache_read_tokens, e.cache_creation_tokens), (11, 7, 3, 0));
    assert_eq!(e.latency_ms, 120);
    assert_eq!(e.status_code, 200);
    assert!(e.error_message.is_none());
    let e = usage_entry("c", "m", "um", &EndpointType::OpenAiChat, "bad gateway", 5, 502);
    assert_eq!((e.input_tokens, e.output_tokens), (0, 0));
    assert_eq!(e.error_message, Some("bad gateway".to_string()));
    let e = usage_entry("c", "m", "um", &EndpointType::OpenAiChat, body, 5, 302);
    assert_eq!(e.input_tokens, 11);
    assert_eq!(e.error_message, Some(body.to_string()));
}

#[test]
fn stream_usage_keeps_the_last_report() {
    let mut u = StreamUsage::new();
    u.observe(b"data: {\"usage\": {\"input_tokens\": 1, \"output_tokens\": 2}}\n\n", &EndpointType::Anthropic);
    assert!(u.last.is_none());
    u.observe(b"event: message_delta\ndata: {\"usage\": {\"input_tokens\": 4, \"output_tokens\": 9, \"cache_read_input_tokens\": 2, \"cache_creation_input_tokens\": 1}}\n\n", &EndpointType::Anthropic);
    u.observe(b"event: message_stop\ndata: {}\n\n", &EndpointType::Anthropic);
    let e = stream_usage_entry("c", "m", "um", &EndpointType::Anthropic, &u, 42);
    assert_eq!((e.input_tokens, e.output_tokens, e.cache_read_tokens, e.cache_creation_tokens), (4, 9, 2, 1));
    assert_eq!(e.status_code, 200);
    let empty = StreamUsage::new();
    let e = stream_usage_entry("c", "m", "um", &EndpointType::Anthropic, &empty, 1);
    assert_eq!((e.input_tokens, e.output_tokens), (0, 0));
}

#[test]
fn request_identity() {
    assert_eq!(requested_model(None), "unknown");
    assert_eq!(requested_model(Some("gpt".to_string())), "gpt");
    assert_eq!(session_hash_for(Some("h".to_string()), Some("b".to_string())), Some("h".to_string()));
    assert_eq!(session_hash_for(None, Some("b".to_string())), Some("b".to_string()));
}

#[test]
fn selection_prefers_a_live_sticky_channel() {
    let mut s = ChannelSelector::new("m".to_string(), SelectionMode::Endpoint(EndpointType::OpenAiChat), Some("sess".to_string()), vec![]);
    match s.step(SelectionEvent::Begin) {
        SelectionAction::LookupSticky(h) => assert_eq!(h, "sess"),
        other => panic!("unexpected {:?}", other),
    }
    match s.step(SelectionEvent::StickyLookedUp(Some("c1".to_string()))) {
        SelectionAction::LoadChannel(id) => assert_eq!(id, "c1"),
        other => panic!("unexpected {:?}", other),
    }
    match s.step(SelectionEvent::ChannelLoaded(Ok(chat_channel("c1")))) {
        SelectionAction::Finish { outcome: Ok(sel), remember } => {
            assert_eq!(sel.channel.id, "c1");
            assert_eq!(sel.target_model, "upstream-m");
            assert_eq!(sel.endpoint.base_url, "https://u");
            assert!(remember.is_none());
        },
        other => panic!("unexpected {:?}", other),
    }
}

#[test]
fn selection_falls_back_through_groups_to_direct_channels() {
    let mut s = ChannelSelector::new("m".to_string(), SelectionMode::Endpoint(EndpointType::OpenAiChat), Some("sess".to_string()), vec!["c1".to_string()]);
    assert!(matches!(s.step(SelectionEvent::Begin), SelectionAction::LookupSticky(_)));
    assert!(matches!(s.step(SelectionEvent::StickyLookedUp(Some("c1".to_string()))), SelectionAction::FindGroupByName));
    assert!(matches!(s.step(SelectionEvent::GroupFound(Ok(None))), SelectionAction::FindGroupByRegex));
    let group = GroupInfo {
        id: "g".to_string(),
        name: "g".to_string(),
        items: vec![GroupItemInfo { channel_id: "c2".to_string(), model_name: "m".to_string(), priority: 1, weight: 1 }],
    };
    assert!(matches!(s.step(SelectionEvent::GroupFound(Ok(Some(group.clone())))), SelectionAction::ChooseGroupItem(_)));
    match s.step(SelectionEvent::ItemChosen(Ok(group.items[0].clone()))) {
        SelectionAction::LoadChannel(id) => assert_eq!(id, "c2"),
        other => panic!("unexpected {:?}", other),
    }
    let mut no_chat = chat_channel("c2");
    no_chat.endpoints[0].endpoint_type = EndpointType::Anthropic;
    assert!(matches!(s.step(SelectionEvent::ChannelLoaded(Ok(no_chat))), SelectionAction::FindDirectChannel));
    match s.step(SelectionEvent::ChannelLoaded(Ok(chat_channel("c3")))) {
        SelectionAction::Finish { outcome: Ok(sel), remember } => {
            assert_eq!(sel.channel.id, "c3");
            assert_eq!(remember, Some(("sess".to_string(), "c3".to_string())));
        },
        other => panic!("unexpected {:?}", other),
    }
}

#[test]
fn selection_without_direct_channel_fails() {
    let mut s = ChannelSelector::new("m".to_string(), SelectionMode::AnyEndpoint, None, vec![]);
    assert!(matches!(s.step(SelectionEvent::Begin), SelectionAction::FindGroupByName));
    assert!(matches!(s.step(SelectionEvent::GroupFound(Ok(None))), SelectionAction::FindGroupByRegex));
    assert!(matches!(s.step(SelectionEvent::GroupFound(Ok(None))), SelectionAction::FindDirectChannel));
    let mut bare = chat_channel("c");
    bare.endpoints.clear();
    match s.step(SelectionEvent::ChannelLoaded(Ok(bare))) {
        SelectionAction::Finish { outcome: Err(ProxyError::NoAvailableChannel(m)), remember: None } => assert_eq!(m, "没有可用渠道"),
        other => panic!("unexpected {:?}", other),
    }
}

#[test]
fn queue_timeout_is_answered_with_too_many_requests() {
    let e = QueueError::QueueFull { max: 10, timeout: 30 }.into_proxy_error();
    let r = format_proxy_error(e, &ErrorFormat::OpenAi);
    assert_eq!(r.status, 429);
    assert_eq!(r.message, "排队失败: 队列已满，最大排队数: 10，超时: 30s");
    let closed = format_proxy_error(QueueError::QueueClosed.into_proxy_error(), &ErrorFormat::Anthropic);
    assert_eq!(closed.status, 502);
}

#[test]
fn selection_refuses_an_excluded_or_unexpected_channel() {
    let mut s = ChannelSelector::new("m".to_string(), SelectionMode::Endpoint(EndpointType::OpenAiChat), Some("sess".to_string()), vec!["c9".to_string()]);
    assert!(matches!(s.step(SelectionEvent::Begin), SelectionAction::LookupSticky(_)));
    assert!(matches!(s.step(SelectionEvent::StickyLookedUp(Some("c1".to_string()))), SelectionAction::LoadChannel(_)));
    // The handler answers with another channel than the one asked for.
    assert!(matches!(s.step(SelectionEvent::ChannelLoaded(Ok(chat_channel("c2")))), SelectionAction::FindGroupByName));
    assert!(matches!(s.step(SelectionEvent::GroupFound(Ok(None))), SelectionAction::FindGroupByRegex));
    assert!(matches!(s.step(SelectionEvent::GroupFound(Ok(None))), SelectionAction::FindDirectChannel));
    // An excluded channel never finishes the selection.
    match s.step(SelectionEvent::ChannelLoaded(Ok(chat_channel("c9")))) {
        SelectionAction::Finish { outcome: Err(ProxyError::NoAvailableChannel(_)), remember: None } => {},
        other => panic!("unexpected {:?}", other),
    }
}
