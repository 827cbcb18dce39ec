use galaxy_proxy::balance::rank_group_items;
use galaxy_proxy::endpoint::{get_inbound, get_outbound, parse_protocol, Converter, EndpointConfig, EndpointType, GroupMode};
use galaxy_proxy::errors::ProxyError;
use galaxy_proxy::routing::{
    apply_model_mapping, channel_serves_model, find_channel_by_model_and_type_with_exclude,
    find_channel_by_model_with_exclude, find_group_by_regex, select_api_key_at, ChannelInfo, GroupInfo,
    GroupItemInfo, GroupPattern, KeyRotation, ModelMaps,
};
use galaxy_proxy::wildcard::{regex_matches, wildcard_match, wildcard_to_regex};

fn endpoint(t: EndpointType, url: &str) -> EndpointConfig {
    EndpointConfig { endpoint_type: t, base_url: url.to_string() }
}

fn channel(id: &str, endpoints: Vec<EndpointConfig>, maps: &str) -> ChannelInfo {
    ChannelInfo {
        id: id.to_string(),
        name: format!("channel {}", id),
        api_keys: vec!["k1".to_string(), "k2".to_string()],
        endpoints,
        model_maps: ModelMaps::parse(maps),
    }
}

#[test]
fn endpoint_paths_and_names() {
    assert_eq!(EndpointType::OpenAiChat.path(), "/chat/completions");
    assert_eq!(EndpointType::OpenAiResponse.path(), "/responses");
    assert_eq!(EndpointType::Anthropic.path(), "/messages");
    assert_eq!(EndpointType::Gemini.path(), "/models/{model}:generateContent");
    assert_eq!(EndpointType::OpenAiEmbedding.path(), "/embeddings");
    assert_eq!(EndpointType::OpenAiImages.path(), "/images/generations");
    for t in [
        EndpointType::OpenAiChat,
        EndpointType::OpenAiResponse,
        EndpointType::Anthropic,
        EndpointType::Gemini,
        EndpointType::OpenAiEmbedding,
        EndpointType::OpenAiImages,
    ] {
        assert_eq!(parse_protocol(t.name()), Some(t));
    }
    assert_eq!(EndpointType::OpenAiChat.name(), "openai_chat");
    assert_eq!(parse_protocol("open_ai_chat"), None);
}

#[test]
fn converters_by_endpoint() {
    assert_eq!(get_inbound(&EndpointType::OpenAiResponse), Converter::OpenAiResponses);
    assert_eq!(get_outbound(&EndpointType::Anthropic), Converter::Anthropic);
    assert_eq!(get_inbound(&EndpointType::Gemini), Converter::OpenAiChat);
    assert_eq!(GroupMode::Weighted.to_text(), "weighted");
    assert_eq!(GroupMode::RoundRobin.to_text(), "round_robin");
}

#[test]
fn wildcard_patterns() {
    assert_eq!(wildcard_to_regex("gpt-4*"), "^gpt-4.*$");
    assert_eq!(wildcard_to_regex("a.b?"), "^a\\.b.$");
    assert!(wildcard_match("gpt-4*", "gpt-4o"));
    assert!(!wildcard_match("gpt-4*", "xgpt-4o"));
    assert!(wildcard_match("sonnet-?", "sonnet-3"));
    assert!(!wildcard_match("sonnet-?", "sonnet-35"));
    assert!(!wildcard_match("a.b", "axb"));
    assert_eq!(wildcard_to_regex("a+(b)|[c]{2}^$\\"), "^a\\+\\(b\\)\\|\\[c\\]\\{2\\}\\^\\$\\\\$");
    assert!(!wildcard_match("a+b", "aab"));
    assert!(wildcard_match("a+b", "a+b"));
    assert!(wildcard_match("m(1)*", "m(1)-x"));
    assert!(!wildcard_match("m(1)*", "m1-x"));
    assert!(wildcard_match("[x]?", "[x]y"));
    assert!(regex_matches("^sonnet", "sonnet-3"));
    assert!(!regex_matches("(", "anything"));
}

#[test]
fn model_mapping_prefers_exact_then_wildcard() {
    let maps = ModelMaps::parse(r#"{"gpt-4": "gpt-4-turbo", "sonnet-*": "anthropic/*", "x": 5}"#);
    assert_eq!(apply_model_mapping(&maps, "gpt-4"), "gpt-4-turbo");
    assert_eq!(apply_model_mapping(&maps, "sonnet-3"), "anthropic/sonnet-3");
    assert_eq!(apply_model_mapping(&maps, "other"), "other");
    assert_eq!(apply_model_mapping(&maps, "x"), "x");
    assert!(channel_serves_model(&maps, "x"));
    assert!(channel_serves_model(&maps, "sonnet-9"));
    assert!(!channel_serves_model(&maps, "gemini"));
    let catch_all = ModelMaps::parse(r#"{"*": "m"}"#);
    assert!(channel_serves_model(&catch_all, "anything"));
    let broken = ModelMaps::parse("not json");
    assert!(broken.entries.is_empty());
    assert!(!channel_serves_model(&broken, "gpt-4"));
}

#[test]
fn direct_channel_lookup_skips_excluded_and_unfit() {
    let a = channel("a", vec![endpoint(EndpointType::Anthropic, "https://a")], r#"{"gpt-4": "g"}"#);
    let b = channel("b", vec![endpoint(EndpointType::OpenAiChat, "https://b")], r#"{"gpt-4": "g"}"#);
    let c = channel("c", vec![endpoint(EndpointType::OpenAiChat, "https://c")], r#"{"gpt-4": "g"}"#);
    let typed = find_channel_by_model_and_type_with_exclude(
        vec![a.clone(), b.clone(), c.clone()],
        "gpt-4",
        &EndpointType::OpenAiChat,
        &["b".to_string()],
    );
    assert_eq!(typed.unwrap().id, "c");
    let any = find_channel_by_model_with_exclude(vec![a.clone(), b.clone(), c.clone()], "gpt-4", &[]);
    assert_eq!(any.unwrap().id, "a");
    let none = find_channel_by_model_with_exclude(vec![a, b, c], "llama", &[]);
    match none {
        Err(ProxyError::NoAvailableChannel(m)) => assert_eq!(m, "没有可用渠道"),
        other => panic!("unexpected {:?}", other),
    }
}

#[test]
fn api_keys_at_a_turn() {
    let c = channel("a", vec![], "{}");
    assert_eq!(select_api_key_at(&c, 0), "k1");
    assert_eq!(select_api_key_at(&c, 1), "k2");
    assert_eq!(select_api_key_at(&c, 2), "k1");
    let mut keyless = c.clone();
    keyless.api_keys.clear();
    assert_eq!(select_api_key_at(&keyless, 5), "");
}

#[test]
fn groups_found_by_expression() {
    let groups = vec![
        GroupPattern { id: "1".to_string(), name: "none".to_string(), match_regex: None },
        GroupPattern { id: "2".to_string(), name: "gpt".to_string(), match_regex: Some("^gpt-".to_string()) },
        GroupPattern { id: "3".to_string(), name: "all".to_string(), match_regex: Some(".*".to_string()) },
    ];
    assert_eq!(find_group_by_regex(&groups, "gpt-4"), Some(1));
    assert_eq!(find_group_by_regex(&groups, "sonnet"), Some(2));
    assert_eq!(find_group_by_regex(&groups[..1].to_vec(), "sonnet"), None);
}

fn item(id: &str) -> GroupItemInfo {
    GroupItemInfo { channel_id: id.to_string(), model_name: "m".to_string(), priority: 1, weight: 100 }
}

#[test]
fn group_members_ranked_best_three() {
    let group = GroupInfo {
        id: "g".to_string(),
        name: "g".to_string(),
        items: vec![item("a"), item("b"), item("c"), item("d"), item("e")],
    };
    let keys = vec![Some(5), Some(9), None, Some(9), Some(7)];
    assert_eq!(rank_group_items(&group, &[], &keys).unwrap(), vec![1, 3, 4]);
    assert_eq!(rank_group_items(&group, &["b".to_string()], &keys).unwrap(), vec![3, 4, 0]);
    let none = rank_group_items(&group, &[], &vec![None, None, None, None, None]);
    match none {
        Err(ProxyError::NoAvailableChannel(m)) => assert_eq!(m, "所有渠道都不可用"),
        other => panic!("unexpected {:?}", other),
    }
    let empty = GroupInfo { id: "e".to_string(), name: "e".to_string(), items: vec![] };
    match rank_group_items(&empty, &[], &vec![]) {
        Err(ProxyError::NoAvailableChannel(m)) => assert_eq!(m, "分组没有可用渠道"),
        other => panic!("unexpected {:?}", other),
    }
}

#[test]
fn api_keys_rotate_round_robin_per_channel() {
    let a = channel("a", vec![], "{}");
    let mut b = channel("b", vec![], "{}");
    b.api_keys = vec!["x".to_string(), "y".to_string(), "z".to_string()];
    let mut rotation = KeyRotation::new();
    assert_eq!(rotation.select_api_key(&a), "k1");
    assert_eq!(rotation.select_api_key(&b), "x");
    assert_eq!(rotation.select_api_key(&a), "k2");
    assert_eq!(rotation.select_api_key(&b), "y");
    assert_eq!(rotation.select_api_key(&b), "z");
    assert_eq!(rotation.select_api_key(&a), "k1");
    assert_eq!(rotation.select_api_key(&b), "x");
    let mut keyless = a.clone();
    keyless.id = "none".to_string();
    keyless.api_keys.clear();
    assert_eq!(rotation.select_api_key(&keyless), "");
    assert_eq!(rotation.select_api_key(&keyless), "");
}
