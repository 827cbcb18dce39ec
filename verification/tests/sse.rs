use galaxy_proxy::endpoint::EndpointType;
use galaxy_proxy::sse::{extract_usage, extract_usage_from_sse, find_sse_boundary, response_usage, split_lines, split_sse_events};

#[test]
fn boundaries_of_events() {
    assert_eq!(find_sse_boundary(b"data: a\n\ndata: b"), Some(9));
    assert_eq!(find_sse_boundary(b"data: a\r\n\r\nrest"), Some(11));
    assert_eq!(find_sse_boundary(b"data: a\n"), None);
    assert_eq!(find_sse_boundary(b""), None);
}

#[test]
fn splitting_drops_only_blank_events() {
    let buf = b"data: 1\n\n\n\ndata: 2\r\n\r\ndata: part";
    let (events, rest) = split_sse_events(buf);
    let mut joined: Vec<u8> = Vec::new();
    for e in &events {
        joined.extend_from_slice(e);
    }
    joined.extend_from_slice(&rest);
    assert_eq!(joined, b"data: 1\n\ndata: 2\r\n\r\ndata: part".to_vec());
    assert_eq!(events.len(), 2);
    assert_eq!(rest, b"data: part".to_vec());
    assert_eq!(events[0], b"data: 1\n\n".to_vec());
}

#[test]
fn lines_of_an_event() {
    let lines = split_lines(b"event: x\r\ndata: y\n\nz");
    assert_eq!(lines, vec![b"event: x".to_vec(), b"data: y".to_vec(), b"".to_vec(), b"z".to_vec()]);
}

#[test]
fn usage_in_openai_events() {
    let u = extract_usage_from_sse(b"data: {\"usage\": {\"prompt_tokens\": 5, \"completion_tokens\": 6}}\n\n", &EndpointType::OpenAiChat).unwrap();
    assert_eq!(extract_usage(&u, &EndpointType::OpenAiChat), (5, 6, 0, 0));
    assert!(extract_usage_from_sse(b"data: [DONE]\n\n", &EndpointType::OpenAiChat).is_none());
    assert!(extract_usage_from_sse(b"data: {\"choices\": []}\n\n", &EndpointType::OpenAiChat).is_none());
    assert!(extract_usage_from_sse(b"data: {\"usage\": {}}\n\n", &EndpointType::Gemini).is_none());
    assert!(extract_usage_from_sse(&[0xff, 0xfe, 0x0a], &EndpointType::OpenAiChat).is_none());
}

#[test]
fn usage_in_anthropic_events() {
    let ev = b"event: message_delta\ndata: {\"usage\": {\"output_tokens\": 12}}\n\n";
    let u = extract_usage_from_sse(ev, &EndpointType::Anthropic).unwrap();
    assert_eq!(extract_usage(&u, &EndpointType::Anthropic), (0, 12, 0, 0));
    let start = b"event: message_start\ndata: {\"usage\": {\"output_tokens\": 1}}\n\n";
    assert!(extract_usage_from_sse(start, &EndpointType::Anthropic).is_none());
}

#[test]
fn usage_of_a_response_body() {
    let u = response_usage(br#"{"usage": {"input_tokens": 3, "output_tokens": 4, "cache_read_input_tokens": 5, "cache_creation_input_tokens": 6}}"#);
    assert_eq!(extract_usage(&u, &EndpointType::Anthropic), (3, 4, 5, 6));
    assert_eq!(extract_usage(&u, &EndpointType::OpenAiChat), (0, 0, 0, 0));
    let none = response_usage(b"<html>");
    assert!(!none.has_usage);
}
