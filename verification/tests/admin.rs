use galaxy_proxy::admin::store_error;
use galaxy_proxy::admin::{
    api_key_text, api_key_update_assignments, build_update_sql, channel_limits, channel_update_columns,
    group_item_from, group_settings, group_update_assignments, login_verdict, stats_days, validate_create_api_key,
    validate_create_channel, validate_create_group, validate_init, validate_password_change, ChangePasswordRequest,
    CreateApiKeyRequest, CreateChannelRequest, CreateGroupItemRequest, CreateGroupRequest, InitRequest, StatsQuery,
    UpdateApiKeyRequest, UpdateGroupRequest,
};
use galaxy_proxy::endpoint::{EndpointConfig, EndpointType};

fn channel_req(name: &str, keys: usize, endpoints: usize) -> CreateChannelRequest {
    CreateChannelRequest {
        name: name.to_string(),
        api_keys: (0..keys).map(|i| format!("k{}", i)).collect(),
        endpoints: (0..endpoints)
            .map(|_| EndpointConfig { endpoint_type: EndpointType::OpenAiChat, base_url: "https://x".to_string() })
            .collect(),
        rate_limit_rpm: None,
        rate_limit_tpm: None,
        failure_threshold: None,
        blacklist_minutes: Some(5),
        concurrency: None,
        enabled: None,
    }
}

#[test]
fn api_key_requests() {
    let e = validate_create_api_key(&CreateApiKeyRequest { name: String::new() }).unwrap_err();
    assert_eq!((e.status, e.message.as_str()), (400, "名称不能为空"));
    assert!(validate_create_api_key(&CreateApiKeyRequest { name: "ci".to_string() }).is_ok());
    assert_eq!(api_key_text("abc"), "gp-abc");
}

#[test]
fn api_key_updates() {
    let e = api_key_update_assignments(&UpdateApiKeyRequest { name: None, enabled: None }).unwrap_err();
    assert_eq!(e.message, "没有需要更新的字段");
    let a = api_key_update_assignments(&UpdateApiKeyRequest { name: Some("n".to_string()), enabled: Some(false) }).unwrap();
    assert_eq!(a, vec![("name = ?", "n".to_string()), ("enabled = ?", "false".to_string())]);
    assert_eq!(build_update_sql("api_keys", &a), "UPDATE api_keys SET name = ?, enabled = ?, updated_at = CURRENT_TIMESTAMP WHERE id = ?");
    assert_eq!(build_update_sql("groups", &vec![]), "UPDATE groups SET updated_at = CURRENT_TIMESTAMP WHERE id = ?");
}

#[test]
fn setup_rules() {
    let req = |u: &str, p: &str| InitRequest { username: u.to_string(), password: p.to_string(), site_title: None };
    let e = validate_init(1, &req("admin", "password1")).unwrap_err();
    assert_eq!((e.status, e.message.as_str()), (409, "系统已初始化，无需重复操作"));
    let e = validate_init(0, &req("ab", "password1")).unwrap_err();
    assert_eq!((e.status, e.message.as_str()), (400, "用户名至少 3 个字符"));
    let e = validate_init(0, &req("abc", "short")).unwrap_err();
    assert_eq!((e.status, e.message.as_str()), (400, "密码至少 8 个字符"));
    assert!(validate_init(0, &req("abc", "12345678")).is_ok());
    assert!(validate_init(0, &req("张三", "12345678")).is_ok());
}

#[test]
fn login_and_password_rules() {
    assert!(login_verdict(true, true).is_ok());
    let e = login_verdict(false, true).unwrap_err();
    assert_eq!((e.status, e.message.as_str()), (401, "用户名或密码错误"));
    assert_eq!(login_verdict(true, false).unwrap_err().status, 401);
    let change = |p: &str| ChangePasswordRequest { old_password: "old".to_string(), new_password: p.to_string() };
    let e = validate_password_change(false, &change("newpassword")).unwrap_err();
    assert_eq!((e.status, e.message.as_str()), (401, "旧密码错误"));
    let e = validate_password_change(true, &change("short")).unwrap_err();
    assert_eq!((e.status, e.message.as_str()), (400, "新密码至少 8 个字符"));
    assert!(validate_password_change(true, &change("longenough")).is_ok());
}

#[test]
fn channel_rules() {
    assert_eq!(validate_create_channel(&channel_req("", 1, 1)).unwrap_err().message, "渠道名称不能为空");
    assert_eq!(validate_create_channel(&channel_req("c", 0, 1)).unwrap_err().message, "至少需要一个 API Key");
    assert_eq!(validate_create_channel(&channel_req("c", 1, 0)).unwrap_err().message, "至少需要一个端点");
    assert!(validate_create_channel(&channel_req("c", 1, 1)).is_ok());
    let l = channel_limits(&channel_req("c", 1, 1));
    assert_eq!((l.failure_threshold, l.blacklist_minutes, l.concurrency, l.enabled), (3, 5, 10, true));
    assert_eq!(channel_update_columns(true, false, true, false).unwrap(), vec!["name = ?", "endpoints = ?"]);
    assert_eq!(channel_update_columns(false, false, false, false).unwrap_err().message, "没有需要更新的字段");
}

#[test]
fn group_rules() {
    let mut req = CreateGroupRequest {
        name: String::new(),
        match_regex: None,
        retry_enabled: None,
        max_retries: Some(5),
        first_token_timeout_secs: None,
        enabled: Some(false),
        items: vec![],
    };
    assert_eq!(validate_create_group(&req).unwrap_err().message, "分组名称不能为空");
    req.name = "g".to_string();
    assert_eq!(validate_create_group(&req).unwrap_err().message, "至少需要一个分组项");
    req.items.push(CreateGroupItemRequest { channel_id: "c".to_string(), model_name: "m".to_string(), priority: None, weight: None });
    assert!(validate_create_group(&req).is_ok());
    let s = group_settings(&req);
    assert_eq!((s.retry_enabled, s.max_retries, s.first_token_timeout_secs, s.enabled), (true, 5, 30, false));
    let item = group_item_from("i".to_string(), "c".to_string(), "m".to_string(), None, Some(7));
    assert_eq!((item.priority, item.weight), (1, 7));
    let upd = UpdateGroupRequest {
        name: None,
        match_regex: Some("^gpt".to_string()),
        retry_enabled: None,
        max_retries: None,
        first_token_timeout_secs: None,
        enabled: None,
    };
    assert_eq!(group_update_assignments(&upd).unwrap(), vec![("match_regex = ?", "^gpt".to_string())]);
    assert_eq!(stats_days(&StatsQuery { days: None }), 30);
    assert_eq!(stats_days(&StatsQuery { days: Some(7) }), 7);
}

#[test]
fn store_errors_reported_by_cause() {
    let e = store_error("error returned from database: UNIQUE constraint failed: groups.name", Some("分组名称已存在"), None);
    assert_eq!((e.status, e.message.as_str()), (409, "分组名称已存在"));
    let e = store_error("FOREIGN KEY constraint failed", None, Some("渠道不存在"));
    assert_eq!((e.status, e.message.as_str()), (400, "渠道不存在"));
    let e = store_error("UNIQUE constraint failed", None, Some("渠道不存在"));
    assert_eq!((e.status, e.message.as_str()), (500, "UNIQUE constraint failed"));
    let e = store_error("disk I/O error", Some("x"), Some("y"));
    assert_eq!((e.status, e.message.as_str()), (500, "disk I/O error"));
}
