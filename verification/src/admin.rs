//! The admin API's records and requests, and the checks and defaults its
//! handlers apply before touching the database.
use vstd::prelude::*;
use vstd::string::StringSliceAdditionalSpecFns;
use crate::endpoint::EndpointConfig;
use crate::text::{contains_text, contains_text_spec};

verus! {

/// A refused admin request: HTTP status and message.
#[derive(Debug, Clone)]
pub struct ApiError {
    pub status: u16,
    pub message: String,
}

/// An admin request refused with `status` and `message`.
pub open spec fn refused(r: Result<(), ApiError>, status: u16, message: Seq<char>) -> bool {
    r matches Err(e) && e.status == status && e.message@ == message
}

/// Length in bytes of the UTF-8 encoding of `s`, as `str::len` reports it.
pub open spec fn byte_len(s: Seq<char>) -> usize {
    vstd::utf8::encode_utf8(s).len() as usize
}

/// A request refused with status 400 and `message`.
pub fn bad_request(message: &str) -> (r: ApiError)
    ensures
        r.status == 400,
        r.message@ == message@,
{
    ApiError { status: 400, message: String::from_str(message) }
}

/// A client API key.
#[derive(Debug, Clone)]
pub struct ApiKey {
    pub id: String,
    pub name: String,
    pub api_key: String,
    pub enabled: bool,
    pub created_at: String,
    pub updated_at: String,
}

/// Request to create a client API key.
#[derive(Debug, Clone)]
pub struct CreateApiKeyRequest {
    pub name: String,
}

/// Request to change a client API key.
#[derive(Debug, Clone)]
pub struct UpdateApiKeyRequest {
    pub name: Option<String>,
    pub enabled: Option<bool>,
}

/// A new API key must have a name (400 `名称不能为空`).
pub fn validate_create_api_key(req: &CreateApiKeyRequest) -> (r: Result<(), ApiError>)
    ensures
        req.name@.len() == 0 <==> refused(r, 400, "名称不能为空"@),
        req.name@.len() > 0 <==> r is Ok,
{
    if req.name.as_str().is_empty() {
        Err(bad_request("名称不能为空"))
    } else {
        Ok(())
    }
}

/// The client key issued for a new key id: `gp-` and the id.
pub fn api_key_text(id: &str) -> (r: String)
    ensures
        r@ == "gp-"@ + id@,
{
    let mut s = String::from_str("gp-");
    s.append(id);
    s
}

/// A column assignment of an update and the value bound to it.
pub type Assignment = (&'static str, String);

/// The assignments of an API key update: `name`, then `enabled` (as `true`
/// or `false`); an update that changes nothing is refused (400
/// `没有需要更新的字段`).
pub fn api_key_update_assignments(req: &UpdateApiKeyRequest) -> (r: Result<Vec<Assignment>, ApiError>)
    ensures
        (req.name is None && req.enabled is None) <==> r is Err,
        r matches Err(e) ==> e.status == 400 && e.message@ == "没有需要更新的字段"@,
        r matches Ok(a) ==> a@.len() == (if req.name is Some { 1int } else { 0 }) + (if req.enabled is Some { 1int } else { 0 }),
        r matches Ok(a) ==> (req.name matches Some(n) ==> a@[0].0@ == "name = ?"@ && a@[0].1@ == n@),
        r matches Ok(a) ==> (req.enabled matches Some(b) ==> a@[a@.len() - 1].0@ == "enabled = ?"@
            && a@[a@.len() - 1].1@ == (if b { "true"@ } else { "false"@ })),
{
    let mut out: Vec<Assignment> = Vec::new();
    match &req.name {
        Some(n) => out.push(("name = ?", n.clone())),
        None => {},
    }
    match req.enabled {
        Some(b) => {
            let v = if b { String::from_str("true") } else { String::from_str("false") };
            out.push(("enabled = ?", v));
        },
        None => {},
    }
    if out.len() == 0 {
        return Err(bad_request("没有需要更新的字段"));
    }
    Ok(out)
}

/// The columns assigned by an update, joined by `, `.
pub open spec fn join_columns(cols: Seq<Seq<char>>) -> Seq<char>
    decreases cols.len(),
{
    if cols.len() == 0 {
        Seq::empty()
    } else if cols.len() == 1 {
        cols[0]
    } else {
        join_columns(cols.drop_last()) + ", "@ + cols.last()
    }
}

/// The update statement for a table row by id: the assignments, then the
/// `updated_at` stamp.
pub open spec fn update_sql(table: Seq<char>, assignments: Seq<Assignment>) -> Seq<char> {
    "UPDATE "@ + table + " SET "@ + join_columns(
        Seq::new(assignments.len(), |i: int| assignments[i].0@).push("updated_at = CURRENT_TIMESTAMP"@),
    ) + " WHERE id = ?"@
}

/// The update statement for `table` with these assignments.
pub fn build_update_sql(table: &str, assignments: &Vec<Assignment>) -> (r: String)
    ensures
        r@ == update_sql(table@, assignments@),
{
    let ghost cols = Seq::new(assignments@.len(), |i: int| assignments@[i].0@).push("updated_at = CURRENT_TIMESTAMP"@);
    let mut joined = String::new();
    let mut i: usize = 0;
    let n = assignments.len();
    while i < n
        invariant
            n == assignments@.len(),
            cols == Seq::new(assignments@.len(), |k: int| assignments@[k].0@).push("updated_at = CURRENT_TIMESTAMP"@),
            0 <= i <= n,
            joined@ == join_columns(cols.subrange(0, i as int)),
        decreases n - i,
    {
        if i > 0 {
            joined.append(", ");
        }
        joined.append(assignments[i].0);
        proof {
            assert(cols.subrange(0, i + 1).drop_last() =~= cols.subrange(0, i as int));
            assert(cols.subrange(0, i + 1).last() == assignments@[i as int].0@);
            if i == 0 {
                assert(joined@ =~= join_columns(cols.subrange(0, 1)));
            }
        }
        i = i + 1;
    }
    if n > 0 {
        joined.append(", ");
    }
    joined.append("updated_at = CURRENT_TIMESTAMP");
    proof {
        assert(cols.subrange(0, n + 1) =~= cols);
        assert(cols.subrange(0, n + 1).drop_last() =~= cols.subrange(0, n as int));
        if n == 0 {
            assert(joined@ =~= join_columns(cols));
        }
    }
    let mut sql = String::from_str("UPDATE ");
    sql.append(table);
    sql.append(" SET ");
    sql.append(joined.as_str());
    sql.append(" WHERE id = ?");
    sql
}

/// An admin request answered with `status` and `message`.
pub open spec fn answered(e: ApiError, status: u16, message: Seq<char>) -> bool {
    e.status == status && e.message@ == message
}

/// How a failed database write is reported: a broken uniqueness constraint
/// as 409 `on_unique` and a broken foreign key as 400 `on_foreign_key`, where
/// the write can break them; anything else as 500 with the database's text.
pub fn store_error(db_message: &str, on_unique: Option<&str>, on_foreign_key: Option<&str>) -> (r: ApiError)
    ensures
        match on_unique {
            Some(u) if contains_text_spec(db_message@, "UNIQUE constraint failed"@) => answered(r, 409, u@),
            _ => match on_foreign_key {
                Some(f) if contains_text_spec(db_message@, "FOREIGN KEY constraint failed"@) => answered(r, 400, f@),
                _ => answered(r, 500, db_message@),
            },
        },
{
    match on_unique {
        Some(u) => {
            if contains_text(db_message, "UNIQUE constraint failed") {
                return ApiError { status: 409, message: String::from_str(u) };
            }
        },
        None => {},
    }
    match on_foreign_key {
        Some(f) => {
            if contains_text(db_message, "FOREIGN KEY constraint failed") {
                return bad_request(f);
            }
        },
        None => {},
    }
    ApiError { status: 500, message: String::from_str(db_message) }
}

/// Request to set up the first administrator.
#[derive(Debug, Clone)]
pub struct InitRequest {
    pub username: String,
    pub password: String,
    pub site_title: Option<String>,
}

/// Request to log in.
#[derive(Debug, Clone)]
pub struct LoginRequest {
    pub username: String,
    pub password: String,
}

/// Request to change the administrator password.
#[derive(Debug, Clone)]
pub struct ChangePasswordRequest {
    pub old_password: String,
    pub new_password: String,
}

/// A token and its lifetime in seconds.
#[derive(Debug, Clone)]
pub struct AuthResponse {
    pub token: String,
    pub expires_in: u64,
}

/// The current administrator.
#[derive(Debug, Clone)]
pub struct UserInfoResponse {
    pub id: String,
    pub username: String,
}

/// Setup is allowed once (409 `系统已初始化，无需重复操作` when a user
/// exists), with a user name of at least 3 bytes (400 `用户名至少 3 个字符`)
/// and a password of at least 8 bytes (400 `密码至少 8 个字符`).
pub fn validate_init(user_count: i64, req: &InitRequest) -> (r: Result<(), ApiError>)
    ensures
        user_count > 0 ==> refused(r, 409, "系统已初始化，无需重复操作"@),
        user_count <= 0 && byte_len(req.username@) < 3
            ==> refused(r, 400, "用户名至少 3 个字符"@),
        user_count <= 0 && byte_len(req.username@) >= 3 && byte_len(req.password@) < 8
            ==> refused(r, 400, "密码至少 8 个字符"@),
        r is Ok <==> (user_count <= 0 && byte_len(req.username@) >= 3
            && byte_len(req.password@) >= 8),
{
    if user_count > 0 {
        return Err(ApiError { status: 409, message: String::from_str("系统已初始化，无需重复操作") });
    }
    if req.username.as_str().len() < 3 {
        return Err(bad_request("用户名至少 3 个字符"));
    }
    if req.password.as_str().len() < 8 {
        return Err(bad_request("密码至少 8 个字符"));
    }
    Ok(())
}

/// Lifetime in seconds reported with every issued token.
pub const TOKEN_LIFETIME_SECS: u64 = 86400;

/// A wrong user name or password is refused alike (401 `用户名或密码错误`).
pub fn login_verdict(user_found: bool, password_ok: bool) -> (r: Result<(), ApiError>)
    ensures
        r is Ok <==> (user_found && password_ok),
        r is Err ==> refused(r, 401, "用户名或密码错误"@),
{
    if user_found && password_ok {
        Ok(())
    } else {
        Err(ApiError { status: 401, message: String::from_str("用户名或密码错误") })
    }
}

/// A password change needs the old password (401 `旧密码错误`) and a new
/// one of at least 8 bytes (400 `新密码至少 8 个字符`).
pub fn validate_password_change(old_password_ok: bool, req: &ChangePasswordRequest) -> (r: Result<(), ApiError>)
    ensures
        !old_password_ok ==> refused(r, 401, "旧密码错误"@),
        old_password_ok && byte_len(req.new_password@) < 8 ==> refused(r, 400, "新密码至少 8 个字符"@),
        r is Ok <==> (old_password_ok && byte_len(req.new_password@) >= 8),
{
    if !old_password_ok {
        return Err(ApiError { status: 401, message: String::from_str("旧密码错误") });
    }
    if req.new_password.as_str().len() < 8 {
        return Err(bad_request("新密码至少 8 个字符"));
    }
    Ok(())
}

/// Request to create a channel.
#[derive(Debug, Clone)]
pub struct CreateChannelRequest {
    pub name: String,
    pub api_keys: Vec<String>,
    pub endpoints: Vec<EndpointConfig>,
    pub rate_limit_rpm: Option<i32>,
    pub rate_limit_tpm: Option<i32>,
    pub failure_threshold: Option<i32>,
    pub blacklist_minutes: Option<i32>,
    pub concurrency: Option<i32>,
    pub enabled: Option<bool>,
}

/// A channel needs a name (400 `渠道名称不能为空`), an API key (400
/// `至少需要一个 API Key`) and an endpoint (400 `至少需要一个端点`).
pub fn validate_create_channel(req: &CreateChannelRequest) -> (r: Result<(), ApiError>)
    ensures
        req.name@.len() == 0 ==> refused(r, 400, "渠道名称不能为空"@),
        req.name@.len() > 0 && req.api_keys@.len() == 0 ==> refused(r, 400, "至少需要一个 API Key"@),
        req.name@.len() > 0 && req.api_keys@.len() > 0 && req.endpoints@.len() == 0 ==> refused(r, 400, "至少需要一个端点"@),
        r is Ok <==> (req.name@.len() > 0 && req.api_keys@.len() > 0 && req.endpoints@.len() > 0),
{
    if req.name.as_str().is_empty() {
        return Err(bad_request("渠道名称不能为空"));
    }
    if req.api_keys.len() == 0 {
        return Err(bad_request("至少需要一个 API Key"));
    }
    if req.endpoints.len() == 0 {
        return Err(bad_request("至少需要一个端点"));
    }
    Ok(())
}

/// Stored limits and switches of a new channel, with their defaults.
#[derive(Debug, Clone, Copy, PartialEq, Eq, Structural)]
pub struct ChannelLimits {
    pub failure_threshold: i32,
    pub blacklist_minutes: i32,
    pub concurrency: i32,
    pub enabled: bool,
}

/// The limits stored for a new channel: the requested ones, else failure
/// threshold 3, blacklist 10 minutes, concurrency 10, enabled.
pub fn channel_limits(req: &CreateChannelRequest) -> (r: ChannelLimits)
    ensures
        r.failure_threshold == match req.failure_threshold { Some(v) => v, None => 3 },
        r.blacklist_minutes == match req.blacklist_minutes { Some(v) => v, None => 10 },
        r.concurrency == match req.concurrency { Some(v) => v, None => 10 },
        r.enabled == match req.enabled { Some(v) => v, None => true },
{
    ChannelLimits {
        failure_threshold: match req.failure_threshold { Some(v) => v, None => 3 },
        blacklist_minutes: match req.blacklist_minutes { Some(v) => v, None => 10 },
        concurrency: match req.concurrency { Some(v) => v, None => 10 },
        enabled: match req.enabled { Some(v) => v, None => true },
    }
}

/// `col` when `set`, else nothing.
pub open spec fn column_if(set: bool, col: Seq<char>) -> Seq<Seq<char>> {
    if set { seq![col] } else { Seq::empty() }
}

/// The columns a channel update sets, in order.
pub open spec fn channel_columns_spec(name: bool, api_keys: bool, endpoints: bool, model_maps: bool) -> Seq<Seq<char>> {
    column_if(name, "name = ?"@) + column_if(api_keys, "api_keys = ?"@) + column_if(endpoints, "endpoints = ?"@)
        + column_if(model_maps, "model_maps = ?"@)
}

/// Which columns a channel update sets: name, API keys, endpoints, model
/// mappings, in that order; an update that sets none is refused (400
/// `没有需要更新的字段`).
pub fn channel_update_columns(name: bool, api_keys: bool, endpoints: bool, model_maps: bool) -> (r: Result<Vec<&'static str>, ApiError>)
    ensures
        !(name || api_keys || endpoints || model_maps) <==> r is Err,
        r matches Err(e) ==> e.status == 400 && e.message@ == "没有需要更新的字段"@,
        r matches Ok(c) ==> c@.map_values(|s: &'static str| s@) == channel_columns_spec(name, api_keys, endpoints, model_maps),
{
    let mut cols: Vec<&'static str> = Vec::new();
    if name {
        cols.push("name = ?");
    }
    assert(cols@.map_values(|s: &'static str| s@) =~= column_if(name, "name = ?"@));
    let ghost c1 = cols@.map_values(|s: &'static str| s@);
    if api_keys {
        cols.push("api_keys = ?");
    }
    assert(cols@.map_values(|s: &'static str| s@) =~= c1 + column_if(api_keys, "api_keys = ?"@));
    let ghost c2 = cols@.map_values(|s: &'static str| s@);
    if endpoints {
        cols.push("endpoints = ?");
    }
    assert(cols@.map_values(|s: &'static str| s@) =~= c2 + column_if(endpoints, "endpoints = ?"@));
    let ghost c3 = cols@.map_values(|s: &'static str| s@);
    if model_maps {
        cols.push("model_maps = ?");
    }
    assert(cols@.map_values(|s: &'static str| s@) =~= c3 + column_if(model_maps, "model_maps = ?"@));
    if cols.len() == 0 {
        return Err(bad_request("没有需要更新的字段"));
    }
    Ok(cols)
}

/// A group as the admin API shows it.
#[derive(Debug, Clone)]
pub struct Group {
    pub id: String,
    pub name: String,
    pub match_regex: Option<String>,
    pub retry_enabled: bool,
    pub max_retries: i32,
    pub first_token_timeout_secs: i32,
    pub enabled: bool,
    pub items: Vec<GroupItem>,
    pub created_at: String,
    pub updated_at: String,
}

/// A group member as the admin API shows it.
#[derive(Debug, Clone)]
pub struct GroupItem {
    pub id: String,
    pub channel_id: String,
    pub model_name: String,
    pub priority: i32,
    pub weight: i32,
}

/// Request to create a group with its members.
#[derive(Debug, Clone)]
pub struct CreateGroupRequest {
    pub name: String,
    pub match_regex: Option<String>,
    pub retry_enabled: Option<bool>,
    pub max_retries: Option<i32>,
    pub first_token_timeout_secs: Option<i32>,
    pub enabled: Option<bool>,
    pub items: Vec<CreateGroupItemRequest>,
}

/// A member of a group being created.
#[derive(Debug, Clone)]
pub struct CreateGroupItemRequest {
    pub channel_id: String,
    pub model_name: String,
    pub priority: Option<i32>,
    pub weight: Option<i32>,
}

/// Request to change a group.
#[derive(Debug, Clone)]
pub struct UpdateGroupRequest {
    pub name: Option<String>,
    pub match_regex: Option<String>,
    pub retry_enabled: Option<bool>,
    pub max_retries: Option<i32>,
    pub first_token_timeout_secs: Option<i32>,
    pub enabled: Option<bool>,
}

/// Request to add a member to a group.
#[derive(Debug, Clone)]
pub struct AddGroupItemRequest {
    pub channel_id: String,
    pub model_name: String,
    pub priority: Option<i32>,
    pub weight: Option<i32>,
}

/// A group needs a name (400 `分组名称不能为空`) and a member (400 `至少需要一个分组项`).
pub fn validate_create_group(req: &CreateGroupRequest) -> (r: Result<(), ApiError>)
    ensures
        req.name@.len() == 0 ==> refused(r, 400, "分组名称不能为空"@),
        req.name@.len() > 0 && req.items@.len() == 0 ==> refused(r, 400, "至少需要一个分组项"@),
        r is Ok <==> (req.name@.len() > 0 && req.items@.len() > 0),
{
    if req.name.as_str().is_empty() {
        return Err(bad_request("分组名称不能为空"));
    }
    if req.items.len() == 0 {
        return Err(bad_request("至少需要一个分组项"));
    }
    Ok(())
}

/// Stored switches of a new group, with their defaults.
#[derive(Debug, Clone, Copy, PartialEq, Eq, Structural)]
pub struct GroupSettings {
    pub retry_enabled: bool,
    pub max_retries: i32,
    pub first_token_timeout_secs: i32,
    pub enabled: bool,
}

/// The switches stored for a new group: the requested ones, else retries
/// on, 3 retries, a 30 s first-token timeout, enabled.
pub fn group_settings(req: &CreateGroupRequest) -> (r: GroupSettings)
    ensures
        r.retry_enabled == match req.retry_enabled { Some(v) => v, None => true },
        r.max_retries == match req.max_retries { Some(v) => v, None => 3 },
        r.first_token_timeout_secs == match req.first_token_timeout_secs { Some(v) => v, None => 30 },
        r.enabled == match req.enabled { Some(v) => v, None => true },
{
    GroupSettings {
        retry_enabled: match req.retry_enabled { Some(v) => v, None => true },
        max_retries: match req.max_retries { Some(v) => v, None => 3 },
        first_token_timeout_secs: match req.first_token_timeout_secs { Some(v) => v, None => 30 },
        enabled: match req.enabled { Some(v) => v, None => true },
    }
}

/// Priority of a member unless given.
pub const DEFAULT_PRIORITY: i32 = 1;

/// Weight of a member unless given.
pub const DEFAULT_WEIGHT: i32 = 100;

/// The member stored for a new group member: the requested priority and
/// weight, else priority 1 and weight 100.
pub fn group_item_from(id: String, channel_id: String, model_name: String, priority: Option<i32>, weight: Option<i32>) -> (r: GroupItem)
    ensures
        r.id == id,
        r.channel_id == channel_id,
        r.model_name == model_name,
        r.priority == match priority { Some(p) => p, None => DEFAULT_PRIORITY },
        r.weight == match weight { Some(w) => w, None => DEFAULT_WEIGHT },
{
    GroupItem {
        id,
        channel_id,
        model_name,
        priority: match priority { Some(p) => p, None => DEFAULT_PRIORITY },
        weight: match weight { Some(w) => w, None => DEFAULT_WEIGHT },
    }
}

/// The assignments of a group update: `name`, then `match_regex`; an update
/// that changes neither is refused (400 `没有需要更新的字段`).
pub fn group_update_assignments(req: &UpdateGroupRequest) -> (r: Result<Vec<Assignment>, ApiError>)
    ensures
        (req.name is None && req.match_regex is None) <==> r is Err,
        r matches Err(e) ==> e.status == 400 && e.message@ == "没有需要更新的字段"@,
        r matches Ok(a) ==> a@.len() == (if req.name is Some { 1int } else { 0 }) + (if req.match_regex is Some { 1int } else { 0 }),
        r matches Ok(a) ==> (req.name matches Some(n) ==> a@[0].0@ == "name = ?"@ && a@[0].1@ == n@),
        r matches Ok(a) ==> (req.match_regex matches Some(m) ==> a@[a@.len() - 1].0@ == "match_regex = ?"@ && a@[a@.len() - 1].1@ == m@),
{
    let mut out: Vec<Assignment> = Vec::new();
    match &req.name {
        Some(n) => out.push(("name = ?", n.clone())),
        None => {},
    }
    match &req.match_regex {
        Some(m) => out.push(("match_regex = ?", m.clone())),
        None => {},
    }
    if out.len() == 0 {
        return Err(bad_request("没有需要更新的字段"));
    }
    Ok(out)
}

/// Query of a statistics view.
#[derive(Debug, Clone, Copy)]
pub struct StatsQuery {
    pub days: Option<i32>,
}

/// Days a statistics view covers: the requested number, else 30.
pub fn stats_days(q: &StatsQuery) -> (r: i32)
    ensures
        r == match q.days { Some(d) => d, None => 30 },
{
    match q.days {
        Some(d) => d,
        None => 30,
    }
}

/// One channel tried while serving a request.
#[derive(Debug, Clone)]
pub struct ChannelAttempt {
    pub channel_id: String,
    pub channel_name: Option<String>,
    pub status: String,
    pub duration_ms: i64,
    pub error: Option<String>,
}

} // verus!
