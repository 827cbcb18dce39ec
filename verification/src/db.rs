//! Schema migrations: their ordered list, and which of them a database that
//! has applied some versions still has to run.
use vstd::prelude::*;

verus! {

/// A runtime setting as the admin API shows it.
#[derive(Debug, Clone)]
pub struct SettingItem {
    pub key: String,
    pub category: String,
    pub value: String,
    pub description: Option<String>,
}

/// A schema migration: its version, name and SQL.
#[derive(Debug, Clone, Copy)]
pub struct Migration {
    pub version: i32,
    pub name: &'static str,
    pub sql: &'static str,
}

pub const CREATE_USERS: &'static str = r#"
            CREATE TABLE IF NOT EXISTS users (
                id TEXT PRIMARY KEY,
                username TEXT NOT NULL UNIQUE,
                password_hash TEXT NOT NULL,
                created_at TIMESTAMP NOT NULL DEFAULT CURRENT_TIMESTAMP,
                updated_at TIMESTAMP NOT NULL DEFAULT CURRENT_TIMESTAMP
            )
            "#;

pub const CREATE_CHANNELS: &'static str = r#"
            CREATE TABLE IF NOT EXISTS channels (
                id TEXT PRIMARY KEY,
                name TEXT NOT NULL UNIQUE,
                api_keys TEXT NOT NULL DEFAULT '[]',
                endpoints TEXT NOT NULL DEFAULT '[]',
                model_maps TEXT NOT NULL DEFAULT '{}',
                rate_limit_rpm INTEGER,
                rate_limit_tpm INTEGER,
                failure_threshold INTEGER NOT NULL DEFAULT 3,
                blacklist_minutes INTEGER NOT NULL DEFAULT 10,
                concurrency INTEGER NOT NULL DEFAULT 10,
                enabled BOOLEAN NOT NULL DEFAULT TRUE,
                created_at TIMESTAMP NOT NULL DEFAULT CURRENT_TIMESTAMP,
                updated_at TIMESTAMP NOT NULL DEFAULT CURRENT_TIMESTAMP
            )
            "#;

pub const CREATE_API_KEYS: &'static str = r#"
            CREATE TABLE IF NOT EXISTS api_keys (
                id TEXT PRIMARY KEY,
                name TEXT NOT NULL,
                api_key TEXT NOT NULL UNIQUE,
                enabled BOOLEAN NOT NULL DEFAULT TRUE,
                created_at TIMESTAMP NOT NULL DEFAULT CURRENT_TIMESTAMP,
                updated_at TIMESTAMP NOT NULL DEFAULT CURRENT_TIMESTAMP
            )
            "#;

pub const CREATE_GROUPS: &'static str = r#"
            CREATE TABLE IF NOT EXISTS groups (
                id TEXT PRIMARY KEY,
                name TEXT NOT NULL UNIQUE,
                match_regex TEXT,
                retry_enabled BOOLEAN NOT NULL DEFAULT TRUE,
                max_retries INTEGER NOT NULL DEFAULT 3,
                first_token_timeout_secs INTEGER NOT NULL DEFAULT 30,
                enabled BOOLEAN NOT NULL DEFAULT TRUE,
                created_at TIMESTAMP NOT NULL DEFAULT CURRENT_TIMESTAMP,
                updated_at TIMESTAMP NOT NULL DEFAULT CURRENT_TIMESTAMP
            )
            "#;

pub const CREATE_GROUP_ITEMS: &'static str = r#"
            CREATE TABLE IF NOT EXISTS group_items (
                id TEXT PRIMARY KEY,
                group_id TEXT NOT NULL REFERENCES groups(id) ON DELETE CASCADE,
                channel_id TEXT NOT NULL REFERENCES channels(id) ON DELETE CASCADE,
                model_name TEXT NOT NULL,
                priority INTEGER NOT NULL DEFAULT 1,
                weight INTEGER NOT NULL DEFAULT 100,
                created_at TIMESTAMP NOT NULL DEFAULT CURRENT_TIMESTAMP,
                UNIQUE(group_id, channel_id, model_name)
            )
            "#;

pub const CREATE_MODEL_PRICING: &'static str = r#"
            CREATE TABLE IF NOT EXISTS model_pricing (
                id TEXT PRIMARY KEY,
                model TEXT NOT NULL UNIQUE,
                input_per_million REAL NOT NULL,
                output_per_million REAL NOT NULL,
                cache_read_per_million REAL,
                cache_creation_per_million REAL,
                source TEXT NOT NULL DEFAULT 'manual',
                updated_at TIMESTAMP NOT NULL DEFAULT CURRENT_TIMESTAMP
            )
            "#;

pub const CREATE_USAGE_LOGS: &'static str = r#"
            CREATE TABLE IF NOT EXISTS usage_logs (
                id TEXT PRIMARY KEY,
                api_key_id TEXT REFERENCES api_keys(id),
                channel_id TEXT REFERENCES channels(id),
                group_id TEXT REFERENCES groups(id),
                requested_model TEXT NOT NULL,
                actual_model TEXT,
                input_tokens INTEGER NOT NULL DEFAULT 0,
                output_tokens INTEGER NOT NULL DEFAULT 0,
                cache_read_tokens INTEGER NOT NULL DEFAULT 0,
                cache_creation_tokens INTEGER NOT NULL DEFAULT 0,
                cost REAL,
                latency_ms INTEGER,
                status_code INTEGER,
                error_message TEXT,
                created_at TIMESTAMP NOT NULL DEFAULT CURRENT_TIMESTAMP
            )
            "#;

pub const CREATE_USAGE_DAILY: &'static str = r#"
            CREATE TABLE IF NOT EXISTS usage_daily (
                id TEXT PRIMARY KEY,
                date TEXT NOT NULL,
                api_key_id TEXT REFERENCES api_keys(id),
                channel_id TEXT REFERENCES channels(id),
                group_id TEXT REFERENCES groups(id),
                model TEXT NOT NULL,
                request_count INTEGER NOT NULL DEFAULT 0,
                success_count INTEGER NOT NULL DEFAULT 0,
                failure_count INTEGER NOT NULL DEFAULT 0,
                input_tokens INTEGER NOT NULL DEFAULT 0,
                output_tokens INTEGER NOT NULL DEFAULT 0,
                cache_read_tokens INTEGER NOT NULL DEFAULT 0,
                cache_creation_tokens INTEGER NOT NULL DEFAULT 0,
                total_cost REAL NOT NULL DEFAULT 0,
                created_at TIMESTAMP NOT NULL DEFAULT CURRENT_TIMESTAMP,
                UNIQUE(date, api_key_id, channel_id, group_id, model)
            )
            "#;

pub const CREATE_SETTINGS: &'static str = r#"
            CREATE TABLE IF NOT EXISTS settings (
                key TEXT PRIMARY KEY,
                category TEXT NOT NULL DEFAULT 'general',
                value TEXT NOT NULL,
                description TEXT,
                updated_at TIMESTAMP NOT NULL DEFAULT CURRENT_TIMESTAMP
            );

            INSERT OR IGNORE INTO settings (key, category, value, description) VALUES
                ('scheduler.top_k', 'scheduler', '7', 'Top-K 候选数量'),
                ('scheduler.score_weights', 'scheduler', '{"priority":1.0,"load":1.0,"queue":0.7,"error_rate":0.8,"ttft":0.5}', '评分权重'),
                ('sticky_session.enabled', 'sticky_session', 'true', '是否启用粘性会话'),
                ('sticky_session.ttl_seconds', 'sticky_session', '3600', '会话保持时间（秒）'),
                ('stats.log_detail_mode', 'stats', 'failures_only', '日志模式：all/failures_only/none'),
                ('stats.cost.source', 'stats', 'models.dev', '成本数据源'),
                ('stats.cost.refresh_interval_hours', 'stats', '24', '成本数据刷新间隔（小时）');
            "#;

/// Names of the migrations, in version order.
pub open spec fn migration_names() -> Seq<Seq<char>> {
    seq!["create_users"@, "create_channels"@, "create_api_keys"@, "create_groups"@, "create_group_items"@, "create_model_pricing"@, "create_usage_logs"@, "create_usage_daily"@, "create_settings"@]
}

/// SQL of the migrations, in version order.
pub open spec fn migration_sqls() -> Seq<Seq<char>> {
    seq![CREATE_USERS@, CREATE_CHANNELS@, CREATE_API_KEYS@, CREATE_GROUPS@, CREATE_GROUP_ITEMS@, CREATE_MODEL_PRICING@, CREATE_USAGE_LOGS@, CREATE_USAGE_DAILY@, CREATE_SETTINGS@]
}

/// All migrations, in version order: version `i + 1` is the `i`-th name and SQL.
pub fn get_migrations() -> (r: Vec<Migration>)
    ensures
        r@.len() == 9,
        forall|i: int| 0 <= i < 9 ==> (#[trigger] r@[i]).version == i + 1
            && r@[i].name@ == migration_names()[i] && r@[i].sql@ == migration_sqls()[i],
{
    vec![
        Migration { version: 1, name: "create_users", sql: CREATE_USERS },
        Migration { version: 2, name: "create_channels", sql: CREATE_CHANNELS },
        Migration { version: 3, name: "create_api_keys", sql: CREATE_API_KEYS },
        Migration { version: 4, name: "create_groups", sql: CREATE_GROUPS },
        Migration { version: 5, name: "create_group_items", sql: CREATE_GROUP_ITEMS },
        Migration { version: 6, name: "create_model_pricing", sql: CREATE_MODEL_PRICING },
        Migration { version: 7, name: "create_usage_logs", sql: CREATE_USAGE_LOGS },
        Migration { version: 8, name: "create_usage_daily", sql: CREATE_USAGE_DAILY },
        Migration { version: 9, name: "create_settings", sql: CREATE_SETTINGS },
    ]
}

/// The migrations of `ms` whose version is not in `applied`, in their order.
pub open spec fn pending_spec(ms: Seq<Migration>, applied: Seq<i32>) -> Seq<Migration>
    decreases ms.len(),
{
    if ms.len() == 0 {
        Seq::empty()
    } else {
        let rest = pending_spec(ms.drop_last(), applied);
        if applied.contains(ms.last().version) {
            rest
        } else {
            rest.push(ms.last())
        }
    }
}

fn version_applied(applied: &Vec<i32>, version: i32) -> (r: bool)
    ensures
        r == applied@.contains(version),
{
    let mut i: usize = 0;
    while i < applied.len()
        invariant
            0 <= i <= applied@.len(),
            forall|j: int| 0 <= j < i ==> applied@[j] != version,
        decreases applied@.len() - i,
    {
        if applied[i] == version {
            return true;
        }
        i = i + 1;
    }
    false
}

/// The migrations still to run on a database that has applied `applied`.
pub fn pending_migrations(ms: &Vec<Migration>, applied: &Vec<i32>) -> (r: Vec<Migration>)
    ensures
        r@ == pending_spec(ms@, applied@),
{
    let mut out: Vec<Migration> = Vec::new();
    let mut i: usize = 0;
    while i < ms.len()
        invariant
            0 <= i <= ms@.len(),
            out@ == pending_spec(ms@.subrange(0, i as int), applied@),
        decreases ms@.len() - i,
    {
        let m = ms[i];
        assert(ms@.subrange(0, i + 1).drop_last() =~= ms@.subrange(0, i as int));
        if !version_applied(applied, m.version) {
            out.push(m);
        }
        i = i + 1;
    }
    assert(ms@.subrange(0, ms@.len() as int) =~= ms@);
    out
}

/// A migration is run exactly when it is listed and its version has not been
/// applied.
pub proof fn lemma_pending_exactly(ms: Seq<Migration>, applied: Seq<i32>, m: Migration)
    ensures
        pending_spec(ms, applied).contains(m) <==> (ms.contains(m) && !applied.contains(m.version)),
    decreases ms.len(),
{
    if ms.len() > 0 {
        lemma_pending_exactly(ms.drop_last(), applied, m);
        assert(ms =~= ms.drop_last().push(ms.last()));
        let rest = pending_spec(ms.drop_last(), applied);
        if !applied.contains(ms.last().version) {
            assert(rest.push(ms.last()).contains(m) <==> (rest.contains(m) || m == ms.last())) by {
                if rest.push(ms.last()).contains(m) {
                    let k = choose|k: int| 0 <= k < rest.len() + 1 && rest.push(ms.last())[k] == m;
                    if k < rest.len() {
                        assert(rest[k] == m);
                    }
                }
                if rest.contains(m) {
                    let k = choose|k: int| 0 <= k < rest.len() && rest[k] == m;
                    assert(rest.push(ms.last())[k] == m);
                }
                if m == ms.last() {
                    assert(rest.push(ms.last())[rest.len() as int] == m);
                }
            }
        }
        assert(ms.contains(m) <==> (ms.drop_last().contains(m) || m == ms.last())) by {
            if ms.contains(m) {
                let k = choose|k: int| 0 <= k < ms.len() && ms[k] == m;
                if k < ms.len() - 1 {
                    assert(ms.drop_last()[k] == m);
                }
            }
            if ms.drop_last().contains(m) {
                let k = choose|k: int| 0 <= k < ms.len() - 1 && ms.drop_last()[k] == m;
                assert(ms[k] == m);
            }
            if m == ms.last() {
                assert(ms[ms.len() - 1] == m);
            }
        }
    }
}

/// Migrating twice changes nothing the second time: once a run has
/// recorded the version of every migration it ran, and forgotten none
/// recorded before, every migration is recorded and a second run finds
/// none to run.
pub proof fn lemma_second_run_runs_nothing(ms: Seq<Migration>, applied: Seq<i32>, recorded: Seq<i32>)
    requires
        forall|k: int| 0 <= k < pending_spec(ms, applied).len() ==> recorded.contains(#[trigger] pending_spec(ms, applied)[k].version),
        forall|v: i32| applied.contains(v) ==> #[trigger] recorded.contains(v),
    ensures
        forall|k: int| 0 <= k < ms.len() ==> recorded.contains(#[trigger] ms[k].version),
        pending_spec(ms, recorded).len() == 0,
{
    assert forall|k: int| 0 <= k < ms.len() implies recorded.contains(#[trigger] ms[k].version) by {
        let m = ms[k];
        assert(ms.contains(m));
        lemma_pending_exactly(ms, applied, m);
        if !applied.contains(m.version) {
            let p = pending_spec(ms, applied);
            let j = choose|j: int| 0 <= j < p.len() && p[j] == m;
            assert(recorded.contains(p[j].version));
        }
    }
    let p2 = pending_spec(ms, recorded);
    if p2.len() > 0 {
        let m = p2[0];
        assert(p2.contains(m));
        lemma_pending_exactly(ms, recorded, m);
        let k = choose|k: int| 0 <= k < ms.len() && ms[k] == m;
        assert(recorded.contains(ms[k].version));
    }
}

} // verus!
