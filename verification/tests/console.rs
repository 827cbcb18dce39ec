use galaxy_proxy::static_files::{asset_path, serve, AssetReply, StaticAssets, CACHE_IMMUTABLE};
use galaxy_proxy::tasks::{aggregation_due, CleanupTask, PricingRefresher, Scheduler};

fn console() -> StaticAssets {
    StaticAssets::new(vec![
        ("index.html".to_string(), b"<html>".to_vec()),
        ("assets/app.js".to_string(), b"js".to_vec()),
    ])
}

#[test]
fn request_paths_to_files() {
    assert_eq!(asset_path("/api/stats"), None);
    assert_eq!(asset_path("/v1/chat"), None);
    assert_eq!(asset_path("/"), Some("index.html".to_string()));
    assert_eq!(asset_path(""), Some("index.html".to_string()));
    assert_eq!(asset_path("/settings/keys"), Some("index.html".to_string()));
    assert_eq!(asset_path("//assets/app.js"), Some("assets/app.js".to_string()));
}

#[test]
fn console_files_served_with_headers() {
    let assets = console();
    assert_eq!(assets.get("assets/app.js"), Some(&b"js".to_vec()));
    match serve(&assets, "/assets/app.js") {
        AssetReply::File { file, content_type, cache_control } => {
            assert_eq!(file, 1);
            assert_eq!(content_type, "text/javascript");
            assert_eq!(cache_control, CACHE_IMMUTABLE);
        },
        other => panic!("unexpected {:?}", other),
    }
    match serve(&assets, "/") {
        AssetReply::File { file, content_type, cache_control } => {
            assert_eq!(file, 0);
            assert_eq!(content_type, "text/html");
            assert_eq!(cache_control, "no-cache");
        },
        other => panic!("unexpected {:?}", other),
    }
    assert!(matches!(serve(&assets, "/missing.png"), AssetReply::Page { file: 0 }));
    assert!(matches!(serve(&assets, "/api/x"), AssetReply::NotFound));
    let empty = StaticAssets::new(vec![]);
    assert!(matches!(serve(&empty, "/missing.png"), AssetReply::NotFound));
    assert!(matches!(serve(&empty, "/"), AssetReply::NotFound));
}

#[test]
fn background_tasks() {
    let s = Scheduler::new(5u8);
    assert_eq!(*s.lb_state(), 5);
    assert_eq!(s.period_secs(), 60);
    assert_eq!(s.tick_tasks(), vec![CleanupTask::ExpiredSessions, CleanupTask::ExpiredBlacklists]);
    let r = PricingRefresher::new((), "cache.json".to_string(), vec!["openai".to_string()], 6);
    assert_eq!(r.period_secs(), 6 * 3600);
    assert_eq!(r.cache_path(), "cache.json");
    assert_eq!(r.providers(), &vec!["openai".to_string()]);
    assert!(aggregation_due(2, 15));
    assert!(!aggregation_due(3, 0));
}
