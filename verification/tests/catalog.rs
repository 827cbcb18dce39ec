use galaxy_proxy::catalog::{available_models, channel_model_names};
use galaxy_proxy::cost::{base_model, cost_pricing, get_all_pricing, get_pricing, PricingSource};

fn strings(v: &[&str]) -> Vec<String> {
    v.iter().map(|s| s.to_string()).collect()
}

#[test]
fn declared_channel_models() {
    assert_eq!(channel_model_names(r#"["a", 1, "b"]"#), strings(&["a", "b"]));
    assert_eq!(channel_model_names(r#"{"available_models": ["x", "y"]}"#), strings(&["x", "y"]));
    assert!(channel_model_names(r#"{"other": []}"#).is_empty());
    assert!(channel_model_names("garbage").is_empty());
}

#[test]
fn catalog_lists_each_model_once() {
    let groups = strings(&["fast", "smart"]);
    let channels = strings(&[r#"["gpt-4", "fast"]"#, r#"{"available_models": ["gpt-4", "sonnet"]}"#]);
    assert_eq!(available_models(&groups, &channels), strings(&["fast", "smart", "gpt-4", "sonnet"]));
}

#[test]
fn base_model_drops_the_last_suffix() {
    assert_eq!(base_model("gpt-4-0613"), "gpt-4");
    assert_eq!(base_model("gpt4"), "gpt4");
    assert_eq!(base_model("x-"), "x");
    assert_eq!(base_model("-x"), "");
}

#[test]
fn pricing_lookup_order() {
    let local = strings(&["gpt-4"]);
    let remote = strings(&["gpt-4", "sonnet-3", "gpt-4o-mini"]);
    assert_eq!(get_pricing("gpt-4", &local, &remote), Some(PricingSource::Local(0)));
    assert_eq!(get_pricing("sonnet-3", &local, &remote), Some(PricingSource::Remote(1)));
    assert_eq!(get_pricing("sonnet-3-opus", &local, &remote), None);
    assert_eq!(cost_pricing("sonnet-3-opus", &local, &remote), Some(PricingSource::Remote(1)));
    assert_eq!(cost_pricing("gpt-4o-mini-2024", &local, &remote), Some(PricingSource::Remote(0)));
    assert_eq!(cost_pricing("gpt-4o-mini-2024", &local, &strings(&["sonnet-3", "gpt-4o-mini"])), Some(PricingSource::Remote(1)));
    assert_eq!(cost_pricing("llama", &local, &remote), None);
    assert_eq!(
        get_all_pricing(&local, &remote),
        vec![PricingSource::Local(0), PricingSource::Remote(1), PricingSource::Remote(2)]
    );
}
