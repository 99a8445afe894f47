use headroom_stats::digits::{fmt_num, u64_to_decimal};
use headroom_stats::endpoint::{endpoint_url, normalize_base_url, resolve_base_url};
use headroom_stats::pricing::{model_price_per_mtok, price_for_lowercase_name};
use headroom_stats::state::refresh_label;
use headroom_stats::text::{sort_distinct, str_contains, str_less};

#[test]
fn fmt_num_small_numbers_have_no_separator() {
    assert_eq!(fmt_num(0), "0");
    assert_eq!(fmt_num(7), "7");
    assert_eq!(fmt_num(999), "999");
}

#[test]
fn fmt_num_groups_thousands() {
    assert_eq!(fmt_num(1000), "1,000");
    assert_eq!(fmt_num(1234567), "1,234,567");
    assert_eq!(fmt_num(1000001), "1,000,001");
    assert_eq!(fmt_num(12345), "12,345");
    assert_eq!(fmt_num(100000), "100,000");
}

#[test]
fn fmt_num_largest_value() {
    assert_eq!(fmt_num(u64::MAX), "18,446,744,073,709,551,615");
}

#[test]
fn fmt_num_reads_back_as_the_number() {
    for n in [0u64, 5, 42, 999, 1000, 65536, 987654321, u64::MAX] {
        let shown = fmt_num(n);
        let digits: String = shown.chars().filter(|c| *c != ',').collect();
        assert_eq!(digits.parse::<u64>().unwrap(), n);
        assert_eq!(digits, n.to_string());
    }
}

#[test]
fn decimal_matches_to_string() {
    for n in [0u64, 9, 10, 100, 4096, u64::MAX] {
        assert_eq!(u64_to_decimal(n), n.to_string());
    }
}

#[test]
fn refresh_label_seconds_then_minutes() {
    assert_eq!(refresh_label(0), "0s ago");
    assert_eq!(refresh_label(59), "59s ago");
    assert_eq!(refresh_label(60), "1m ago");
    assert_eq!(refresh_label(119), "1m ago");
    assert_eq!(refresh_label(3600), "60m ago");
}

#[test]
fn prices_of_known_models() {
    assert_eq!(model_price_per_mtok("model-opus-4-20250514"), Some(1500));
    assert_eq!(model_price_per_mtok("model-sonnet-4-20250514"), Some(300));
    assert_eq!(model_price_per_mtok("model-haiku-4-5"), Some(100));
    assert_eq!(model_price_per_mtok("model-3-5-sonnet-20241022"), Some(300));
    assert_eq!(model_price_per_mtok("model-3-5-haiku-20241022"), Some(80));
    assert_eq!(model_price_per_mtok("model-3-opus-20240229"), None);
    assert_eq!(model_price_per_mtok("model-opus-3"), Some(1500));
    assert_eq!(model_price_per_mtok("model-sonnet3"), Some(300));
    assert_eq!(model_price_per_mtok("model-haiku-3"), Some(25));
    assert_eq!(model_price_per_mtok("gpt-4o"), None);
}

#[test]
fn price_lookup_ignores_case() {
    assert_eq!(model_price_per_mtok("Model-OPUS-4"), Some(1500));
    assert_eq!(model_price_per_mtok("MODEL-3.5-HAIKU"), Some(80));
    assert_eq!(price_for_lowercase_name("MODEL-OPUS-4"), None);
}

#[test]
fn first_family_mentioned_decides_the_price() {
    // "haiku-4" and "sonnet-3" both occur: the fourth generation is tried first
    assert_eq!(price_for_lowercase_name("haiku-4-vs-sonnet-3"), Some(100));
}

#[test]
fn contains_and_order_of_strings() {
    assert!(str_contains("model-opus-4", "opus-4"));
    assert!(str_contains("abc", ""));
    assert!(!str_contains("opu", "opus"));
    assert!(str_less("a", "b"));
    assert!(str_less("ab", "abc"));
    assert!(!str_less("abc", "abc"));
    assert!(!str_less("b", "a"));
    assert!(str_less("Z", "a"));
}

#[test]
fn sort_distinct_orders_like_string_sort() {
    let names: Vec<String> = ["sonnet", "haiku", "opus", "Opus", "haiku-4"]
        .iter()
        .map(|s| s.to_string())
        .collect();
    let mut expected = names.clone();
    expected.sort();
    assert_eq!(sort_distinct(names), expected);
}

#[test]
fn base_url_loses_trailing_slashes() {
    assert_eq!(normalize_base_url("http://localhost:8787/"), "http://localhost:8787");
    assert_eq!(normalize_base_url("http://localhost:8787///"), "http://localhost:8787");
    assert_eq!(normalize_base_url("http://h/a"), "http://h/a");
    assert_eq!(normalize_base_url("///"), "");
    assert_eq!(normalize_base_url(""), "");
}

#[test]
fn endpoint_url_appends_the_path() {
    assert_eq!(endpoint_url("http://localhost:8787", "/stats"), "http://localhost:8787/stats");
}

#[test]
fn base_url_from_args_then_env_then_default() {
    assert_eq!(
        resolve_base_url(Some("http://a".to_string()), Some("http://b".to_string())),
        "http://a"
    );
    assert_eq!(resolve_base_url(None, Some("http://b".to_string())), "http://b");
    assert_eq!(resolve_base_url(None, None), "http://localhost:8787");
}

#[test]
fn normalizing_twice_changes_nothing() {
    for url in ["http://h//", "http://h", "/", "a/b/"] {
        let once = normalize_base_url(url);
        assert_eq!(normalize_base_url(&once), once);
        assert!(!once.ends_with('/'));
        assert!(url.starts_with(once.as_str()));
    }
}
