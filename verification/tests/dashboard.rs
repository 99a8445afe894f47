use std::time::{Duration, Instant};

use headroom_stats::counts::CountTable;
use headroom_stats::dashboard::{
    cache_figures, model_cost_entry, model_rows, refresh_info, router_figures, summary_figures,
    summary_panel, title_text, toin_figures, SummaryPanel,
};
use headroom_stats::json::{jval_u64, lookup_path, Json, JsonNumber};
use headroom_stats::model::{LatencyStats, RequestStats, RouterStats, StatsResponse, TokenStats};
use headroom_stats::state::{event_from_fetch, App, AppEvent, KeyInput};

fn num(n: u64) -> Json {
    Json::Number(JsonNumber::PosInt(n))
}

fn obj(members: Vec<(&str, Json)>) -> Json {
    Json::Object(members.into_iter().map(|(k, v)| (k.to_string(), v)).collect())
}

fn table(entries: &[(&str, u64)]) -> CountTable {
    let mut t = CountTable::new();
    for (k, v) in entries {
        t.insert(k.to_string(), *v);
    }
    t
}

fn report() -> StatsResponse {
    StatsResponse {
        requests: RequestStats {
            total: 10,
            cached: 2,
            failed: 1,
            rate_limited: 0,
            by_model: table(&[("model-sonnet-4", 6), ("model-3-5-haiku", 3), ("mystery", 1)]),
        },
        tokens: TokenStats { input: 5000, output: 800, saved: 1200, savings_percent_bits: 24.0f64.to_bits() },
        overhead: LatencyStats {
            average_ms_bits: 120.0f64.to_bits(),
            min_ms_bits: 3.0f64.to_bits(),
            max_ms_bits: 900.0f64.to_bits(),
        },
        prefix_cache: obj(vec![(
            "totals",
            obj(vec![("cache_read_tokens", num(4200)), ("cache_write_tokens", num(300))]),
        )]),
        router: RouterStats {
            route_counts: table(&[
                ("cache_hit", 5),
                ("cache_miss", 3),
                ("excluded_tool", 2),
                ("small", 7),
                ("ratio_too_high", 1),
                ("content_blocks", 99),
            ]),
        },
        toin: obj(vec![("patterns_tracked", num(12)), ("total_compressions", num(40))]),
        compressions_by_strategy: CountTable::new(),
        tokens_saved_by_strategy: CountTable::new(),
        cost: obj(vec![(
            "per_model",
            obj(vec![(
                "model-sonnet-4",
                obj(vec![("tokens_sent", num(3000)), ("tokens_saved", num(900))]),
            )]),
        )]),
    }
}

#[test]
fn json_paths_follow_members() {
    let v = obj(vec![("a", obj(vec![("b", num(7)), ("neg", Json::Number(JsonNumber::NegInt(-3)))]))]);
    assert_eq!(jval_u64(&v, "a.b"), 7);
    assert_eq!(jval_u64(&v, "a.missing"), 0);
    assert_eq!(jval_u64(&v, "a.neg"), 0);
    assert_eq!(jval_u64(&v, "a"), 0);
    assert_eq!(jval_u64(&v, "a.b.c"), 0);
    assert_eq!(jval_u64(&v, ""), 0);
    assert!(lookup_path(&v, "a").is_some());
    assert!(lookup_path(&v, "a.").is_none());
}

#[test]
fn json_float_is_not_a_u64() {
    let v = obj(vec![("x", Json::Number(JsonNumber::Float(5.0f64.to_bits())))]);
    assert_eq!(jval_u64(&v, "x"), 0);
}

#[test]
fn json_get_on_non_objects_is_nothing() {
    assert!(Json::Null.get("a").is_none());
    assert!(Json::Array(vec![num(1)]).get("0").is_none());
    assert!(num(3).as_u64() == Some(3));
    assert!(Json::Bool(true).as_u64().is_none());
}

#[test]
fn json_path_composes() {
    let v = obj(vec![("p", obj(vec![("q", obj(vec![("r", num(11))]))]))]);
    let inner = lookup_path(&v, "p").unwrap();
    assert_eq!(jval_u64(&v, "p.q.r"), jval_u64(inner, "q.r"));
    assert_eq!(jval_u64(&v, "p.q.r"), 11);
}

#[test]
fn count_table_insert_and_get() {
    let mut t = CountTable::new();
    assert_eq!(t.get("a"), None);
    t.insert("a".to_string(), 1);
    t.insert("b".to_string(), 2);
    t.insert("a".to_string(), 5);
    assert_eq!(t.get("a"), Some(5));
    assert_eq!(t.get("b"), Some(2));
    assert_eq!(t.names().len(), 2);
}

#[test]
fn summary_subtracts_saved_tokens() {
    let s = report();
    let f = summary_figures(&s);
    assert_eq!((f.requests, f.cached, f.failed, f.rate_limited), (10, 2, 1, 0));
    assert_eq!((f.tokens_in, f.tokens_out, f.tokens_saved), (5000, 3800, 1200));
}

#[test]
fn tokens_out_saturates_at_zero() {
    let mut s = report();
    s.tokens.saved = 9000;
    assert_eq!(summary_figures(&s).tokens_out, 0);
}

#[test]
fn model_rows_are_sorted_with_costs_and_prices() {
    let s = report();
    let rows = model_rows(&s);
    let names: Vec<&str> = rows.iter().map(|r| r.model.as_str()).collect();
    assert_eq!(names, vec!["model-3-5-haiku", "model-sonnet-4", "mystery"]);
    assert_eq!(rows[0].requests, 3);
    assert_eq!((rows[0].tokens_sent, rows[0].tokens_saved), (0, 0));
    assert_eq!(rows[0].price_cents_per_mtok, Some(80));
    assert_eq!(rows[1].requests, 6);
    assert_eq!((rows[1].tokens_sent, rows[1].tokens_saved), (3000, 900));
    assert_eq!(rows[1].price_cents_per_mtok, Some(300));
    assert_eq!(rows[2].price_cents_per_mtok, None);
    assert!(model_cost_entry(&s.cost, "model-sonnet-4").is_some());
    assert!(model_cost_entry(&s.cost, "mystery").is_none());
}

#[test]
fn cache_router_and_toin_figures() {
    let s = report();
    let c = cache_figures(&s.prefix_cache);
    assert_eq!((c.read_tokens, c.write_tokens), (4200, 300));
    let r = router_figures(&s.router);
    assert_eq!((r.compressed, r.excluded, r.small, r.unchanged, r.total), (8, 2, 7, 1, 18));
    assert_eq!(r.compressed + r.excluded + r.small + r.unchanged, r.total);
    let t = toin_figures(&s.toin);
    assert_eq!((t.patterns, t.compressions, t.retrievals), (12, 40, 0));
}

#[test]
fn router_with_no_counts() {
    let r = router_figures(&RouterStats { route_counts: CountTable::new() });
    assert_eq!((r.compressed, r.total), (0, 0));
}

#[test]
fn app_starts_loading() {
    let app = App::new("http://localhost:8787".to_string(), Duration::from_secs(5));
    assert!(app.stats.is_none() && app.last_error.is_none() && !app.should_quit);
    assert_eq!(app.since_refresh(), "loading…");
    assert!(matches!(summary_panel(&app), SummaryPanel::Connecting));
    assert_eq!(title_text(&app), " Headroom Stats  http://localhost:8787");
}

#[test]
fn error_event_keeps_the_last_report() {
    let mut app = App::new("http://h".to_string(), Duration::from_secs(5));
    app.handle_event(AppEvent::Stats(report()));
    assert!(app.stats.is_some() && app.last_error.is_none());
    assert_eq!(app.since_refresh(), "0s ago");
    app.handle_event(AppEvent::Error("refused".to_string()));
    assert_eq!(app.stats.as_ref().unwrap().requests.total, 10);
    assert_eq!(app.last_error.as_deref(), Some("refused"));
    assert!(matches!(summary_panel(&app), SummaryPanel::Figures(_)));
    assert_eq!(title_text(&app), " Headroom Stats  http://h  [ERR]");
    app.handle_event(AppEvent::Stats(report()));
    assert!(app.last_error.is_none());
}

#[test]
fn error_before_any_report() {
    let mut app = App::new("http://h".to_string(), Duration::from_secs(5));
    app.handle_event_at(event_from_fetch(Err("down".to_string())), Instant::now());
    match summary_panel(&app) {
        SummaryPanel::ConnectionError(e) => assert_eq!(e, "down"),
        _ => panic!("expected the connection error"),
    }
}

#[test]
fn keys_quit_and_refresh() {
    let mut app = App::new("http://h".to_string(), Duration::from_secs(5));
    assert!(!app.handle_key(KeyInput::Char('x'), true));
    assert!(app.handle_key(KeyInput::Char('r'), true));
    assert!(app.handle_key(KeyInput::Char('R'), true));
    assert!(!app.handle_key(KeyInput::Char('r'), false));
    assert!(!app.handle_key(KeyInput::Char('q'), false));
    assert!(!app.should_quit);
    assert!(!app.handle_key(KeyInput::Esc, true));
    assert!(app.should_quit);
    app.handle_key(KeyInput::Other, true);
    app.handle_event(AppEvent::Error("e".to_string()));
    assert!(app.should_quit);
}

#[test]
fn q_and_capital_q_quit() {
    for k in ['q', 'Q'] {
        let mut app = App::new("http://h".to_string(), Duration::from_secs(5));
        app.handle_key(KeyInput::Char(k), true);
        assert!(app.should_quit);
    }
}

#[test]
fn refresh_info_shows_interval_and_age() {
    assert_eq!(refresh_info(5, "3s ago"), "  ↻5s  3s ago");
}
