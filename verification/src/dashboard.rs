//! The figures that each panel of the dashboard shows, computed from one
//! statistics report.

use vstd::prelude::*;
use crate::counts::CountTable;
use crate::json::{deref_json, json_get, jval_u64, u64_at_path, Json};
use crate::model::{RouterStats, StatsResponse};
use crate::state::App;
use crate::digits::{decimal, u64_to_decimal};
use vstd::string::StringExecFns;
use crate::pricing::{lowercase_chars, model_price_per_mtok, price_cents_for};
use crate::text::{chars_less, sort_distinct};

verus! {

/// The count under `name`, or 0 where the table has no such name.
pub open spec fn count_or_zero(t: Map<Seq<char>, u64>, name: Seq<char>) -> u64 {
    if t.contains_key(name) {
        t[name]
    } else {
        0
    }
}

fn count_of(t: &CountTable, name: &str) -> (r: u64)
    ensures
        r == count_or_zero(t@, name@),
{
    match t.get(name) {
        Some(n) => n,
        None => 0,
    }
}

/// The figures of the summary panel.
pub struct SummaryFigures {
    pub requests: u64,
    pub cached: u64,
    pub failed: u64,
    pub rate_limited: u64,
    pub tokens_in: u64,
    /// The tokens sent upstream: those that came in, less those saved, and
    /// never below zero.
    pub tokens_out: u64,
    pub tokens_saved: u64,
}

/// The summary figures of a report.
pub open spec fn summary_of(stats: StatsResponse) -> SummaryFigures {
    SummaryFigures {
        requests: stats.requests.total,
        cached: stats.requests.cached,
        failed: stats.requests.failed,
        rate_limited: stats.requests.rate_limited,
        tokens_in: stats.tokens.input,
        tokens_out: if stats.tokens.input >= stats.tokens.saved {
            (stats.tokens.input - stats.tokens.saved) as u64
        } else {
            0
        },
        tokens_saved: stats.tokens.saved,
    }
}

/// The request and token counters of the summary panel.
pub fn summary_figures(stats: &StatsResponse) -> (f: SummaryFigures)
    ensures
        f == summary_of(*stats),
{
    SummaryFigures {
        requests: stats.requests.total,
        cached: stats.requests.cached,
        failed: stats.requests.failed,
        rate_limited: stats.requests.rate_limited,
        tokens_in: stats.tokens.input,
        tokens_out: stats.tokens.input.saturating_sub(stats.tokens.saved),
        tokens_saved: stats.tokens.saved,
    }
}

/// The cost report of `model`: `cost.per_model[model]`, where there is one.
pub open spec fn model_cost(cost: Json, model: Seq<char>) -> Option<Json> {
    match json_get(cost, "per_model"@) {
        Some(per_model) => json_get(per_model, model),
        None => None,
    }
}

/// The `u64` under `field` in the cost report of `model`, or 0.
pub open spec fn model_cost_u64(cost: Json, model: Seq<char>, field: Seq<char>) -> u64 {
    match model_cost(cost, model) {
        Some(report) => u64_at_path(report, field),
        None => 0,
    }
}

/// The cost report of `model` in the `cost` section of a report.
pub fn model_cost_entry<'a>(cost: &'a Json, model: &str) -> (r: Option<&'a Json>)
    ensures
        deref_json(r) == model_cost(*cost, model@),
{
    match cost.get("per_model") {
        Some(per_model) => per_model.get(model),
        None => None,
    }
}

/// One line of the per-model table.
pub struct ModelRow {
    pub model: String,
    pub requests: u64,
    pub tokens_sent: u64,
    pub tokens_saved: u64,
    /// The list input price in US cents per million tokens, if the model is
    /// known.
    pub price_cents_per_mtok: Option<u64>,
}

/// Whether `row` shows what `stats` reports of the model it names.
pub open spec fn row_reports(row: ModelRow, stats: StatsResponse) -> bool {
    let name = row.model@;
    &&& stats.requests.by_model@.contains_key(name)
    &&& row.requests == stats.requests.by_model@[name]
    &&& row.tokens_sent == model_cost_u64(stats.cost, name, "tokens_sent"@)
    &&& row.tokens_saved == model_cost_u64(stats.cost, name, "tokens_saved"@)
    &&& row.price_cents_per_mtok == price_cents_for(lowercase_chars(name))
}

fn model_row(stats: &StatsResponse, model: String) -> (row: ModelRow)
    requires
        stats.requests.by_model@.contains_key(model@),
    ensures
        row.model@ == model@,
        row_reports(row, *stats),
{
    let requests = count_of(&stats.requests.by_model, model.as_str());
    let (tokens_sent, tokens_saved) = match model_cost_entry(&stats.cost, model.as_str()) {
        Some(report) => (jval_u64(report, "tokens_sent"), jval_u64(report, "tokens_saved")),
        None => (0, 0),
    };
    let price = model_price_per_mtok(model.as_str());
    ModelRow { model, requests, tokens_sent, tokens_saved, price_cents_per_mtok: price }
}

/// The lines of the per-model table: one for each model that served
/// requests, in ascending order of name.
pub fn model_rows(stats: &StatsResponse) -> (rows: Vec<ModelRow>)
    ensures
        forall|i: int, j: int|
            0 <= i < j < rows@.len() ==> chars_less((#[trigger] rows@[i]).model@, (#[trigger] rows@[j]).model@),
        forall|name: Seq<char>|
            stats.requests.by_model@.contains_key(name) <==> exists|i: int|
                0 <= i < rows@.len() && (#[trigger] rows@[i]).model@ == name,
        forall|i: int| 0 <= i < rows@.len() ==> row_reports(#[trigger] rows@[i], *stats),
{
    let all = stats.requests.by_model.names();
    proof {
        assert forall|name: Seq<char>| stats.requests.by_model@.contains_key(name)
            implies crate::text::holds_text(all@, name) by {
            let j = choose|j: int| 0 <= j < all@.len() && (#[trigger] all@[j])@ == name;
        }
    }
    let ghost unsorted = all@;
    let names = sort_distinct(all);
    proof {
        assert forall|k: int| 0 <= k < names@.len() implies stats.requests.by_model@.contains_key(
            #[trigger] names@[k]@) by {
            assert(crate::text::holds_text(names@, names@[k]@));
            let j = choose|j: int| 0 <= j < all@.len() && (#[trigger] all@[j])@ == names@[k]@;
        }
    }
    let mut rows: Vec<ModelRow> = Vec::new();
    let mut i: usize = 0;
    while i < names.len()
        invariant
            i <= names@.len(),
            rows@.len() == i,
            forall|k: int| 0 <= k < names@.len() ==> stats.requests.by_model@.contains_key(
                #[trigger] names@[k]@),
            forall|k: int| 0 <= k < i ==> (#[trigger] rows@[k]).model@ == names@[k]@,
            forall|k: int| 0 <= k < i ==> row_reports(#[trigger] rows@[k], *stats),
        decreases names@.len() - i,
    {
        let row = model_row(stats, names[i].clone());
        rows.push(row);
        i += 1;
    }
    proof {
        assert forall|a: int, b: int| 0 <= a < b < rows@.len() implies chars_less(
            (#[trigger] rows@[a]).model@,
            (#[trigger] rows@[b]).model@,
        ) by {
            assert(chars_less(names@[a]@, names@[b]@));
        }
        assert forall|name: Seq<char>|
            stats.requests.by_model@.contains_key(name) <==> exists|k: int|
                0 <= k < rows@.len() && (#[trigger] rows@[k]).model@ == name by {
            if stats.requests.by_model@.contains_key(name) {
                assert(crate::text::holds_text(unsorted, name));
                assert(crate::text::holds_text(names@, name));
                let k = choose|k: int| 0 <= k < names@.len() && (#[trigger] names@[k])@ == name;
                assert(rows@[k].model@ == name);
            }
        }
    }
    rows
}

/// What the summary panel shows.
pub enum SummaryPanel {
    /// The figures of the latest report.
    Figures(SummaryFigures),
    /// No report yet, and the last attempt failed for this reason.
    ConnectionError(String),
    /// No report and no error yet.
    Connecting,
}

/// The summary panel: the latest report's figures, though an error came
/// after it; before any report, the last error, or that the dashboard is
/// still connecting.
pub fn summary_panel(app: &App) -> (p: SummaryPanel)
    ensures
        match app.stats {
            Some(stats) => p == SummaryPanel::Figures(summary_of(stats)),
            None => match app.last_error {
                Some(e) => p == SummaryPanel::ConnectionError(e),
                None => p == SummaryPanel::Connecting,
            },
        },
{
    match &app.stats {
        Some(stats) => SummaryPanel::Figures(summary_figures(stats)),
        None => match &app.last_error {
            Some(e) => SummaryPanel::ConnectionError(e.clone()),
            None => SummaryPanel::Connecting,
        },
    }
}

/// The token counts of the prefix-cache panel.
pub struct CacheFigures {
    pub read_tokens: u64,
    pub write_tokens: u64,
}

/// The tokens read from and written to the prefix cache, from the
/// `prefix_cache` section of a report.
pub fn cache_figures(prefix_cache: &Json) -> (f: CacheFigures)
    ensures
        f.read_tokens == u64_at_path(*prefix_cache, "totals.cache_read_tokens"@),
        f.write_tokens == u64_at_path(*prefix_cache, "totals.cache_write_tokens"@),
{
    CacheFigures {
        read_tokens: jval_u64(prefix_cache, "totals.cache_read_tokens"),
        write_tokens: jval_u64(prefix_cache, "totals.cache_write_tokens"),
    }
}

/// The counts of the content-router panel.
pub struct RouterFigures {
    /// Content compressed, with or without a cache hit.
    pub compressed: u64,
    pub excluded: u64,
    pub small: u64,
    pub unchanged: u64,
    /// The five routes that count, summed; meta-counts stay out.
    pub total: u64,
}

/// The sum of the five routes that the router panel counts.
pub open spec fn route_total(counts: Map<Seq<char>, u64>) -> int {
    count_or_zero(counts, "cache_hit"@) + count_or_zero(counts, "cache_miss"@)
        + count_or_zero(counts, "excluded_tool"@) + count_or_zero(counts, "small"@)
        + count_or_zero(counts, "ratio_too_high"@)
}

/// The router panel's counts from the route counters: compressed content
/// is that with a cache hit or a miss; `ratio_too_high` is content left
/// unchanged.
pub open spec fn router_of(counts: Map<Seq<char>, u64>) -> RouterFigures {
    RouterFigures {
        compressed: (count_or_zero(counts, "cache_hit"@) + count_or_zero(counts, "cache_miss"@)) as u64,
        excluded: count_or_zero(counts, "excluded_tool"@),
        small: count_or_zero(counts, "small"@),
        unchanged: count_or_zero(counts, "ratio_too_high"@),
        total: route_total(counts) as u64,
    }
}

/// The counts of the content-router panel.
pub fn router_figures(router: &RouterStats) -> (f: RouterFigures)
    requires
        route_total(router.route_counts@) <= u64::MAX,
    ensures
        f == router_of(router.route_counts@),
{
    let rc = &router.route_counts;
    let cache_hit = count_of(rc, "cache_hit");
    let cache_miss = count_of(rc, "cache_miss");
    let excluded = count_of(rc, "excluded_tool");
    let small = count_of(rc, "small");
    let unchanged = count_of(rc, "ratio_too_high");
    let total = cache_hit + cache_miss + excluded + small + unchanged;
    RouterFigures { compressed: cache_hit + cache_miss, excluded, small, unchanged, total }
}

/// The counters of the TOIN learning panel.
pub struct ToinFigures {
    pub patterns: u64,
    pub compressions: u64,
    pub retrievals: u64,
}

/// The TOIN counters, from the `toin` section of a report.
pub fn toin_figures(toin: &Json) -> (f: ToinFigures)
    ensures
        f.patterns == u64_at_path(*toin, "patterns_tracked"@),
        f.compressions == u64_at_path(*toin, "total_compressions"@),
        f.retrievals == u64_at_path(*toin, "total_retrievals"@),
{
    ToinFigures {
        patterns: jval_u64(toin, "patterns_tracked"),
        compressions: jval_u64(toin, "total_compressions"),
        retrievals: jval_u64(toin, "total_retrievals"),
    }
}

/// The title line's text: the proxy's address, marked when the last fetch
/// failed.
pub open spec fn title_chars(base_url: Seq<char>, failing: bool) -> Seq<char> {
    " Headroom Stats  "@ + base_url + if failing {
        "  [ERR]"@
    } else {
        Seq::<char>::empty()
    }
}

/// The text of the title line.
pub fn title_text(app: &App) -> (s: String)
    ensures
        s@ == title_chars(app.base_url@, app.last_error is Some),
{
    let mut s = " Headroom Stats  ".to_owned();
    s.append(app.base_url.as_str());
    if app.last_error.is_some() {
        s.append("  [ERR]");
    }
    s
}

/// The refresh note beside the title: the interval and the time since the
/// last refresh.
pub fn refresh_info(interval_secs: u64, since: &str) -> (s: String)
    ensures
        s@ == "  \u{21bb}"@ + decimal(interval_secs as nat) + "s  "@ + since@,
{
    let mut s = "  \u{21bb}".to_owned();
    let secs = u64_to_decimal(interval_secs);
    s.append(secs.as_str());
    s.append("s  ");
    s.append(since);
    s
}

} // verus!

verus! {

/// The tokens sent upstream never exceed those that came in; where no more
/// were saved than came in, sent and saved add up to what came in.
pub proof fn tokens_balance(stats: StatsResponse)
    ensures
        summary_of(stats).tokens_out <= summary_of(stats).tokens_in,
        summary_of(stats).tokens_saved <= summary_of(stats).tokens_in ==> summary_of(stats).tokens_out
            + summary_of(stats).tokens_saved == summary_of(stats).tokens_in,
{
}

/// The four lines of the router panel account for every route it counts:
/// compressed, excluded, ignored and unchanged add up to the total.
pub proof fn router_lines_add_up(counts: Map<Seq<char>, u64>)
    requires
        route_total(counts) <= u64::MAX,
    ensures
        router_of(counts).compressed + router_of(counts).excluded + router_of(counts).small
            + router_of(counts).unchanged == router_of(counts).total,
{
}

/// The per-model table names each model once: names in strictly ascending
/// order are all different.
pub proof fn ascending_rows_are_distinct(rows: Seq<ModelRow>)
    requires
        forall|i: int, j: int|
            0 <= i < j < rows.len() ==> chars_less((#[trigger] rows[i]).model@, (#[trigger] rows[j]).model@),
    ensures
        forall|i: int, j: int| 0 <= i < j < rows.len() ==> (#[trigger] rows[i]).model@ != (#[trigger] rows[j]).model@,
{
    assert forall|i: int, j: int| 0 <= i < j < rows.len() implies (#[trigger] rows[i]).model@ != (#[trigger] rows[j]).model@ by {
        crate::text::lemma_chars_less_irreflexive(rows[i].model@);
    }
}

} // verus!

verus! {

/// The summary panel shows the report's own counters, each in its place:
/// requests, cached, failed and rate-limited requests, the tokens that came
/// in and those saved; the tokens sent upstream are those that came in less
/// those saved, or none where more were saved than came in.
pub proof fn summary_counters_come_from_the_report(stats: StatsResponse)
    ensures
        summary_of(stats).requests == stats.requests.total,
        summary_of(stats).cached == stats.requests.cached,
        summary_of(stats).failed == stats.requests.failed,
        summary_of(stats).rate_limited == stats.requests.rate_limited,
        summary_of(stats).tokens_in == stats.tokens.input,
        summary_of(stats).tokens_saved == stats.tokens.saved,
        stats.tokens.saved <= stats.tokens.input ==> summary_of(stats).tokens_out + stats.tokens.saved
            == stats.tokens.input,
        stats.tokens.saved > stats.tokens.input ==> summary_of(stats).tokens_out == 0,
{
}

/// Each line of the router panel counts its own route, 0 where the route
/// never occurred: compressed is cache hits and misses together, excluded
/// is `excluded_tool`, ignored is `small`, unchanged is `ratio_too_high`.
pub proof fn router_lines_come_from_their_routes(counts: Map<Seq<char>, u64>)
    requires
        route_total(counts) <= u64::MAX,
    ensures
        router_of(counts).compressed == (if counts.contains_key("cache_hit"@) {
            counts["cache_hit"@] as int
        } else {
            0
        }) + (if counts.contains_key("cache_miss"@) {
            counts["cache_miss"@] as int
        } else {
            0
        }),
        router_of(counts).excluded == (if counts.contains_key("excluded_tool"@) {
            counts["excluded_tool"@]
        } else {
            0
        }),
        router_of(counts).small == (if counts.contains_key("small"@) {
            counts["small"@]
        } else {
            0
        }),
        router_of(counts).unchanged == (if counts.contains_key("ratio_too_high"@) {
            counts["ratio_too_high"@]
        } else {
            0
        }),
{
}

} // verus!
