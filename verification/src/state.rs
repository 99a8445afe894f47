//! The state of the running dashboard: the latest statistics, the latest
//! error, when the last answer came, and whether the user asked to quit.

use vstd::prelude::*;
use vstd::string::StringExecFns;
use std::time::{Duration, Instant};
use crate::digits::{decimal, u64_to_decimal};
use crate::model::StatsResponse;

verus! {

/// `std::time::Instant`, a point in time of the monotonic clock.
#[verifier::external_type_specification]
#[verifier::external_body]
pub struct ExInstant(Instant);

/// `Instant::now`. What it returns depends on the clock, so nothing is
/// claimed of it.
#[verifier::external_body]
fn instant_now() -> Instant {
    Instant::now()
}

/// `Instant::elapsed`: the time since `t`. It depends on the clock, so
/// nothing is claimed of it.
#[verifier::external_body]
fn instant_elapsed(t: &Instant) -> Duration {
    t.elapsed()
}

/// `Duration::as_secs`: the whole seconds of `d`. A `Duration` is opaque to
/// the library, so nothing is claimed of the number.
#[verifier::external_body]
fn duration_as_secs(d: &Duration) -> u64 {
    d.as_secs()
}

/// What the poller hands the dashboard: a fresh report, or why it could not
/// get one.
pub enum AppEvent {
    Stats(StatsResponse),
    Error(String),
}

/// The event for the outcome of one fetch of the statistics.
pub fn event_from_fetch(outcome: Result<StatsResponse, String>) -> (e: AppEvent)
    ensures
        match outcome {
            Ok(s) => e == AppEvent::Stats(s),
            Err(m) => e == AppEvent::Error(m),
        },
{
    match outcome {
        Ok(s) => AppEvent::Stats(s),
        Err(m) => AppEvent::Error(m),
    }
}

/// A key the user pressed, as far as the dashboard tells keys apart.
#[derive(Clone, Copy, Debug, PartialEq, Eq)]
pub enum KeyInput {
    Char(char),
    Esc,
    Other,
}

/// Whether `k` asks to quit: `q`, `Q` or Escape.
pub open spec fn is_quit_key(k: KeyInput) -> bool {
    k == KeyInput::Char('q') || k == KeyInput::Char('Q') || k == KeyInput::Esc
}

/// Whether `k` asks for a refresh now: `r` or `R`.
pub open spec fn is_refresh_key(k: KeyInput) -> bool {
    k == KeyInput::Char('r') || k == KeyInput::Char('R')
}

/// The dashboard's state.
pub struct App {
    pub base_url: String,
    pub interval: Duration,
    pub stats: Option<StatsResponse>,
    pub last_error: Option<String>,
    pub last_refresh: Option<Instant>,
    pub should_quit: bool,
}

/// The state after `event` came at the time `now`: a report replaces the
/// statistics and clears the error; an error is recorded and the last
/// statistics stay. Either way the refresh time becomes `now`.
pub open spec fn after_event(app: App, event: AppEvent, now: Instant) -> App {
    match event {
        AppEvent::Stats(s) => App {
            base_url: app.base_url,
            interval: app.interval,
            stats: Some(s),
            last_error: None,
            last_refresh: Some(now),
            should_quit: app.should_quit,
        },
        AppEvent::Error(e) => App {
            base_url: app.base_url,
            interval: app.interval,
            stats: app.stats,
            last_error: Some(e),
            last_refresh: Some(now),
            should_quit: app.should_quit,
        },
    }
}

/// The state after the key `key` was seen; `pressed` tells a press from a
/// release or a repeat, which change nothing.
pub open spec fn after_key(app: App, key: KeyInput, pressed: bool) -> App {
    App {
        base_url: app.base_url,
        interval: app.interval,
        stats: app.stats,
        last_error: app.last_error,
        last_refresh: app.last_refresh,
        should_quit: app.should_quit || (pressed && is_quit_key(key)),
    }
}

/// The label for a refresh `secs` seconds ago: seconds under a minute,
/// whole minutes from then on.
pub open spec fn elapsed_label(secs: nat) -> Seq<char> {
    if secs < 60 {
        decimal(secs) + "s ago"@
    } else {
        decimal(secs / 60) + "m ago"@
    }
}

/// Tells how long ago the last refresh was: "42s ago", "3m ago".
pub fn refresh_label(secs: u64) -> (s: String)
    ensures
        s@ == elapsed_label(secs as nat),
{
    if secs < 60 {
        let mut s = u64_to_decimal(secs);
        s.append("s ago");
        s
    } else {
        let mut s = u64_to_decimal(secs / 60);
        s.append("m ago");
        s
    }
}

impl App {
    /// A dashboard for the proxy at `base_url`, refreshed every `interval`,
    /// that has not heard from the proxy yet.
    pub fn new(base_url: String, interval: Duration) -> (app: App)
        ensures
            app.base_url == base_url,
            app.interval == interval,
            app.stats is None,
            app.last_error is None,
            app.last_refresh is None,
            !app.should_quit,
    {
        App { base_url, interval, stats: None, last_error: None, last_refresh: None, should_quit: false }
    }

    /// Takes in `event`, which came at the time `now`.
    pub fn handle_event_at(&mut self, event: AppEvent, now: Instant)
        ensures
            *final(self) == after_event(*old(self), event, now),
    {
        match event {
            AppEvent::Stats(s) => {
                self.stats = Some(s);
                self.last_error = None;
                self.last_refresh = Some(now);
            },
            AppEvent::Error(e) => {
                self.last_error = Some(e);
                self.last_refresh = Some(now);
            },
        }
    }

    /// Takes in `event`, stamped with the current time.
    pub fn handle_event(&mut self, event: AppEvent)
        ensures
            exists|now: Instant| *final(self) == after_event(*old(self), event, now),
    {
        let now = instant_now();
        self.handle_event_at(event, now);
    }

    /// Time since the last refresh, as a label; "loading…" before the first.
    pub fn since_refresh(&self) -> (s: String)
        ensures
            self.last_refresh is None ==> s@ == "loading…"@,
            self.last_refresh is Some ==> exists|secs: u64| s@ == elapsed_label(secs as nat),
    {
        match &self.last_refresh {
            Some(t) => {
                let secs = duration_as_secs(&instant_elapsed(t));
                refresh_label(secs)
            },
            None => "loading…".to_owned(),
        }
    }

    /// Takes in a key; `pressed` is false for a release or a repeat. Returns
    /// whether the user asked for a refresh now.
    pub fn handle_key(&mut self, key: KeyInput, pressed: bool) -> (refresh: bool)
        ensures
            *final(self) == after_key(*old(self), key, pressed),
            refresh == (pressed && is_refresh_key(key)),
    {
        if !pressed {
            return false;
        }
        match key {
            KeyInput::Char('q') | KeyInput::Char('Q') | KeyInput::Esc => {
                self.should_quit = true;
                false
            },
            KeyInput::Char('r') | KeyInput::Char('R') => true,
            _ => false,
        }
    }
}

} // verus!

verus! {

/// A failed fetch never throws away the statistics already shown: the last
/// report stays, and the error is recorded beside it.
pub proof fn error_keeps_last_report(app: App, reason: String, now: Instant)
    ensures
        after_event(app, AppEvent::Error(reason), now).stats == app.stats,
        after_event(app, AppEvent::Error(reason), now).last_error == Some(reason),
{
}

/// A fresh report replaces the statistics and clears any earlier error.
pub proof fn report_clears_error(app: App, report: StatsResponse, now: Instant)
    ensures
        after_event(app, AppEvent::Stats(report), now).stats == Some(report),
        after_event(app, AppEvent::Stats(report), now).last_error is None,
{
}

/// Once any answer has come, the refresh label tells a time and no longer
/// says that the dashboard is loading; events leave the address, the
/// interval and the wish to quit as they were.
pub proof fn events_keep_settings(app: App, event: AppEvent, now: Instant)
    ensures
        after_event(app, event, now).last_refresh == Some(now),
        after_event(app, event, now).base_url == app.base_url,
        after_event(app, event, now).interval == app.interval,
        after_event(app, event, now).should_quit == app.should_quit,
{
}

/// Quitting cannot be taken back: once asked for, no key and no event
/// clears it; and only a press of `q`, `Q` or Escape asks for it.
pub proof fn quit_is_sticky(app: App, key: KeyInput, pressed: bool, event: AppEvent, now: Instant)
    ensures
        app.should_quit ==> after_key(app, key, pressed).should_quit,
        app.should_quit ==> after_event(app, event, now).should_quit,
        !app.should_quit ==> (after_key(app, key, pressed).should_quit <==> pressed && is_quit_key(key)),
{
}

} // verus!

verus! {

/// Only `q`, `Q` and Escape quit, and only when pressed; only `r` and `R`
/// ask for a refresh. Any other key, pressed or not, changes nothing.
pub proof fn keys_do_what_they_say(app: App, key: KeyInput, pressed: bool)
    ensures
        after_key(app, key, pressed).should_quit == (app.should_quit || (pressed && (key
            == KeyInput::Char('q') || key == KeyInput::Char('Q') || key == KeyInput::Esc))),
        is_refresh_key(key) <==> (key == KeyInput::Char('r') || key == KeyInput::Char('R')),
        !(key == KeyInput::Char('q') || key == KeyInput::Char('Q') || key == KeyInput::Esc)
            ==> after_key(app, key, pressed) == app,
        !pressed ==> after_key(app, key, pressed) == app,
{
}

/// The refresh label tells the seconds themselves under a minute and the
/// whole minutes from a minute on: its digits read back as that number,
/// followed by "s ago" or "m ago".
pub proof fn refresh_label_tells_the_age(secs: u64)
    ensures
        secs < 60 ==> elapsed_label(secs as nat) == decimal(secs as nat) + "s ago"@
            && crate::digits::digits_value(decimal(secs as nat)) == secs,
        secs >= 60 ==> elapsed_label(secs as nat) == decimal((secs / 60) as nat) + "m ago"@
            && crate::digits::digits_value(decimal((secs / 60) as nat)) == secs / 60,
{
    crate::digits::fmt_num_reads_back(secs);
    crate::digits::fmt_num_reads_back(secs / 60);
}

} // verus!
