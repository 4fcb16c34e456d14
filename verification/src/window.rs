//! The settings of the plugin and the query URL of a fetch window.

use crate::label::{join, join_texts, texts_of};
use std::fmt::Write;
use vstd::prelude::*;
use vstd::string::StringExecFns;

verus! {

/// The offset of the civil time in which the remote service reads the
/// window: two hours east of UTC, whatever the zone of the machine.
pub const CIVIL_OFFSET_SECONDS: i32 = 7200;

/// What is needed to query the Grid'5000 API.
#[derive(Debug, PartialEq, Eq)]
pub struct Config {
    pub site: String,
    pub hostname: String,
    pub metrics: Vec<String>,
    pub login: String,
    pub password: String,
}

/// The mathematical value of a [`Config`].
pub struct Settings {
    pub site: Seq<char>,
    pub hostname: Seq<char>,
    pub metrics: Seq<Seq<char>>,
    pub login: Seq<char>,
    pub password: Seq<char>,
}

impl View for Config {
    type V = Settings;

    open spec fn view(&self) -> Settings {
        Settings {
            site: self.site@,
            hostname: self.hostname@,
            metrics: texts_of(self.metrics@),
            login: self.login@,
            password: self.password@,
        }
    }
}

/// A copy of a list of strings.
fn copy_texts(texts: &Vec<String>) -> (r: Vec<String>)
    ensures
        texts_of(r@) == texts_of(texts@),
{
    let mut copy: Vec<String> = Vec::new();
    let mut i: usize = 0;
    while i < texts.len()
        invariant
            i <= texts.len(),
            copy@.len() == i,
            forall|k: int| 0 <= k < i ==> (#[trigger] copy@[k])@ == texts@[k]@,
        decreases texts.len() - i,
    {
        copy.push(texts[i].clone());
        i += 1;
    }
    proof {
        assert(texts_of(copy@) =~= texts_of(texts@));
    }
    copy
}

impl Clone for Config {
    fn clone(&self) -> (r: Self)
        ensures
            r@ == self@,
    {
        Config {
            site: self.site.clone(),
            hostname: self.hostname.clone(),
            metrics: copy_texts(&self.metrics),
            login: self.login.clone(),
            password: self.password.clone(),
        }
    }
}

impl Default for Config {
    /// Stand-in values: one node of one site, one metric, and credentials
    /// that open nothing.
    fn default() -> (r: Self)
        ensures
            r@.site == "lyon"@,
            r@.hostname == "taurus-7"@,
            r@.metrics == seq!["wattmetre_power_watt"@],
            r@.login == "login"@,
            r@.password == "password"@,
    {
        let mut metrics: Vec<String> = Vec::new();
        metrics.push(String::from_str("wattmetre_power_watt"));
        proof {
            assert(texts_of(metrics@) =~= seq!["wattmetre_power_watt"@]);
        }
        Config {
            site: String::from_str("lyon"),
            hostname: String::from_str("taurus-7"),
            metrics,
            login: String::from_str("login"),
            password: String::from_str("password"),
        }
    }
}

/// The time range for which a query asks, in seconds since the epoch.
#[derive(Clone, Copy, Debug, PartialEq, Eq, Structural)]
pub struct FetchWindow {
    pub start: i64,
    pub end: i64,
}

/// What `chrono` writes for an instant, given in seconds since the epoch,
/// seen at a fixed offset east of UTC and under a `strftime` pattern; `None`
/// where `chrono` has no such offset or instant, or cannot use the pattern.
pub uninterp spec fn formatted_time(epoch_seconds: int, offset_seconds: int, pattern: Seq<char>) -> Option<Seq<char>>;

/// Formats an instant with `chrono`: `FixedOffset::east_opt` for the offset,
/// `DateTime::from_timestamp` for the instant, `with_timezone` and `format`
/// for the text. The contract names the outcome [`formatted_time`]: none of
/// these reads anything but its arguments.
#[verifier::external_body]
fn format_instant(epoch_seconds: i64, offset_seconds: i32, pattern: &str) -> (r: Option<String>)
    ensures
        match r {
            Some(text) => formatted_time(epoch_seconds as int, offset_seconds as int, pattern@) == Some(
                text@,
            ),
            None => formatted_time(epoch_seconds as int, offset_seconds as int, pattern@) is None,
        },
{
    let zone = chrono::FixedOffset::east_opt(offset_seconds)?;
    let instant = chrono::DateTime::from_timestamp(epoch_seconds, 0)?;
    let mut text = String::new();
    write!(text, "{}", instant.with_timezone(&zone).format(pattern)).ok()?;
    Some(text)
}

/// The civil time of an instant as the remote service reads it: year, month,
/// day, hour, minute and second, two hours east of UTC.
pub open spec fn civil_time(epoch_seconds: int) -> Option<Seq<char>> {
    formatted_time(epoch_seconds, CIVIL_OFFSET_SECONDS as int, "%Y-%m-%dT%H:%M:%S"@)
}

/// Writes an instant as the remote service reads it; `None` for an instant
/// outside the range of the calendar.
pub fn render_civil_time(epoch_seconds: i64) -> (r: Option<String>)
    ensures
        match r {
            Some(text) => civil_time(epoch_seconds as int) == Some(text@),
            None => civil_time(epoch_seconds as int) is None,
        },
{
    format_instant(epoch_seconds, CIVIL_OFFSET_SECONDS, "%Y-%m-%dT%H:%M:%S")
}

/// The query URL for a site, its nodes, the metrics and the two ends of the
/// window as texts.
pub open spec fn url_text(
    site: Seq<char>,
    hostname: Seq<char>,
    metrics: Seq<Seq<char>>,
    start: Seq<char>,
    end: Seq<char>,
) -> Seq<char> {
    "https://api.grid5000.fr/stable/sites/"@ + site + "/metrics?nodes="@ + hostname
        + "&metrics="@ + join_texts(metrics, ","@) + "&start_time="@ + start + "&end_time="@ + end
}

/// Writes the query URL from the settings and the two ends of the window,
/// already as texts; the metrics are joined by commas.
pub fn render_url(config: &Config, start: &str, end: &str) -> (r: String)
    ensures
        r@ == url_text(config@.site, config@.hostname, config@.metrics, start@, end@),
{
    let metrics = join(&config.metrics, ",");
    let mut url = String::from_str("https://api.grid5000.fr/stable/sites/");
    url.append(config.site.as_str());
    url.append("/metrics?nodes=");
    url.append(config.hostname.as_str());
    url.append("&metrics=");
    url.append(metrics.as_str());
    url.append("&start_time=");
    url.append(start);
    url.append("&end_time=");
    url.append(end);
    url
}

/// The query URL of a window, where both of its ends can be written.
pub open spec fn window_url(settings: Settings, start: int, end: int) -> Option<Seq<char>> {
    match (civil_time(start), civil_time(end)) {
        (Some(from), Some(to)) => Some(
            url_text(settings.site, settings.hostname, settings.metrics, from, to),
        ),
        _ => None,
    }
}

/// Constructs the URL that queries Kwollect through the Grid'5000 API for a
/// window; `None` where an end of the window is outside the range of the
/// calendar.
pub fn build_kwollect_url(config: &Config, window: FetchWindow) -> (r: Option<String>)
    ensures
        match r {
            Some(url) => window_url(config@, window.start as int, window.end as int) == Some(url@),
            None => window_url(config@, window.start as int, window.end as int) is None,
        },
{
    let start = match render_civil_time(window.start) {
        Some(text) => text,
        None => { return None; },
    };
    let end = match render_civil_time(window.end) {
        Some(text) => text,
        None => { return None; },
    };
    Some(render_url(config, start.as_str(), end.as_str()))
}

} // verus!
