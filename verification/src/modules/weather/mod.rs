//! The weather panel: current conditions from the forecast service, with
//! air quality and a cached location.
//!
//! The panel keeps what it shows and when it last refreshed; the caller
//! performs the fetches it asks for and hands back what came of them. The
//! temperature is formatted by the caller.

pub mod icons;
pub mod config;
pub mod api;
pub mod cache;

use vstd::prelude::*;
use crate::text::{concat, decimal, push_decimal, string_of};
use crate::modules::bottom_module::PanelLine;
use crate::modules::weather::api::{WeatherReport, aqi_text};
use crate::modules::weather::config::{ConfigMeta, WeatherSettings};
use crate::modules::weather::icons::WeatherIcon;

verus! {

/// `s` cut to at most `max` characters, the last one then an ellipsis.
pub open spec fn truncated(s: Seq<char>, max: nat) -> Seq<char> {
    if s.len() <= max {
        s
    } else {
        s.take(if max >= 1 { max - 1 } else { 0 }) + "…"@
    }
}

/// Cuts `s` to at most `max` characters, ending in `…` when it was longer.
pub fn truncate(s: &str, max: usize) -> (r: String)
    ensures
        r@ == truncated(s@, max as nat),
{
    let n = s.unicode_len();
    if n <= max {
        return string_of(s);
    }
    let keep = if max >= 1 {
        max - 1
    } else {
        0
    };
    let head = s.substring_char(0, keep);
    let r = concat(head, "…");
    assert(head@ =~= s@.take(keep as int));
    r
}

/// The weather panel's state.
pub struct WeatherPanel {
    pub settings: WeatherSettings,
    pub config_meta: ConfigMeta,
    pub city_name: String,
    pub report: Option<WeatherReport>,
    /// When the report was last refreshed (milliseconds on the caller's
    /// monotonic clock).
    pub last_refresh_ms: Option<u64>,
    pub last_error: Option<String>,
    pub fetching: bool,
}

/// The refresh interval in milliseconds.
pub open spec fn interval_ms(minutes: u64, alerts_active: bool) -> int {
    if alerts_active {
        300_000
    } else {
        minutes * 60_000
    }
}

/// A refresh is due when none is running and none has been made, or the
/// interval has passed since the last one.
pub open spec fn refresh_due_at(p: WeatherPanel, now_ms: u64, alerts_active: bool) -> bool {
    !p.fetching && match p.last_refresh_ms {
        None => true,
        Some(t) => (if now_ms >= t { now_ms - t } else { 0 }) >= interval_ms(
            p.settings.update_interval_minutes,
            alerts_active,
        ),
    }
}

/// The status line: the last error (cut to 28 characters), a note while
/// fetching or before any data, otherwise nothing.
pub open spec fn status_text(p: WeatherPanel) -> Seq<char> {
    match p.last_error {
        Some(e) => truncated(e@, 28),
        None => if p.fetching {
            "Updating..."@
        } else if p.report is None {
            "Waiting for data..."@
        } else {
            seq![]
        },
    }
}

impl WeatherPanel {
    /// A panel for the given configuration and city, showing `report` (from
    /// the cache) if there is one, refreshed at `now_ms` in that case.
    pub fn new(
        settings: WeatherSettings,
        config_meta: ConfigMeta,
        city_name: String,
        report: Option<WeatherReport>,
        now_ms: u64,
    ) -> (p: Self)
        ensures
            p.settings == settings,
            p.config_meta == config_meta,
            p.city_name == city_name,
            p.report == report,
            p.last_refresh_ms == (if report is Some { Some(now_ms) } else { None::<u64> }),
            p.last_error is None,
            !p.fetching,
    {
        let last = match &report {
            Some(_) => Some(now_ms),
            None => None,
        };
        WeatherPanel {
            settings,
            config_meta,
            city_name,
            report,
            last_refresh_ms: last,
            last_error: None,
            fetching: false,
        }
    }

    /// The title: the report's city (else the panel's), cut to 18 characters.
    pub fn panel_title(&self) -> (r: String)
        ensures
            r@ == truncated(
                match self.report {
                    Some(rep) => rep.city@,
                    None => self.city_name@,
                },
                18,
            ),
    {
        match &self.report {
            Some(rep) => truncate(rep.city.as_str(), 18),
            None => truncate(self.city_name.as_str(), 18),
        }
    }

    /// Whether there is a report to show.
    pub fn has_data(&self) -> (r: bool)
        ensures
            r == self.report is Some,
    {
        self.report.is_some()
    }

    /// The condition text, `Loading...` before any report.
    pub fn condition(&self) -> (r: String)
        ensures
            r@ == match self.report {
                Some(rep) => rep.condition@,
                None => "Loading..."@,
            },
    {
        match &self.report {
            Some(rep) => rep.condition.clone(),
            None => string_of("Loading..."),
        }
    }

    /// `Humidity <n>%`, or `Humidity --` before any report.
    pub fn humidity_line(&self) -> (r: String)
        ensures
            r@ == match self.report {
                Some(rep) => "Humidity "@ + decimal(rep.humidity as nat) + "%"@,
                None => "Humidity --"@,
            },
    {
        match &self.report {
            Some(rep) => {
                let mut s = string_of("Humidity ");
                push_decimal(&mut s, rep.humidity as u64);
                s.append("%");
                s
            },
            None => string_of("Humidity --"),
        }
    }

    /// The report's air-quality line, or `AQI --` before any report.
    pub fn aqi_line(&self) -> (r: String)
        ensures
            r@ == match self.report {
                Some(rep) => aqi_text(rep.aqi, rep.aqi_label@),
                None => "AQI --"@,
            },
    {
        match &self.report {
            Some(rep) => rep.aqi_line(),
            None => string_of("AQI --"),
        }
    }

    /// The status line (empty when all is well).
    pub fn status_line(&self) -> (r: String)
        ensures
            r@ == status_text(*self),
    {
        match &self.last_error {
            Some(e) => truncate(e.as_str(), 28),
            None => {
                if self.fetching {
                    string_of("Updating...")
                } else if self.report.is_none() {
                    string_of("Waiting for data...")
                } else {
                    String::new()
                }
            },
        }
    }

    /// The report's icon, `Unknown` before any report.
    pub fn icon(&self) -> (r: WeatherIcon)
        ensures
            r == match self.report {
                Some(rep) => rep.icon,
                None => WeatherIcon::Unknown,
            },
    {
        match &self.report {
            Some(rep) => rep.icon,
            None => WeatherIcon::Unknown,
        }
    }

    /// Shows `condition` in a bare report for the panel's city.
    pub fn set_weather(&mut self, condition: String)
        ensures
            final(self).report matches Some(rep) && rep.condition == condition && rep.humidity == 0
                && rep.weather_code == 0 && rep.icon == WeatherIcon::Unknown && rep.aqi is None
                && rep.aqi_label@ == "Unknown"@ && rep.city == old(self).city_name,
            final(self).city_name == old(self).city_name,
            final(self).last_refresh_ms == old(self).last_refresh_ms,
            final(self).last_error == old(self).last_error,
            final(self).fetching == old(self).fetching,
    {
        self.report = Some(
            WeatherReport {
                humidity: 0,
                condition,
                weather_code: 0,
                icon: WeatherIcon::Unknown,
                aqi: None,
                aqi_label: string_of("Unknown"),
                city: self.city_name.clone(),
            },
        );
    }

    /// The panel's lines: the temperature (as the caller formatted it, in
    /// 36 pt), the condition, humidity and air quality, then the status
    /// line when there is one.
    pub fn lines(&self, temp_display: String) -> (r: Vec<PanelLine>)
        ensures
            r@.len() == if status_text(*self).len() > 0 { 5nat } else { 4nat },
            r@[0].text == temp_display && r@[0].size_pt == 36,
            r@[1].text@ == (match self.report {
                Some(rep) => rep.condition@,
                None => "Loading..."@,
            }) && r@[1].size_pt == 0,
            r@[2].text@ == (match self.report {
                Some(rep) => "Humidity "@ + decimal(rep.humidity as nat) + "%"@,
                None => "Humidity --"@,
            }) && r@[2].size_pt == 0,
            r@[3].text@ == (match self.report {
                Some(rep) => aqi_text(rep.aqi, rep.aqi_label@),
                None => "AQI --"@,
            }) && r@[3].size_pt == 0,
            status_text(*self).len() > 0 ==> r@[4].text@ == status_text(*self) && r@[4].size_pt == 0,
    {
        let mut lines: Vec<PanelLine> = Vec::new();
        lines.push(PanelLine { text: temp_display, size_pt: 36 });
        lines.push(PanelLine { text: self.condition(), size_pt: 0 });
        lines.push(PanelLine { text: self.humidity_line(), size_pt: 0 });
        lines.push(PanelLine { text: self.aqi_line(), size_pt: 0 });
        let status = self.status_line();
        if status.unicode_len() > 0 {
            lines.push(PanelLine { text: status, size_pt: 0 });
        }
        lines
    }

    /// Whether a refresh is due at `now_ms`.
    pub fn refresh_due(&self, now_ms: u64, alerts_active: bool) -> (r: bool)
        requires
            alerts_active || self.settings.update_interval_minutes * 60 <= u64::MAX,
        ensures
            r == refresh_due_at(*self, now_ms, alerts_active),
    {
        if self.fetching {
            return false;
        }
        let interval: u128 = if alerts_active {
            300_000
        } else {
            self.settings.update_interval_minutes as u128 * 60_000
        };
        match self.last_refresh_ms {
            None => true,
            Some(t) => now_ms.saturating_sub(t) as u128 >= interval,
        }
    }

    /// Takes a changed configuration: its settings, the city resolved for
    /// it, and the cached report valid for it, if any (refreshed at
    /// `now_ms` then; otherwise the panel has no report and is due).
    pub fn apply_reloaded(
        &mut self,
        settings: WeatherSettings,
        config_meta: ConfigMeta,
        city_name: String,
        report: Option<WeatherReport>,
        now_ms: u64,
    )
        ensures
            final(self).settings == settings,
            final(self).config_meta == config_meta,
            final(self).city_name == city_name,
            final(self).report == report,
            final(self).last_refresh_ms == (if report is Some { Some(now_ms) } else { None::<u64> }),
            final(self).last_error == old(self).last_error,
            final(self).fetching == old(self).fetching,
    {
        self.settings = settings;
        self.config_meta = config_meta;
        self.city_name = city_name;
        self.last_refresh_ms = match &report {
            Some(_) => Some(now_ms),
            None => None,
        };
        self.report = report;
    }

    /// Takes the outcome of a refresh made at `now_ms`: a new report (whose
    /// city the panel adopts) or the error that stopped it.
    pub fn finish_refresh(&mut self, outcome: Result<WeatherReport, String>, now_ms: u64)
        ensures
            final(self).last_refresh_ms == Some(now_ms),
            !final(self).fetching,
            final(self).settings == old(self).settings,
            final(self).config_meta == old(self).config_meta,
            match outcome {
                Ok(rep) => final(self).report == Some(rep) && final(self).city_name == rep.city
                    && final(self).last_error is None,
                Err(e) => final(self).last_error == Some(e) && final(self).report == old(self).report
                    && final(self).city_name == old(self).city_name,
            },
    {
        match outcome {
            Ok(rep) => {
                self.city_name = rep.city.clone();
                self.report = Some(rep);
                self.last_error = None;
            },
            Err(e) => {
                self.last_error = Some(e);
            },
        }
        self.last_refresh_ms = Some(now_ms);
        self.fetching = false;
    }
}

/// Law: after a refresh finishes at `t`, whatever came of it, no refresh
/// is due before the interval has passed.
pub proof fn lemma_not_due_after_refresh(p: WeatherPanel, t: u64, now_ms: u64, alerts_active: bool)
    requires
        p.last_refresh_ms == Some(t),
        !p.fetching,
        t <= now_ms,
        now_ms - t < interval_ms(p.settings.update_interval_minutes, alerts_active),
    ensures
        !refresh_due_at(p, now_ms, alerts_active),
{
}

/// Law: a panel without a report is due for a refresh while none runs.
pub proof fn lemma_due_without_refresh(p: WeatherPanel, now_ms: u64, alerts_active: bool)
    requires
        p.last_refresh_ms is None,
        !p.fetching,
    ensures
        refresh_due_at(p, now_ms, alerts_active),
{
}

} // verus!
