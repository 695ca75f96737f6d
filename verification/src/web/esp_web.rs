//! The web server of the ESP8266 co-processor: a mobile-friendly home page
//! and a few settings pages.

use vstd::prelude::*;
use crate::text::{str_eq, string_of};

verus! {

/// The home page.
pub const HOME_PAGE: &'static str = r#"
        <!DOCTYPE html>
        <html><head><title>Smart Clock</title>
        <meta name="viewport" content="width=device-width, initial-scale=1">
        <style>body { background: #111; color: #eee; font-family: sans-serif; padding: 20px; }
        a { color: #0af; text-decoration: none; }
        .card { background: #222; padding: 15px; margin: 10px 0; border-radius: 8px; }
        </style></head>
        <body>
        <h1>🕒 Smart Clock</h1>
        <div class="card">
          <p>Status: Running on Pico DVI</p>
          <a href="/alarms">Manage Alarms</a><br>
          <a href="/config">Settings & SAME Codes</a>
        </div>
        </body></html>
        "#;

/// The alarms page.
pub const ALARMS_PAGE: &'static str = "<h1>Alarms</h1><p>Alarm management coming soon...</p>";

/// The configuration page.
pub const CONFIG_PAGE: &'static str = "<h1>Configuration</h1><p>Clock speed, brightness, SAME codes, night mode...</p>";

/// The answer to an unknown path.
pub const NOT_FOUND: &'static str = "404 - Page not found";

/// The page served at `path`.
pub open spec fn page_for(path: Seq<char>) -> Seq<char> {
    if path == "/"@ {
        HOME_PAGE@
    } else if path == "/alarms"@ {
        ALARMS_PAGE@
    } else if path == "/config"@ {
        CONFIG_PAGE@
    } else {
        NOT_FOUND@
    }
}

/// The web server.
pub struct WebServer {
    pub enabled: bool,
}

impl WebServer {
    /// An enabled server.
    pub fn new() -> (r: Self)
        ensures
            r.enabled,
    {
        WebServer { enabled: true }
    }

    /// The page for a request path: `/`, `/alarms`, `/config`, or the
    /// not-found text.
    pub fn handle_request(&self, path: &str) -> (r: String)
        ensures
            r@ == page_for(path@),
    {
        if str_eq(path, "/") {
            self.home_page()
        } else if str_eq(path, "/alarms") {
            self.alarms_page()
        } else if str_eq(path, "/config") {
            self.config_page()
        } else {
            self.not_found()
        }
    }

    pub fn home_page(&self) -> (r: String)
        ensures
            r@ == HOME_PAGE@,
    {
        string_of(HOME_PAGE)
    }

    pub fn alarms_page(&self) -> (r: String)
        ensures
            r@ == ALARMS_PAGE@,
    {
        string_of(ALARMS_PAGE)
    }

    pub fn config_page(&self) -> (r: String)
        ensures
            r@ == CONFIG_PAGE@,
    {
        string_of(CONFIG_PAGE)
    }

    pub fn not_found(&self) -> (r: String)
        ensures
            r@ == NOT_FOUND@,
    {
        string_of(NOT_FOUND)
    }
}

} // verus!
