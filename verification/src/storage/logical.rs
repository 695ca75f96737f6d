//! Logical paths used across the Linux and embedded builds; each platform
//! maps them to real locations.

use vstd::prelude::*;
use crate::text::{concat, string_of};

verus! {

/// The alarm table.
pub const ALARMS_CSV: &'static str = "/sd/config/alarms.csv";

/// The cached result of the city lookup.
pub const WEATHER_CITY_CACHE: &'static str = "cache/weather_city.json";

/// The cached weather report.
pub const WEATHER_DATA_CACHE: &'static str = "cache/weather_data.json";

/// The backup copy of the alarm table taken at `timestamp`:
/// `/sd/config/alarms_<timestamp>.csv.bak`.
pub fn alarms_backup(timestamp: &str) -> (r: String)
    ensures
        r@ == "/sd/config/alarms_"@ + timestamp@ + ".csv.bak"@,
{
    let mut r = concat("/sd/config/alarms_", timestamp);
    r.append(".csv.bak");
    r
}

/// The photo of alert `alert_id`: `/sd/alerts/photo_<alert_id>.bmp`.
pub fn alert_photo(alert_id: &str) -> (r: String)
    ensures
        r@ == "/sd/alerts/photo_"@ + alert_id@ + ".bmp"@,
{
    let mut r = concat("/sd/alerts/photo_", alert_id);
    r.append(".bmp");
    r
}

} // verus!
