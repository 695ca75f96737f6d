//! What the weather panel makes of the forecast, air-quality and
//! reverse-geocoding replies.

use vstd::prelude::*;
use crate::text::{concat, decimal, opt_view, push_decimal, string_of};
use crate::modules::weather::icons::{WeatherIcon, condition_of, icon_of, wmo_condition};

verus! {

/// The US AQI category of an index value.
pub open spec fn aqi_category(aqi: u32) -> Seq<char> {
    if aqi <= 50 {
        "Good"@
    } else if aqi <= 100 {
        "Moderate"@
    } else if aqi <= 150 {
        "Unhealthy (sensitive)"@
    } else if aqi <= 200 {
        "Unhealthy"@
    } else if aqi <= 300 {
        "Very unhealthy"@
    } else {
        "Hazardous"@
    }
}

/// The US AQI category of an index value.
pub fn aqi_label(aqi: u32) -> (r: String)
    ensures
        r@ == aqi_category(aqi),
{
    if aqi <= 50 {
        string_of("Good")
    } else if aqi <= 100 {
        string_of("Moderate")
    } else if aqi <= 150 {
        string_of("Unhealthy (sensitive)")
    } else if aqi <= 200 {
        string_of("Unhealthy")
    } else if aqi <= 300 {
        string_of("Very unhealthy")
    } else {
        string_of("Hazardous")
    }
}

/// How severe a US AQI category is, from 0 for "Good" up to 5 for
/// "Hazardous"; -1 for a text that is no category.
pub open spec fn aqi_severity(label: Seq<char>) -> int {
    if label == "Good"@ {
        0
    } else if label == "Moderate"@ {
        1
    } else if label == "Unhealthy (sensitive)"@ {
        2
    } else if label == "Unhealthy"@ {
        3
    } else if label == "Very unhealthy"@ {
        4
    } else if label == "Hazardous"@ {
        5
    } else {
        -1
    }
}

/// The EPA band of an index: 0-50, 51-100, 101-150, 151-200, 201-300,
/// above 300.
pub open spec fn epa_band(aqi: int) -> int {
    if aqi <= 50 {
        0
    } else if aqi <= 100 {
        1
    } else if aqi <= 150 {
        2
    } else if aqi <= 200 {
        3
    } else if aqi <= 300 {
        4
    } else {
        5
    }
}

/// Law: the label of an index is the category of its EPA band (Good,
/// Moderate, Unhealthy (sensitive), Unhealthy, Very unhealthy, Hazardous,
/// in rising severity), so a higher index never gets a milder label.
pub proof fn lemma_aqi_label_bands(a: u32, b: u32)
    ensures
        aqi_severity(aqi_category(a)) == epa_band(a as int),
        a <= b ==> aqi_severity(aqi_category(a)) <= aqi_severity(aqi_category(b)),
{
    reveal_strlit("Good");
    reveal_strlit("Moderate");
    reveal_strlit("Unhealthy (sensitive)");
    reveal_strlit("Unhealthy");
    reveal_strlit("Very unhealthy");
    reveal_strlit("Hazardous");
    assert("Good"@.len() == 4 && "Moderate"@.len() == 8 && "Unhealthy (sensitive)"@.len() == 21);
    assert("Unhealthy"@.len() == 9 && "Very unhealthy"@.len() == 14 && "Hazardous"@.len() == 9);
    assert("Unhealthy"@[0] == 'U' && "Hazardous"@[0] == 'H');
}

/// The air-quality line: `AQI <value> <label>`, or `AQI unavailable`.
pub open spec fn aqi_text(aqi: Option<u32>, label: Seq<char>) -> Seq<char> {
    match aqi {
        Some(v) => "AQI "@ + decimal(v as nat) + " "@ + label,
        None => "AQI unavailable"@,
    }
}

/// Current conditions as reported, apart from the temperature.
#[derive(Clone, Debug)]
pub struct WeatherReport {
    /// Relative humidity in percent.
    pub humidity: u8,
    pub condition: String,
    /// WMO weather code.
    pub weather_code: u16,
    pub icon: WeatherIcon,
    /// US air-quality index, when the air-quality service answered.
    pub aqi: Option<u32>,
    pub aqi_label: String,
    pub city: String,
}

impl WeatherReport {
    /// The air-quality line of this report.
    pub fn aqi_line(&self) -> (r: String)
        ensures
            r@ == aqi_text(self.aqi, self.aqi_label@),
    {
        match self.aqi {
            Some(v) => {
                let mut s = string_of("AQI ");
                push_decimal(&mut s, v as u64);
                s.append(" ");
                s.append(self.aqi_label.as_str());
                s
            },
            None => string_of("AQI unavailable"),
        }
    }
}

/// The report built from a forecast reply (humidity and weather code) and
/// the air-quality index, if it could be had, for `city`.
pub fn report_from_forecast(humidity: u8, weather_code: u16, aqi: Option<u32>, city: &str) -> (r: WeatherReport)
    ensures
        r.humidity == humidity,
        r.weather_code == weather_code,
        r.condition@ == condition_of(weather_code),
        r.icon == icon_of(weather_code),
        r.aqi == aqi,
        r.aqi_label@ == match aqi {
            Some(v) => aqi_category(v),
            None => "Unknown"@,
        },
        r.city@ == city@,
{
    let label = match aqi {
        Some(v) => aqi_label(v),
        None => string_of("Unknown"),
    };
    WeatherReport {
        humidity,
        condition: string_of(wmo_condition(weather_code)),
        weather_code,
        icon: WeatherIcon::from_code(weather_code),
        aqi,
        aqi_label: label,
        city: string_of(city),
    }
}

/// The address parts of a reverse-geocoding reply.
#[derive(Clone, Debug)]
pub struct CityAddress {
    pub city: Option<String>,
    pub town: Option<String>,
    pub village: Option<String>,
    pub municipality: Option<String>,
    pub county: Option<String>,
}

pub open spec fn or_else(a: Option<Seq<char>>, b: Option<Seq<char>>) -> Option<Seq<char>> {
    match a {
        Some(x) => Some(x),
        None => b,
    }
}

/// The place name of a reverse-geocoding reply: its name when that is not
/// empty, otherwise the first of city, town, village, municipality and
/// county that the address gives.
pub open spec fn city_name_of(name: Option<Seq<char>>, address: Option<CityAddress>) -> Option<Seq<char>> {
    match name {
        Some(n) if n.len() > 0 => Some(n),
        _ => match address {
            None => None,
            Some(a) => or_else(
                opt_view(a.city),
                or_else(
                    opt_view(a.town),
                    or_else(opt_view(a.village), or_else(opt_view(a.municipality), opt_view(a.county))),
                ),
            ),
        },
    }
}

fn first_some(a: Option<String>, b: Option<String>) -> (r: Option<String>)
    ensures
        opt_view(r) == or_else(opt_view(a), opt_view(b)),
{
    match a {
        Some(x) => Some(x),
        None => b,
    }
}

/// Picks the place name out of a reverse-geocoding reply.
pub fn pick_city_name(name: Option<String>, address: Option<CityAddress>) -> (r: Option<String>)
    ensures
        opt_view(r) == city_name_of(opt_view(name), address),
{
    match name {
        Some(n) => {
            if n.unicode_len() > 0 {
                return Some(n);
            }
        },
        None => {},
    }
    match address {
        None => None,
        Some(a) => {
            let county = a.county;
            let municipality = first_some(a.municipality, county);
            let village = first_some(a.village, municipality);
            let town = first_some(a.town, village);
            first_some(a.city, town)
        },
    }
}

/// The city shown when no place name could be had.
pub fn city_or_nearby(found: Option<String>) -> (r: String)
    ensures
        r@ == match opt_view(found) {
            Some(c) => c,
            None => "Nearby"@,
        },
{
    match found {
        Some(c) => c,
        None => string_of("Nearby"),
    }
}

} // verus!
