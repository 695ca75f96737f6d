//! Weather icons and condition names for the WMO weather codes that the
//! forecast service reports.

use vstd::prelude::*;

verus! {

/// The icon drawn for a kind of weather.
#[derive(Clone, Copy, Debug, PartialEq, Eq, Structural)]
pub enum WeatherIcon {
    Clear,
    PartlyCloudy,
    Cloudy,
    Fog,
    Drizzle,
    Rain,
    Snow,
    Thunderstorm,
    Unknown,
}

/// The icon of WMO weather code `code`.
pub open spec fn icon_of(code: u16) -> WeatherIcon {
    if code == 0 {
        WeatherIcon::Clear
    } else if code == 1 || code == 2 {
        WeatherIcon::PartlyCloudy
    } else if code == 3 {
        WeatherIcon::Cloudy
    } else if code == 45 || code == 48 {
        WeatherIcon::Fog
    } else if code == 51 || code == 53 || code == 55 || code == 56 || code == 57 {
        WeatherIcon::Drizzle
    } else if code == 61 || code == 63 || code == 65 || code == 66 || code == 67 || code == 80
        || code == 81 || code == 82 {
        WeatherIcon::Rain
    } else if code == 71 || code == 73 || code == 75 || code == 77 || code == 85 || code == 86 {
        WeatherIcon::Snow
    } else if code == 95 || code == 96 || code == 99 {
        WeatherIcon::Thunderstorm
    } else {
        WeatherIcon::Unknown
    }
}

/// The icon file (under the icon set's directory) for `icon`; a clear sky
/// shows the moon at night.
pub open spec fn icon_asset(icon: WeatherIcon, night: bool) -> Seq<char> {
    match icon {
        WeatherIcon::Clear => if night {
            "status/moon.svg"@
        } else {
            "status/sun.svg"@
        },
        WeatherIcon::PartlyCloudy => "status/cloud-sun.svg"@,
        WeatherIcon::Cloudy => "status/cloud.svg"@,
        WeatherIcon::Fog => "status/fog.svg"@,
        WeatherIcon::Drizzle => "status/cloud-rain.svg"@,
        WeatherIcon::Rain => "status/cloud-rain.svg"@,
        WeatherIcon::Snow => "status/cloud-snow.svg"@,
        WeatherIcon::Thunderstorm => "status/cloud-storm.svg"@,
        WeatherIcon::Unknown => "status/help.svg"@,
    }
}

/// Night, for the icons, runs from 20:00 to 06:00.
pub open spec fn is_night_hour(hour: u32) -> bool {
    hour >= 20 || hour < 6
}

/// Whether local hour `hour` is night for the icons.
pub fn night_hour(hour: u32) -> (r: bool)
    ensures
        r == is_night_hour(hour),
{
    hour >= 20 || hour < 6
}

impl WeatherIcon {
    /// The icon for WMO weather code `code`.
    pub fn from_code(code: u16) -> (r: Self)
        ensures
            r == icon_of(code),
    {
        match code {
            0 => WeatherIcon::Clear,
            1 | 2 => WeatherIcon::PartlyCloudy,
            3 => WeatherIcon::Cloudy,
            45 | 48 => WeatherIcon::Fog,
            51 | 53 | 55 | 56 | 57 => WeatherIcon::Drizzle,
            61 | 63 | 65 | 66 | 67 | 80 | 81 | 82 => WeatherIcon::Rain,
            71 | 73 | 75 | 77 | 85 | 86 => WeatherIcon::Snow,
            95 | 96 | 99 => WeatherIcon::Thunderstorm,
            _ => WeatherIcon::Unknown,
        }
    }

    /// The icon file to draw, by day or by night.
    pub fn asset_path(self, night: bool) -> (r: &'static str)
        ensures
            r@ == icon_asset(self, night),
    {
        match self {
            WeatherIcon::Clear => if night {
                "status/moon.svg"
            } else {
                "status/sun.svg"
            },
            WeatherIcon::PartlyCloudy => "status/cloud-sun.svg",
            WeatherIcon::Cloudy => "status/cloud.svg",
            WeatherIcon::Fog => "status/fog.svg",
            WeatherIcon::Drizzle => "status/cloud-rain.svg",
            WeatherIcon::Rain => "status/cloud-rain.svg",
            WeatherIcon::Snow => "status/cloud-snow.svg",
            WeatherIcon::Thunderstorm => "status/cloud-storm.svg",
            WeatherIcon::Unknown => "status/help.svg",
        }
    }

    /// The icon file to draw at local hour `hour` (0 to 23).
    pub fn asset_at_hour(self, hour: u32) -> (r: &'static str)
        ensures
            r@ == icon_asset(self, is_night_hour(hour)),
    {
        self.asset_path(night_hour(hour))
    }
}

/// The condition name of WMO weather code `code`.
pub open spec fn condition_of(code: u16) -> Seq<char> {
    if code == 0 {
        "Clear sky"@
    } else if code == 1 {
        "Mainly clear"@
    } else if code == 2 {
        "Partly cloudy"@
    } else if code == 3 {
        "Overcast"@
    } else if code == 45 {
        "Fog"@
    } else if code == 48 {
        "Depositing rime fog"@
    } else if code == 51 {
        "Light drizzle"@
    } else if code == 53 {
        "Drizzle"@
    } else if code == 55 {
        "Dense drizzle"@
    } else if code == 56 {
        "Freezing drizzle"@
    } else if code == 57 {
        "Dense freezing drizzle"@
    } else if code == 61 {
        "Slight rain"@
    } else if code == 63 {
        "Rain"@
    } else if code == 65 {
        "Heavy rain"@
    } else if code == 66 {
        "Freezing rain"@
    } else if code == 67 {
        "Heavy freezing rain"@
    } else if code == 71 {
        "Slight snow"@
    } else if code == 73 {
        "Snow"@
    } else if code == 75 {
        "Heavy snow"@
    } else if code == 77 {
        "Snow grains"@
    } else if code == 80 {
        "Rain showers"@
    } else if code == 81 {
        "Heavy rain showers"@
    } else if code == 82 {
        "Violent rain showers"@
    } else if code == 85 {
        "Snow showers"@
    } else if code == 86 {
        "Heavy snow showers"@
    } else if code == 95 {
        "Thunderstorm"@
    } else if code == 96 {
        "Thunderstorm with hail"@
    } else if code == 99 {
        "Thunderstorm with heavy hail"@
    } else {
        "Unknown"@
    }
}

/// The condition name of a WMO weather code.
pub fn wmo_condition(code: u16) -> (r: &'static str)
    ensures
        r@ == condition_of(code),
{
    match code {
        0 => "Clear sky",
        1 => "Mainly clear",
        2 => "Partly cloudy",
        3 => "Overcast",
        45 => "Fog",
        48 => "Depositing rime fog",
        51 => "Light drizzle",
        53 => "Drizzle",
        55 => "Dense drizzle",
        56 => "Freezing drizzle",
        57 => "Dense freezing drizzle",
        61 => "Slight rain",
        63 => "Rain",
        65 => "Heavy rain",
        66 => "Freezing rain",
        67 => "Heavy freezing rain",
        71 => "Slight snow",
        73 => "Snow",
        75 => "Heavy snow",
        77 => "Snow grains",
        80 => "Rain showers",
        81 => "Heavy rain showers",
        82 => "Violent rain showers",
        85 => "Snow showers",
        86 => "Heavy snow showers",
        95 => "Thunderstorm",
        96 => "Thunderstorm with hail",
        99 => "Thunderstorm with heavy hail",
        _ => "Unknown",
    }
}

/// Law: the codes without an icon are exactly the codes without a
/// condition name.
pub proof fn lemma_icon_matches_condition(code: u16)
    ensures
        (icon_of(code) == WeatherIcon::Unknown) <==> (condition_of(code) == "Unknown"@),
{
    reveal_strlit("Unknown");
    reveal_strlit("Clear sky");
    reveal_strlit("Mainly clear");
    reveal_strlit("Partly cloudy");
    reveal_strlit("Overcast");
    reveal_strlit("Fog");
    reveal_strlit("Depositing rime fog");
    reveal_strlit("Light drizzle");
    reveal_strlit("Drizzle");
    reveal_strlit("Dense drizzle");
    reveal_strlit("Freezing drizzle");
    reveal_strlit("Dense freezing drizzle");
    reveal_strlit("Slight rain");
    reveal_strlit("Rain");
    reveal_strlit("Heavy rain");
    reveal_strlit("Freezing rain");
    reveal_strlit("Heavy freezing rain");
    reveal_strlit("Slight snow");
    reveal_strlit("Snow");
    reveal_strlit("Heavy snow");
    reveal_strlit("Snow grains");
    reveal_strlit("Rain showers");
    reveal_strlit("Heavy rain showers");
    reveal_strlit("Violent rain showers");
    reveal_strlit("Snow showers");
    reveal_strlit("Heavy snow showers");
    reveal_strlit("Thunderstorm");
    reveal_strlit("Thunderstorm with hail");
    reveal_strlit("Thunderstorm with heavy hail");
    if icon_of(code) != WeatherIcon::Unknown {
        assert(condition_of(code)[0] != 'U' || condition_of(code).len() != 7);
    }
}

} // verus!
