//! The zodiac panel: the current sign of the tropical zodiac, by a seasonal
//! approximation, and the Venus cycle.
//!
//! The Venus cycle percentage is computed by the caller and comes in as
//! text.

use vstd::prelude::*;
use crate::text::{concat, string_of};
use crate::modules::bottom_module::{PanelLine, body_lines, strings_view};
use crate::modules::module_id::ModuleId;

verus! {

/// Number of signs.
pub const SIGN_COUNT: usize = 12;

/// Name of sign `i` (0 is Aries).
pub open spec fn sign_name(i: int) -> Seq<char> {
    if i == 0 { "Aries"@ } else if i == 1 { "Taurus"@ } else if i == 2 { "Gemini"@ }
    else if i == 3 { "Cancer"@ } else if i == 4 { "Leo"@ } else if i == 5 { "Virgo"@ }
    else if i == 6 { "Libra"@ } else if i == 7 { "Scorpio"@ } else if i == 8 { "Sagittarius"@ }
    else if i == 9 { "Capricorn"@ } else if i == 10 { "Aquarius"@ } else { "Pisces"@ }
}

/// Symbol of sign `i`.
pub open spec fn sign_symbol(i: int) -> Seq<char> {
    if i == 0 { "♈"@ } else if i == 1 { "♉"@ } else if i == 2 { "♊"@ }
    else if i == 3 { "♋"@ } else if i == 4 { "♌"@ } else if i == 5 { "♍"@ }
    else if i == 6 { "♎"@ } else if i == 7 { "♏"@ } else if i == 8 { "♐"@ }
    else if i == 9 { "♑"@ } else if i == 10 { "♒"@ } else { "♓"@ }
}

/// Icon name of sign `i` (its name in lower case).
pub open spec fn sign_slug(i: int) -> Seq<char> {
    if i == 0 { "aries"@ } else if i == 1 { "taurus"@ } else if i == 2 { "gemini"@ }
    else if i == 3 { "cancer"@ } else if i == 4 { "leo"@ } else if i == 5 { "virgo"@ }
    else if i == 6 { "libra"@ } else if i == 7 { "scorpio"@ } else if i == 8 { "sagittarius"@ }
    else if i == 9 { "capricorn"@ } else if i == 10 { "aquarius"@ } else { "pisces"@ }
}

/// One sign of the zodiac.
#[derive(Clone, Copy)]
pub struct ZodiacSign {
    pub name: &'static str,
    pub symbol: &'static str,
    pub slug: &'static str,
}

/// Sign `i` of the zodiac, in order from Aries.
pub fn sign_at(i: usize) -> (r: ZodiacSign)
    requires
        i < SIGN_COUNT,
    ensures
        r.name@ == sign_name(i as int),
        r.symbol@ == sign_symbol(i as int),
        r.slug@ == sign_slug(i as int),
{
    match i {
        0 => ZodiacSign { name: "Aries", symbol: "♈", slug: "aries" },
        1 => ZodiacSign { name: "Taurus", symbol: "♉", slug: "taurus" },
        2 => ZodiacSign { name: "Gemini", symbol: "♊", slug: "gemini" },
        3 => ZodiacSign { name: "Cancer", symbol: "♋", slug: "cancer" },
        4 => ZodiacSign { name: "Leo", symbol: "♌", slug: "leo" },
        5 => ZodiacSign { name: "Virgo", symbol: "♍", slug: "virgo" },
        6 => ZodiacSign { name: "Libra", symbol: "♎", slug: "libra" },
        7 => ZodiacSign { name: "Scorpio", symbol: "♏", slug: "scorpio" },
        8 => ZodiacSign { name: "Sagittarius", symbol: "♐", slug: "sagittarius" },
        9 => ZodiacSign { name: "Capricorn", symbol: "♑", slug: "capricorn" },
        10 => ZodiacSign { name: "Aquarius", symbol: "♒", slug: "aquarius" },
        _ => ZodiacSign { name: "Pisces", symbol: "♓", slug: "pisces" },
    }
}

/// The sign shown at `now_secs` seconds since the Unix epoch: the day of a
/// 365-day year, thirty days to a sign.
pub open spec fn sign_index(now_secs: u64) -> int {
    ((((now_secs / 86400) % 365) / 30) % 12) as int
}

/// The index of the sign shown at `now_secs`.
pub fn current_zodiac_sign(now_secs: u64) -> (r: usize)
    ensures
        r == sign_index(now_secs),
        r < SIGN_COUNT,
{
    let day_of_year = (now_secs / 86400) % 365;
    ((day_of_year / 30) % 12) as usize
}

/// The sign line: symbol, space, name.
pub open spec fn sign_line(i: int) -> Seq<char> {
    sign_symbol(i) + " "@ + sign_name(i)
}

fn sign_text(i: usize) -> (r: String)
    requires
        i < SIGN_COUNT,
    ensures
        r@ == sign_line(i as int),
{
    let sign = sign_at(i);
    let mut s = concat(sign.symbol, " ");
    s.append(sign.name);
    s
}

/// The zodiac panel.
pub struct ZodiacPanel {
    lines: Vec<String>,
    current: usize,
}

impl ZodiacPanel {
    pub closed spec fn texts(&self) -> Seq<Seq<char>> {
        strings_view(self.lines@)
    }

    pub closed spec fn sign(&self) -> int {
        self.current as int
    }

    /// The panel at `now_secs`, with the Venus cycle at `venus_percent`.
    pub fn new(now_secs: u64, venus_percent: &str) -> (r: Self)
        ensures
            r.sign() == sign_index(now_secs),
            r.texts() == seq![sign_line(sign_index(now_secs)), "Venus: "@ + venus_percent@ + "%"@, "Cycle info"@],
    {
        let current = current_zodiac_sign(now_secs);
        let mut lines: Vec<String> = Vec::new();
        lines.push(sign_text(current));
        let mut venus = concat("Venus: ", venus_percent);
        venus.append("%");
        lines.push(venus);
        lines.push(string_of("Cycle info"));
        let r = ZodiacPanel { lines, current };
        assert(r.texts() =~= seq![sign_line(sign_index(now_secs)), "Venus: "@ + venus_percent@ + "%"@, "Cycle info"@]);
        r
    }

    /// Moves to `now_secs`: the sign line and the Venus cycle line
    /// (`Venus cycle: <percent>%`) are brought up to date.
    pub fn tick(&mut self, now_secs: u64, venus_percent: &str)
        requires
            old(self).texts().len() >= 2,
        ensures
            final(self).sign() == sign_index(now_secs),
            final(self).texts() == old(self).texts().update(0, sign_line(sign_index(now_secs))).update(
                1,
                "Venus cycle: "@ + venus_percent@ + "%"@,
            ),
    {
        let current = current_zodiac_sign(now_secs);
        self.current = current;
        let first = sign_text(current);
        let mut venus = concat("Venus cycle: ", venus_percent);
        venus.append("%");
        let ghost before = self.lines@;
        self.lines.set(0, first);
        self.lines.set(1, venus);
        assert(strings_view(self.lines@) =~= strings_view(before).update(0, sign_line(sign_index(now_secs))).update(
            1,
            "Venus cycle: "@ + venus_percent@ + "%"@,
        ));
    }

    pub fn id(&self) -> (r: ModuleId)
        ensures
            r == ModuleId::Zodiac,
    {
        ModuleId::Zodiac
    }

    /// The title and its colour.
    pub fn title(&self) -> (r: (String, u32))
        ensures
            r.0@ == "Zodiac"@,
            r.1 == 0xCC88FF,
    {
        (string_of("Zodiac"), 0xCC88FF)
    }

    /// The first three lines, in body size.
    pub fn lines(&self) -> (r: Vec<PanelLine>)
        ensures
            r@.len() == if self.texts().len() < 3 { self.texts().len() } else { 3 },
            forall|i: int| 0 <= i < r@.len() ==> (#[trigger] r@[i]).text@ == self.texts()[i] && r@[i].size_pt == 0,
    {
        body_lines(&self.lines, 3)
    }

    /// The icon of the current sign.
    pub fn icon_path(&self) -> (r: String)
        requires
            self.sign() < SIGN_COUNT,
        ensures
            r@ == "zodiac/zodiac-"@ + sign_slug(self.sign()) + "-symbolic.svg"@,
    {
        let sign = sign_at(self.current);
        let mut s = concat("zodiac/zodiac-", sign.slug);
        s.append("-symbolic.svg");
        s
    }
}

} // verus!
