use vstd::prelude::*;

use crate::report::{station_rows, winds_from_body};
use crate::station::StationForecast;
use crate::text::{chars_of, digit_char, digit_value, is_digit, is_space, space_char};

verus! {

/// Characters of an issuance stamp `DATA BASED ON ddhhmmZ`.
pub const STAMP_LEN: usize = 21;

/// The letter that offset `j` of an issuance stamp holds, where it holds a fixed letter.
pub open spec fn stamp_letter(j: int) -> char {
    if j == 0 || j == 9 { 'D' }
    else if j == 1 || j == 3 || j == 6 { 'A' }
    else if j == 2 { 'T' }
    else if j == 5 { 'B' }
    else if j == 7 { 'S' }
    else if j == 8 { 'E' }
    else if j == 11 { 'O' }
    else if j == 12 { 'N' }
    else { 'Z' }
}

/// Whether `c` may stand at offset `j` of an issuance stamp: a blank between the words,
/// a digit in the day and time, the stamp's letter elsewhere.
pub open spec fn stamp_char_fits(j: int, c: char) -> bool {
    if j == 4 || j == 10 || j == 13 {
        is_space(c)
    } else if 14 <= j < 20 {
        is_digit(c)
    } else {
        c == stamp_letter(j)
    }
}

/// An issuance stamp starts at `p`.
pub open spec fn stamp_at(s: Seq<char>, p: int) -> bool {
    &&& 0 <= p
    &&& p + STAMP_LEN <= s.len()
    &&& forall|j: int| 0 <= j < STAMP_LEN ==> stamp_char_fits(j, #[trigger] s[p + j])
}

/// The `hhmm` time that the stamp at `p` gives.
pub open spec fn stamp_time(s: Seq<char>, p: int) -> u32 {
    (1000 * digit_value(s[p + 16]) + 100 * digit_value(s[p + 17]) + 10 * digit_value(s[p + 18])
        + digit_value(s[p + 19])) as u32
}

/// The time of the last issuance stamp found from `from` on, scanning left to right and
/// resuming after each stamp; `last` if there is none.
pub open spec fn time_from(s: Seq<char>, from: int, last: u32) -> u32
    decreases s.len() - from,
{
    if from < 0 || from >= s.len() {
        last
    } else if stamp_at(s, from) {
        time_from(s, from + STAMP_LEN, stamp_time(s, from))
    } else {
        time_from(s, from + 1, last)
    }
}

/// The issuance time of a bulletin: that of its last stamp, or 0 if it has none.
pub open spec fn bulletin_time(s: Seq<char>) -> u32 {
    time_from(s, 0, 0)
}

/// A time of day written `hhmm` with an hour below 24 and a minute below 60.
pub open spec fn is_clock_time(t: u32) -> bool {
    t / 100 < 24 && t % 100 < 60
}

/// A forecast issued at `forecast_time` is stale at `time` when more than six hours
/// have passed since its hour, or when the hour of `time` is before its hour (which
/// also covers the turn of the day). Minutes are not compared.
pub open spec fn is_stale(forecast_time: u32, time: u32) -> bool {
    time / 100 > forecast_time / 100 + 6 || time / 100 < forecast_time / 100
}

/// The name of what `str::to_uppercase` makes of a text.
pub uninterp spec fn upper_of(s: Seq<char>) -> Seq<char>;

/// `r` is the first forecast among `fs` whose station code is `code`, or `None` if no
/// station has that code.
pub open spec fn first_station(
    fs: Seq<StationForecast>,
    code: Seq<char>,
    r: Option<&StationForecast>,
) -> bool {
    match r {
        None => forall|i: int| 0 <= i < fs.len() ==> (#[trigger] fs[i]).station@ != code,
        Some(f) => exists|i: int|
            0 <= i < fs.len() && #[trigger] fs[i] == *f && f.station@ == code && forall|j: int|
                0 <= j < i ==> (#[trigger] fs[j]).station@ != code,
    }
}

/// Relies on chrono's `Utc::now` with `Timelike::hour` and `Timelike::minute`, which give
/// the current UTC hour, 0 to 23, and minute, 0 to 59.
#[verifier::external_body]
fn utc_hour_minute() -> (r: (u32, u32))
    ensures
        r.0 < 24,
        r.1 < 60,
{
    let now = chrono::Utc::now();
    (chrono::Timelike::hour(&now), chrono::Timelike::minute(&now))
}

/// Relies on `str::to_uppercase`, whose result depends on the characters alone.
#[verifier::external_body]
fn uppercase(s: &str) -> (r: String)
    ensures
        r@ == upper_of(s@),
{
    s.to_uppercase()
}

fn stamp_char(j: usize, c: char) -> (r: bool)
    requires
        j < STAMP_LEN,
    ensures
        r == stamp_char_fits(j as int, c),
{
    if j == 4 || j == 10 || j == 13 {
        space_char(c)
    } else if 14 <= j && j < 20 {
        digit_char(c).is_some()
    } else if j == 0 || j == 9 {
        c == 'D'
    } else if j == 1 || j == 3 || j == 6 {
        c == 'A'
    } else if j == 2 {
        c == 'T'
    } else if j == 5 {
        c == 'B'
    } else if j == 7 {
        c == 'S'
    } else if j == 8 {
        c == 'E'
    } else if j == 11 {
        c == 'O'
    } else if j == 12 {
        c == 'N'
    } else {
        c == 'Z'
    }
}

fn stamp_starts_at(cs: &Vec<char>, p: usize) -> (r: bool)
    requires
        p <= cs@.len(),
    ensures
        r == stamp_at(cs@, p as int),
{
    let n = cs.len();
    if n - p < STAMP_LEN {
        return false;
    }
    let mut j: usize = 0;
    while j < STAMP_LEN
        invariant
            j <= STAMP_LEN,
            n == cs@.len(),
            p + STAMP_LEN <= n,
            forall|i: int| 0 <= i < j ==> stamp_char_fits(i, #[trigger] cs@[p + i]),
        decreases STAMP_LEN - j,
    {
        if !stamp_char(j, cs[p + j]) {
            return false;
        }
        j = j + 1;
    }
    true
}

fn read_stamp_time(cs: &Vec<char>, p: usize) -> (r: u32)
    requires
        stamp_at(cs@, p as int),
    ensures
        r == stamp_time(cs@, p as int),
{
    let n = cs.len();
    let mut t: u32 = 0;
    let mut j: usize = 16;
    assert(is_digit(cs@[p + 16]) && is_digit(cs@[p + 17]) && is_digit(cs@[p + 18])
        && is_digit(cs@[p + 19]));
    while j < 20
        invariant
            16 <= j <= 20,
            n == cs@.len(),
            stamp_at(cs@, p as int),
            t < 10000,
            j == 16 ==> t == 0,
            j == 17 ==> t == digit_value(cs@[p + 16]),
            j == 18 ==> t == 10 * digit_value(cs@[p + 16]) + digit_value(cs@[p + 17]),
            j == 19 ==> t == 100 * digit_value(cs@[p + 16]) + 10 * digit_value(cs@[p + 17])
                + digit_value(cs@[p + 18]),
            j == 20 ==> t == stamp_time(cs@, p as int),
            is_digit(cs@[p + 16]) && is_digit(cs@[p + 17]) && is_digit(cs@[p + 18])
                && is_digit(cs@[p + 19]),
        decreases 20 - j,
    {
        assert(stamp_char_fits(j as int, cs@[p + j]));
        let d = digit_char(cs[p + j]).unwrap();
        t = 10 * t + d;
        j = j + 1;
    }
    t
}

/// All that is known of a winds aloft bulletin: when it was fetched, when it was
/// issued, and its station forecasts in the order of the bulletin.
#[derive(Debug)]
pub struct WindsAloftForecast {
    /// UTC time of day, `hhmm`, at which the bulletin was fetched.
    pub time_retrieved: u32,
    /// UTC time of day, `hhmm`, at which the bulletin was issued.
    pub forecast_time: u32,
    /// The station forecasts, in the order of the bulletin.
    pub forecasts: Vec<StationForecast>,
}

impl WindsAloftForecast {
    /// The issuance time of a bulletin, `hhmm`, from its last `DATA BASED ON ddhhmmZ`
    /// stamp; 0 if it has none.
    pub fn parse_time_from_body(body: &str) -> (r: u32)
        ensures
            r == bulletin_time(body@),
    {
        let cs = chars_of(body);
        let n = cs.len();
        let mut time: u32 = 0;
        let mut i: usize = 0;
        while i < n
            invariant
                i <= n,
                n == cs@.len(),
                cs@ == body@,
                time_from(cs@, i as int, time) == bulletin_time(cs@),
            decreases n - i,
        {
            if stamp_starts_at(&cs, i) {
                time = read_stamp_time(&cs, i);
                i = i + STAMP_LEN;
            } else {
                i = i + 1;
            }
        }
        time
    }

    /// Whether a forecast issued at `self.forecast_time` is stale at `time` (`hhmm`).
    pub fn needs_refresh_time_given(&self, time: u32) -> (r: bool)
        ensures
            r == is_stale(self.forecast_time, time),
    {
        let hour = time / 100;
        let forecast_hour = self.forecast_time / 100;
        if hour > forecast_hour + 6 {
            true
        } else if hour < forecast_hour {
            true
        } else {
            false
        }
    }

    /// Whether this forecast is stale now, by the UTC clock. The bulletin is issued at
    /// 00Z, 06Z, 12Z and 18Z.
    pub fn needs_refresh(&self) -> (r: bool)
        ensures
            exists|t: u32| is_clock_time(t) && r == is_stale(self.forecast_time, t),
    {
        let (hour, minute) = utc_hour_minute();
        let now = hour * 100 + minute;
        assert(is_clock_time(now));
        self.needs_refresh_time_given(now)
    }

    /// Replaces this forecast by the bulletin `report`, fetched at `hour`:`minute` UTC.
    /// A fetch that failed (`None`) leaves the forecast as it was and gives `None`.
    pub fn refresh_at(&mut self, report: Option<&str>, hour: u32, minute: u32) -> (r: Option<()>)
        requires
            hour < 24,
            minute < 60,
        ensures
            report is None ==> r is None && *final(self) == *old(self),
            report matches Some(body) ==> {
                &&& r is Some
                &&& final(self).forecasts@.map_values(|f: StationForecast| f@) == station_rows(body@)
                &&& final(self).forecast_time == bulletin_time(body@)
                &&& final(self).time_retrieved == hour * 100 + minute
            },
    {
        match report {
            None => None,
            Some(body) => {
                self.forecasts = winds_from_body(body);
                self.forecast_time = WindsAloftForecast::parse_time_from_body(body);
                self.time_retrieved = hour * 100 + minute;
                Some(())
            },
        }
    }

    /// Replaces this forecast by the bulletin `report`, stamping it with the UTC time now.
    /// A fetch that failed (`None`) leaves the forecast as it was and gives `None`.
    pub fn refresh(&mut self, report: Option<&str>) -> (r: Option<()>)
        ensures
            report is None ==> r is None && *final(self) == *old(self),
            report matches Some(body) ==> {
                &&& r is Some
                &&& final(self).forecasts@.map_values(|f: StationForecast| f@) == station_rows(body@)
                &&& final(self).forecast_time == bulletin_time(body@)
                &&& is_clock_time(final(self).time_retrieved)
            },
    {
        let (hour, minute) = utc_hour_minute();
        self.refresh_at(report, hour, minute)
    }

    /// A forecast made from the bulletin `report`; with no bulletin (the fetch failed),
    /// an empty forecast issued and fetched at 0000.
    pub fn new(report: Option<&str>) -> (r: WindsAloftForecast)
        ensures
            report is None ==> r.time_retrieved == 0 && r.forecast_time == 0 && r.forecasts@.len() == 0,
            report matches Some(body) ==> {
                &&& r.forecasts@.map_values(|f: StationForecast| f@) == station_rows(body@)
                &&& r.forecast_time == bulletin_time(body@)
                &&& is_clock_time(r.time_retrieved)
            },
    {
        let mut forecast = WindsAloftForecast { time_retrieved: 0, forecast_time: 0, forecasts: Vec::new() };
        let _ = forecast.refresh(report);
        forecast
    }

    /// The first station forecast whose code is exactly `code`.
    pub fn find_station(&self, code: &str) -> (r: Option<&StationForecast>)
        ensures
            first_station(self.forecasts@, code@, r),
    {
        let wanted = code.to_owned();
        let mut i: usize = 0;
        while i < self.forecasts.len()
            invariant
                i <= self.forecasts@.len(),
                wanted@ == code@,
                forall|j: int| 0 <= j < i ==> (#[trigger] self.forecasts@[j]).station@ != code@,
            decreases self.forecasts@.len() - i,
        {
            if self.forecasts[i].station == wanted {
                return Some(&self.forecasts[i]);
            }
            i = i + 1;
        }
        None
    }

    /// The forecast of `station`, its code compared without regard to case: the first
    /// whose code equals the upper-case form of `station`.
    pub fn get_station_forecast(&self, station: &str) -> (r: Option<&StationForecast>)
        ensures
            first_station(self.forecasts@, upper_of(station@), r),
    {
        let upper_station = uppercase(station);
        self.find_station(upper_station.as_str())
    }
}

} // verus!
