use winds_aloft::{parse_wind, winds_from_body, StationForecast, Wind, WindsAloftForecast};

const BULLETIN: &str = "
000
FBUS31 KWNO 061406
FD1US1
DATA BASED ON 061200Z
VALID 061800Z   FOR USE 1400-2100Z. TEMPS NEG ABV 24000

FT  3000    6000    9000   12000   18000   24000  30000  34000  39000
ABI      2011+13 2415+07 2415+01 2321-15 2431-28 254443 254453 254361
BOS 3127 3127+05 3127+01 3127-05 3127-17 3127-29 312742 312750 312757
";

fn wind(direction: u32, speed: u32, altitude: u32) -> Wind {
    Wind::new(direction, speed, altitude)
}

#[test]
fn short_tokens_give_no_wind() {
    assert!(parse_wind("", 3000).is_none());
    assert!(parse_wind("3", 3000).is_none());
    assert!(parse_wind("31", 3000).is_none());
    assert!(parse_wind("312", 3000).is_none());
}

#[test]
fn wind_keeps_its_altitude() {
    assert_eq!(parse_wind("0905", 39000), Some(wind(90, 5, 39000)));
}

#[test]
fn blank_column_gives_no_wind() {
    assert!(parse_wind("    ", 3000).is_none());
    assert!(parse_wind("31 7", 3000).is_none());
}

#[test]
fn signed_fields_follow_integer_parsing() {
    assert_eq!(parse_wind("+5+5", 6000), Some(wind(50, 5, 6000)));
    assert!(parse_wind("-512", 6000).is_none());
    assert!(parse_wind("31-5", 6000).is_none());
}

#[test]
fn bulletin_rows_are_read_in_order() {
    let forecasts = winds_from_body(BULLETIN);
    assert_eq!(forecasts.len(), 2);
    assert_eq!(forecasts[0].station, "ABI");
    assert_eq!(
        forecasts[0].winds,
        vec![
            wind(200, 11, 6000),
            wind(240, 15, 9000),
            wind(240, 15, 12000),
            wind(230, 21, 18000),
            wind(240, 31, 24000),
            wind(250, 44, 30000),
            wind(250, 44, 34000),
            wind(250, 43, 39000),
        ]
    );
    assert_eq!(forecasts[1].station, "BOS");
}

#[test]
fn full_row_has_every_altitude() {
    let forecasts = winds_from_body(
        "BOS 3127 3127+05 3127+01 3127-05 3127-17 3127-29 312742 312750 312757\n",
    );
    assert_eq!(forecasts.len(), 1);
    let altitudes: Vec<u32> = forecasts[0].winds.iter().map(|w| w.altitude).collect();
    assert_eq!(
        altitudes,
        vec![3000, 6000, 9000, 12000, 18000, 24000, 30000, 34000, 39000]
    );
    assert!(forecasts[0].winds.iter().all(|w| w.direction == 310 && w.speed == 27));
}

#[test]
fn row_needs_its_closing_blank() {
    let forecasts = winds_from_body(
        "BOS 3127 3127+05 3127+01 3127-05 3127-17 3127-29 312742 312750 312757",
    );
    assert!(forecasts.is_empty());
}

#[test]
fn row_may_not_span_lines() {
    let forecasts = winds_from_body(
        "BOS 3127 3127+05 3127\n01 3127-05 3127-17 3127-29 312742 312750 312757\n",
    );
    assert!(forecasts.is_empty());
}

#[test]
fn duplicate_stations_are_kept() {
    let body = "ABC 3127 3127+05 3127+01 3127-05 3127-17 3127-29 312742 312750 312757\n\
                ABC 0905 0905+05 0905+01 0905-05 0905-17 0905-29 090542 090550 090557\n";
    let forecasts = winds_from_body(body);
    assert_eq!(forecasts.len(), 2);
    let forecast = WindsAloftForecast { time_retrieved: 0, forecast_time: 0, forecasts };
    let first = forecast.get_station_forecast("abc").unwrap();
    assert_eq!(first.winds[0], wind(310, 27, 3000));
}

#[test]
fn reading_twice_gives_the_same_records() {
    let first = winds_from_body(BULLETIN);
    let second = winds_from_body(BULLETIN);
    assert_eq!(first.len(), second.len());
    for (a, b) in first.iter().zip(second.iter()) {
        assert_eq!(a.station, b.station);
        assert_eq!(a.winds, b.winds);
    }
}

#[test]
fn empty_bulletin_has_no_rows() {
    assert!(winds_from_body("").is_empty());
    assert_eq!(WindsAloftForecast::parse_time_from_body(""), 0);
}

#[test]
fn last_stamp_wins() {
    let body = "DATA BASED ON 060600Z\nDATA BASED ON 061800Z\n";
    assert_eq!(WindsAloftForecast::parse_time_from_body(body), 1800);
    assert_eq!(WindsAloftForecast::parse_time_from_body("DATA BASED ON 060600Z"), 600);
    assert_eq!(WindsAloftForecast::parse_time_from_body("DATA BASED ON 0606Z"), 0);
}

#[test]
fn station_lookup_ignores_case() {
    let mut forecast = WindsAloftForecast { time_retrieved: 0, forecast_time: 0, forecasts: Vec::new() };
    assert_eq!(forecast.refresh_at(Some(BULLETIN), 13, 45), Some(()));
    assert_eq!(forecast.get_station_forecast("bos").unwrap().station, "BOS");
    assert_eq!(forecast.get_station_forecast("Abi").unwrap().station, "ABI");
    assert!(forecast.get_station_forecast("xyz").is_none());
    assert!(forecast.find_station("abi").is_none());
}

#[test]
fn wind_at_altitude_finds_the_column() {
    let station = StationForecast::new("ABI", vec![wind(200, 11, 6000), wind(240, 15, 9000)]);
    assert_eq!(station.wind_at_altitude(9000), Some(&wind(240, 15, 9000)));
    assert!(station.wind_at_altitude(3000).is_none());
}

#[test]
fn refresh_replaces_everything() {
    let mut forecast = WindsAloftForecast { time_retrieved: 0, forecast_time: 0, forecasts: Vec::new() };
    assert_eq!(forecast.refresh_at(Some(BULLETIN), 13, 45), Some(()));
    assert_eq!(forecast.time_retrieved, 1345);
    assert_eq!(forecast.forecast_time, 1200);
    assert_eq!(forecast.forecasts.len(), 2);
}

#[test]
fn failed_fetch_keeps_the_forecast() {
    let mut forecast = WindsAloftForecast { time_retrieved: 0, forecast_time: 0, forecasts: Vec::new() };
    forecast.refresh_at(Some(BULLETIN), 13, 45);
    assert_eq!(forecast.refresh_at(None, 20, 0), None);
    assert_eq!(forecast.time_retrieved, 1345);
    assert_eq!(forecast.forecast_time, 1200);
    assert_eq!(forecast.forecasts.len(), 2);
    assert_eq!(forecast.refresh(None), None);
    assert_eq!(forecast.time_retrieved, 1345);
}

#[test]
fn refresh_stamps_a_clock_time() {
    let forecast = WindsAloftForecast::new(Some(BULLETIN));
    assert!(forecast.time_retrieved / 100 < 24 && forecast.time_retrieved % 100 < 60);
    assert_eq!(forecast.forecast_time, 1200);
    let empty = WindsAloftForecast::new(None);
    assert_eq!(empty.time_retrieved, 0);
    assert!(empty.forecasts.is_empty());
}

#[test]
fn staleness_window_edges() {
    let forecast = WindsAloftForecast { time_retrieved: 1200, forecast_time: 1200, forecasts: Vec::new() };
    assert!(!forecast.needs_refresh_time_given(1859));
    assert!(forecast.needs_refresh_time_given(1900));
    assert!(forecast.needs_refresh_time_given(1159));
}
