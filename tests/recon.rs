use hdob::calendar::UtcDate;
use hdob::geo::{Coordinate, Latitude, LatitudeHemisphere, Longitude, LongitudeHemisphere};
use hdob::measure::{
    Altitude, Angle, DValue, Direction, Pressure, RainRate, Speed, Temperature, Wind,
};
use hdob::numeral::{parse_i32, parse_u32, parse_u8};
use hdob::recon::{
    parse_aircraft_pressure, parse_extrapolated_sfc_pressure, parse_hhmmss, parse_latlon,
    parse_quality, parse_rain_rate, parse_speed, parse_temperature, parse_wind,
    ExtrapolatedSurfacePressure, HDHALog, HDOBMessage, MessageError, ParseError,
};

const LINE1: &str = "181830 2006N 06141W 9236 00794 0115 +201 +173 123041 041 021 002 00";

const LINES2: &str = "135600 1821N 06526W 7752 02317 0126 +145 +051 234022 023 /// /// 03
135630 1819N 06525W 7799 02267 0124 +152 +059 237021 021 /// /// 03
135700 1817N 06524W 7800 02264 0119 +155 +062 239021 022 /// /// 03
135730 1815N 06523W 7799 02266 0115 +160 +066 244021 022 /// /// 03
135800 1813N 06522W 7798 02268 0122 +152 +073 228020 021 /// /// 03
135830 1811N 06521W 7799 02264 0119 +153 +074 227021 023 /// /// 03
135900 1810N 06520W 7800 02263 0117 +156 +074 237019 020 /// /// 03
135930 1808N 06519W 7800 02262 0118 +152 +078 227021 022 /// /// 03
140000 1806N 06517W 7800 02262 0117 +153 +079 232022 023 /// /// 03
140030 1805N 06516W 7893 02165 0118 +163 +083 234021 022 /// /// 03
140100 1803N 06514W 8079 01968 0123 +170 +089 221022 023 /// /// 03
140130 1802N 06513W 8296 01742 0123 +184 +094 222023 023 /// /// 03
140200 1801N 06511W 8517 01511 0124 +196 +115 222024 025 /// /// 03
140230 1759N 06510W 8760 01275 0127 +207 +146 224023 024 /// /// 03
140300 1758N 06508W 9007 01035 0127 +222 +187 218025 027 /// /// 03
140330 1757N 06506W 9234 00815 0129 +233 +212 214024 026 /// /// 03
140400 1756N 06505W 9234 00816 0130 +235 +220 211025 026 /// /// 03
140430 1755N 06504W 9278 00779 0129 +238 +210 214027 027 /// /// 03
140500 1753N 06502W 9278 00779 0132 +238 +213 215027 028 /// /// 03
140530 1752N 06501W 9278 00779 0131 +239 +213 213027 028 /// /// 03";

fn day() -> UtcDate {
    UtcDate::with_ymd(2022, 9, 1).unwrap()
}

fn message(body: &str) -> String {
    format!(
        "000\nURNT15 KNHC 011835  \nAF307 0606A EARL             HDOB 15 20220901\n{}",
        body
    )
}

#[test]
fn test_parse_hms() {
    let expected = UtcDate::with_ymd(2022, 09, 01).unwrap().and_hms(18, 03, 09).unwrap();
    let attempt = parse_hhmmss(&UtcDate::with_ymd(2022, 09, 01).unwrap(), "180309");
    assert_eq!(Ok(expected), attempt);
    assert_eq!(expected.hour, 18);
    assert_eq!(expected.minute, 3);
    assert_eq!(expected.second, 9);
}

#[test]
fn hms_errors() {
    assert_eq!(parse_hhmmss(&day(), "1803"), Err(ParseError::BadTime));
    assert_eq!(parse_hhmmss(&day(), "18a309"), Err(ParseError::BadTime));
    assert_eq!(parse_hhmmss(&day(), "240000"), Err(ParseError::InvalidTime));
    assert_eq!(parse_hhmmss(&day(), "236000"), Err(ParseError::InvalidTime));
}

#[test]
fn calendar_days() {
    assert!(UtcDate::with_ymd(2024, 2, 29).is_some());
    assert!(UtcDate::with_ymd(2023, 2, 29).is_none());
    assert!(UtcDate::with_ymd(1900, 2, 29).is_none());
    assert!(UtcDate::with_ymd(2000, 2, 29).is_some());
    assert!(UtcDate::with_ymd(2022, 4, 31).is_none());
    assert!(UtcDate::with_ymd(2022, 13, 1).is_none());
    assert!(UtcDate::with_ymd(2022, 0, 1).is_none());
}

#[test]
fn test_parse_latlon() {
    // 2006N 06141W
    let expected = Coordinate {
        latitude: Latitude {
            angle: Angle::with_degrees_minutes_seconds(20, 06, 0),
            hemisphere: LatitudeHemisphere::NORTH,
        },
        longitude: Longitude {
            angle: Angle::with_degrees_minutes_seconds(061, 41, 0),
            hemisphere: LongitudeHemisphere::WEST,
        },
    };
    let attempt = parse_latlon("2006N", "06141W");
    assert_eq!(Ok(expected), attempt);
}

#[test]
fn latlon_errors() {
    assert_eq!(parse_latlon("2006X", "06141W"), Err(ParseError::BadLatitude));
    assert_eq!(parse_latlon("206N", "06141W"), Err(ParseError::BadLatitude));
    assert_eq!(parse_latlon("2006N", "06141N"), Err(ParseError::BadLongitude));
    assert_eq!(parse_latlon("2006S", "0614E"), Err(ParseError::BadLongitude));
    let c = parse_latlon("1523S", "17001E").unwrap();
    assert_eq!(c.latitude.hemisphere, LatitudeHemisphere::SOUTH);
    assert_eq!(c.longitude.hemisphere, LongitudeHemisphere::EAST);
    assert_eq!(c.longitude.angle.degrees_minutes_seconds(), (170, 1, 0));
}

#[test]
fn test_parse_aircraft_pressure() {
    let expected1 = Pressure::with_microbars(923_600);
    let attempt1 = parse_aircraft_pressure("9236");
    assert_eq!(Ok(expected1), attempt1);

    let expected2 = Pressure::with_microbars(1_023_400);
    let attempt2 = parse_aircraft_pressure("0234");
    assert_eq!(Ok(expected2), attempt2);
}

#[test]
fn aircraft_pressure_edges() {
    assert_eq!(parse_aircraft_pressure("2000"), Ok(Pressure::with_microbars(1_200_000)));
    assert_eq!(parse_aircraft_pressure("2001"), Ok(Pressure::with_microbars(200_100)));
    assert_eq!(parse_aircraft_pressure("abcd"), Err(ParseError::BadNumber));
    assert_eq!(parse_aircraft_pressure("///"), Err(ParseError::BadNumber));
    assert_eq!(parse_aircraft_pressure("99999999"), Err(ParseError::OutOfRange));
}

#[test]
fn test_parse_extrapolated_sfc_pressure() {
    let alt = Pressure::with_microbars(923_000);
    let expected1 =
        ExtrapolatedSurfacePressure::ExtrapolatedPressure(Pressure::with_microbars(1_011_500));
    let attempt1 = parse_extrapolated_sfc_pressure(alt, "0115");
    assert_eq!(Ok(Some(expected1)), attempt1)
}

#[test]
fn d_values_above_550_mb() {
    let high = Pressure::with_microbars(549_999);
    assert_eq!(
        parse_extrapolated_sfc_pressure(high, "5200"),
        Ok(Some(ExtrapolatedSurfacePressure::DValue(DValue::with_meters(-200))))
    );
    assert_eq!(
        parse_extrapolated_sfc_pressure(high, "0150"),
        Ok(Some(ExtrapolatedSurfacePressure::DValue(DValue::with_meters(150))))
    );
    assert_eq!(
        parse_extrapolated_sfc_pressure(high, "5000"),
        Ok(Some(ExtrapolatedSurfacePressure::DValue(DValue::with_meters(5000))))
    );
    assert_eq!(parse_extrapolated_sfc_pressure(high, "x"), Err(ParseError::BadNumber));
    let at_550 = Pressure::with_microbars(550_000);
    assert_eq!(
        parse_extrapolated_sfc_pressure(at_550, "5200"),
        Ok(Some(ExtrapolatedSurfacePressure::ExtrapolatedPressure(Pressure::with_microbars(
            520_000
        ))))
    );
}

#[test]
fn missing_fields_are_absent() {
    assert_eq!(parse_extrapolated_sfc_pressure(Pressure::with_microbars(923_000), "///"), Ok(None));
    assert_eq!(parse_extrapolated_sfc_pressure(Pressure::with_microbars(500_000), "///"), Ok(None));
    assert_eq!(parse_temperature("///"), Ok(None));
    assert_eq!(parse_wind("///"), Ok(None));
    assert_eq!(parse_speed("///"), Ok(None));
    assert_eq!(parse_rain_rate("///"), Ok(None));
}

#[test]
fn temperatures() {
    assert_eq!(parse_temperature("+201"), Ok(Some(Temperature::with_millikelvin(293_250))));
    assert_eq!(parse_temperature("-052"), Ok(Some(Temperature::with_millikelvin(267_950))));
    assert_eq!(parse_temperature("-2731"), Ok(Some(Temperature::with_millikelvin(50))));
    assert_eq!(parse_temperature("-2732"), Err(ParseError::BelowAbsoluteZero));
    assert_eq!(parse_temperature("-2800"), Err(ParseError::BelowAbsoluteZero));
    assert_eq!(parse_temperature("99999999"), Err(ParseError::OutOfRange));
    assert_eq!(parse_temperature("+2x1"), Err(ParseError::BadNumber));
}

#[test]
fn winds_speeds_rain() {
    assert_eq!(
        parse_wind("123041"),
        Ok(Some(Wind::with_direction_and_speed(
            Direction::with_angle(Angle::with_degrees_minutes_seconds(123, 0, 0)),
            Speed::with_knots(41)
        )))
    );
    assert_eq!(parse_wind("x"), Ok(None));
    assert_eq!(parse_wind("4294967295"), Err(ParseError::OutOfRange));
    assert_eq!(parse_speed("041"), Ok(Some(Speed::with_knots(41))));
    assert_eq!(parse_speed("4x"), Err(ParseError::BadNumber));
    assert_eq!(parse_rain_rate("002"), Ok(Some(RainRate::with_mm_per_hr(2))));
    assert_eq!(parse_rain_rate("-1"), Err(ParseError::BadNumber));
}

#[test]
fn quality_codes() {
    let q = parse_quality("00").unwrap();
    assert!(!q.latlon_questionable && !q.altitude_or_pressure_questionable);
    assert!(!q.temp_or_dewpoint_questionable && !q.winds_questionable && !q.sfmr_questionable);
    assert_eq!(parse_quality("93"), Err(ParseError::BadPositionQuality));
    let q = parse_quality("03").unwrap();
    assert!(!q.temp_or_dewpoint_questionable && !q.winds_questionable && q.sfmr_questionable);
    assert!(!q.latlon_questionable && !q.altitude_or_pressure_questionable);
    let q = parse_quality("39").unwrap();
    assert!(q.latlon_questionable && q.altitude_or_pressure_questionable);
    assert!(q.temp_or_dewpoint_questionable && q.winds_questionable && q.sfmr_questionable);
    assert_eq!(parse_quality("07"), Err(ParseError::BadMeteorologicalQuality));
    assert_eq!(parse_quality("q"), Err(ParseError::BadNumber));
}

#[test]
fn numerals() {
    assert_eq!(parse_u32("+17"), Some(17));
    assert_eq!(parse_u32("4294967295"), Some(u32::MAX));
    assert_eq!(parse_u32("4294967296"), None);
    assert_eq!(parse_u32(""), None);
    assert_eq!(parse_u32("+"), None);
    assert_eq!(parse_i32("-2147483648"), Some(i32::MIN));
    assert_eq!(parse_i32("2147483648"), None);
    assert_eq!(parse_i32("-"), None);
    assert_eq!(parse_u8("256"), None);
    assert_eq!(parse_u8("093"), Some(93));
}

#[test]
fn test_parse_hdha() {
    let date = day();
    let attempt = HDHALog::parse(&date, LINE1).unwrap();
    assert_eq!(attempt.time, date.and_hms(18, 18, 30).unwrap());
    assert_eq!(attempt.location, parse_latlon("2006N", "06141W").unwrap());
    assert_eq!(attempt.aircraft_pressure, Pressure::with_microbars(923_600));
    assert_eq!(attempt.height, Altitude::with_meters(794));
    assert_eq!(
        attempt.surface_pressure,
        Some(ExtrapolatedSurfacePressure::ExtrapolatedPressure(Pressure::with_microbars(1_011_500)))
    );
    assert_eq!(attempt.temp, Some(Temperature::with_millikelvin(293_250)));
    assert_eq!(attempt.dewpoint, Some(Temperature::with_millikelvin(290_450)));
    assert_eq!(
        attempt.wind,
        Some(Wind::with_direction_and_speed(
            Direction::with_angle(Angle::with_degrees_minutes_seconds(123, 0, 0)),
            Speed::with_knots(41)
        ))
    );
    assert_eq!(attempt.peak_wind_speed, Some(Speed::with_knots(41)));
    assert_eq!(attempt.peak_sfmr_speed, Some(Speed::with_knots(21)));
    assert_eq!(attempt.rain_rate, Some(RainRate::with_mm_per_hr(2)));
    assert!(!attempt.latlon_questionable);
    assert!(!attempt.altitude_or_pressure_questionable);
    assert!(!attempt.temp_or_dewpoint_questionable);
    assert!(!attempt.winds_questionable);
    assert!(!attempt.sfmr_questionable);

    for line in LINES2.lines() {
        let hdha = HDHALog::parse(&date, line).unwrap();
        assert_eq!(hdha.peak_sfmr_speed, None);
        assert_eq!(hdha.rain_rate, None);
        assert!(hdha.sfmr_questionable);
    }
}

#[test]
fn line_errors() {
    let date = day();
    assert_eq!(HDHALog::parse(&date, "181830 2006N 06141W"), Err(ParseError::FieldCount));
    assert_eq!(HDHALog::parse(&date, &format!("{} 00", LINE1)), Err(ParseError::FieldCount));
    assert_eq!(
        HDHALog::parse(&date, "181830 2006N 06141W 9236 00794 0115 +201 +173 123041 041 021 002 93"),
        Err(ParseError::BadPositionQuality)
    );
    assert_eq!(
        HDHALog::parse(&date, "181830 2006N 06141W 9236 xx 0115 +201 +173 123041 041 021 002 00"),
        Err(ParseError::BadNumber)
    );
    // the first failing field decides
    assert_eq!(
        HDHALog::parse(&date, "251830 2006X 06141W 9236 00794 0115 +201 +173 123041 041 021 002 00"),
        Err(ParseError::InvalidTime)
    );
}

#[test]
fn test_parse_hdob() {
    let text = message(&format!("{}\n{}\n$$\n;\n", LINE1, LINES2));
    let attempt = HDOBMessage::parse(&text).unwrap();
    assert_eq!(attempt.header, "URNT15 KNHC 011835");
    assert_eq!(attempt.mission_id, "AF307 0606A EARL");
    assert_eq!(attempt.obs_number, 15);
    assert_eq!(attempt.date, UtcDate::with_ymd(2022, 9, 1).unwrap());
    assert_eq!(attempt.obs.len(), 21);
    assert_eq!(attempt.obs[0], HDHALog::parse(&attempt.date, LINE1).unwrap());
}

#[test]
fn message_stops_at_end_marker() {
    let text = message(&format!("{}\n$$\nnot an observation\n", LINE1));
    let m = HDOBMessage::parse(&text).unwrap();
    assert_eq!(m.obs.len(), 1);
    let text = message(&format!("{}\n{}", LINE1, LINE1));
    assert_eq!(HDOBMessage::parse(&text).unwrap().obs.len(), 2);
    let text = message("$$\n");
    assert_eq!(HDOBMessage::parse(&text).unwrap().obs.len(), 0);
}

#[test]
fn message_errors() {
    assert_eq!(HDOBMessage::parse("000"), Err(MessageError::MissingHeader));
    assert_eq!(HDOBMessage::parse("000\nURNT15 KNHC 011835"), Err(MessageError::MissingMissionHeader));
    assert_eq!(
        HDOBMessage::parse("000\nURNT15\nAF307 0606A EARL HDOB 15 2022091\n$$"),
        Err(MessageError::BadMissionHeader)
    );
    assert_eq!(
        HDOBMessage::parse("000\nURNT15\nAF307 0606A earl HDOB 15 20220901\n$$"),
        Err(MessageError::BadMissionHeader)
    );
    assert_eq!(
        HDOBMessage::parse("000\nURNT15\nAF307 HDOB 15 20220931\n$$"),
        Err(MessageError::InvalidDate)
    );
    let text = message(&format!("{}\n181830 2006N\n$$\n", LINE1));
    assert_eq!(
        HDOBMessage::parse(&text),
        Err(MessageError::BadObservation(4, ParseError::FieldCount))
    );
}
