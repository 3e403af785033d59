//! The HDOB message grammar: field decoders, the observation line, and the
//! message frame.
use crate::calendar::{is_calendar_date, is_time_of_day, UtcDate, UtcDateTime};
use crate::geo::{Coordinate, Latitude, LatitudeHemisphere, Longitude, LongitudeHemisphere};
use crate::measure::{
    div_toward_zero, dms_seconds, Altitude, Angle, DValue, Direction, Pressure, RainRate, Speed,
    Temperature, Wind, ZERO_CELSIUS_MK,
};
use crate::numeral::{
    all_digits, decimal, fixed_digits, is_digit, i32_value, parse_i32, parse_u32, parse_u8, pow10,
    unsigned_value,
};
use vstd::prelude::*;
use vstd::string::*;

verus! {

/// Why a field or an observation line could not be decoded.
#[derive(Debug, Copy, Clone, PartialEq, Eq, Hash, Structural)]
pub enum ParseError {
    /// The line does not hold exactly thirteen fields.
    FieldCount,
    /// The time is not six digits.
    BadTime,
    /// The six digits name no time of day.
    InvalidTime,
    /// The latitude is not `DDMM` followed by `N` or `S`.
    BadLatitude,
    /// The longitude is not `DDDMM` followed by `E` or `W`.
    BadLongitude,
    /// A numeric field is neither a number nor, where allowed, `///`.
    BadNumber,
    /// A number decodes to a value that its unit cannot hold.
    OutOfRange,
    /// A temperature below absolute zero.
    BelowAbsoluteZero,
    /// The tens digit of the quality code is not 0 to 3.
    BadPositionQuality,
    /// The ones digit of the quality code is not 0 to 6 or 9.
    BadMeteorologicalQuality,
}

/// The token that marks a field as not observed.
pub open spec fn missing(s: Seq<char>) -> bool {
    s == seq!['/', '/', '/']
}

fn is_missing(s: &str) -> (r: bool)
    ensures
        r == missing(s@),
{
    if s.unicode_len() == 3 && s.get_char(0) == '/' && s.get_char(1) == '/' && s.get_char(2)
        == '/' {
        assert(s@ =~= seq!['/', '/', '/']);
        true
    } else {
        false
    }
}

/// Time of day `HHMMSS` on the given date.
pub open spec fn time_of(date: UtcDate, s: Seq<char>) -> Result<UtcDateTime, ParseError> {
    if s.len() == 6 && all_digits(s.subrange(0, 2)) && all_digits(s.subrange(2, 4))
        && all_digits(s.subrange(4, 6)) {
        let h = decimal(s.subrange(0, 2));
        let m = decimal(s.subrange(2, 4));
        let sec = decimal(s.subrange(4, 6));
        if is_time_of_day(h as int, m as int, sec as int) {
            Ok(UtcDateTime { date, hour: h as u32, minute: m as u32, second: sec as u32 })
        } else {
            Err(ParseError::InvalidTime)
        }
    } else {
        Err(ParseError::BadTime)
    }
}

/// Decodes `HHMMSS` into that time of day on `date`.
pub fn parse_hhmmss(date: &UtcDate, hhmmss: &str) -> (r: Result<UtcDateTime, ParseError>)
    ensures
        r == time_of(*date, hhmmss@),
{
    proof {
        reveal_with_fuel(pow10, 3);
    }
    if hhmmss.unicode_len() != 6 {
        return Err(ParseError::BadTime);
    }
    let h = fixed_digits(hhmmss, 0, 2);
    let m = fixed_digits(hhmmss, 2, 4);
    let s = fixed_digits(hhmmss, 4, 6);
    assert(pow10(2) == 100);
    assert(h.is_some() == all_digits(hhmmss@.subrange(0, 2)));
    assert(m.is_some() == all_digits(hhmmss@.subrange(2, 4)));
    assert(s.is_some() == all_digits(hhmmss@.subrange(4, 6)));
    match (h, m, s) {
        (Some(h), Some(m), Some(s)) => match date.and_hms(h, m, s) {
            Some(t) => Ok(t),
            None => Err(ParseError::InvalidTime),
        },
        _ => Err(ParseError::BadTime),
    }
}

/// Angle of a whole number of degrees and minutes.
pub open spec fn angle_of(d: Seq<char>, m: Seq<char>) -> Angle {
    Angle(dms_seconds(decimal(d), decimal(m), 0) as u32)
}

/// Latitude `DDMM` with `N` or `S`.
pub open spec fn latitude_of(s: Seq<char>) -> Option<Latitude> {
    if s.len() == 5 && all_digits(s.subrange(0, 2)) && all_digits(s.subrange(2, 4)) && (s[4]
        == 'N' || s[4] == 'S') {
        Some(
            Latitude {
                angle: angle_of(s.subrange(0, 2), s.subrange(2, 4)),
                hemisphere: if s[4] == 'N' {
                    LatitudeHemisphere::NORTH
                } else {
                    LatitudeHemisphere::SOUTH
                },
            },
        )
    } else {
        None
    }
}

/// Longitude `DDDMM` with `E` or `W`.
pub open spec fn longitude_of(s: Seq<char>) -> Option<Longitude> {
    if s.len() == 6 && all_digits(s.subrange(0, 3)) && all_digits(s.subrange(3, 5)) && (s[5]
        == 'E' || s[5] == 'W') {
        Some(
            Longitude {
                angle: angle_of(s.subrange(0, 3), s.subrange(3, 5)),
                hemisphere: if s[5] == 'E' {
                    LongitudeHemisphere::EAST
                } else {
                    LongitudeHemisphere::WEST
                },
            },
        )
    } else {
        None
    }
}

pub open spec fn coordinate_of(lat: Seq<char>, lon: Seq<char>) -> Result<Coordinate, ParseError> {
    match (latitude_of(lat), longitude_of(lon)) {
        (Some(latitude), Some(longitude)) => Ok(Coordinate { latitude, longitude }),
        (None, _) => Err(ParseError::BadLatitude),
        (_, None) => Err(ParseError::BadLongitude),
    }
}

/// Decodes a latitude token `DDMM[NS]` and a longitude token `DDDMM[EW]`.
pub fn parse_latlon(llllh: &str, nnnnnh: &str) -> (r: Result<Coordinate, ParseError>)
    ensures
        r == coordinate_of(llllh@, nnnnnh@),
{
    proof {
        reveal_with_fuel(pow10, 4);
        assert(pow10(2) == 100 && pow10(3) == 1000);
    }
    if llllh.unicode_len() != 5 {
        return Err(ParseError::BadLatitude);
    }
    let lat_h = llllh.get_char(4);
    let lat_hemi = if lat_h == 'N' {
        LatitudeHemisphere::NORTH
    } else if lat_h == 'S' {
        LatitudeHemisphere::SOUTH
    } else {
        return Err(ParseError::BadLatitude);
    };
    let lat_d = fixed_digits(llllh, 0, 2);
    let lat_m = fixed_digits(llllh, 2, 4);
    assert(lat_d.is_some() == all_digits(llllh@.subrange(0, 2)));
    assert(lat_m.is_some() == all_digits(llllh@.subrange(2, 4)));
    let latitude = match (lat_d, lat_m) {
        (Some(d), Some(m)) => Latitude {
            angle: Angle::with_degrees_minutes_seconds(d, m, 0),
            hemisphere: lat_hemi,
        },
        _ => return Err(ParseError::BadLatitude),
    };
    if nnnnnh.unicode_len() != 6 {
        return Err(ParseError::BadLongitude);
    }
    let lon_h = nnnnnh.get_char(5);
    let lon_hemi = if lon_h == 'E' {
        LongitudeHemisphere::EAST
    } else if lon_h == 'W' {
        LongitudeHemisphere::WEST
    } else {
        return Err(ParseError::BadLongitude);
    };
    let lon_d = fixed_digits(nnnnnh, 0, 3);
    let lon_m = fixed_digits(nnnnnh, 3, 5);
    assert(lon_d.is_some() == all_digits(nnnnnh@.subrange(0, 3)));
    assert(lon_m.is_some() == all_digits(nnnnnh@.subrange(3, 5)));
    let longitude = match (lon_d, lon_m) {
        (Some(d), Some(m)) => Longitude {
            angle: Angle::with_degrees_minutes_seconds(d, m, 0),
            hemisphere: lon_hemi,
        },
        _ => return Err(ParseError::BadLongitude),
    };
    Ok(Coordinate { latitude, longitude })
}

/// Microbars of a pressure in tenths of a millibar whose leading `1` is left
/// out below 1000 mb: a value above 2000 is taken as it stands, any other has
/// `10000` put back in front.
pub open spec fn pressure_of_raw(raw: int) -> int {
    if raw > 2000 {
        raw * 100
    } else {
        (raw + 10000) * 100
    }
}

pub open spec fn fits_i32(v: int) -> bool {
    i32::MIN <= v <= i32::MAX
}

pub open spec fn aircraft_pressure_of(s: Seq<char>) -> Result<Pressure, ParseError> {
    match i32_value(s) {
        None => Err(ParseError::BadNumber),
        Some(raw) => if fits_i32(pressure_of_raw(raw)) {
            Ok(Pressure(pressure_of_raw(raw) as i32))
        } else {
            Err(ParseError::OutOfRange)
        },
    }
}

/// Decodes the aircraft's static pressure `PPPP`.
pub fn parse_aircraft_pressure(pppp: &str) -> (r: Result<Pressure, ParseError>)
    ensures
        r == aircraft_pressure_of(pppp@),
{
    let raw = match parse_i32(pppp) {
        Some(raw) => raw as i64,
        None => return Err(ParseError::BadNumber),
    };
    let ub: i64 = if raw > 2000 {
        raw * 100
    } else {
        (raw + 10000) * 100
    };
    if ub < i32::MIN as i64 || ub > i32::MAX as i64 {
        return Err(ParseError::OutOfRange);
    }
    Ok(Pressure::with_microbars(ub as i32))
}

/// Either an extrapolated surface pressure or, high above the surface, a
/// D-value.
#[derive(Debug, Copy, Clone, PartialEq, Eq, Hash, Structural)]
pub enum ExtrapolatedSurfacePressure {
    ExtrapolatedPressure(Pressure),
    DValue(DValue),
}

/// Meters of a D-value token: above 5000 it stands for the negative of its
/// excess over 5000.
pub open spec fn dvalue_of_raw(raw: int) -> int {
    if raw > 5000 {
        -(raw - 5000)
    } else {
        raw
    }
}

/// The aircraft flies above the 550 mb surface.
pub open spec fn below_550_mb(aircraft: Pressure) -> bool {
    div_toward_zero(aircraft.0 as int, 1000) < 550
}

pub open spec fn surface_pressure_of(aircraft: Pressure, s: Seq<char>) -> Result<
    Option<ExtrapolatedSurfacePressure>,
    ParseError,
> {
    if missing(s) {
        Ok(None)
    } else if below_550_mb(aircraft) {
        match i32_value(s) {
            None => Err(ParseError::BadNumber),
            Some(raw) => Ok(
                Some(ExtrapolatedSurfacePressure::DValue(DValue(dvalue_of_raw(raw) as i32))),
            ),
        }
    } else {
        match aircraft_pressure_of(s) {
            Ok(p) => Ok(Some(ExtrapolatedSurfacePressure::ExtrapolatedPressure(p))),
            Err(e) => Err(e),
        }
    }
}

/// Decodes the field `XXXX` that holds an extrapolated surface pressure, or a
/// D-value when the aircraft flies above 550 mb.
pub fn parse_extrapolated_sfc_pressure(altitude: Pressure, xxxx: &str) -> (r: Result<
    Option<ExtrapolatedSurfacePressure>,
    ParseError,
>)
    ensures
        r == surface_pressure_of(altitude, xxxx@),
{
    if is_missing(xxxx) {
        Ok(None)
    } else if altitude.millibars() < 550 {
        match parse_i32(xxxx) {
            None => Err(ParseError::BadNumber),
            Some(raw) => {
                let m = if raw > 5000 {
                    0 - (raw - 5000)
                } else {
                    raw
                };
                Ok(Some(ExtrapolatedSurfacePressure::DValue(DValue::with_meters(m))))
            },
        }
    } else {
        match parse_aircraft_pressure(xxxx) {
            Ok(p) => Ok(Some(ExtrapolatedSurfacePressure::ExtrapolatedPressure(p))),
            Err(e) => Err(e),
        }
    }
}

/// A temperature in tenths of a degree Celsius, sign included.
pub open spec fn temperature_of(s: Seq<char>) -> Result<Option<Temperature>, ParseError> {
    if missing(s) {
        Ok(None)
    } else {
        match i32_value(s) {
            None => Err(ParseError::BadNumber),
            Some(raw) => if !fits_i32(raw * 100) {
                Err(ParseError::OutOfRange)
            } else if raw * 100 + ZERO_CELSIUS_MK < 0 {
                Err(ParseError::BelowAbsoluteZero)
            } else {
                Ok(Some(Temperature((raw * 100 + ZERO_CELSIUS_MK) as u32)))
            },
        }
    }
}

/// Decodes a temperature or dewpoint `±TTT`.
pub fn parse_temperature(sttt: &str) -> (r: Result<Option<Temperature>, ParseError>)
    ensures
        r == temperature_of(sttt@),
{
    if is_missing(sttt) {
        return Ok(None);
    }
    let raw = match parse_i32(sttt) {
        Some(raw) => raw as i64,
        None => return Err(ParseError::BadNumber),
    };
    let mc: i64 = raw * 100;
    if mc < i32::MIN as i64 || mc > i32::MAX as i64 {
        return Err(ParseError::OutOfRange);
    }
    if mc + (ZERO_CELSIUS_MK as i64) < 0 {
        return Err(ParseError::BelowAbsoluteZero);
    }
    Ok(Some(Temperature::with_millicelsius(mc as i32)))
}

/// Wind `DDDSSS`: bearing in whole degrees, then speed in knots. A token that
/// is no unsigned number means no wind was observed.
pub open spec fn wind_of(s: Seq<char>) -> Result<Option<Wind>, ParseError> {
    match unsigned_value(s, u32::MAX as nat) {
        None => Ok(None),
        Some(raw) => if dms_seconds(raw / 1000, 0, 0) > u32::MAX {
            Err(ParseError::OutOfRange)
        } else {
            Ok(
                Some(
                    Wind {
                        direction: Direction(Angle(dms_seconds(raw / 1000, 0, 0) as u32)),
                        speed: Speed((raw % 1000) as u32),
                    },
                ),
            )
        },
    }
}

/// Decodes the fused wind field `DDDSSS`.
pub fn parse_wind(www_sss: &str) -> (r: Result<Option<Wind>, ParseError>)
    ensures
        r == wind_of(www_sss@),
{
    let raw = match parse_u32(www_sss) {
        Some(raw) => raw,
        None => return Ok(None),
    };
    let deg = raw / 1000;
    if deg > u32::MAX / 3600 {
        return Err(ParseError::OutOfRange);
    }
    Ok(
        Some(
            Wind::with_direction_and_speed(
                Direction::with_angle(Angle::with_degrees_minutes_seconds(deg, 0, 0)),
                Speed::with_knots(raw % 1000),
            ),
        ),
    )
}

/// An unsigned count in the field's own unit, or `///`.
pub open spec fn count_of(s: Seq<char>) -> Result<Option<u32>, ParseError> {
    if missing(s) {
        Ok(None)
    } else {
        match unsigned_value(s, u32::MAX as nat) {
            None => Err(ParseError::BadNumber),
            Some(v) => Ok(Some(v as u32)),
        }
    }
}

fn parse_count(s: &str) -> (r: Result<Option<u32>, ParseError>)
    ensures
        r == count_of(s@),
{
    if is_missing(s) {
        Ok(None)
    } else {
        match parse_u32(s) {
            None => Err(ParseError::BadNumber),
            Some(v) => Ok(Some(v)),
        }
    }
}

pub open spec fn speed_of(s: Seq<char>) -> Result<Option<Speed>, ParseError> {
    match count_of(s) {
        Ok(Some(v)) => Ok(Some(Speed(v))),
        Ok(None) => Ok(None),
        Err(e) => Err(e),
    }
}

/// Decodes a speed `SSS` in knots.
pub fn parse_speed(sss: &str) -> (r: Result<Option<Speed>, ParseError>)
    ensures
        r == speed_of(sss@),
{
    match parse_count(sss) {
        Ok(Some(v)) => Ok(Some(Speed::with_knots(v))),
        Ok(None) => Ok(None),
        Err(e) => Err(e),
    }
}

pub open spec fn rain_rate_of(s: Seq<char>) -> Result<Option<RainRate>, ParseError> {
    match count_of(s) {
        Ok(Some(v)) => Ok(Some(RainRate(v))),
        Ok(None) => Ok(None),
        Err(e) => Err(e),
    }
}

/// Decodes a rain rate `PPP` in millimeters per hour.
pub fn parse_rain_rate(ppp: &str) -> (r: Result<Option<RainRate>, ParseError>)
    ensures
        r == rain_rate_of(ppp@),
{
    match parse_count(ppp) {
        Ok(Some(v)) => Ok(Some(RainRate::with_mm_per_hr(v))),
        Ok(None) => Ok(None),
        Err(e) => Err(e),
    }
}

/// Confidence flags of one observation, from its two-digit quality code.
#[derive(Debug, Copy, Clone, PartialEq, Eq, Hash, Structural)]
pub struct QualityFlags {
    pub latlon_questionable: bool,
    pub altitude_or_pressure_questionable: bool,
    pub temp_or_dewpoint_questionable: bool,
    pub winds_questionable: bool,
    pub sfmr_questionable: bool,
}

/// Tens digit: (position questionable, altitude or pressure questionable).
pub open spec fn position_flags(t: int) -> Option<(bool, bool)> {
    if t == 0 {
        Some((false, false))
    } else if t == 1 {
        Some((true, false))
    } else if t == 2 {
        Some((false, true))
    } else if t == 3 {
        Some((true, true))
    } else {
        None
    }
}

/// Ones digit: (temperature or dewpoint, winds, SFMR questionable).
pub open spec fn met_flags(o: int) -> Option<(bool, bool, bool)> {
    if o == 0 {
        Some((false, false, false))
    } else if o == 1 {
        Some((true, false, false))
    } else if o == 2 {
        Some((false, true, false))
    } else if o == 3 {
        Some((false, false, true))
    } else if o == 4 {
        Some((true, true, false))
    } else if o == 5 {
        Some((true, false, true))
    } else if o == 6 {
        Some((false, true, true))
    } else if o == 9 {
        Some((true, true, true))
    } else {
        None
    }
}

pub open spec fn quality_of(s: Seq<char>) -> Result<QualityFlags, ParseError> {
    match unsigned_value(s, u8::MAX as nat) {
        None => Err(ParseError::BadNumber),
        Some(q) => match (position_flags((q / 10) as int), met_flags((q % 10) as int)) {
            (None, _) => Err(ParseError::BadPositionQuality),
            (_, None) => Err(ParseError::BadMeteorologicalQuality),
            (Some(p), Some(m)) => Ok(
                QualityFlags {
                    latlon_questionable: p.0,
                    altitude_or_pressure_questionable: p.1,
                    temp_or_dewpoint_questionable: m.0,
                    winds_questionable: m.1,
                    sfmr_questionable: m.2,
                },
            ),
        },
    }
}

/// Decodes the two-digit quality code.
pub fn parse_quality(qq: &str) -> (r: Result<QualityFlags, ParseError>)
    ensures
        r == quality_of(qq@),
{
    let q = match parse_u8(qq) {
        Some(q) => q,
        None => return Err(ParseError::BadNumber),
    };
    let (latlon, alt) = match q / 10 {
        0 => (false, false),
        1 => (true, false),
        2 => (false, true),
        3 => (true, true),
        _ => return Err(ParseError::BadPositionQuality),
    };
    let (temp, winds, sfmr) = match q % 10 {
        0 => (false, false, false),
        1 => (true, false, false),
        2 => (false, true, false),
        3 => (false, false, true),
        4 => (true, true, false),
        5 => (true, false, true),
        6 => (false, true, true),
        9 => (true, true, true),
        _ => return Err(ParseError::BadMeteorologicalQuality),
    };
    Ok(
        QualityFlags {
            latlon_questionable: latlon,
            altitude_or_pressure_questionable: alt,
            temp_or_dewpoint_questionable: temp,
            winds_questionable: winds,
            sfmr_questionable: sfmr,
        },
    )
}

pub open spec fn altitude_of(s: Seq<char>) -> Result<Altitude, ParseError> {
    match unsigned_value(s, u32::MAX as nat) {
        None => Err(ParseError::BadNumber),
        Some(v) => Ok(Altitude(v as u32)),
    }
}

/// Decodes the geopotential altitude in meters.
pub fn parse_altitude(s: &str) -> (r: Result<Altitude, ParseError>)
    ensures
        r == altitude_of(s@),
{
    match parse_u32(s) {
        None => Err(ParseError::BadNumber),
        Some(v) => Ok(Altitude::with_meters(v)),
    }
}

/// The fields of a line, split at runs of whitespace.
pub uninterp spec fn whitespace_tokens(s: Seq<char>) -> Seq<Seq<char>>;

/// Relies on str::split_whitespace: the whitespace-separated fields of a
/// line, in order.
#[verifier::external_body]
fn split_fields(line: &str) -> (r: Vec<String>)
    ensures
        r@.map_values(|t: String| t@) == whitespace_tokens(line@),
{
    line.split_whitespace().map(|t| t.to_string()).collect()
}

/// Number of fields of an observation line.
pub const FIELD_COUNT: usize = 13;

/// One observation line.
#[derive(Debug, Copy, Clone, PartialEq, Eq)]
pub struct HDHALog {
    pub time: UtcDateTime,
    pub location: Coordinate,
    pub aircraft_pressure: Pressure,
    pub height: Altitude,
    pub surface_pressure: Option<ExtrapolatedSurfacePressure>,
    pub temp: Option<Temperature>,
    pub dewpoint: Option<Temperature>,
    pub wind: Option<Wind>,
    pub peak_wind_speed: Option<Speed>,
    pub peak_sfmr_speed: Option<Speed>,
    pub rain_rate: Option<RainRate>,
    pub latlon_questionable: bool,
    pub altitude_or_pressure_questionable: bool,
    pub temp_or_dewpoint_questionable: bool,
    pub winds_questionable: bool,
    pub sfmr_questionable: bool,
}

/// The observation that thirteen fields spell, in column order: time,
/// latitude, longitude, aircraft pressure, altitude, surface pressure or
/// D-value, temperature, dewpoint, wind, peak wind, peak SFMR wind, rain rate,
/// quality code. The first field that fails decides the error.
#[verifier::opaque]
pub open spec fn log_of(date: UtcDate, t: Seq<Seq<char>>) -> Result<HDHALog, ParseError> {
    if t.len() != 13 {
        Err(ParseError::FieldCount)
    } else if time_of(date, t[0]) is Err {
        Err(time_of(date, t[0])->Err_0)
    } else if coordinate_of(t[1], t[2]) is Err {
        Err(coordinate_of(t[1], t[2])->Err_0)
    } else if aircraft_pressure_of(t[3]) is Err {
        Err(aircraft_pressure_of(t[3])->Err_0)
    } else if altitude_of(t[4]) is Err {
        Err(altitude_of(t[4])->Err_0)
    } else if surface_pressure_of(aircraft_pressure_of(t[3])->Ok_0, t[5]) is Err {
        Err(surface_pressure_of(aircraft_pressure_of(t[3])->Ok_0, t[5])->Err_0)
    } else if temperature_of(t[6]) is Err {
        Err(temperature_of(t[6])->Err_0)
    } else if temperature_of(t[7]) is Err {
        Err(temperature_of(t[7])->Err_0)
    } else if wind_of(t[8]) is Err {
        Err(wind_of(t[8])->Err_0)
    } else if speed_of(t[9]) is Err {
        Err(speed_of(t[9])->Err_0)
    } else if speed_of(t[10]) is Err {
        Err(speed_of(t[10])->Err_0)
    } else if rain_rate_of(t[11]) is Err {
        Err(rain_rate_of(t[11])->Err_0)
    } else if quality_of(t[12]) is Err {
        Err(quality_of(t[12])->Err_0)
    } else {
        let q = quality_of(t[12])->Ok_0;
        Ok(
            HDHALog {
                time: time_of(date, t[0])->Ok_0,
                location: coordinate_of(t[1], t[2])->Ok_0,
                aircraft_pressure: aircraft_pressure_of(t[3])->Ok_0,
                height: altitude_of(t[4])->Ok_0,
                surface_pressure: surface_pressure_of(aircraft_pressure_of(t[3])->Ok_0, t[5])->Ok_0,
                temp: temperature_of(t[6])->Ok_0,
                dewpoint: temperature_of(t[7])->Ok_0,
                wind: wind_of(t[8])->Ok_0,
                peak_wind_speed: speed_of(t[9])->Ok_0,
                peak_sfmr_speed: speed_of(t[10])->Ok_0,
                rain_rate: rain_rate_of(t[11])->Ok_0,
                latlon_questionable: q.latlon_questionable,
                altitude_or_pressure_questionable: q.altitude_or_pressure_questionable,
                temp_or_dewpoint_questionable: q.temp_or_dewpoint_questionable,
                winds_questionable: q.winds_questionable,
                sfmr_questionable: q.sfmr_questionable,
            },
        )
    }
}

pub open spec fn views_of(v: Seq<String>) -> Seq<Seq<char>> {
    v.map_values(|t: String| t@)
}

impl HDHALog {
    /// Decodes an observation from the fields of its line.
    pub fn from_fields(date: &UtcDate, fields: &Vec<String>) -> (r: Result<HDHALog, ParseError>)
        ensures
            r == log_of(*date, views_of(fields@)),
    {
        let ghost t = views_of(fields@);
        proof {
            reveal(log_of);
        }
        if fields.len() != FIELD_COUNT {
            return Err(ParseError::FieldCount);
        }
        assert(forall|i: int| 0 <= i < 13 ==> #[trigger] t[i] == fields@[i]@);
        let time = match parse_hhmmss(date, fields[0].as_str()) {
            Ok(v) => v,
            Err(e) => return Err(e),
        };
        let location = match parse_latlon(fields[1].as_str(), fields[2].as_str()) {
            Ok(v) => v,
            Err(e) => return Err(e),
        };
        let aircraft_pressure = match parse_aircraft_pressure(fields[3].as_str()) {
            Ok(v) => v,
            Err(e) => return Err(e),
        };
        let height = match parse_altitude(fields[4].as_str()) {
            Ok(v) => v,
            Err(e) => return Err(e),
        };
        let surface_pressure = match parse_extrapolated_sfc_pressure(
            aircraft_pressure,
            fields[5].as_str(),
        ) {
            Ok(v) => v,
            Err(e) => return Err(e),
        };
        let temp = match parse_temperature(fields[6].as_str()) {
            Ok(v) => v,
            Err(e) => return Err(e),
        };
        let dewpoint = match parse_temperature(fields[7].as_str()) {
            Ok(v) => v,
            Err(e) => return Err(e),
        };
        let wind = match parse_wind(fields[8].as_str()) {
            Ok(v) => v,
            Err(e) => return Err(e),
        };
        let peak_wind_speed = match parse_speed(fields[9].as_str()) {
            Ok(v) => v,
            Err(e) => return Err(e),
        };
        let peak_sfmr_speed = match parse_speed(fields[10].as_str()) {
            Ok(v) => v,
            Err(e) => return Err(e),
        };
        let rain_rate = match parse_rain_rate(fields[11].as_str()) {
            Ok(v) => v,
            Err(e) => return Err(e),
        };
        let q = match parse_quality(fields[12].as_str()) {
            Ok(v) => v,
            Err(e) => return Err(e),
        };
        Ok(
            HDHALog {
                time,
                location,
                aircraft_pressure,
                height,
                surface_pressure,
                temp,
                dewpoint,
                wind,
                peak_wind_speed,
                peak_sfmr_speed,
                rain_rate,
                latlon_questionable: q.latlon_questionable,
                altitude_or_pressure_questionable: q.altitude_or_pressure_questionable,
                temp_or_dewpoint_questionable: q.temp_or_dewpoint_questionable,
                winds_questionable: q.winds_questionable,
                sfmr_questionable: q.sfmr_questionable,
            },
        )
    }

    /// Decodes one observation line, on the date of its message.
    pub fn parse(date: &UtcDate, line: &str) -> (r: Result<HDHALog, ParseError>)
        ensures
            r == log_of(*date, whitespace_tokens(line@)),
    {
        let fields = split_fields(line);
        HDHALog::from_fields(date, &fields)
    }
}

/// The lines of a text.
pub uninterp spec fn text_lines(s: Seq<char>) -> Seq<Seq<char>>;

/// Relies on str::lines: the lines of a text, in order, without their line
/// endings.
#[verifier::external_body]
fn split_lines(text: &str) -> (r: Vec<String>)
    ensures
        views_of(r@) == text_lines(text@),
{
    text.lines().map(|l| l.to_string()).collect()
}

/// A text without its leading and trailing whitespace.
pub uninterp spec fn trimmed(s: Seq<char>) -> Seq<char>;

/// Relies on str::trim: the text without leading and trailing whitespace.
#[verifier::external_body]
fn trim_text(s: &str) -> (r: String)
    ensures
        r@ == trimmed(s@),
{
    s.trim().to_string()
}

/// Why a message could not be decoded.
#[derive(Debug, Copy, Clone, PartialEq, Eq, Hash, Structural)]
pub enum MessageError {
    /// The text ends before the header line.
    MissingHeader,
    /// The text ends before the mission line.
    MissingMissionHeader,
    /// The mission line does not read `<mission id> HDOB <NN> <YYYYMMDD>`.
    BadMissionHeader,
    /// The mission line names a day that does not exist.
    InvalidDate,
    /// The line at this index (from zero) is no valid observation.
    BadObservation(usize, ParseError),
}

/// Length of ` HDOB NN YYYYMMDD`, the fixed end of the mission line.
pub const MISSION_TAIL_LEN: usize = 17;

pub open spec fn is_mission_char(c: char) -> bool {
    ('A' <= c && c <= 'Z') || is_digit(c) || c == ' '
}

/// Where the mission id of a mission line ends.
pub open spec fn id_end(s: Seq<char>) -> int {
    s.len() - 17
}

/// `<mission id> HDOB <NN> <YYYYMMDD>`, where the mission id holds capital
/// letters, digits and spaces.
pub open spec fn is_mission_header(s: Seq<char>) -> bool {
    let k = id_end(s);
    &&& s.len() >= 17
    &&& forall|i: int| 0 <= i < k ==> is_mission_char(#[trigger] s[i])
    &&& s.subrange(k, k + 6) == seq![' ', 'H', 'D', 'O', 'B', ' ']
    &&& all_digits(s.subrange(k + 6, k + 8))
    &&& s[k + 8] == ' '
    &&& all_digits(s.subrange(k + 9, k + 13))
    &&& all_digits(s.subrange(k + 13, k + 15))
    &&& all_digits(s.subrange(k + 15, k + 17))
}

/// The date and observation number that the mission line (the third) names.
pub open spec fn frame_of(ls: Seq<Seq<char>>) -> Result<(UtcDate, u32), MessageError> {
    if ls.len() < 2 {
        Err(MessageError::MissingHeader)
    } else if ls.len() < 3 {
        Err(MessageError::MissingMissionHeader)
    } else if !is_mission_header(ls[2]) {
        Err(MessageError::BadMissionHeader)
    } else {
        let s = ls[2];
        let k = id_end(s);
        let n = decimal(s.subrange(k + 6, k + 8));
        let y = decimal(s.subrange(k + 9, k + 13));
        let m = decimal(s.subrange(k + 13, k + 15));
        let d = decimal(s.subrange(k + 15, k + 17));
        if is_calendar_date(y as int, m as int, d as int) {
            Ok((UtcDate { year: y as i32, month: m as u32, day: d as u32 }, n as u32))
        } else {
            Err(MessageError::InvalidDate)
        }
    }
}

/// The line that ends the observations.
pub open spec fn is_end_marker(s: Seq<char>) -> bool {
    s == seq!['$', '$']
}

/// Index of the first end marker at or after line `i`, or the number of
/// lines if there is none.
pub open spec fn obs_end(ls: Seq<Seq<char>>, i: int) -> int
    decreases ls.len() - i,
{
    if i >= ls.len() {
        ls.len() as int
    } else if is_end_marker(ls[i]) {
        i
    } else {
        obs_end(ls, i + 1)
    }
}

/// The observations of lines 3 up to `n`, or the error of the first of them
/// that fails.
pub open spec fn logs_before(date: UtcDate, ls: Seq<Seq<char>>, n: int) -> Result<
    Seq<HDHALog>,
    MessageError,
>
    decreases n,
{
    if n <= 3 {
        Ok(seq![])
    } else {
        match logs_before(date, ls, n - 1) {
            Err(e) => Err(e),
            Ok(prev) => match log_of(date, whitespace_tokens(ls[n - 1])) {
                Ok(l) => Ok(prev.push(l)),
                Err(e) => Err(MessageError::BadObservation((n - 1) as usize, e)),
            },
        }
    }
}

proof fn lemma_obs_end_at_least(ls: Seq<Seq<char>>, i: int)
    requires
        i <= ls.len(),
    ensures
        i <= obs_end(ls, i) <= ls.len(),
    decreases ls.len() - i,
{
    if i < ls.len() && !is_end_marker(ls[i]) {
        lemma_obs_end_at_least(ls, i + 1);
    }
}

/// Once a line fails, the error stays the same for every later end.
proof fn lemma_logs_error_sticks(date: UtcDate, ls: Seq<Seq<char>>, j: int, n: int)
    requires
        j <= n,
        logs_before(date, ls, j) is Err,
    ensures
        logs_before(date, ls, n) == logs_before(date, ls, j),
    decreases n - j,
{
    if j < n {
        lemma_logs_error_sticks(date, ls, j, n - 1);
    }
}

/// A decoded HDOB message.
#[derive(Debug, Clone, PartialEq, Eq)]
pub struct HDOBMessage {
    pub header: String,
    pub mission_id: String,
    pub obs_number: u32,
    pub date: UtcDate,
    pub obs: Vec<HDHALog>,
}

/// What decoding the lines `ls` yields: after a priority line, a header line,
/// and a mission line, the observation lines up to the end marker.
pub open spec fn message_matches(ls: Seq<Seq<char>>, r: Result<HDOBMessage, MessageError>) -> bool {
    match frame_of(ls) {
        Err(e) => r == Err::<HDOBMessage, MessageError>(e),
        Ok((date, n)) => match logs_before(date, ls, obs_end(ls, 3)) {
            Err(e) => r == Err::<HDOBMessage, MessageError>(e),
            Ok(obs) => {
                &&& r is Ok
                &&& r->Ok_0.header@ == trimmed(ls[1])
                &&& r->Ok_0.mission_id@ == trimmed(ls[2].subrange(0, id_end(ls[2])))
                &&& r->Ok_0.obs_number == n
                &&& r->Ok_0.date == date
                &&& r->Ok_0.obs@ == obs
            },
        },
    }
}

fn is_end_line(s: &str) -> (r: bool)
    ensures
        r == is_end_marker(s@),
{
    if s.unicode_len() == 2 && s.get_char(0) == '$' && s.get_char(1) == '$' {
        assert(s@ =~= seq!['$', '$']);
        true
    } else {
        false
    }
}

/// Checks the mission line and reads its observation number, year, month and
/// day.
fn read_mission_header(s: &str) -> (r: Option<(u32, u32, u32, u32)>)
    ensures
        r == (if is_mission_header(s@) {
            let k = id_end(s@);
            Some(
                (
                    decimal(s@.subrange(k + 6, k + 8)) as u32,
                    decimal(s@.subrange(k + 9, k + 13)) as u32,
                    decimal(s@.subrange(k + 13, k + 15)) as u32,
                    decimal(s@.subrange(k + 15, k + 17)) as u32,
                ),
            )
        } else {
            None
        }),
        is_mission_header(s@) ==> {
            let k = id_end(s@);
            &&& decimal(s@.subrange(k + 6, k + 8)) < 100
            &&& decimal(s@.subrange(k + 9, k + 13)) < 10000
            &&& decimal(s@.subrange(k + 13, k + 15)) < 100
            &&& decimal(s@.subrange(k + 15, k + 17)) < 100
        },
{
    proof {
        reveal_with_fuel(crate::numeral::pow10, 5);
        assert(pow10(2) == 100 && pow10(4) == 10000);
    }
    let len = s.unicode_len();
    if len < MISSION_TAIL_LEN {
        return None;
    }
    let k = len - MISSION_TAIL_LEN;
    let mut i: usize = 0;
    while i < k
        invariant
            i <= k,
            k == s@.len() - 17,
            forall|j: int| 0 <= j < i ==> is_mission_char(#[trigger] s@[j]),
        decreases k - i,
    {
        let c = s.get_char(i);
        if !(('A' <= c && c <= 'Z') || ('0' <= c && c <= '9') || c == ' ') {
            return None;
        }
        i = i + 1;
    }
    if !(s.get_char(k) == ' ' && s.get_char(k + 1) == 'H' && s.get_char(k + 2) == 'D'
        && s.get_char(k + 3) == 'O' && s.get_char(k + 4) == 'B' && s.get_char(k + 5) == ' '
        && s.get_char(k + 8) == ' ') {
        assert(s@.subrange(k as int, k + 6)[0] == s@[k as int]);
        assert(s@.subrange(k as int, k + 6)[1] == s@[k + 1]);
        assert(s@.subrange(k as int, k + 6)[2] == s@[k + 2]);
        assert(s@.subrange(k as int, k + 6)[3] == s@[k + 3]);
        assert(s@.subrange(k as int, k + 6)[4] == s@[k + 4]);
        assert(s@.subrange(k as int, k + 6)[5] == s@[k + 5]);
        return None;
    }
    assert(s@.subrange(k as int, k + 6) =~= seq![' ', 'H', 'D', 'O', 'B', ' ']);
    let n = fixed_digits(s, k + 6, k + 8);
    let y = fixed_digits(s, k + 9, k + 13);
    let m = fixed_digits(s, k + 13, k + 15);
    let d = fixed_digits(s, k + 15, k + 17);
    assert(n.is_some() == all_digits(s@.subrange(k + 6, k + 8)));
    assert(y.is_some() == all_digits(s@.subrange(k + 9, k + 13)));
    assert(m.is_some() == all_digits(s@.subrange(k + 13, k + 15)));
    assert(d.is_some() == all_digits(s@.subrange(k + 15, k + 17)));
    match (n, y, m, d) {
        (Some(n), Some(y), Some(m), Some(d)) => Some((n, y, m, d)),
        _ => None,
    }
}

impl HDOBMessage {
    /// Decodes a message from its lines.
    pub fn from_lines(lines: &Vec<String>) -> (r: Result<HDOBMessage, MessageError>)
        ensures
            message_matches(views_of(lines@), r),
    {
        let ghost ls = views_of(lines@);
        if lines.len() < 2 {
            return Err(MessageError::MissingHeader);
        }
        if lines.len() < 3 {
            return Err(MessageError::MissingMissionHeader);
        }
        assert(ls[1] == lines@[1]@ && ls[2] == lines@[2]@);
        let header = trim_text(lines[1].as_str());
        let mission_line = lines[2].as_str();
        let (obs_number, y, m, d) = match read_mission_header(mission_line) {
            Some(v) => v,
            None => return Err(MessageError::BadMissionHeader),
        };
        let date = match UtcDate::with_ymd(y as i32, m, d) {
            Some(date) => date,
            None => return Err(MessageError::InvalidDate),
        };
        let id_len = mission_line.unicode_len() - MISSION_TAIL_LEN;
        let mission_id = trim_text(mission_line.substring_char(0, id_len));
        assert(frame_of(ls) == Ok::<(UtcDate, u32), MessageError>((date, obs_number)));
        let mut obs: Vec<HDHALog> = Vec::new();
        let mut i: usize = 3;
        while i < lines.len()
            invariant
                3 <= i <= lines.len(),
                ls == views_of(lines@),
                frame_of(ls) == Ok::<(UtcDate, u32), MessageError>((date, obs_number)),
                obs_end(ls, 3) == obs_end(ls, i as int),
                logs_before(date, ls, i as int) == Ok::<Seq<HDHALog>, MessageError>(obs@),
            ensures
                obs_end(ls, 3) == i,
                logs_before(date, ls, i as int) == Ok::<Seq<HDHALog>, MessageError>(obs@),
            decreases lines.len() - i,
        {
            assert(ls[i as int] == lines@[i as int]@);
            proof {
                reveal_with_fuel(obs_end, 2);
                reveal_with_fuel(logs_before, 2);
            }
            if is_end_line(lines[i].as_str()) {
                break;
            }
            match HDHALog::parse(&date, lines[i].as_str()) {
                Ok(l) => obs.push(l),
                Err(e) => {
                    proof {
                        assert(logs_before(date, ls, i + 1) == Err::<Seq<HDHALog>, MessageError>(
                            MessageError::BadObservation(i, e),
                        ));
                        lemma_obs_end_at_least(ls, i + 1);
                        lemma_logs_error_sticks(date, ls, i + 1, obs_end(ls, 3));
                    }
                    return Err(MessageError::BadObservation(i, e));
                },
            }
            i = i + 1;
        }
        assert(mission_id@ == trimmed(ls[2].subrange(0, id_end(ls[2]))));
        Ok(HDOBMessage { header, mission_id, obs_number, date, obs })
    }

    /// Decodes a complete message text.
    pub fn parse(hdob: &str) -> (r: Result<HDOBMessage, MessageError>)
        ensures
            message_matches(text_lines(hdob@), r),
    {
        let lines = split_lines(hdob);
        HDOBMessage::from_lines(&lines)
    }
}

/// High above the surface (aircraft pressure below 550 mb), the token `5200`
/// is a D-value of -200 m: values above 5000 fold to negative meters.
pub proof fn lemma_sign_folded_dvalue(aircraft: Pressure)
    requires
        below_550_mb(aircraft),
    ensures
        surface_pressure_of(aircraft, seq!['5', '2', '0', '0']) == Ok::<
            Option<ExtrapolatedSurfacePressure>,
            ParseError,
        >(Some(ExtrapolatedSurfacePressure::DValue(DValue(-200i32)))),
{
    let s = seq!['5', '2', '0', '0'];
    reveal_with_fuel(decimal, 5);
    assert(all_digits(s)) by {
        assert forall|i: int| 0 <= i < s.len() implies is_digit(#[trigger] s[i]) by {}
    }
    assert(s.drop_last() =~= seq!['5', '2', '0']);
    assert(s.drop_last().drop_last() =~= seq!['5', '2']);
    assert(s.drop_last().drop_last().drop_last() =~= seq!['5']);
    assert(s.drop_last().drop_last().drop_last().drop_last() =~= Seq::<char>::empty());
    assert(decimal(s) == 5200);
    assert(!missing(s));
}

/// The not-observed token `///` in any optional field gives an absent value,
/// never an error.
pub proof fn lemma_missing_is_absent(aircraft: Pressure)
    ensures
        surface_pressure_of(aircraft, seq!['/', '/', '/']) == Ok::<
            Option<ExtrapolatedSurfacePressure>,
            ParseError,
        >(None),
        temperature_of(seq!['/', '/', '/']) == Ok::<Option<Temperature>, ParseError>(None),
        wind_of(seq!['/', '/', '/']) == Ok::<Option<Wind>, ParseError>(None),
        speed_of(seq!['/', '/', '/']) == Ok::<Option<Speed>, ParseError>(None),
        rain_rate_of(seq!['/', '/', '/']) == Ok::<Option<RainRate>, ParseError>(None),
{
    let s = seq!['/', '/', '/'];
    assert(!is_digit(s[0]));
    assert(!all_digits(s));
}

/// The tens digit of a quality code must be 0 to 3; a code of 00 flags
/// nothing; a ones digit of 3 flags the SFMR wind alone.
pub proof fn lemma_quality_digits(s: Seq<char>)
    requires
        unsigned_value(s, u8::MAX as nat) is Some,
    ensures
        ({
            let q = unsigned_value(s, u8::MAX as nat)->0;
            &&& q / 10 > 3 ==> quality_of(s) == Err::<QualityFlags, ParseError>(
                ParseError::BadPositionQuality,
            )
            &&& q == 0 ==> quality_of(s) == Ok::<QualityFlags, ParseError>(
                QualityFlags {
                    latlon_questionable: false,
                    altitude_or_pressure_questionable: false,
                    temp_or_dewpoint_questionable: false,
                    winds_questionable: false,
                    sfmr_questionable: false,
                },
            )
            &&& q / 10 <= 3 && q % 10 == 3 ==> {
                &&& quality_of(s) is Ok
                &&& !quality_of(s)->Ok_0.temp_or_dewpoint_questionable
                &&& !quality_of(s)->Ok_0.winds_questionable
                &&& quality_of(s)->Ok_0.sfmr_questionable
            }
        }),
{
}

proof fn lemma_logs_len(date: UtcDate, ls: Seq<Seq<char>>, n: int)
    requires
        n >= 3,
        logs_before(date, ls, n) is Ok,
    ensures
        logs_before(date, ls, n)->Ok_0.len() == n - 3,
    decreases n,
{
    if n > 3 {
        lemma_logs_len(date, ls, n - 1);
    }
}

proof fn lemma_obs_end_is_first_marker(ls: Seq<Seq<char>>, i: int, k: int)
    requires
        3 <= i <= k < ls.len(),
        is_end_marker(ls[k]),
        forall|j: int| 3 <= j < k ==> !is_end_marker(#[trigger] ls[j]),
    ensures
        obs_end(ls, i) == k,
    decreases k - i,
{
    if i < k {
        lemma_obs_end_is_first_marker(ls, i + 1, k);
    }
}

/// Decoding stops at the first line `$$` after the mission line: that line
/// and all after it stay out, and each line before it gives one observation.
pub proof fn lemma_end_marker_stops(ls: Seq<Seq<char>>, k: int, r: Result<HDOBMessage, MessageError>)
    requires
        3 <= k < ls.len(),
        is_end_marker(ls[k]),
        forall|j: int| 3 <= j < k ==> !is_end_marker(#[trigger] ls[j]),
        message_matches(ls, r),
    ensures
        obs_end(ls, 3) == k,
        r is Ok ==> r->Ok_0.obs@.len() == k - 3,
{
    lemma_obs_end_is_first_marker(ls, 3, k);
    if r is Ok {
        let date = frame_of(ls)->Ok_0.0;
        lemma_logs_len(date, ls, k);
    }
}

/// A mission line that does not follow its grammar fails the whole message.
pub proof fn lemma_bad_mission_header_fails(ls: Seq<Seq<char>>, r: Result<HDOBMessage, MessageError>)
    requires
        ls.len() >= 3,
        !is_mission_header(ls[2]),
        message_matches(ls, r),
    ensures
        r == Err::<HDOBMessage, MessageError>(MessageError::BadMissionHeader),
{
}

} // verus!
