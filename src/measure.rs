//! Physical quantities, each held as an integer in one fixed unit.
use vstd::prelude::*;

verus! {

/// Arc-seconds in one degree.
pub const SECONDS_PER_DEGREE: u32 = 3600;

/// Millikelvin at zero degrees Celsius.
pub const ZERO_CELSIUS_MK: u32 = 273150;

/// Integer division that rounds toward zero.
pub open spec fn div_toward_zero(a: int, b: nat) -> int {
    if a >= 0 {
        a / (b as int)
    } else {
        -((-a) / (b as int))
    }
}

/// Barometric pressure, held in microbars.
#[derive(Debug, Copy, Clone, PartialEq, Eq, PartialOrd, Ord, Hash, Structural)]
pub struct Pressure(pub i32);

impl Pressure {
    pub fn with_microbars(ub: i32) -> (r: Self)
        ensures
            r.0 == ub,
    {
        Pressure(ub)
    }

    pub fn microbars(&self) -> (r: i32)
        ensures
            r == self.0,
    {
        self.0
    }

    /// Whole millibars, truncated toward zero.
    pub fn millibars(&self) -> (r: i32)
        ensures
            r == div_toward_zero(self.0 as int, 1000),
    {
        self.0 / 1000
    }

}

/// D-value: height of a pressure surface above sea level minus the height of
/// the same surface in the standard atmosphere, held in meters.
#[derive(Debug, Copy, Clone, PartialEq, Eq, PartialOrd, Ord, Hash, Structural)]
pub struct DValue(pub i32);

impl DValue {
    pub fn with_meters(m: i32) -> (r: Self)
        ensures
            r.0 == m,
    {
        DValue(m)
    }

    pub fn meters(&self) -> (r: i32)
        ensures
            r == self.0,
    {
        self.0
    }

}

/// Arc-seconds of an angle given in degrees, minutes and seconds.
pub open spec fn dms_seconds(d: nat, m: nat, s: nat) -> nat {
    d * 3600 + m * 60 + s
}

/// Angle, held in arc-seconds.
#[derive(Debug, Copy, Clone, PartialEq, Eq, PartialOrd, Ord, Hash, Structural)]
pub struct Angle(pub u32);

impl Angle {
    pub fn with_degrees_minutes_seconds(d: u32, m: u32, s: u32) -> (r: Self)
        requires
            dms_seconds(d as nat, m as nat, s as nat) <= u32::MAX,
        ensures
            r.0 == dms_seconds(d as nat, m as nat, s as nat),
    {
        assert(d * 3600 <= dms_seconds(d as nat, m as nat, s as nat)) by (nonlinear_arith);
        Angle(d * SECONDS_PER_DEGREE + m * 60 + s)
    }

    pub open spec fn spec_dms(&self) -> (u32, u32, u32) {
        ((self.0 / 3600) as u32, (self.0 % 3600 / 60) as u32, (self.0 % 60) as u32)
    }

    /// Whole degrees, remaining whole minutes and remaining seconds.
    pub fn degrees_minutes_seconds(&self) -> (r: (u32, u32, u32))
        ensures
            r == self.spec_dms(),
    {
        (self.0 / SECONDS_PER_DEGREE, self.0 % SECONDS_PER_DEGREE / 60, self.0 % 60)
    }

}

/// An angle built from degrees, minutes and seconds decomposes back into the
/// same three parts, for any bearing below 360 degrees.
pub proof fn lemma_dms_round_trip(d: u32, m: u32, s: u32)
    requires
        d < 360,
        m < 60,
        s < 60,
    ensures
        dms_seconds(d as nat, m as nat, s as nat) <= u32::MAX,
        Angle(dms_seconds(d as nat, m as nat, s as nat) as u32).spec_dms() == (d, m, s),
{
    let t = dms_seconds(d as nat, m as nat, s as nat);
    assert(t / 3600 == d && t % 3600 == m * 60 + s) by (nonlinear_arith)
        requires
            t == d * 3600 + m * 60 + s,
            m < 60,
            s < 60,
    ;
    assert((m * 60 + s) / 60 == m && t % 60 == s) by (nonlinear_arith)
        requires
            t == d * 3600 + m * 60 + s,
            m < 60,
            s < 60,
    ;
}

/// Geopotential height, held in meters.
#[derive(Debug, Copy, Clone, PartialEq, Eq, PartialOrd, Ord, Hash, Structural)]
pub struct Altitude(pub u32);

impl Altitude {
    pub fn with_meters(meters: u32) -> (r: Self)
        ensures
            r.0 == meters,
    {
        Altitude(meters)
    }

    pub fn meters(&self) -> (r: u32)
        ensures
            r == self.0,
    {
        self.0
    }

}

/// Temperature, held in millikelvin.
#[derive(Debug, Copy, Clone, PartialEq, Eq, PartialOrd, Ord, Hash, Structural)]
pub struct Temperature(pub u32);

impl Temperature {
    pub fn with_millikelvin(mk: u32) -> (r: Self)
        ensures
            r.0 == mk,
    {
        Temperature(mk)
    }

    /// A temperature below absolute zero cannot be built.
    pub fn with_millicelsius(mc: i32) -> (r: Self)
        requires
            mc + ZERO_CELSIUS_MK >= 0,
        ensures
            r.0 == mc + ZERO_CELSIUS_MK,
    {
        let mk: i64 = mc as i64 + ZERO_CELSIUS_MK as i64;
        Temperature(mk as u32)
    }

    /// Whole degrees Celsius, for temperatures at or above freezing.
    pub fn celsius(&self) -> (r: u32)
        requires
            self.0 >= ZERO_CELSIUS_MK,
        ensures
            r == (self.0 - ZERO_CELSIUS_MK) / 1000,
    {
        (self.0 - ZERO_CELSIUS_MK) / 1000
    }

    /// Whole kelvin.
    pub fn kelvin(&self) -> (r: u32)
        ensures
            r == div_toward_zero(self.0 as int, 1000),
    {
        self.0 / 1000
    }

}

/// Speed, held in knots.
#[derive(Debug, Copy, Clone, PartialEq, Eq, PartialOrd, Ord, Hash, Structural)]
pub struct Speed(pub u32);

impl Speed {
    pub fn with_knots(kt: u32) -> (r: Self)
        ensures
            r.0 == kt,
    {
        Speed(kt)
    }

    pub fn knots(&self) -> (r: u32)
        ensures
            r == self.0,
    {
        self.0
    }

}

/// Rain rate, held in millimeters per hour.
#[derive(Debug, Copy, Clone, PartialEq, Eq, PartialOrd, Ord, Hash, Structural)]
pub struct RainRate(pub u32);

impl RainRate {
    pub fn with_mm_per_hr(mm_p_hr: u32) -> (r: Self)
        ensures
            r.0 == mm_p_hr,
    {
        RainRate(mm_p_hr)
    }

    pub fn mm_per_hr(&self) -> (r: u32)
        ensures
            r == self.0,
    {
        self.0
    }

}

/// Compass bearing: 0 is north, 90 degrees east.
#[derive(Debug, Copy, Clone, PartialEq, Eq, PartialOrd, Ord, Hash, Structural)]
pub struct Direction(pub Angle);

impl Direction {
    pub fn with_angle(angle: Angle) -> (r: Direction)
        ensures
            r.0 == angle,
    {
        Direction(angle)
    }

    pub fn north() -> (r: Direction)
        ensures
            r.0.0 == 0,
    {
        Direction(Angle(0))
    }

    pub fn east() -> (r: Direction)
        ensures
            r.0.0 == EAST_SECONDS,
    {
        Direction(Angle(EAST_SECONDS))
    }

    pub fn south() -> (r: Direction)
        ensures
            r.0.0 == SOUTH_SECONDS,
    {
        Direction(Angle(SOUTH_SECONDS))
    }

    pub fn west() -> (r: Direction)
        ensures
            r.0.0 == WEST_SECONDS,
    {
        Direction(Angle(WEST_SECONDS))
    }
}

/// Arc-seconds of the bearing due east.
pub const EAST_SECONDS: u32 = 324000;

/// Arc-seconds of the bearing due south.
pub const SOUTH_SECONDS: u32 = 648000;

/// Arc-seconds of the bearing due west.
pub const WEST_SECONDS: u32 = 972000;

/// Wind: the bearing it blows from and its speed.
#[derive(Debug, Copy, Clone, PartialEq, Eq, Structural)]
pub struct Wind {
    pub direction: Direction,
    pub speed: Speed,
}

impl Wind {
    pub fn with_direction_and_speed(direction: Direction, speed: Speed) -> (r: Self)
        ensures
            r.direction == direction,
            r.speed == speed,
    {
        Wind { direction, speed }
    }
}

} // verus!
