//! The values that travel over the serial link and how they are laid out in bytes.
use vstd::prelude::*;

verus! {

/// `V`: firmware version of the hand controller.
pub const GET_VERSION: u8 = 0x56;

/// `m`: model of the mount.
pub const GET_MODEL: u8 = 0x6D;

/// `J`: whether alignment is complete.
pub const IS_ALIGNED: u8 = 0x4A;

/// `L`: whether a GOTO is in progress.
pub const IS_GOTO_ACTIVE: u8 = 0x4C;

/// `w`: location.
pub const GET_LOCATION: u8 = 0x77;

/// `W`: set the location.
pub const SET_LOCATION: u8 = 0x57;

/// `h`: date and time.
pub const GET_DATETIME: u8 = 0x68;

/// `H`: set the date and time.
pub const SET_DATETIME: u8 = 0x48;

/// `K`: echo the byte that follows.
pub const ECHO: u8 = 0x4B;

/// The byte that `ECHO` sends and expects back.
pub const ECHO_BYTE: u8 = 0x42;

/// ASCII `1`: the state byte of a GOTO that is under way.
pub const GOTO_ACTIVE: u8 = 0x31;

/// Sub-device commands.
#[derive(Debug, Clone, Copy, PartialEq, Eq, Structural)]
pub enum Command {
    GetDeviceVersion,
}

impl Command {
    /// The command code byte.
    pub open spec fn code(self) -> u8 {
        match self {
            Command::GetDeviceVersion => 0xFE,
        }
    }

    /// The command code byte sent in a sub-device frame.
    pub fn bits(&self) -> (r: u8)
        ensures
            r == self.code(),
    {
        match self {
            Command::GetDeviceVersion => 0xFE,
        }
    }
}

/// Sub-devices reachable on the mount's internal bus.
#[derive(Debug, Clone, Copy, PartialEq, Eq, Structural)]
pub enum Device {
    /// Main / interconnection board
    MainBoard,
    /// Hand controller (HC)
    HandController,
    /// AZM/RA motor
    AzmRaMotor,
    /// ALT/DEC motor
    AltDecMotor,
    /// GPS unit
    GPSUnit,
    /// RTC (CGE only)
    RTC,
}

impl Device {
    /// The bus address byte.
    pub open spec fn address(self) -> u8 {
        match self {
            Device::MainBoard => 0x01,
            Device::HandController => 0x04,
            Device::AzmRaMotor => 0x10,
            Device::AltDecMotor => 0x11,
            Device::GPSUnit => 0xb0,
            Device::RTC => 0xb2,
        }
    }

    /// The bus address of the device.
    pub fn bits(&self) -> (r: u8)
        ensures
            r == self.address(),
    {
        match self {
            Device::MainBoard => 0x01,
            Device::HandController => 0x04,
            Device::AzmRaMotor => 0x10,
            Device::AltDecMotor => 0x11,
            Device::GPSUnit => 0xb0,
            Device::RTC => 0xb2,
        }
    }
}

/// The eight-byte frame that asks `device` for its firmware version.
pub open spec fn device_version_frame(device: Device) -> Seq<u8> {
    seq![0x50u8, 0x01u8, device.address(), Command::GetDeviceVersion.code(), 0x00u8, 0x00u8, 0x00u8, 0x02u8]
}

/// Telescope mount model.
#[derive(Debug, Clone, Copy, PartialEq, Eq, Structural)]
pub enum Model {
    /// GPS Series
    GPSSeries,
    /// i-Series
    ISeries,
    /// i-Series SE
    ISeriesSE,
    /// CGE
    CGE,
    /// Advanced GT
    AdvancedGT,
    /// SLT
    SLT,
    /// CPC
    CPC,
    /// GT
    GT,
    /// 4/5 SE
    Se4_5,
    /// 6/8 SE
    Se6_8,
    /// A model id with no known meaning
    Unknown(u8),
}

/// The model with id `id`.
pub open spec fn model_of(id: u8) -> Model {
    if id == 0x01 {
        Model::GPSSeries
    } else if id == 0x03 {
        Model::ISeries
    } else if id == 0x04 {
        Model::ISeriesSE
    } else if id == 0x05 {
        Model::CGE
    } else if id == 0x06 {
        Model::AdvancedGT
    } else if id == 0x07 {
        Model::SLT
    } else if id == 0x09 {
        Model::CPC
    } else if id == 0x0A {
        Model::GT
    } else if id == 0x0B {
        Model::Se4_5
    } else if id == 0x0C {
        Model::Se6_8
    } else {
        Model::Unknown(id)
    }
}

impl Model {
    /// The model that a mount reports with model id `id`; ids without a meaning
    /// are kept as `Unknown(id)`.
    pub fn from_id(id: u8) -> (m: Model)
        ensures
            m == model_of(id),
    {
        match id {
            0x01 => Model::GPSSeries,
            0x03 => Model::ISeries,
            0x04 => Model::ISeriesSE,
            0x05 => Model::CGE,
            0x06 => Model::AdvancedGT,
            0x07 => Model::SLT,
            0x09 => Model::CPC,
            0x0A => Model::GT,
            0x0B => Model::Se4_5,
            0x0C => Model::Se6_8,
            _ => Model::Unknown(id),
        }
    }
}

/// A firmware version.
#[derive(Debug, Clone, Copy, PartialEq, Eq, Structural)]
pub struct Version {
    pub major: u8,
    pub minor: u8,
}

/// Date and time as the hand controller keeps them.
#[derive(Debug, Clone, Copy, PartialEq, Eq, Structural)]
pub struct DateTime {
    /// Hour (24 hour clock)
    pub hour: u8,
    /// Minutes
    pub minutes: u8,
    /// Seconds
    pub seconds: u8,
    /// Offset from GMT in hours.
    pub zone: i8,
    /// Daylight saving (true) or standard time (false)
    pub daylight_saving: bool,
    /// Year, with the century taken as 20.
    pub year: u8,
    /// Month
    pub month: u8,
    /// Day
    pub day: u8,
}

/// The date and time that an eight-byte payload holds, in the order
/// hour, minutes, seconds, month, day, year, zone, daylight saving.
pub open spec fn datetime_of(p: Seq<u8>) -> DateTime
    recommends
        p.len() == 8,
{
    DateTime {
        hour: p[0],
        minutes: p[1],
        seconds: p[2],
        month: p[3],
        day: p[4],
        year: p[5],
        zone: p[6] as i8,
        daylight_saving: p[7] == 1,
    }
}

impl DateTime {
    /// The eight payload bytes that carry this date and time.
    pub open spec fn wire(self) -> Seq<u8> {
        seq![
            self.hour,
            self.minutes,
            self.seconds,
            self.month,
            self.day,
            self.year,
            self.zone as u8,
            if self.daylight_saving { 1u8 } else { 0u8 },
        ]
    }
}

/// Milliarcseconds in one degree.
pub const MAS_PER_DEGREE: i64 = 3_600_000;

/// Milliarcseconds in one arcminute.
pub const MAS_PER_MINUTE: i64 = 60_000;

/// Milliarcseconds in one arcsecond.
pub const MAS_PER_SECOND: i64 = 1000;

/// The largest magnitude of a longitude, 180 degrees, in milliarcseconds.
pub const MAX_LONGITUDE: i32 = 648_000_000;

/// The largest magnitude of a latitude, 90 degrees, in milliarcseconds.
pub const MAX_LATITUDE: i32 = 324_000_000;

/// Location of the mount. Both angles are signed and counted in
/// milliarcseconds (one degree is 3 600 000), which holds every angle that the
/// wire format can carry exactly.
#[derive(Debug, Clone, Copy, PartialEq, Eq, Structural)]
pub struct Location {
    pub latitude: i32,
    pub longitude: i32,
}

/// The magnitude of `x`.
pub open spec fn abs(x: int) -> int {
    if x < 0 {
        -x
    } else {
        x
    }
}

/// Degrees, minutes, rounded seconds and sign byte (1 for a non-negative
/// angle, 0 for a negative one) of an angle given in milliarcseconds.
pub open spec fn dms_of(mas: int) -> Seq<u8> {
    let u = abs(mas);
    seq![
        (u / 3_600_000) as u8,
        (u % 3_600_000 / 60_000) as u8,
        ((u % 60_000 + 500) / 1000) as u8,
        if mas < 0 { 0u8 } else { 1u8 },
    ]
}

/// The angle, in milliarcseconds, that four bytes of degrees, minutes,
/// seconds and sign carry: negative exactly when the sign byte is 0.
pub open spec fn angle_of(d: Seq<u8>) -> int
    recommends
        d.len() == 4,
{
    let m = (d[0] * 3600 + d[1] * 60 + d[2]) * 1000;
    if d[3] == 0 {
        -m
    } else {
        m
    }
}

/// The location that an eight-byte payload holds: latitude in the first four
/// bytes, longitude in the last four.
pub open spec fn location_of(p: Seq<u8>) -> Location
    recommends
        p.len() == 8,
{
    Location { latitude: angle_of(p.subrange(0, 4)) as i32, longitude: angle_of(p.subrange(4, 8)) as i32 }
}

impl Location {
    /// Latitude within [-90, 90] degrees and longitude within [-180, 180].
    pub open spec fn valid(self) -> bool {
        -MAX_LATITUDE <= self.latitude <= MAX_LATITUDE && -MAX_LONGITUDE <= self.longitude
            <= MAX_LONGITUDE
    }

    /// The eight payload bytes that carry this location.
    pub open spec fn wire(self) -> Seq<u8> {
        dms_of(self.latitude as int) + dms_of(self.longitude as int)
    }

    /// Latitude as degrees, minutes, seconds and sign.
    pub fn lat_dms(&self) -> (r: [u8; 4])
        requires
            self.valid(),
        ensures
            r@ == dms_of(self.latitude as int),
    {
        dec_dms(self.latitude)
    }

    /// Longitude as degrees, minutes, seconds and sign.
    pub fn lon_dms(&self) -> (r: [u8; 4])
        requires
            self.valid(),
        ensures
            r@ == dms_of(self.longitude as int),
    {
        dec_dms(self.longitude)
    }
}

/// Splits an angle into whole degrees, whole minutes, seconds rounded half up,
/// and a sign byte that is 1 for a non-negative angle and 0 for a negative one.
/// Below one arcsecond the angle is lost.
pub fn dec_dms(mas: i32) -> (r: [u8; 4])
    requires
        -MAX_LONGITUDE <= mas <= MAX_LONGITUDE,
    ensures
        r@ == dms_of(mas as int),
{
    let sign: u8 = if mas < 0 { 0x00 } else { 0x01 };
    let u: i64 = if mas < 0 { -(mas as i64) } else { mas as i64 };
    let deg: i64 = u / MAS_PER_DEGREE;
    let min: i64 = u % MAS_PER_DEGREE / MAS_PER_MINUTE;
    let sec: i64 = (u % MAS_PER_MINUTE + 500) / MAS_PER_SECOND;
    let r = [deg as u8, min as u8, sec as u8, sign];
    assert(r@ =~= dms_of(mas as int));
    r
}

} // verus!
