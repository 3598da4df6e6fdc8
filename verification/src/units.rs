//! The unit layer the decoder itself needs: flag sets and the failsafe
//! phase, whose bit and index tables differ per firmware. Conversions to
//! physical quantities are floating-point work and live with the caller;
//! this module stays on plain integers.

use vstd::prelude::*;

use crate::headers::FirmwareKind;

verus! {

/// True when bit `bit` of `raw` is set, least significant bit first.
pub open spec fn spec_bit_set(raw: u32, bit: u32) -> bool
    recommends
        bit < 32,
{
    (raw >> bit) & 1u32 == 1u32
}

/// A named flag of a flag set.
pub trait Flag {
    /// The name of this flag, as characters.
    spec fn spec_name(&self) -> Seq<char>;

    /// Returns the name of this flag.
    fn as_name(&self) -> (result: &'static str)
        ensures
            result@ == self.spec_name(),
    ;
}

/// A firmware-tagged set of flags over a 32-bit bitmap.
pub trait FlagSet {
    type Flag: Flag;

    /// Whether the given flag is on in this set.
    spec fn spec_is_set(&self, flag: Self::Flag) -> bool;

    /// The flags set in this bitmap that the firmware knows, in ascending
    /// bit order.
    spec fn spec_flag_list(&self) -> Seq<Self::Flag>;

    /// Checks if a given flag is enabled.
    fn is_set(&self, flag: Self::Flag) -> (result: bool)
        ensures
            result == self.spec_is_set(flag),
    ;

    /// Returns the names of all enabled flags, one per translatable set
    /// bit, in ascending bit order.
    fn as_names(&self) -> (result: Vec<&'static str>)
        ensures
            result@.len() == self.spec_flag_list().len(),
            forall|i: int|
                0 <= i < result@.len() ==> result@[i]@ == self.spec_flag_list()[i].spec_name(),
    ;
}

/// A flight_mode flag. The bit it lives at differs per firmware; a flag the
/// firmware does not know has no bit.
#[derive(Debug, Clone, Copy, PartialEq, Eq, Hash, Structural)]
pub enum FlightMode {
    Angle,
    Horizon,
    HeadFree,
    Failsafe,
    Turtle,
    Arm,
    Mag,
    Passthru,
    GpsRescue,
    Antigravity,
    HeadAdjust,
    CamStab,
    BeeperOn,
    LedLow,
    Calib,
    Osd,
    Telemetry,
    Servo1,
    Servo2,
    Servo3,
    Blackbox,
    Airmode,
    ThreeD,
    FpvAngleMix,
    BlackboxErase,
    Camera1,
    Camera2,
    Camera3,
    Prearm,
    BeepGpsCount,
    VtxPitmode,
    Paralyze,
    Heading,
    NavAltHold,
    NavRth,
    NavPoshold,
    NavLaunch,
    Manual,
    AutoTune,
    NavWp,
    NavCourseHold,
    Flaperon,
    TurnAssistant,
    Soaring,
}

/// The bit `flag` lives at under firmware `fw`, if any.
pub open spec fn spec_flight_mode_to_bit(flag: FlightMode, fw: FirmwareKind) -> Option<u32> {
    match flag {
        FlightMode::Angle => if fw == FirmwareKind::Inav { Some(0u32) } else { Some(1u32) },
        FlightMode::Horizon => if fw == FirmwareKind::Inav { Some(1u32) } else { Some(2u32) },
        FlightMode::HeadFree => if fw == FirmwareKind::Inav { Some(6u32) } else { Some(4u32) },
        FlightMode::Failsafe => if fw == FirmwareKind::Inav { Some(9u32) } else { Some(6u32) },
        FlightMode::Turtle => if fw == FirmwareKind::Inav { Some(15u32) } else { Some(27u32) },
        FlightMode::Arm => if fw == FirmwareKind::Inav { None } else { Some(0u32) },
        FlightMode::Mag => if fw == FirmwareKind::Inav { None } else { Some(3u32) },
        FlightMode::Passthru => if fw == FirmwareKind::Inav { None } else { Some(5u32) },
        FlightMode::GpsRescue => if fw == FirmwareKind::Inav { None } else { Some(7u32) },
        FlightMode::Antigravity => if fw == FirmwareKind::Inav { None } else { Some(8u32) },
        FlightMode::HeadAdjust => if fw == FirmwareKind::Inav { None } else { Some(9u32) },
        FlightMode::CamStab => if fw == FirmwareKind::Inav { None } else { Some(10u32) },
        FlightMode::BeeperOn => if fw == FirmwareKind::Inav { None } else { Some(11u32) },
        FlightMode::LedLow => if fw == FirmwareKind::Inav { None } else { Some(12u32) },
        FlightMode::Calib => if fw == FirmwareKind::Inav { None } else { Some(13u32) },
        FlightMode::Osd => if fw == FirmwareKind::Inav { None } else { Some(14u32) },
        FlightMode::Telemetry => if fw == FirmwareKind::Inav { None } else { Some(15u32) },
        FlightMode::Servo1 => if fw == FirmwareKind::Inav { None } else { Some(16u32) },
        FlightMode::Servo2 => if fw == FirmwareKind::Inav { None } else { Some(17u32) },
        FlightMode::Servo3 => if fw == FirmwareKind::Inav { None } else { Some(18u32) },
        FlightMode::Blackbox => if fw == FirmwareKind::Inav { None } else { Some(19u32) },
        FlightMode::Airmode => if fw == FirmwareKind::Inav { None } else { Some(20u32) },
        FlightMode::ThreeD => if fw == FirmwareKind::Inav { None } else { Some(21u32) },
        FlightMode::FpvAngleMix => if fw == FirmwareKind::Inav { None } else { Some(22u32) },
        FlightMode::BlackboxErase => if fw == FirmwareKind::Inav { None } else { Some(23u32) },
        FlightMode::Camera1 => if fw == FirmwareKind::Inav { None } else { Some(24u32) },
        FlightMode::Camera2 => if fw == FirmwareKind::Inav { None } else { Some(25u32) },
        FlightMode::Camera3 => if fw == FirmwareKind::Inav { None } else { Some(26u32) },
        FlightMode::Prearm => if fw == FirmwareKind::Inav { None } else { Some(28u32) },
        FlightMode::BeepGpsCount => if fw == FirmwareKind::Inav { None } else { Some(29u32) },
        FlightMode::VtxPitmode => if fw == FirmwareKind::Inav { None } else { Some(30u32) },
        FlightMode::Paralyze => if fw == FirmwareKind::Inav { None } else { Some(31u32) },
        FlightMode::Heading => if fw == FirmwareKind::Inav { Some(2u32) } else { None },
        FlightMode::NavAltHold => if fw == FirmwareKind::Inav { Some(3u32) } else { None },
        FlightMode::NavRth => if fw == FirmwareKind::Inav { Some(4u32) } else { None },
        FlightMode::NavPoshold => if fw == FirmwareKind::Inav { Some(5u32) } else { None },
        FlightMode::NavLaunch => if fw == FirmwareKind::Inav { Some(7u32) } else { None },
        FlightMode::Manual => if fw == FirmwareKind::Inav { Some(8u32) } else { None },
        FlightMode::AutoTune => if fw == FirmwareKind::Inav { Some(10u32) } else { None },
        FlightMode::NavWp => if fw == FirmwareKind::Inav { Some(11u32) } else { None },
        FlightMode::NavCourseHold => if fw == FirmwareKind::Inav { Some(12u32) } else { None },
        FlightMode::Flaperon => if fw == FirmwareKind::Inav { Some(13u32) } else { None },
        FlightMode::TurnAssistant => if fw == FirmwareKind::Inav { Some(14u32) } else { None },
        FlightMode::Soaring => if fw == FirmwareKind::Inav { Some(16u32) } else { None },
    }
}

/// The flag living at `bit` under firmware `fw`, if any.
pub open spec fn spec_flight_mode_from_bit(bit: u32, fw: FirmwareKind) -> Option<FlightMode> {
    if fw == FirmwareKind::Inav {
        if bit == 0u32 {
            Some(FlightMode::Angle)
        } else if bit == 1u32 {
            Some(FlightMode::Horizon)
        } else if bit == 2u32 {
            Some(FlightMode::Heading)
        } else if bit == 3u32 {
            Some(FlightMode::NavAltHold)
        } else if bit == 4u32 {
            Some(FlightMode::NavRth)
        } else if bit == 5u32 {
            Some(FlightMode::NavPoshold)
        } else if bit == 6u32 {
            Some(FlightMode::HeadFree)
        } else if bit == 7u32 {
            Some(FlightMode::NavLaunch)
        } else if bit == 8u32 {
            Some(FlightMode::Manual)
        } else if bit == 9u32 {
            Some(FlightMode::Failsafe)
        } else if bit == 10u32 {
            Some(FlightMode::AutoTune)
        } else if bit == 11u32 {
            Some(FlightMode::NavWp)
        } else if bit == 12u32 {
            Some(FlightMode::NavCourseHold)
        } else if bit == 13u32 {
            Some(FlightMode::Flaperon)
        } else if bit == 14u32 {
            Some(FlightMode::TurnAssistant)
        } else if bit == 15u32 {
            Some(FlightMode::Turtle)
        } else if bit == 16u32 {
            Some(FlightMode::Soaring)
        } else {
            None
        }
    } else {
        if bit == 0u32 {
            Some(FlightMode::Arm)
        } else if bit == 1u32 {
            Some(FlightMode::Angle)
        } else if bit == 2u32 {
            Some(FlightMode::Horizon)
        } else if bit == 3u32 {
            Some(FlightMode::Mag)
        } else if bit == 4u32 {
            Some(FlightMode::HeadFree)
        } else if bit == 5u32 {
            Some(FlightMode::Passthru)
        } else if bit == 6u32 {
            Some(FlightMode::Failsafe)
        } else if bit == 7u32 {
            Some(FlightMode::GpsRescue)
        } else if bit == 8u32 {
            Some(FlightMode::Antigravity)
        } else if bit == 9u32 {
            Some(FlightMode::HeadAdjust)
        } else if bit == 10u32 {
            Some(FlightMode::CamStab)
        } else if bit == 11u32 {
            Some(FlightMode::BeeperOn)
        } else if bit == 12u32 {
            Some(FlightMode::LedLow)
        } else if bit == 13u32 {
            Some(FlightMode::Calib)
        } else if bit == 14u32 {
            Some(FlightMode::Osd)
        } else if bit == 15u32 {
            Some(FlightMode::Telemetry)
        } else if bit == 16u32 {
            Some(FlightMode::Servo1)
        } else if bit == 17u32 {
            Some(FlightMode::Servo2)
        } else if bit == 18u32 {
            Some(FlightMode::Servo3)
        } else if bit == 19u32 {
            Some(FlightMode::Blackbox)
        } else if bit == 20u32 {
            Some(FlightMode::Airmode)
        } else if bit == 21u32 {
            Some(FlightMode::ThreeD)
        } else if bit == 22u32 {
            Some(FlightMode::FpvAngleMix)
        } else if bit == 23u32 {
            Some(FlightMode::BlackboxErase)
        } else if bit == 24u32 {
            Some(FlightMode::Camera1)
        } else if bit == 25u32 {
            Some(FlightMode::Camera2)
        } else if bit == 26u32 {
            Some(FlightMode::Camera3)
        } else if bit == 27u32 {
            Some(FlightMode::Turtle)
        } else if bit == 28u32 {
            Some(FlightMode::Prearm)
        } else if bit == 29u32 {
            Some(FlightMode::BeepGpsCount)
        } else if bit == 30u32 {
            Some(FlightMode::VtxPitmode)
        } else if bit == 31u32 {
            Some(FlightMode::Paralyze)
        } else {
            None
        }
    }
}

impl FlightMode {
    /// Looks up this flag's bit under the given firmware.
    pub fn to_bit(self, fw: FirmwareKind) -> (result: Option<u32>)
        ensures
            result == spec_flight_mode_to_bit(self, fw),
            result matches Some(b) ==> b < 32,
    {
        match self {
        FlightMode::Angle => if fw == FirmwareKind::Inav { Some(0u32) } else { Some(1u32) },
        FlightMode::Horizon => if fw == FirmwareKind::Inav { Some(1u32) } else { Some(2u32) },
        FlightMode::HeadFree => if fw == FirmwareKind::Inav { Some(6u32) } else { Some(4u32) },
        FlightMode::Failsafe => if fw == FirmwareKind::Inav { Some(9u32) } else { Some(6u32) },
        FlightMode::Turtle => if fw == FirmwareKind::Inav { Some(15u32) } else { Some(27u32) },
        FlightMode::Arm => if fw == FirmwareKind::Inav { None } else { Some(0u32) },
        FlightMode::Mag => if fw == FirmwareKind::Inav { None } else { Some(3u32) },
        FlightMode::Passthru => if fw == FirmwareKind::Inav { None } else { Some(5u32) },
        FlightMode::GpsRescue => if fw == FirmwareKind::Inav { None } else { Some(7u32) },
        FlightMode::Antigravity => if fw == FirmwareKind::Inav { None } else { Some(8u32) },
        FlightMode::HeadAdjust => if fw == FirmwareKind::Inav { None } else { Some(9u32) },
        FlightMode::CamStab => if fw == FirmwareKind::Inav { None } else { Some(10u32) },
        FlightMode::BeeperOn => if fw == FirmwareKind::Inav { None } else { Some(11u32) },
        FlightMode::LedLow => if fw == FirmwareKind::Inav { None } else { Some(12u32) },
        FlightMode::Calib => if fw == FirmwareKind::Inav { None } else { Some(13u32) },
        FlightMode::Osd => if fw == FirmwareKind::Inav { None } else { Some(14u32) },
        FlightMode::Telemetry => if fw == FirmwareKind::Inav { None } else { Some(15u32) },
        FlightMode::Servo1 => if fw == FirmwareKind::Inav { None } else { Some(16u32) },
        FlightMode::Servo2 => if fw == FirmwareKind::Inav { None } else { Some(17u32) },
        FlightMode::Servo3 => if fw == FirmwareKind::Inav { None } else { Some(18u32) },
        FlightMode::Blackbox => if fw == FirmwareKind::Inav { None } else { Some(19u32) },
        FlightMode::Airmode => if fw == FirmwareKind::Inav { None } else { Some(20u32) },
        FlightMode::ThreeD => if fw == FirmwareKind::Inav { None } else { Some(21u32) },
        FlightMode::FpvAngleMix => if fw == FirmwareKind::Inav { None } else { Some(22u32) },
        FlightMode::BlackboxErase => if fw == FirmwareKind::Inav { None } else { Some(23u32) },
        FlightMode::Camera1 => if fw == FirmwareKind::Inav { None } else { Some(24u32) },
        FlightMode::Camera2 => if fw == FirmwareKind::Inav { None } else { Some(25u32) },
        FlightMode::Camera3 => if fw == FirmwareKind::Inav { None } else { Some(26u32) },
        FlightMode::Prearm => if fw == FirmwareKind::Inav { None } else { Some(28u32) },
        FlightMode::BeepGpsCount => if fw == FirmwareKind::Inav { None } else { Some(29u32) },
        FlightMode::VtxPitmode => if fw == FirmwareKind::Inav { None } else { Some(30u32) },
        FlightMode::Paralyze => if fw == FirmwareKind::Inav { None } else { Some(31u32) },
        FlightMode::Heading => if fw == FirmwareKind::Inav { Some(2u32) } else { None },
        FlightMode::NavAltHold => if fw == FirmwareKind::Inav { Some(3u32) } else { None },
        FlightMode::NavRth => if fw == FirmwareKind::Inav { Some(4u32) } else { None },
        FlightMode::NavPoshold => if fw == FirmwareKind::Inav { Some(5u32) } else { None },
        FlightMode::NavLaunch => if fw == FirmwareKind::Inav { Some(7u32) } else { None },
        FlightMode::Manual => if fw == FirmwareKind::Inav { Some(8u32) } else { None },
        FlightMode::AutoTune => if fw == FirmwareKind::Inav { Some(10u32) } else { None },
        FlightMode::NavWp => if fw == FirmwareKind::Inav { Some(11u32) } else { None },
        FlightMode::NavCourseHold => if fw == FirmwareKind::Inav { Some(12u32) } else { None },
        FlightMode::Flaperon => if fw == FirmwareKind::Inav { Some(13u32) } else { None },
        FlightMode::TurnAssistant => if fw == FirmwareKind::Inav { Some(14u32) } else { None },
        FlightMode::Soaring => if fw == FirmwareKind::Inav { Some(16u32) } else { None },
        }
    }

    /// Looks up the flag at a bit under the given firmware.
    pub fn from_bit(bit: u32, fw: FirmwareKind) -> (result: Option<Self>)
        ensures
            result == spec_flight_mode_from_bit(bit, fw),
    {
    if fw == FirmwareKind::Inav {
        if bit == 0u32 {
            Some(FlightMode::Angle)
        } else if bit == 1u32 {
            Some(FlightMode::Horizon)
        } else if bit == 2u32 {
            Some(FlightMode::Heading)
        } else if bit == 3u32 {
            Some(FlightMode::NavAltHold)
        } else if bit == 4u32 {
            Some(FlightMode::NavRth)
        } else if bit == 5u32 {
            Some(FlightMode::NavPoshold)
        } else if bit == 6u32 {
            Some(FlightMode::HeadFree)
        } else if bit == 7u32 {
            Some(FlightMode::NavLaunch)
        } else if bit == 8u32 {
            Some(FlightMode::Manual)
        } else if bit == 9u32 {
            Some(FlightMode::Failsafe)
        } else if bit == 10u32 {
            Some(FlightMode::AutoTune)
        } else if bit == 11u32 {
            Some(FlightMode::NavWp)
        } else if bit == 12u32 {
            Some(FlightMode::NavCourseHold)
        } else if bit == 13u32 {
            Some(FlightMode::Flaperon)
        } else if bit == 14u32 {
            Some(FlightMode::TurnAssistant)
        } else if bit == 15u32 {
            Some(FlightMode::Turtle)
        } else if bit == 16u32 {
            Some(FlightMode::Soaring)
        } else {
            None
        }
    } else {
        if bit == 0u32 {
            Some(FlightMode::Arm)
        } else if bit == 1u32 {
            Some(FlightMode::Angle)
        } else if bit == 2u32 {
            Some(FlightMode::Horizon)
        } else if bit == 3u32 {
            Some(FlightMode::Mag)
        } else if bit == 4u32 {
            Some(FlightMode::HeadFree)
        } else if bit == 5u32 {
            Some(FlightMode::Passthru)
        } else if bit == 6u32 {
            Some(FlightMode::Failsafe)
        } else if bit == 7u32 {
            Some(FlightMode::GpsRescue)
        } else if bit == 8u32 {
            Some(FlightMode::Antigravity)
        } else if bit == 9u32 {
            Some(FlightMode::HeadAdjust)
        } else if bit == 10u32 {
            Some(FlightMode::CamStab)
        } else if bit == 11u32 {
            Some(FlightMode::BeeperOn)
        } else if bit == 12u32 {
            Some(FlightMode::LedLow)
        } else if bit == 13u32 {
            Some(FlightMode::Calib)
        } else if bit == 14u32 {
            Some(FlightMode::Osd)
        } else if bit == 15u32 {
            Some(FlightMode::Telemetry)
        } else if bit == 16u32 {
            Some(FlightMode::Servo1)
        } else if bit == 17u32 {
            Some(FlightMode::Servo2)
        } else if bit == 18u32 {
            Some(FlightMode::Servo3)
        } else if bit == 19u32 {
            Some(FlightMode::Blackbox)
        } else if bit == 20u32 {
            Some(FlightMode::Airmode)
        } else if bit == 21u32 {
            Some(FlightMode::ThreeD)
        } else if bit == 22u32 {
            Some(FlightMode::FpvAngleMix)
        } else if bit == 23u32 {
            Some(FlightMode::BlackboxErase)
        } else if bit == 24u32 {
            Some(FlightMode::Camera1)
        } else if bit == 25u32 {
            Some(FlightMode::Camera2)
        } else if bit == 26u32 {
            Some(FlightMode::Camera3)
        } else if bit == 27u32 {
            Some(FlightMode::Turtle)
        } else if bit == 28u32 {
            Some(FlightMode::Prearm)
        } else if bit == 29u32 {
            Some(FlightMode::BeepGpsCount)
        } else if bit == 30u32 {
            Some(FlightMode::VtxPitmode)
        } else if bit == 31u32 {
            Some(FlightMode::Paralyze)
        } else {
            None
        }
    }
    }
}

impl Flag for FlightMode {
    open spec fn spec_name(&self) -> Seq<char> {
        match *self {
            FlightMode::Angle => "Angle"@,
            FlightMode::Horizon => "Horizon"@,
            FlightMode::HeadFree => "HeadFree"@,
            FlightMode::Failsafe => "Failsafe"@,
            FlightMode::Turtle => "Turtle"@,
            FlightMode::Arm => "Arm"@,
            FlightMode::Mag => "Mag"@,
            FlightMode::Passthru => "Passthru"@,
            FlightMode::GpsRescue => "GpsRescue"@,
            FlightMode::Antigravity => "Antigravity"@,
            FlightMode::HeadAdjust => "HeadAdjust"@,
            FlightMode::CamStab => "CamStab"@,
            FlightMode::BeeperOn => "BeeperOn"@,
            FlightMode::LedLow => "LedLow"@,
            FlightMode::Calib => "Calib"@,
            FlightMode::Osd => "Osd"@,
            FlightMode::Telemetry => "Telemetry"@,
            FlightMode::Servo1 => "Servo1"@,
            FlightMode::Servo2 => "Servo2"@,
            FlightMode::Servo3 => "Servo3"@,
            FlightMode::Blackbox => "Blackbox"@,
            FlightMode::Airmode => "Airmode"@,
            FlightMode::ThreeD => "ThreeD"@,
            FlightMode::FpvAngleMix => "FpvAngleMix"@,
            FlightMode::BlackboxErase => "BlackboxErase"@,
            FlightMode::Camera1 => "Camera1"@,
            FlightMode::Camera2 => "Camera2"@,
            FlightMode::Camera3 => "Camera3"@,
            FlightMode::Prearm => "Prearm"@,
            FlightMode::BeepGpsCount => "BeepGpsCount"@,
            FlightMode::VtxPitmode => "VtxPitmode"@,
            FlightMode::Paralyze => "Paralyze"@,
            FlightMode::Heading => "Heading"@,
            FlightMode::NavAltHold => "NavAltHold"@,
            FlightMode::NavRth => "NavRth"@,
            FlightMode::NavPoshold => "NavPoshold"@,
            FlightMode::NavLaunch => "NavLaunch"@,
            FlightMode::Manual => "Manual"@,
            FlightMode::AutoTune => "AutoTune"@,
            FlightMode::NavWp => "NavWp"@,
            FlightMode::NavCourseHold => "NavCourseHold"@,
            FlightMode::Flaperon => "Flaperon"@,
            FlightMode::TurnAssistant => "TurnAssistant"@,
            FlightMode::Soaring => "Soaring"@,
        }
    }

    fn as_name(&self) -> (result: &'static str) {
        match *self {
        FlightMode::Angle => "Angle",
        FlightMode::Horizon => "Horizon",
        FlightMode::HeadFree => "HeadFree",
        FlightMode::Failsafe => "Failsafe",
        FlightMode::Turtle => "Turtle",
        FlightMode::Arm => "Arm",
        FlightMode::Mag => "Mag",
        FlightMode::Passthru => "Passthru",
        FlightMode::GpsRescue => "GpsRescue",
        FlightMode::Antigravity => "Antigravity",
        FlightMode::HeadAdjust => "HeadAdjust",
        FlightMode::CamStab => "CamStab",
        FlightMode::BeeperOn => "BeeperOn",
        FlightMode::LedLow => "LedLow",
        FlightMode::Calib => "Calib",
        FlightMode::Osd => "Osd",
        FlightMode::Telemetry => "Telemetry",
        FlightMode::Servo1 => "Servo1",
        FlightMode::Servo2 => "Servo2",
        FlightMode::Servo3 => "Servo3",
        FlightMode::Blackbox => "Blackbox",
        FlightMode::Airmode => "Airmode",
        FlightMode::ThreeD => "ThreeD",
        FlightMode::FpvAngleMix => "FpvAngleMix",
        FlightMode::BlackboxErase => "BlackboxErase",
        FlightMode::Camera1 => "Camera1",
        FlightMode::Camera2 => "Camera2",
        FlightMode::Camera3 => "Camera3",
        FlightMode::Prearm => "Prearm",
        FlightMode::BeepGpsCount => "BeepGpsCount",
        FlightMode::VtxPitmode => "VtxPitmode",
        FlightMode::Paralyze => "Paralyze",
        FlightMode::Heading => "Heading",
        FlightMode::NavAltHold => "NavAltHold",
        FlightMode::NavRth => "NavRth",
        FlightMode::NavPoshold => "NavPoshold",
        FlightMode::NavLaunch => "NavLaunch",
        FlightMode::Manual => "Manual",
        FlightMode::AutoTune => "AutoTune",
        FlightMode::NavWp => "NavWp",
        FlightMode::NavCourseHold => "NavCourseHold",
        FlightMode::Flaperon => "Flaperon",
        FlightMode::TurnAssistant => "TurnAssistant",
        FlightMode::Soaring => "Soaring",
        }
    }
}

/// The flags set in `raw` that have a bit under `fw`, from `bit` upward,
/// in ascending bit order.
pub open spec fn spec_flight_modes_set(raw: u32, fw: FirmwareKind, bit: int) -> Seq<FlightMode>
    decreases 32 - bit,
{
    if !(0 <= bit < 32) {
        Seq::empty()
    } else {
        let rest = spec_flight_modes_set(raw, fw, bit + 1);
        if spec_bit_set(raw, bit as u32) {
            match spec_flight_mode_from_bit(bit as u32, fw) {
                Some(f) => seq![f] + rest,
                None => rest,
            }
        } else {
            rest
        }
    }
}

/// All currently enabled flight_modes: a 32-bit bitmap with its firmware,
/// whose bits translate to flags per firmware.
#[derive(Debug, Clone, Copy, PartialEq, Eq, Hash, Structural)]
pub struct FlightModeSet {
    pub firmware: FirmwareKind,
    pub raw: u32,
}

impl FlightModeSet {
    /// Wraps a raw bitmap with its firmware.
    pub fn new(raw: u32, firmware: FirmwareKind) -> (result: Self)
        ensures
            result.raw == raw,
            result.firmware == firmware,
    {
        FlightModeSet { firmware, raw }
    }

    /// The flags set in this bitmap, in ascending bit order.
    pub fn flags(&self) -> (result: Vec<FlightMode>)
        ensures
            result@ == spec_flight_modes_set(self.raw, self.firmware, 0),
    {
        let mut out: Vec<FlightMode> = Vec::new();
        let mut bit: u32 = 0;
        while bit < 32
            invariant
                0 <= bit <= 32,
                spec_flight_modes_set(self.raw, self.firmware, 0) == out@ + spec_flight_modes_set(
                    self.raw,
                    self.firmware,
                    bit as int,
                ),
            decreases 32 - bit,
        {
            let ghost prefix = out@;
            let ghost bit0 = bit as int;
            if (self.raw >> bit) & 1 == 1 {
                match FlightMode::from_bit(bit, self.firmware) {
                    Some(f) => {
                        out.push(f);
                        proof {
                            let rest = spec_flight_modes_set(self.raw, self.firmware, bit0 + 1);
                            assert(out@ + rest =~= prefix + (seq![f] + rest));
                        }
                    },
                    None => {
                    },
                }
            }
            bit = bit + 1;
        }
        proof {
            assert(spec_flight_modes_set(self.raw, self.firmware, 32) =~= Seq::<FlightMode>::empty());
            assert(out@ + Seq::<FlightMode>::empty() =~= out@);
        }
        out
    }
}

impl FlagSet for FlightModeSet {
    type Flag = FlightMode;

    open spec fn spec_is_set(&self, flag: FlightMode) -> bool {
        match spec_flight_mode_to_bit(flag, self.firmware) {
            Some(b) => spec_bit_set(self.raw, b),
            None => false,
        }
    }

    open spec fn spec_flag_list(&self) -> Seq<Self::Flag> {
        spec_flight_modes_set(self.raw, self.firmware, 0)
    }

    fn is_set(&self, flag: FlightMode) -> (result: bool) {
        match flag.to_bit(self.firmware) {
            Some(b) => (self.raw >> b) & 1 == 1,
            None => false,
        }
    }

    fn as_names(&self) -> (result: Vec<&'static str>) {
        let flags = self.flags();
        let mut out: Vec<&'static str> = Vec::new();
        let mut i: usize = 0;
        while i < flags.len()
            invariant
                0 <= i <= flags@.len(),
                flags@ == self.spec_flag_list(),
                out@.len() == i,
                forall|j: int| 0 <= j < i ==> out@[j]@ == self.spec_flag_list()[j].spec_name(),
            decreases flags@.len() - i,
        {
            out.push(vstd::slice::slice_index_get(flags.as_slice(), i).as_name());
            i = i + 1;
        }
        out
    }
}

/// A state flag. The bit it lives at differs per firmware; a flag the
/// firmware does not know has no bit.
#[derive(Debug, Clone, Copy, PartialEq, Eq, Hash, Structural)]
pub enum State {
    GpsFixHome,
    GpsFix,
    GpsFixEver,
    CalibrateMag,
    SmallAngle,
    FixedWingLegacy,
    AntiWindup,
    FlaperonAvailable,
    NavMotorStopOrIdle,
    CompassCalibrated,
    AccelerometerCalibrated,
    NavCruiseBraking,
    NavCruiseBrakingBoost,
    NavCruiseBrakingLocked,
    NavExtraArmingSafetyBypassed,
    AirmodeActive,
    EscSensorEnabled,
    Airplane,
    Multirotor,
    Rover,
    Boat,
    AltitudeControl,
    MoveForwardOnly,
    SetReversibleMotorsForward,
    FwHeadingUseYaw,
    AntiWindupDeactivated,
    LandingDetected,
}

/// The bit `flag` lives at under firmware `fw`, if any.
pub open spec fn spec_state_to_bit(flag: State, fw: FirmwareKind) -> Option<u32> {
    match flag {
        State::GpsFixHome => if fw == FirmwareKind::Inav { Some(0u32) } else { Some(0u32) },
        State::GpsFix => if fw == FirmwareKind::Inav { Some(1u32) } else { Some(1u32) },
        State::GpsFixEver => if fw == FirmwareKind::Inav { None } else { Some(2u32) },
        State::CalibrateMag => if fw == FirmwareKind::Inav { Some(2u32) } else { None },
        State::SmallAngle => if fw == FirmwareKind::Inav { Some(3u32) } else { None },
        State::FixedWingLegacy => if fw == FirmwareKind::Inav { Some(4u32) } else { None },
        State::AntiWindup => if fw == FirmwareKind::Inav { Some(5u32) } else { None },
        State::FlaperonAvailable => if fw == FirmwareKind::Inav { Some(6u32) } else { None },
        State::NavMotorStopOrIdle => if fw == FirmwareKind::Inav { Some(7u32) } else { None },
        State::CompassCalibrated => if fw == FirmwareKind::Inav { Some(8u32) } else { None },
        State::AccelerometerCalibrated => if fw == FirmwareKind::Inav { Some(9u32) } else { None },
        State::NavCruiseBraking => if fw == FirmwareKind::Inav { Some(11u32) } else { None },
        State::NavCruiseBrakingBoost => if fw == FirmwareKind::Inav { Some(12u32) } else { None },
        State::NavCruiseBrakingLocked => if fw == FirmwareKind::Inav { Some(13u32) } else { None },
        State::NavExtraArmingSafetyBypassed => if fw == FirmwareKind::Inav { Some(14u32) } else { None },
        State::AirmodeActive => if fw == FirmwareKind::Inav { Some(15u32) } else { None },
        State::EscSensorEnabled => if fw == FirmwareKind::Inav { Some(16u32) } else { None },
        State::Airplane => if fw == FirmwareKind::Inav { Some(17u32) } else { None },
        State::Multirotor => if fw == FirmwareKind::Inav { Some(18u32) } else { None },
        State::Rover => if fw == FirmwareKind::Inav { Some(19u32) } else { None },
        State::Boat => if fw == FirmwareKind::Inav { Some(20u32) } else { None },
        State::AltitudeControl => if fw == FirmwareKind::Inav { Some(21u32) } else { None },
        State::MoveForwardOnly => if fw == FirmwareKind::Inav { Some(22u32) } else { None },
        State::SetReversibleMotorsForward => if fw == FirmwareKind::Inav { Some(23u32) } else { None },
        State::FwHeadingUseYaw => if fw == FirmwareKind::Inav { Some(24u32) } else { None },
        State::AntiWindupDeactivated => if fw == FirmwareKind::Inav { Some(25u32) } else { None },
        State::LandingDetected => if fw == FirmwareKind::Inav { Some(26u32) } else { None },
    }
}

/// The flag living at `bit` under firmware `fw`, if any.
pub open spec fn spec_state_from_bit(bit: u32, fw: FirmwareKind) -> Option<State> {
    if fw == FirmwareKind::Inav {
        if bit == 0u32 {
            Some(State::GpsFixHome)
        } else if bit == 1u32 {
            Some(State::GpsFix)
        } else if bit == 2u32 {
            Some(State::CalibrateMag)
        } else if bit == 3u32 {
            Some(State::SmallAngle)
        } else if bit == 4u32 {
            Some(State::FixedWingLegacy)
        } else if bit == 5u32 {
            Some(State::AntiWindup)
        } else if bit == 6u32 {
            Some(State::FlaperonAvailable)
        } else if bit == 7u32 {
            Some(State::NavMotorStopOrIdle)
        } else if bit == 8u32 {
            Some(State::CompassCalibrated)
        } else if bit == 9u32 {
            Some(State::AccelerometerCalibrated)
        } else if bit == 11u32 {
            Some(State::NavCruiseBraking)
        } else if bit == 12u32 {
            Some(State::NavCruiseBrakingBoost)
        } else if bit == 13u32 {
            Some(State::NavCruiseBrakingLocked)
        } else if bit == 14u32 {
            Some(State::NavExtraArmingSafetyBypassed)
        } else if bit == 15u32 {
            Some(State::AirmodeActive)
        } else if bit == 16u32 {
            Some(State::EscSensorEnabled)
        } else if bit == 17u32 {
            Some(State::Airplane)
        } else if bit == 18u32 {
            Some(State::Multirotor)
        } else if bit == 19u32 {
            Some(State::Rover)
        } else if bit == 20u32 {
            Some(State::Boat)
        } else if bit == 21u32 {
            Some(State::AltitudeControl)
        } else if bit == 22u32 {
            Some(State::MoveForwardOnly)
        } else if bit == 23u32 {
            Some(State::SetReversibleMotorsForward)
        } else if bit == 24u32 {
            Some(State::FwHeadingUseYaw)
        } else if bit == 25u32 {
            Some(State::AntiWindupDeactivated)
        } else if bit == 26u32 {
            Some(State::LandingDetected)
        } else {
            None
        }
    } else {
        if bit == 0u32 {
            Some(State::GpsFixHome)
        } else if bit == 1u32 {
            Some(State::GpsFix)
        } else if bit == 2u32 {
            Some(State::GpsFixEver)
        } else {
            None
        }
    }
}

impl State {
    /// Looks up this flag's bit under the given firmware.
    pub fn to_bit(self, fw: FirmwareKind) -> (result: Option<u32>)
        ensures
            result == spec_state_to_bit(self, fw),
            result matches Some(b) ==> b < 32,
    {
        match self {
        State::GpsFixHome => if fw == FirmwareKind::Inav { Some(0u32) } else { Some(0u32) },
        State::GpsFix => if fw == FirmwareKind::Inav { Some(1u32) } else { Some(1u32) },
        State::GpsFixEver => if fw == FirmwareKind::Inav { None } else { Some(2u32) },
        State::CalibrateMag => if fw == FirmwareKind::Inav { Some(2u32) } else { None },
        State::SmallAngle => if fw == FirmwareKind::Inav { Some(3u32) } else { None },
        State::FixedWingLegacy => if fw == FirmwareKind::Inav { Some(4u32) } else { None },
        State::AntiWindup => if fw == FirmwareKind::Inav { Some(5u32) } else { None },
        State::FlaperonAvailable => if fw == FirmwareKind::Inav { Some(6u32) } else { None },
        State::NavMotorStopOrIdle => if fw == FirmwareKind::Inav { Some(7u32) } else { None },
        State::CompassCalibrated => if fw == FirmwareKind::Inav { Some(8u32) } else { None },
        State::AccelerometerCalibrated => if fw == FirmwareKind::Inav { Some(9u32) } else { None },
        State::NavCruiseBraking => if fw == FirmwareKind::Inav { Some(11u32) } else { None },
        State::NavCruiseBrakingBoost => if fw == FirmwareKind::Inav { Some(12u32) } else { None },
        State::NavCruiseBrakingLocked => if fw == FirmwareKind::Inav { Some(13u32) } else { None },
        State::NavExtraArmingSafetyBypassed => if fw == FirmwareKind::Inav { Some(14u32) } else { None },
        State::AirmodeActive => if fw == FirmwareKind::Inav { Some(15u32) } else { None },
        State::EscSensorEnabled => if fw == FirmwareKind::Inav { Some(16u32) } else { None },
        State::Airplane => if fw == FirmwareKind::Inav { Some(17u32) } else { None },
        State::Multirotor => if fw == FirmwareKind::Inav { Some(18u32) } else { None },
        State::Rover => if fw == FirmwareKind::Inav { Some(19u32) } else { None },
        State::Boat => if fw == FirmwareKind::Inav { Some(20u32) } else { None },
        State::AltitudeControl => if fw == FirmwareKind::Inav { Some(21u32) } else { None },
        State::MoveForwardOnly => if fw == FirmwareKind::Inav { Some(22u32) } else { None },
        State::SetReversibleMotorsForward => if fw == FirmwareKind::Inav { Some(23u32) } else { None },
        State::FwHeadingUseYaw => if fw == FirmwareKind::Inav { Some(24u32) } else { None },
        State::AntiWindupDeactivated => if fw == FirmwareKind::Inav { Some(25u32) } else { None },
        State::LandingDetected => if fw == FirmwareKind::Inav { Some(26u32) } else { None },
        }
    }

    /// Looks up the flag at a bit under the given firmware.
    pub fn from_bit(bit: u32, fw: FirmwareKind) -> (result: Option<Self>)
        ensures
            result == spec_state_from_bit(bit, fw),
    {
    if fw == FirmwareKind::Inav {
        if bit == 0u32 {
            Some(State::GpsFixHome)
        } else if bit == 1u32 {
            Some(State::GpsFix)
        } else if bit == 2u32 {
            Some(State::CalibrateMag)
        } else if bit == 3u32 {
            Some(State::SmallAngle)
        } else if bit == 4u32 {
            Some(State::FixedWingLegacy)
        } else if bit == 5u32 {
            Some(State::AntiWindup)
        } else if bit == 6u32 {
            Some(State::FlaperonAvailable)
        } else if bit == 7u32 {
            Some(State::NavMotorStopOrIdle)
        } else if bit == 8u32 {
            Some(State::CompassCalibrated)
        } else if bit == 9u32 {
            Some(State::AccelerometerCalibrated)
        } else if bit == 11u32 {
            Some(State::NavCruiseBraking)
        } else if bit == 12u32 {
            Some(State::NavCruiseBrakingBoost)
        } else if bit == 13u32 {
            Some(State::NavCruiseBrakingLocked)
        } else if bit == 14u32 {
            Some(State::NavExtraArmingSafetyBypassed)
        } else if bit == 15u32 {
            Some(State::AirmodeActive)
        } else if bit == 16u32 {
            Some(State::EscSensorEnabled)
        } else if bit == 17u32 {
            Some(State::Airplane)
        } else if bit == 18u32 {
            Some(State::Multirotor)
        } else if bit == 19u32 {
            Some(State::Rover)
        } else if bit == 20u32 {
            Some(State::Boat)
        } else if bit == 21u32 {
            Some(State::AltitudeControl)
        } else if bit == 22u32 {
            Some(State::MoveForwardOnly)
        } else if bit == 23u32 {
            Some(State::SetReversibleMotorsForward)
        } else if bit == 24u32 {
            Some(State::FwHeadingUseYaw)
        } else if bit == 25u32 {
            Some(State::AntiWindupDeactivated)
        } else if bit == 26u32 {
            Some(State::LandingDetected)
        } else {
            None
        }
    } else {
        if bit == 0u32 {
            Some(State::GpsFixHome)
        } else if bit == 1u32 {
            Some(State::GpsFix)
        } else if bit == 2u32 {
            Some(State::GpsFixEver)
        } else {
            None
        }
    }
    }
}

impl Flag for State {
    open spec fn spec_name(&self) -> Seq<char> {
        match *self {
            State::GpsFixHome => "GpsFixHome"@,
            State::GpsFix => "GpsFix"@,
            State::GpsFixEver => "GpsFixEver"@,
            State::CalibrateMag => "CalibrateMag"@,
            State::SmallAngle => "SmallAngle"@,
            State::FixedWingLegacy => "FixedWingLegacy"@,
            State::AntiWindup => "AntiWindup"@,
            State::FlaperonAvailable => "FlaperonAvailable"@,
            State::NavMotorStopOrIdle => "NavMotorStopOrIdle"@,
            State::CompassCalibrated => "CompassCalibrated"@,
            State::AccelerometerCalibrated => "AccelerometerCalibrated"@,
            State::NavCruiseBraking => "NavCruiseBraking"@,
            State::NavCruiseBrakingBoost => "NavCruiseBrakingBoost"@,
            State::NavCruiseBrakingLocked => "NavCruiseBrakingLocked"@,
            State::NavExtraArmingSafetyBypassed => "NavExtraArmingSafetyBypassed"@,
            State::AirmodeActive => "AirmodeActive"@,
            State::EscSensorEnabled => "EscSensorEnabled"@,
            State::Airplane => "Airplane"@,
            State::Multirotor => "Multirotor"@,
            State::Rover => "Rover"@,
            State::Boat => "Boat"@,
            State::AltitudeControl => "AltitudeControl"@,
            State::MoveForwardOnly => "MoveForwardOnly"@,
            State::SetReversibleMotorsForward => "SetReversibleMotorsForward"@,
            State::FwHeadingUseYaw => "FwHeadingUseYaw"@,
            State::AntiWindupDeactivated => "AntiWindupDeactivated"@,
            State::LandingDetected => "LandingDetected"@,
        }
    }

    fn as_name(&self) -> (result: &'static str) {
        match *self {
        State::GpsFixHome => "GpsFixHome",
        State::GpsFix => "GpsFix",
        State::GpsFixEver => "GpsFixEver",
        State::CalibrateMag => "CalibrateMag",
        State::SmallAngle => "SmallAngle",
        State::FixedWingLegacy => "FixedWingLegacy",
        State::AntiWindup => "AntiWindup",
        State::FlaperonAvailable => "FlaperonAvailable",
        State::NavMotorStopOrIdle => "NavMotorStopOrIdle",
        State::CompassCalibrated => "CompassCalibrated",
        State::AccelerometerCalibrated => "AccelerometerCalibrated",
        State::NavCruiseBraking => "NavCruiseBraking",
        State::NavCruiseBrakingBoost => "NavCruiseBrakingBoost",
        State::NavCruiseBrakingLocked => "NavCruiseBrakingLocked",
        State::NavExtraArmingSafetyBypassed => "NavExtraArmingSafetyBypassed",
        State::AirmodeActive => "AirmodeActive",
        State::EscSensorEnabled => "EscSensorEnabled",
        State::Airplane => "Airplane",
        State::Multirotor => "Multirotor",
        State::Rover => "Rover",
        State::Boat => "Boat",
        State::AltitudeControl => "AltitudeControl",
        State::MoveForwardOnly => "MoveForwardOnly",
        State::SetReversibleMotorsForward => "SetReversibleMotorsForward",
        State::FwHeadingUseYaw => "FwHeadingUseYaw",
        State::AntiWindupDeactivated => "AntiWindupDeactivated",
        State::LandingDetected => "LandingDetected",
        }
    }
}

/// The flags set in `raw` that have a bit under `fw`, from `bit` upward,
/// in ascending bit order.
pub open spec fn spec_states_set(raw: u32, fw: FirmwareKind, bit: int) -> Seq<State>
    decreases 32 - bit,
{
    if !(0 <= bit < 32) {
        Seq::empty()
    } else {
        let rest = spec_states_set(raw, fw, bit + 1);
        if spec_bit_set(raw, bit as u32) {
            match spec_state_from_bit(bit as u32, fw) {
                Some(f) => seq![f] + rest,
                None => rest,
            }
        } else {
            rest
        }
    }
}

/// All currently enabled states: a 32-bit bitmap with its firmware,
/// whose bits translate to flags per firmware.
#[derive(Debug, Clone, Copy, PartialEq, Eq, Hash, Structural)]
pub struct StateSet {
    pub firmware: FirmwareKind,
    pub raw: u32,
}

impl StateSet {
    /// Wraps a raw bitmap with its firmware.
    pub fn new(raw: u32, firmware: FirmwareKind) -> (result: Self)
        ensures
            result.raw == raw,
            result.firmware == firmware,
    {
        StateSet { firmware, raw }
    }

    /// The flags set in this bitmap, in ascending bit order.
    pub fn flags(&self) -> (result: Vec<State>)
        ensures
            result@ == spec_states_set(self.raw, self.firmware, 0),
    {
        let mut out: Vec<State> = Vec::new();
        let mut bit: u32 = 0;
        while bit < 32
            invariant
                0 <= bit <= 32,
                spec_states_set(self.raw, self.firmware, 0) == out@ + spec_states_set(
                    self.raw,
                    self.firmware,
                    bit as int,
                ),
            decreases 32 - bit,
        {
            let ghost prefix = out@;
            let ghost bit0 = bit as int;
            if (self.raw >> bit) & 1 == 1 {
                match State::from_bit(bit, self.firmware) {
                    Some(f) => {
                        out.push(f);
                        proof {
                            let rest = spec_states_set(self.raw, self.firmware, bit0 + 1);
                            assert(out@ + rest =~= prefix + (seq![f] + rest));
                        }
                    },
                    None => {
                    },
                }
            }
            bit = bit + 1;
        }
        proof {
            assert(spec_states_set(self.raw, self.firmware, 32) =~= Seq::<State>::empty());
            assert(out@ + Seq::<State>::empty() =~= out@);
        }
        out
    }
}

impl FlagSet for StateSet {
    type Flag = State;

    open spec fn spec_is_set(&self, flag: State) -> bool {
        match spec_state_to_bit(flag, self.firmware) {
            Some(b) => spec_bit_set(self.raw, b),
            None => false,
        }
    }

    open spec fn spec_flag_list(&self) -> Seq<Self::Flag> {
        spec_states_set(self.raw, self.firmware, 0)
    }

    fn is_set(&self, flag: State) -> (result: bool) {
        match flag.to_bit(self.firmware) {
            Some(b) => (self.raw >> b) & 1 == 1,
            None => false,
        }
    }

    fn as_names(&self) -> (result: Vec<&'static str>) {
        let flags = self.flags();
        let mut out: Vec<&'static str> = Vec::new();
        let mut i: usize = 0;
        while i < flags.len()
            invariant
                0 <= i <= flags@.len(),
                flags@ == self.spec_flag_list(),
                out@.len() == i,
                forall|j: int| 0 <= j < i ==> out@[j]@ == self.spec_flag_list()[j].spec_name(),
            decreases flags@.len() - i,
        {
            out.push(vstd::slice::slice_index_get(flags.as_slice(), i).as_name());
            i = i + 1;
        }
        out
    }
}

/// The current failsafe phase. The index-to-phase table differs between
/// INAV and the Betaflight family; an index past the table is `Unknown`.
#[derive(Debug, Clone, Copy, PartialEq, Eq, Hash, Structural)]
pub enum FailsafePhase {
    Idle,
    RxLossDetected,
    RxLossIdle,
    ReturnToHome,
    Landing,
    Landed,
    RxLossMonitoring,
    RxLossRecovered,
    GpsRescue,
    Unknown,
}

/// The phase a raw index stands for under the given firmware.
pub open spec fn spec_failsafe_phase(raw: u32, fw: FirmwareKind) -> FailsafePhase {
    if fw == FirmwareKind::Inav {
        if raw == 0 {
            FailsafePhase::Idle
        } else if raw == 1 {
            FailsafePhase::RxLossDetected
        } else if raw == 2 {
            FailsafePhase::RxLossIdle
        } else if raw == 3 {
            FailsafePhase::ReturnToHome
        } else if raw == 4 {
            FailsafePhase::Landing
        } else if raw == 5 {
            FailsafePhase::Landed
        } else if raw == 6 {
            FailsafePhase::RxLossMonitoring
        } else if raw == 7 {
            FailsafePhase::RxLossRecovered
        } else {
            FailsafePhase::Unknown
        }
    } else {
        if raw == 0 {
            FailsafePhase::Idle
        } else if raw == 1 {
            FailsafePhase::RxLossDetected
        } else if raw == 2 {
            FailsafePhase::Landing
        } else if raw == 3 {
            FailsafePhase::Landed
        } else if raw == 4 {
            FailsafePhase::RxLossMonitoring
        } else if raw == 5 {
            FailsafePhase::RxLossRecovered
        } else if raw == 6 {
            FailsafePhase::GpsRescue
        } else {
            FailsafePhase::Unknown
        }
    }
}

impl FailsafePhase {
    /// Translates a raw failsafe index under the given firmware.
    pub fn new(raw: u32, firmware: FirmwareKind) -> (result: Self)
        ensures
            result == spec_failsafe_phase(raw, firmware),
    {
        if firmware == FirmwareKind::Inav {
            if raw == 0 {
                Self::Idle
            } else if raw == 1 {
                Self::RxLossDetected
            } else if raw == 2 {
                Self::RxLossIdle
            } else if raw == 3 {
                Self::ReturnToHome
            } else if raw == 4 {
                Self::Landing
            } else if raw == 5 {
                Self::Landed
            } else if raw == 6 {
                Self::RxLossMonitoring
            } else if raw == 7 {
                Self::RxLossRecovered
            } else {
                Self::Unknown
            }
        } else {
            if raw == 0 {
                Self::Idle
            } else if raw == 1 {
                Self::RxLossDetected
            } else if raw == 2 {
                Self::Landing
            } else if raw == 3 {
                Self::Landed
            } else if raw == 4 {
                Self::RxLossMonitoring
            } else if raw == 5 {
                Self::RxLossRecovered
            } else if raw == 6 {
                Self::GpsRescue
            } else {
                Self::Unknown
            }
        }
    }
}

impl Flag for FailsafePhase {
    open spec fn spec_name(&self) -> Seq<char> {
        match *self {
            FailsafePhase::Idle => "Idle"@,
            FailsafePhase::RxLossDetected => "RxLossDetected"@,
            FailsafePhase::RxLossIdle => "RxLossIdle"@,
            FailsafePhase::ReturnToHome => "ReturnToHome"@,
            FailsafePhase::Landing => "Landing"@,
            FailsafePhase::Landed => "Landed"@,
            FailsafePhase::RxLossMonitoring => "RxLossMonitoring"@,
            FailsafePhase::RxLossRecovered => "RxLossRecovered"@,
            FailsafePhase::GpsRescue => "GpsRescue"@,
            FailsafePhase::Unknown => "Unknown"@,
        }
    }

    fn as_name(&self) -> (result: &'static str) {
        match *self {
            Self::Idle => "Idle",
            Self::RxLossDetected => "RxLossDetected",
            Self::RxLossIdle => "RxLossIdle",
            Self::ReturnToHome => "ReturnToHome",
            Self::Landing => "Landing",
            Self::Landed => "Landed",
            Self::RxLossMonitoring => "RxLossMonitoring",
            Self::RxLossRecovered => "RxLossRecovered",
            Self::GpsRescue => "GpsRescue",
            Self::Unknown => "Unknown",
        }
    }
}

/// The flight-mode tables are consistent: a flag that has a bit under a
/// firmware is exactly the flag living at that bit.
pub proof fn lemma_flight_mode_bits_consistent(flag: FlightMode, fw: FirmwareKind)
    ensures
        spec_flight_mode_to_bit(flag, fw) matches Some(b) ==> spec_flight_mode_from_bit(b, fw)
            == Some(flag),
{
}

/// The state tables are consistent: a flag that has a bit under a
/// firmware is exactly the flag living at that bit.
pub proof fn lemma_state_bits_consistent(flag: State, fw: FirmwareKind)
    ensures
        spec_state_to_bit(flag, fw) matches Some(b) ==> spec_state_from_bit(b, fw) == Some(flag),
{
}

} // verus!
