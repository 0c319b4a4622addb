//! Colors and thresholds, in one place so the window, the graph and the tray
//! agree.

use vstd::prelude::*;

verus! {

/// The thermal bands as plain hex, plus the gray for "not driving the fan".
pub const COOL_HEX: u32 = 0x22a844;

pub const WARM_HEX: u32 = 0xe07c10;

pub const HOT_HEX: u32 = 0xd62820;

pub const IDLE_HEX: u32 = 0x8a8f98;

/// Where the bands change, in degrees Celsius.
pub const WARM_AT: i8 = 70;

pub const HOT_AT: i8 = 85;

/// Graph extents, in degrees Celsius. Wider than any sane curve, so points
/// never sit on the edge.
pub const TEMP_MIN: i8 = 30;

pub const TEMP_MAX: i8 = 100;

/// Fan levels 0 to 7, with the firmware handoff drawn as one step above 7 so
/// it has somewhere to live on the axis.
pub const LEVEL_MAX: u8 = 8;

/// The band a temperature falls in, as the color that shows it.
pub open spec fn band_of(temp: int) -> u32 {
    if temp >= HOT_AT {
        HOT_HEX
    } else if temp >= WARM_AT {
        WARM_HEX
    } else {
        COOL_HEX
    }
}

/// The band color for a temperature, so the curve is readable at a glance.
pub fn band(temp: i8) -> (r: u32)
    ensures
        r == band_of(temp as int),
{
    if temp >= HOT_AT {
        HOT_HEX
    } else if temp >= WARM_AT {
        WARM_HEX
    } else {
        COOL_HEX
    }
}

/// The red, green and blue of a color written as hex.
pub open spec fn channels_of(hex: u32) -> (int, int, int) {
    ((hex as int / 65536) % 256, (hex as int / 256) % 256, hex as int % 256)
}

/// The red, green and blue of a color written as hex.
pub fn channels(hex: u32) -> (r: (u8, u8, u8))
    ensures
        (r.0 as int, r.1 as int, r.2 as int) == channels_of(hex),
{
    (((hex / 65536) % 256) as u8, ((hex / 256) % 256) as u8, (hex % 256) as u8)
}

/// A color with its red and blue exchanged, which is how the system's drawing
/// calls count them.
pub open spec fn swapped(hex: u32) -> int {
    channels_of(hex).2 * 65536 + channels_of(hex).1 * 256 + channels_of(hex).0
}

/// A color with its red and blue exchanged.
pub fn colorref(hex: u32) -> (r: u32)
    ensures
        r == swapped(hex),
{
    (hex % 256) * 65536 + ((hex / 256) % 256) * 256 + (hex / 65536) % 256
}

/// A hotter machine is never shown in a cooler band.
pub proof fn bands_are_ordered(cool: int, hot: int)
    requires
        cool <= hot,
    ensures
        band_of(hot) == COOL_HEX ==> band_of(cool) == COOL_HEX,
        band_of(cool) == HOT_HEX ==> band_of(hot) == HOT_HEX,
{
}

/// A temperature is cool, and green, below 70 degrees, hot, and red, from 85,
/// and warm, and amber, between; the graph and the tray's icon agree.
pub proof fn a_band_is_told_by_its_temperature(temp: i8)
    ensures
        temp < 70 ==> band_of(temp as int) == 0x22a844,
        70 <= temp < 85 ==> band_of(temp as int) == 0xe07c10,
        temp >= 85 ==> band_of(temp as int) == 0xd62820,
        crate::tray::color_of_band(crate::tray::thermal_band(temp)) == band_of(temp as int),
{
}

/// Exchanging red and blue twice gives the color back, green stays where it
/// is, and red goes to the lowest place.
pub proof fn exchanging_twice_gives_the_color_back(red: u8, green: u8, blue: u8)
    ensures
        ({
            let hex = (0x1_0000 * red + 0x100 * green + blue) as u32;
            let back = (0x1_0000 * blue + 0x100 * green + red) as u32;
            &&& channels_of(hex) == (red as int, green as int, blue as int)
            &&& swapped(hex) == back
            &&& swapped(back) == hex
        }),
{
}

} // verus!
