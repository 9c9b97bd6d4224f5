//! A position fix as plain values.

use vstd::prelude::*;

verus! {

/// Length of an encoded position packet.
pub const POSITION_PACKET_LEN: usize = 20;

/// What a position packet says.
#[derive(Clone, Copy, Debug, PartialEq, Eq, Structural)]
pub struct Position {
    /// Latitude in 1e-7 degrees.
    pub lat_e7: i32,
    /// Longitude in 1e-7 degrees.
    pub lon_e7: i32,
    /// Altitude in decimetres.
    pub alt_dm: i16,
    /// Ground speed in cm/s.
    pub speed_cms: u16,
    /// Course over ground in hundredths of a degree.
    pub course_cdeg: u16,
    /// Whether the receiver had a fix: the fix bit of the packet's flags.
    pub fix: bool,
    /// The other bits of the packet's flags, where they stand there.
    pub other_flags: u8,
    /// Satellites used.
    pub sats: u8,
    /// UTC time of day in milliseconds.
    pub tod_ms: u32,
}

impl Default for Position {
    fn default() -> (p: Self)
        ensures
            p == (Position {
                lat_e7: 0,
                lon_e7: 0,
                alt_dm: 0,
                speed_cms: 0,
                course_cdeg: 0,
                fix: false,
                other_flags: 0,
                sats: 0,
                tod_ms: 0,
            }),
    {
        Position {
            lat_e7: 0,
            lon_e7: 0,
            alt_dm: 0,
            speed_cms: 0,
            course_cdeg: 0,
            fix: false,
            other_flags: 0,
            sats: 0,
            tod_ms: 0,
        }
    }
}

} // verus!
