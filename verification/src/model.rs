//! The replies of the time zone service that the bot reads.
use vstd::prelude::*;

verus! {

/// The time zone service's answer for a position (`get-time-zone`).
pub struct TimeZoneRawData {
    pub status: String,
    pub message: String,
    pub country_code: String,
    pub country_name: String,
    pub zone_name: String,
    pub timestamp: u64,
    pub formatted: String,
}

/// The time zone service's answer for a conversion between two zones
/// (`convert-time-zone`); `offset` is in seconds.
pub struct ConvertedTimeZone {
    pub status: String,
    pub from_zone_name: String,
    pub to_zone_name: String,
    pub from_timestamp: u64,
    pub to_timestamp: u64,
    pub offset: i64,
}

} // verus!
