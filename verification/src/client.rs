//! The record-store client's decisions: the request paths it builds and
//! the schedule by which a failed request is retried.
//!
//! The network calls themselves happen outside the crate; they are handed
//! these paths and this schedule as plain values.

use vstd::prelude::*;

verus! {

/// How long to wait, in milliseconds, before retrying a request that has
/// already failed `attempts` times in a row; nothing once the attempts
/// are used up, and the failure is final.
pub open spec fn spec_retry_delay_ms(attempts: u64) -> Option<u64> {
    if attempts == 0 {
        Option::Some(100u64)
    } else if attempts == 1 {
        Option::Some(200u64)
    } else if attempts == 2 {
        Option::Some(400u64)
    } else if attempts == 3 {
        Option::Some(800u64)
    } else if attempts == 4 {
        Option::Some(1200u64)
    } else {
        Option::None
    }
}

/// The retry delay for a request that has failed `attempts` times: a
/// doubling ramp for the first transient failures, then give up.
pub fn request_retry_delay_ms(attempts: u64) -> (r: Option<u64>)
    ensures
        r == spec_retry_delay_ms(attempts),
{
    match attempts {
        0 => Option::Some(100),
        1 => Option::Some(200),
        2 => Option::Some(400),
        3 => Option::Some(800),
        4 => Option::Some(1200),
        _ => Option::None,
    }
}

/// The path that lists every DNS record of a zone.
pub open spec fn spec_dns_records_path(zone_id: Seq<char>) -> Seq<char> {
    "/client/v4/zones/"@ + zone_id + "/dns_records?per_page=5000000"@
}

/// The path that lists the DNS records of a zone whose content equals
/// `content`.
pub open spec fn spec_dns_records_with_content_path(
    zone_id: Seq<char>,
    content: Seq<char>,
) -> Seq<char> {
    "/client/v4/zones/"@ + zone_id + "/dns_records?per_page=5000000&content="@ + content
}

/// The path that updates one DNS record of a zone.
pub open spec fn spec_dns_record_path(zone_id: Seq<char>, record_id: Seq<char>) -> Seq<char> {
    "/client/v4/zones/"@ + zone_id + "/dns_records/"@ + record_id
}

/// Builds the list-all-records path for a zone.
pub fn dns_records_path(zone_id: &str) -> (r: String)
    ensures
        r@ == spec_dns_records_path(zone_id@),
{
    let mut s = String::from_str("/client/v4/zones/");
    s.append(zone_id);
    s.append("/dns_records?per_page=5000000");
    s
}

/// Builds the list-records-by-content path for a zone.
pub fn dns_records_with_content_path(zone_id: &str, content: &str) -> (r: String)
    ensures
        r@ == spec_dns_records_with_content_path(zone_id@, content@),
{
    let mut s = String::from_str("/client/v4/zones/");
    s.append(zone_id);
    s.append("/dns_records?per_page=5000000&content=");
    s.append(content);
    s
}

/// Builds the update path for one record of a zone.
pub fn dns_record_path(zone_id: &str, record_id: &str) -> (r: String)
    ensures
        r@ == spec_dns_record_path(zone_id@, record_id@),
{
    let mut s = String::from_str("/client/v4/zones/");
    s.append(zone_id);
    s.append("/dns_records/");
    s.append(record_id);
    s
}

} // verus!
