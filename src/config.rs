use vstd::prelude::*;

verus! {

/// Retries allowed when discovering the public address.
pub const DISCOVERY_RETRIES: usize = 5;

/// Retries allowed when submitting a payload.
pub const SUBMIT_RETRIES: usize = 3;

/// The poll interval, in minutes, when none is configured.
pub const DEFAULT_POLL_MINUTES: u64 = 5;

/// The address of the discovery endpoint on `host`.
pub fn ip_url(host: &str) -> (r: String)
    ensures
        r@ == "https://"@ + host@ + "/ip.txt"@,
{
    let mut r = String::from_str("https://");
    r.append(host);
    r.append("/ip.txt");
    r
}

/// The address of the update endpoint for target `hash` on `host`.
pub fn endpoint_url(host: &str, hash: &str) -> (r: String)
    ensures
        r@ == "https://"@ + host@ + "/data/"@ + hash@ + "/"@,
{
    let mut r = String::from_str("https://");
    r.append(host);
    r.append("/data/");
    r.append(hash);
    r.append("/");
    r
}

/// The poll interval in seconds for a setting of `minutes`: at least one
/// minute, and held at `u64::MAX` seconds where the product would not fit.
pub fn poll_seconds(minutes: u64) -> (r: u64)
    ensures
        minutes == 0 ==> r == 60,
        minutes > 0 && minutes * 60 <= u64::MAX ==> r == minutes * 60,
        minutes * 60 > u64::MAX ==> r == u64::MAX,
{
    if minutes == 0 {
        60
    } else if minutes <= u64::MAX / 60 {
        minutes * 60
    } else {
        u64::MAX
    }
}

} // verus!
