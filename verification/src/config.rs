//! The immutable configuration of the gateway. It is established once at
//! startup and passed by reference; updating it requires a restart.

use vstd::prelude::*;

verus! {

/// Changing this constant invalidates all phone numbers.
pub const PHONE_MAX_BYTES: usize = 16;

/// Upper bound on instants the model handles, in milliseconds.
pub const MAX_NOW_MS: i64 = 100_000_000_000_000;

/// Upper bound on configured TTLs, in seconds.
pub const MAX_TTL_S: i64 = 10_000_000_000;

/// Whether an instant in milliseconds is one the model handles.
pub open spec fn valid_now(now: int) -> bool {
    0 <= now <= MAX_NOW_MS
}

/// The core options; store addresses and the listen address belong to the
/// process around the library.
pub struct Config {
    /// Seconds before an access token expires.
    pub access_ttl: i64,
    /// Seconds before a refresh token expires.
    pub refresh_ttl: i64,
    /// Seconds before a user account expires.
    pub user_ttl: i64,
    /// Minimum balance, typically negative.
    pub credit_limit: i64,
    /// Cost per millisecond.
    pub time_cost: i64,
    /// Cost per KB per day in the document store.
    pub space_cost_doc: i64,
    /// Cost per KB per day in the object store.
    pub space_cost_obj: i64,
    /// Cost per byte outbound.
    pub traffic_cost: i64,
    /// Check-in award.
    pub check_in_award: i64,
    /// Seconds before a check-in refresh.
    pub check_in_refresh: i64,
    /// Seconds the credit log is retained.
    pub credit_retention: i64,
    /// SMS receivers for authentication.
    pub auth_phones: Vec<String>,
    /// Skip the out-of-band SMS check.
    pub skip_auth: bool,
    /// Whether the background reaper is off.
    pub ripperd_disabled: bool,
    /// Seconds between reaper passes.
    pub ripperd_interval: i64,
}

impl Config {
    /// What every handler assumes of the configuration.
    pub open spec fn wf(&self) -> bool {
        &&& 0 <= self.access_ttl <= MAX_TTL_S
        &&& 0 <= self.refresh_ttl <= MAX_TTL_S
        &&& 0 <= self.user_ttl <= MAX_TTL_S
        &&& 0 <= self.check_in_refresh <= MAX_TTL_S
        &&& 0 <= self.credit_retention <= MAX_TTL_S
        &&& 1 <= self.time_cost
        &&& 0 <= self.space_cost_doc
        &&& 0 <= self.space_cost_obj
        &&& 1 <= self.traffic_cost
        &&& 0 <= self.check_in_award
        &&& 0 <= self.ripperd_interval
        &&& self.auth_phones@.len() > 0
    }

    /// The default options, as a fresh deployment runs them.
    pub fn new() -> (r: Config)
        ensures
            r.wf(),
    {
        let mut phones: Vec<String> = Vec::new();
        phones.push("12345".to_owned());
        phones.push("67890".to_owned());
        Config {
            access_ttl: 60 * 60,
            refresh_ttl: 60 * 60 * 24 * 30,
            user_ttl: 60 * 60 * 24 * 365 * 5,
            credit_limit: -10_000_000_000,
            time_cost: 1_000,
            space_cost_doc: 100,
            space_cost_obj: 10,
            traffic_cost: 1,
            check_in_award: 10_000_000,
            check_in_refresh: 60 * 60 * 24,
            credit_retention: 60 * 60 * 24 * 365,
            auth_phones: phones,
            skip_auth: false,
            ripperd_disabled: false,
            ripperd_interval: 60,
        }
    }
}

} // verus!
