//! The capture services' verifiable surface: their configuration handles
//! and the file names they store artifacts under. The browser work itself —
//! launching, navigating, rendering, encoding — is the opaque capture
//! collaborator and lives with the surrounding application.

use vstd::prelude::*;
use vstd::string::StrSliceExecFns;
use vstd::string::StringExecFns;

use crate::config::AppConfig;
use crate::target::Target;
use crate::text::clean_spec;
use crate::text::dec_spec;
use crate::text::decimal_string;

verus! {

/// The artifact file name for a target's text and a timestamp: the cleaned
/// text, an underscore, the timestamp in decimal, and the `.png` ending.
pub open spec fn filename_spec(text: Seq<char>, timestamp: nat) -> Seq<char> {
    clean_spec(text) + "_"@ + dec_spec(timestamp) + ".png"@
}

/// Relies on `std::time::SystemTime::now` for the current time, read as
/// whole seconds since the Unix epoch; a clock before the epoch reads as
/// zero. The value depends on the clock, so nothing is claimed of it.
#[verifier::external_body]
fn unix_time_secs() -> u64 {
    std::time::SystemTime::now().duration_since(std::time::UNIX_EPOCH).map(
        |elapsed| elapsed.as_secs(),
    ).unwrap_or(0)
}

/// The artifact file name for `target` at time `timestamp`.
pub fn filename_for(target: &Target, timestamp: u64) -> (r: String)
    ensures
        r@ == filename_spec(target.original_text@, timestamp as nat),
{
    let mut name = target.get_clean_filename();
    name.append("_");
    let stamp = decimal_string(timestamp);
    name.append(stamp.as_str());
    name.append(".png");
    name
}

/// The artifact file name for `target`, stamped with the time of the call.
pub fn generate_filename(target: &Target) -> (r: String)
    ensures
        exists|timestamp: u64| r@ == filename_spec(target.original_text@, timestamp as nat),
{
    let timestamp = unix_time_secs();
    filename_for(target, timestamp)
}

/// The capture service driven one blocking call at a time.
pub struct ScreenshotService {
    config: AppConfig,
}

impl ScreenshotService {
    /// The settings the service was built with.
    pub closed spec fn spec_config(&self) -> AppConfig {
        self.config
    }

    /// A service over the given settings.
    pub fn new(config: AppConfig) -> (r: ScreenshotService)
        ensures
            r.spec_config() == config,
    {
        ScreenshotService { config }
    }

    /// The settings the service was built with.
    pub fn config(&self) -> (r: &AppConfig)
        ensures
            *r == self.spec_config(),
    {
        &self.config
    }

    /// The artifact file name for `target`, stamped with the time of the
    /// call.
    pub fn generate_filename(&self, target: &Target) -> (r: String)
        ensures
            exists|timestamp: u64| r@ == filename_spec(target.original_text@, timestamp as nat),
    {
        generate_filename(target)
    }
}

/// The capture service driven from concurrently scheduled tasks.
pub struct AsyncScreenshotService {
    config: AppConfig,
}

impl AsyncScreenshotService {
    /// The settings the service was built with.
    pub closed spec fn spec_config(&self) -> AppConfig {
        self.config
    }

    /// A service over the given settings.
    pub fn new(config: AppConfig) -> (r: AsyncScreenshotService)
        ensures
            r.spec_config() == config,
    {
        AsyncScreenshotService { config }
    }

    /// The settings the service was built with.
    pub fn config(&self) -> (r: &AppConfig)
        ensures
            *r == self.spec_config(),
    {
        &self.config
    }

    /// The artifact file name for `target`, stamped with the time of the
    /// call.
    pub fn generate_filename(target: &Target) -> (r: String)
        ensures
            exists|timestamp: u64| r@ == filename_spec(target.original_text@, timestamp as nat),
    {
        generate_filename(target)
    }
}

} // verus!
