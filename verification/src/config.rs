//! Application configuration consumed by the capture services and the
//! executor.

use vstd::prelude::*;
use core::time::Duration;

verus! {

/// Relied on for turning configured second counts into `Duration` values;
/// `Duration` itself is opaque here, so nothing further is claimed of the
/// result.
pub assume_specification [ Duration::from_secs ](secs: u64) -> Duration;

/// Settings for one batch of captures.
#[derive(Debug)]
pub struct AppConfig {
    /// How long to wait for a page, in seconds.
    pub timeout_seconds: u64,
    /// Whether the browser runs without a window.
    pub headless: bool,
    /// The browser window's width and height.
    pub window_size: (u32, u32),
    /// Where screenshots are stored.
    pub screenshots_dir: String,
    /// The user agent the browser presents.
    pub user_agent: String,
    /// The pause between two captures, in seconds.
    pub delay_between_screenshots: u64,
}

impl Clone for AppConfig {
    /// An exact copy: every field is kept as it is.
    fn clone(&self) -> (r: AppConfig)
        ensures
            r == *self,
    {
        AppConfig {
            timeout_seconds: self.timeout_seconds,
            headless: self.headless,
            window_size: self.window_size,
            screenshots_dir: self.screenshots_dir.clone(),
            user_agent: self.user_agent.clone(),
            delay_between_screenshots: self.delay_between_screenshots,
        }
    }
}

impl Default for AppConfig {
    /// The stock settings: a five-second timeout, a headless browser at
    /// phone-screen proportions, a one-second pause between captures, and
    /// a plain `screen_shots` directory. Callers that know the user's
    /// desktop location put their own directory in its place.
    fn default() -> (r: AppConfig)
        ensures
            r.timeout_seconds == 5,
            r.headless == true,
            r.window_size == (414u32, 896u32),
            r.screenshots_dir@ == "screen_shots"@,
            r.user_agent@
                == "User-Agent,Mozilla/5.0 (iPhone; U; CPU iPhone OS 4_3_3 like Mac OS X; en-us) AppleWebKit/533.17.9 (KHTML, like Gecko) Version/5.0.2 Mobile/8J2 Safari/6533.18.5"@,
            r.delay_between_screenshots == 1,
    {
        AppConfig {
            timeout_seconds: 5,
            headless: true,
            window_size: (414, 896),
            screenshots_dir: "screen_shots".to_owned(),
            user_agent:
                "User-Agent,Mozilla/5.0 (iPhone; U; CPU iPhone OS 4_3_3 like Mac OS X; en-us) AppleWebKit/533.17.9 (KHTML, like Gecko) Version/5.0.2 Mobile/8J2 Safari/6533.18.5".to_owned(),
            delay_between_screenshots: 1,
        }
    }
}

impl AppConfig {
    /// How long to wait for a page, as a `Duration`.
    pub fn get_timeout_duration(&self) -> Duration {
        Duration::from_secs(self.timeout_seconds)
    }

    /// The pause between two captures, as a `Duration`.
    pub fn get_delay_duration(&self) -> Duration {
        Duration::from_secs(self.delay_between_screenshots)
    }
}

} // verus!
