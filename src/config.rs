//! Preferences kept between sessions.
use vstd::prelude::*;

verus! {

/// What the triage tool remembers about its user.
#[derive(Debug, Clone, Copy, PartialEq, Eq, Structural)]
pub struct UserConfig {
    /// Whether the welcome screen has been shown once.
    pub welcome_shown: bool,
}

impl UserConfig {
    /// Preferences of a user seen for the first time.
    pub fn fresh() -> (r: UserConfig)
        ensures
            !r.welcome_shown,
    {
        UserConfig { welcome_shown: false }
    }
}

impl Default for UserConfig {
    fn default() -> (r: UserConfig)
        ensures
            !r.welcome_shown,
    {
        UserConfig::fresh()
    }
}

} // verus!
