//! User settings and the location they are stored at.

use vstd::prelude::*;
use crate::profile::BlocklistProfile;

verus! {

/// The settings a user can change.
#[derive(Clone, Copy, Debug, PartialEq, Eq, Structural)]
pub struct AppSettings {
    pub blocklist_profile: BlocklistProfile,
}

impl Default for AppSettings {
    fn default() -> (r: Self)
        ensures
            r.blocklist_profile == BlocklistProfile::Normal,
    {
        AppSettings { blocklist_profile: BlocklistProfile::Normal }
    }
}

/// Where the settings are kept.
pub struct AppSettingsStore {
    path: String,
}

impl AppSettingsStore {
    /// A store for the settings file at `path`.
    pub fn new(path: String) -> (r: Self)
        ensures
            r.path_view() == path@,
    {
        AppSettingsStore { path }
    }

    pub closed spec fn path_view(&self) -> Seq<char> {
        self.path@
    }

    /// The settings file's path.
    pub fn path(&self) -> (r: &str)
        ensures
            r@ == self.path_view(),
    {
        self.path.as_str()
    }
}

} // verus!
