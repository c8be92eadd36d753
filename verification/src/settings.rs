//! The launcher's settings.

use vstd::prelude::*;

verus! {

/// What the user can configure.
#[derive(Debug, Clone)]
pub struct LauncherSettings {
    pub server_url: String,
    pub install_path: String,
    pub auto_update: bool,
    pub remember_me: bool,
    pub language: String,
}

impl Default for LauncherSettings {
    /// The settings of a first start: the local server, no install path
    /// yet, updates on, no remembered login, English.
    fn default() -> (settings: Self)
        ensures
            settings.server_url@ == "http://localhost:8000"@,
            settings.install_path@ == Seq::<char>::empty(),
            settings.auto_update,
            !settings.remember_me,
            settings.language@ == "en"@,
    {
        LauncherSettings {
            server_url: String::from_str("http://localhost:8000"),
            install_path: String::new(),
            auto_update: true,
            remember_me: false,
            language: String::from_str("en"),
        }
    }
}

} // verus!
