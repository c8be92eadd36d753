//! The values that cross the library's boundary.

use vstd::prelude::*;

verus! {

/// What the authentication service answers to a login.
#[derive(Debug, Clone)]
pub struct AuthResponse {
    pub message: String,
    pub player_id: String,
    pub username: String,
    pub token: String,
    pub selected_skin_name: Option<String>,
}

/// A user name with its password.
#[derive(Debug, Clone)]
pub struct LoginCredentials {
    pub username: String,
    pub password: String,
}

/// A released version of the game, as the version endpoint describes it.
#[derive(Debug, Clone)]
pub struct GameVersion {
    pub version: String,
    pub release_date: String,
    pub download_url: String,
    pub file_size: u64,
    pub checksum: String,
}

/// An error message of the remote service.
#[derive(Debug)]
pub struct ApiError {
    pub message: String,
}

/// The outcome of starting the game.
#[derive(Debug)]
pub struct LaunchResult {
    pub success: bool,
    pub message: String,
}

/// One progress sample of a transfer.
///
/// `total_bytes` is 0 while the size of the resource is unknown.
#[derive(Debug, Clone, Copy, PartialEq, Eq, Structural)]
pub struct DownloadProgress {
    /// Bytes on disk so far, those of earlier attempts included.
    pub downloaded_bytes: u64,
    /// The expected size of the whole file, or 0.
    pub total_bytes: u64,
    /// The transfer rate measured over the last full window.
    pub bytes_per_second: u64,
}

impl DownloadProgress {
    /// The completed fraction in hundredths of a percent, rounded down;
    /// `None` while the total is unknown.
    pub fn percent_hundredths(self) -> (fraction: Option<u128>)
        ensures
            match fraction {
                Some(value) => self.total_bytes > 0 && value == (self.downloaded_bytes * 10000)
                    / (self.total_bytes as int),
                None => self.total_bytes == 0,
            },
    {
        if self.total_bytes == 0 {
            None
        } else {
            let scaled: u128 = self.downloaded_bytes as u128 * 10000;
            Some(scaled / self.total_bytes as u128)
        }
    }
}

} // verus!
