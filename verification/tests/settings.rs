use launcher_core::settings::LauncherSettings;
use launcher_core::types::{ApiError, AuthResponse, GameVersion, LaunchResult, LoginCredentials};

#[test]
fn default_settings() {
    let settings = LauncherSettings::default();
    assert_eq!(settings.server_url, "http://localhost:8000");
    assert_eq!(settings.install_path, "");
    assert!(settings.auto_update);
    assert!(!settings.remember_me);
    assert_eq!(settings.language, "en");
}

#[test]
fn values_keep_their_fields() {
    let version = GameVersion {
        version: "1.2.0".to_string(),
        release_date: "2024-01-01".to_string(),
        download_url: "http://localhost:8000/api/game/download?version=1.2.0".to_string(),
        file_size: 10_000,
        checksum: "00".repeat(32),
    };
    let copy = version.clone();
    assert_eq!(copy.version, "1.2.0");
    assert_eq!(copy.file_size, 10_000);
    assert_eq!(copy.checksum.len(), 64);

    let credentials = LoginCredentials { username: "ann".to_string(), password: "pw".to_string() };
    assert_eq!(credentials.clone().username, "ann");

    let response = AuthResponse {
        message: "ok".to_string(),
        player_id: "7".to_string(),
        username: "ann".to_string(),
        token: "t".to_string(),
        selected_skin_name: None,
    };
    assert_eq!(response.clone().token, "t");
    assert_eq!(response.selected_skin_name, None);

    let launched = LaunchResult { success: true, message: "Game launched successfully".to_string() };
    assert!(launched.success);
    let error = ApiError { message: "no".to_string() };
    assert_eq!(error.message, "no");
}
