//! Tests for banner sanitizing, text helpers, hostnames, profiles,
//! settings and paths.

use scuttle::banner::{is_http_port, sanitize_banner};
use scuttle::net::is_valid_hostname;
use scuttle::profile::{AppSettings, Paths, Profile, ProfileError, ProfileManager};
use scuttle::text::truncate_string;

#[test]
fn test_sanitize_banner() {
    let data = b"SSH-2.0-OpenSSH_8.9\r\n";
    assert_eq!(sanitize_banner(data), "SSH-2.0-OpenSSH_8.9");
}

#[test]
fn test_sanitize_binary_data() {
    let data = b"\x00\x01Hello\x02World\x03";
    assert_eq!(sanitize_banner(data), "..Hello.World.");
}

#[test]
fn test_sanitize_collapses_whitespace() {
    assert_eq!(sanitize_banner(b"HTTP/1.1  200\t\tOK\r\n\r\n"), "HTTP/1.1 200 OK");
    assert_eq!(sanitize_banner(b""), "");
    assert_eq!(sanitize_banner(b"   \r\n "), "");
}

#[test]
fn test_sanitize_bounds_length() {
    let long = vec![b'a'; 1000];
    assert_eq!(sanitize_banner(&long).len(), 256);
}

#[test]
fn test_is_http_port() {
    assert!(is_http_port(80));
    assert!(is_http_port(8080));
    assert!(!is_http_port(22));
}

#[test]
fn output_test_truncate_string() {
    assert_eq!(truncate_string("hello", 10), "hello");
    assert_eq!(truncate_string("hello world", 8), "hello...");
}

#[test]
fn plain_test_truncate_string() {
    assert_eq!(truncate_string("hello", 10), "hello");
    assert_eq!(truncate_string("hello world", 8), "hello...");
}

#[test]
fn test_valid_hostname() {
    assert!(is_valid_hostname("example.com"));
    assert!(is_valid_hostname("sub.example.com"));
    assert!(is_valid_hostname("my-server"));
    assert!(!is_valid_hostname(""));
    assert!(!is_valid_hostname("-invalid.com"));
}

#[test]
fn test_hostname_label_rules() {
    assert!(!is_valid_hostname("bad..dots"));
    assert!(!is_valid_hostname("trailing-.com"));
    assert!(!is_valid_hostname("under_score.com"));
    let long_label = "a".repeat(64);
    assert!(!is_valid_hostname(&long_label));
    assert!(is_valid_hostname(&"a".repeat(63)));
}

#[test]
fn test_profile_validation() {
    let mut profile = Profile::new("test");
    assert!(profile.validate().is_ok());

    profile.name = "".to_string();
    assert!(profile.validate().is_err());

    profile.name = "test!@#".to_string();
    assert!(profile.validate().is_err());
}

#[test]
fn test_profile_validation_details() {
    let mut profile = Profile::new("test");
    profile.ports = "99999".to_string();
    assert!(matches!(profile.validate(), Err(ProfileError::Port(_))));

    let mut profile = Profile::new("test");
    profile.scan_type = "warp".to_string();
    assert!(matches!(profile.validate(), Err(ProfileError::InvalidName(_))));
}

#[test]
fn test_builtin_profiles() {
    let builtins = Profile::builtins();
    assert!(!builtins.is_empty());

    for profile in builtins {
        assert!(profile.validate().is_ok());
    }
}

#[test]
fn test_profile_manager() {
    let mut manager = ProfileManager::new();
    assert!(manager.get("quick").is_some());
    assert!(manager.get("nope").is_none());
    assert_eq!(manager.list().len(), 5);

    let custom = Profile::new("mine");
    assert!(manager.create(custom.clone()).is_ok());
    assert!(manager.get("mine").is_some());
    assert!(matches!(
        manager.create(custom),
        Err(ProfileError::AlreadyExists(_))
    ));

    assert!(matches!(
        manager.delete("quick"),
        Err(ProfileError::InvalidName(_))
    ));
    assert!(matches!(
        manager.delete("ghost"),
        Err(ProfileError::NotFound(_))
    ));
    assert!(manager.delete("mine").is_ok());
    assert!(manager.get("mine").is_none());

    let mut replacement = Profile::new("quick");
    replacement.concurrency = 7;
    manager.insert(replacement);
    assert_eq!(manager.get("quick").unwrap().concurrency, 7);
}

#[test]
fn test_default_settings() {
    let settings = AppSettings::default();
    assert_eq!(settings.default_concurrency, 500);
    assert_eq!(settings.default_timeout_ms, 3000);
}

#[test]
fn test_paths_join() {
    let paths = Paths::new(
        "/home/u/.config/scuttle".to_string(),
        "/home/u/.local/share/scuttle".to_string(),
        "/home/u/.cache/scuttle".to_string(),
    );
    assert_eq!(paths.settings_file(), "/home/u/.config/scuttle/settings.json");
    assert_eq!(paths.profiles_dir(), "/home/u/.config/scuttle/profiles");
    assert_eq!(paths.scans_dir(), "/home/u/.local/share/scuttle/scans");
}

#[test]
fn test_profile_port_spec() {
    let profile = Profile::quick();
    let spec = profile.port_spec().unwrap();
    assert_eq!(spec.count(), 20);
}
