use chat_cafe::config::{
    default_address, default_channel_capacity, default_max_frame_length, default_ping_interval,
    default_port, default_timeout, IpAddress, ServerConfig,
};
use chat_cafe::tui::settings::{config_dir, config_file_path, resolve_target, ServerTarget, StartupError, DEFAULT_SERVER_PORT};

fn s(v: &str) -> Option<String> {
    Some(v.to_string())
}

#[test]
fn server_defaults() {
    let c = ServerConfig::default();
    assert_eq!(c.ping_interval_secs, 10);
    assert_eq!(c.timeout_secs, 30);
    assert_eq!(c.channel_capacity, 32);
    assert_eq!(c.max_frame_length, 1024 * 1024);
    assert_eq!(c.port, 6969);
    assert_eq!(c.address, IpAddress::V4(0, 0, 0, 0));
    assert_eq!(default_ping_interval(), 10);
    assert_eq!(default_timeout(), 30);
    assert_eq!(default_channel_capacity(), 32);
    assert_eq!(default_max_frame_length(), 1048576);
    assert_eq!(default_port(), 6969);
    assert_eq!(default_address(), IpAddress::V4(0, 0, 0, 0));
}

#[test]
fn config_dir_prefers_xdg_then_home() {
    assert_eq!(config_dir(s("/x"), s("/y"), s("/h")), Ok("/x".to_string()));
    assert_eq!(config_dir(s(""), s("/y"), s("/h")), Ok("/y".to_string()));
    assert_eq!(config_dir(None, s(""), s("/h")), Ok("/h/.config".to_string()));
    assert_eq!(config_dir(None, None, s("")), Err(StartupError::NoConfigDir));
    assert_eq!(config_dir(None, None, None), Err(StartupError::NoConfigDir));
}

#[test]
fn arguments_override_and_are_saved() {
    let saved = ServerTarget { address: "old.example".to_string(), port: 7000 };
    let (t, save) = resolve_target(s("new.example"), None, Some(saved.clone())).unwrap();
    assert!(save);
    assert_eq!((t.address.as_str(), t.port), ("new.example", 7000));
    let (t, _) = resolve_target(None, Some(8000), Some(saved.clone())).unwrap();
    assert_eq!((t.address.as_str(), t.port), ("old.example", 8000));
    let (t, _) = resolve_target(s("h"), None, None).unwrap();
    assert_eq!(t.port, DEFAULT_SERVER_PORT);
    assert_eq!(resolve_target(None, Some(1), None).unwrap_err(), StartupError::NoAddress);
    let (t, save) = resolve_target(None, None, Some(saved)).unwrap();
    assert!(!save);
    assert_eq!((t.address.as_str(), t.port), ("old.example", 7000));
    assert_eq!(resolve_target(None, None, None).unwrap_err(), StartupError::NoConfig);
}

#[test]
fn config_file_is_chat_cafe_yml_in_the_directory() {
    assert_eq!(config_file_path(s("/etc/x"), None, s("/home/a")), Ok("/etc/x/chat-cafe.yml".to_string()));
    assert_eq!(config_file_path(s("/etc/x/"), None, None), Ok("/etc/x/chat-cafe.yml".to_string()));
    assert_eq!(config_file_path(None, s(""), s("/home/a")), Ok("/home/a/.config/chat-cafe.yml".to_string()));
    assert_eq!(config_file_path(None, None, None), Err(StartupError::NoConfigDir));
}
