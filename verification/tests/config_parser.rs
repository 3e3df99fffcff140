use rmr_core::config::parser::{resolve_path, resolve_path_with_home, ConfigError, MoonrakerConfig};
use std::path::PathBuf;

#[test]
fn test_config_parsing_defaults() {
    let conf_str = "";
    let config = MoonrakerConfig::load_from_str(conf_str).unwrap();
    assert_eq!(config.server.host, "127.0.0.1");
    assert_eq!(config.server.port, 7125);
    assert_eq!(PathBuf::from(&config.klippy.uds_path), PathBuf::from("/tmp/klippy_uds"));
}

#[test]
fn test_config_parsing_custom() {
    let conf_str = r#"
[server]
host = 10.0.0.5
port = 8888
max_upload_size = 500

[klippy]
uds_address = /var/run/klippy

[database]
database_path = /var/lib/moonraker/db
"#;
    let config = MoonrakerConfig::load_from_str(conf_str).unwrap();
    assert_eq!(config.server.host, "10.0.0.5");
    assert_eq!(config.server.port, 8888);
    assert_eq!(config.server.max_upload_size_mb, 500);
    assert_eq!(PathBuf::from(&config.klippy.uds_path), PathBuf::from("/var/run/klippy"));
    assert_eq!(PathBuf::from(&config.database.db_path), PathBuf::from("/var/lib/moonraker/db"));
}

#[test]
fn test_config_port_fallback() {
    let conf_str = r#"
[server]
port = 80
"#;
    let config = MoonrakerConfig::load_from_str(conf_str).unwrap();
    // 80 is below 1024, should fallback to 7125
    assert_eq!(config.server.port, 7125);

    let conf_str_high = r#"
[server]
port = 70000
"#;
    let config_high = MoonrakerConfig::load_from_str(conf_str_high).unwrap();
    assert_eq!(config_high.server.port, 7125);
}

#[test]
fn config_defaults_for_every_setting() {
    let config = MoonrakerConfig::load_from_str("").unwrap();
    assert!(!config.server.ssl_enabled);
    assert_eq!(config.server.max_upload_size_mb, 1024);
    assert_eq!(config.server.trusted_clients, vec!["127.0.0.1/32".to_string()]);
    assert_eq!(config.server.api_key, None);
    assert_eq!(config.klippy.api_timeout_secs, 30);
    // The default database path lies under the home directory where there is one.
    let expected_db = match dirs::home_dir() {
        Some(home) => home.join(".printer_data/database"),
        None => PathBuf::from("~/.printer_data/database"),
    };
    assert_eq!(PathBuf::from(&config.database.db_path), expected_db);
}

#[test]
fn config_alternative_keys_and_lists() {
    let conf_str = r#"
[server]
ssl_enabled = true
max_upload_size_mb = 64
trusted_clients = 192.168.1.0/24 , 10.0.0.0/8,  127.0.0.1/32
api_key = printer-key-1

[klippy]
uds_path = /run/klippy.sock
api_timeout = 12

[database]
db_path = /srv/db
"#;
    let config = MoonrakerConfig::load_from_str(conf_str).unwrap();
    assert!(config.server.ssl_enabled);
    assert_eq!(config.server.max_upload_size_mb, 64);
    assert_eq!(
        config.server.trusted_clients,
        vec!["192.168.1.0/24".to_string(), "10.0.0.0/8".to_string(), "127.0.0.1/32".to_string()]
    );
    assert_eq!(config.server.api_key, Some("printer-key-1".to_string()));
    assert_eq!(config.klippy.uds_path, "/run/klippy.sock");
    assert_eq!(config.klippy.api_timeout_secs, 12);
    assert_eq!(config.database.db_path, "/srv/db");
}

#[test]
fn config_first_key_wins_even_when_unparsable() {
    let conf_str = r#"
[server]
max_upload_size = lots
max_upload_size_mb = 5
port = +8081
ssl_enabled = yes

[klippy]
api_timeout_secs = 7
api_timeout = 9
"#;
    let config = MoonrakerConfig::load_from_str(conf_str).unwrap();
    // `max_upload_size` is present, so `max_upload_size_mb` is not consulted.
    assert_eq!(config.server.max_upload_size_mb, 1024);
    assert_eq!(config.server.port, 8081);
    assert!(!config.server.ssl_enabled);
    assert_eq!(config.klippy.api_timeout_secs, 7);
}

#[test]
fn config_port_bounds() {
    let low = MoonrakerConfig::load_from_str("[server]\nport = 1024\n").unwrap();
    assert_eq!(low.server.port, 1024);
    let high = MoonrakerConfig::load_from_str("[server]\nport = 65535\n").unwrap();
    assert_eq!(high.server.port, 65535);
    let above = MoonrakerConfig::load_from_str("[server]\nport = 65536\n").unwrap();
    assert_eq!(above.server.port, 7125);
    let junk = MoonrakerConfig::load_from_str("[server]\nport = 80a\n").unwrap();
    assert_eq!(junk.server.port, 7125);
    let huge = MoonrakerConfig::load_from_str("[server]\nport = 99999999999\n").unwrap();
    assert_eq!(huge.server.port, 7125);
}

#[test]
fn config_parse_error_is_reported() {
    let result = MoonrakerConfig::load_from_str("[server\nport = 8000\n");
    assert!(matches!(result, Err(ConfigError::IniParse(_))));
}

#[test]
fn resolve_path_replaces_home_prefix() {
    assert_eq!(resolve_path_with_home("~/data/db", Some("/home/pi".to_string())), "/home/pi/data/db");
    assert_eq!(resolve_path_with_home("~/data/db", None), "~/data/db");
    assert_eq!(resolve_path_with_home("/abs/path", Some("/home/pi".to_string())), "/abs/path");
    assert_eq!(resolve_path_with_home("~//etc/x", Some("/home/pi".to_string())), "/etc/x");
    assert_eq!(resolve_path_with_home("~user/x", Some("/home/pi".to_string())), "~user/x");
    assert_eq!(resolve_path("/tmp/klippy_uds"), "/tmp/klippy_uds");
}

#[test]
fn config_file_text_skips_byte_order_mark() {
    let config = MoonrakerConfig::load_from_file_text("\u{feff}[server]\nport = 8080\n").unwrap();
    assert_eq!(config.server.port, 8080);
    let plain = MoonrakerConfig::load_from_file_text("[server]\nport = 8081\n").unwrap();
    assert_eq!(plain.server.port, 8081);
}

#[test]
fn config_file_text_parse_error_is_an_ini_error() {
    let result = MoonrakerConfig::load_from_file_text("[server\nport = 1");
    assert!(matches!(result, Err(ConfigError::Ini(ini::Error::Parse(_)))));
}
