use os_watchdog::config::{Config, ConfigFile, ServerConfig};

fn configured() -> Config {
    Config { server: ServerConfig { port: 8080 }, nodes: vec![] }
}

#[test]
fn the_default_port() {
    assert_eq!(ServerConfig::default().port, 30308);
    let config = Config::default();
    assert_eq!(config.server.port, 30308);
    assert!(config.nodes.is_empty());
    assert_eq!(config.server.listen_address(), "0.0.0.0:30308");
}

#[test]
fn a_missing_file_stands_for_the_default() {
    assert_eq!(Config::load(ConfigFile::Missing).unwrap().server.port, 30308);
    assert_eq!(Config::load(ConfigFile::Holds(configured())).unwrap().server.port, 8080);
}

#[test]
fn a_file_that_cannot_be_used_is_an_error() {
    let e = Config::load(ConfigFile::Unreadable(String::from("denied"))).unwrap_err();
    assert_eq!(e, "denied");
    let e = Config::load(ConfigFile::Malformed(String::from("bad"))).unwrap_err();
    assert_eq!(e, "bad");
}

#[test]
fn errors_fall_back_to_the_default() {
    assert_eq!(Config::effective(None).server.port, 30308);
    assert_eq!(Config::effective(Some(ConfigFile::Missing)).server.port, 30308);
    assert_eq!(
        Config::effective(Some(ConfigFile::Malformed(String::from("bad")))).server.port,
        30308
    );
    assert_eq!(Config::effective(Some(ConfigFile::Holds(configured()))).server.port, 8080);
}
