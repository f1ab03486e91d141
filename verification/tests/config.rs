use vpn_core::config::{Config, ConfigError};

#[test]
fn embedded_values_are_trimmed() {
    let c = Config::new_from_embed("  vpn.example.org\n", " 51820\r\n").unwrap();
    assert_eq!(c.server_addr, "vpn.example.org");
    assert_eq!(c.server_port, 51820);
    let d = Config::new_from_embed("\t192.0.2.1 ", "+7").unwrap();
    assert_eq!(d.server_addr, "192.0.2.1");
    assert_eq!(d.server_port, 7);
}

#[test]
fn port_limits() {
    assert_eq!(Config::new_from_embed("h", "0").unwrap().server_port, 0);
    assert_eq!(Config::new_from_embed("h", "65535").unwrap().server_port, 65535);
    assert_eq!(Config::new_from_embed("h", "65536").err(), Some(ConfigError::MalformedPort));
    assert_eq!(Config::new_from_embed("h", "-1").err(), Some(ConfigError::MalformedPort));
}

#[test]
fn malformed_ports_are_refused() {
    assert_eq!(Config::new_from_embed("h", "").err(), Some(ConfigError::MalformedPort));
    assert_eq!(Config::new_from_embed("h", "   ").err(), Some(ConfigError::MalformedPort));
    assert_eq!(Config::new_from_embed("h", "80 80").err(), Some(ConfigError::MalformedPort));
    assert_eq!(Config::new_from_embed("h", "http").err(), Some(ConfigError::MalformedPort));
}

#[test]
fn address_is_taken_as_it_is() {
    let c = Config::new_from_embed("  ", "1").unwrap();
    assert_eq!(c.server_addr, "");
    let d = Config::new_from_embed(" a b ", "1").unwrap();
    assert_eq!(d.server_addr, "a b");
}

#[test]
fn from_parts_needs_a_port() {
    assert_eq!(Config::from_parts("h".to_string(), None).err(), Some(ConfigError::MalformedPort));
    let c = Config::from_parts("h".to_string(), Some(9)).unwrap();
    assert_eq!(c.server_addr, "h");
    assert_eq!(c.server_port, 9);
}
