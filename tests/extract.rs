use wg_ddns::text::{endpoint_of_status, get_domain_from_wg_conf, ConfigError};

#[test]
fn endpoint_from_status_example() {
    let status = "...endpoint 203.0.113.5:51820...";
    assert_eq!(endpoint_of_status(status), Some("203.0.113.5".to_string()));
}

#[test]
fn endpoint_from_wg_show_output() {
    let status = "interface: wg0\n  public key: abc=\n\npeer: xyz=\n  endpoint: 198.51.100.7:51820\n  allowed ips: 10.0.0.0/24\n";
    assert_eq!(endpoint_of_status(status), Some("198.51.100.7".to_string()));
}

#[test]
fn endpoint_trailing_space_is_trimmed() {
    assert_eq!(endpoint_of_status("endpoint 10.1.2.3 \t:51820"), Some("10.1.2.3".to_string()));
}

#[test]
fn endpoint_missing_tag() {
    assert_eq!(endpoint_of_status("peer: 203.0.113.5:51820"), None);
}

#[test]
fn endpoint_tag_is_case_sensitive() {
    assert_eq!(endpoint_of_status("Endpoint 203.0.113.5:51820"), None);
}

#[test]
fn endpoint_missing_digit() {
    assert_eq!(endpoint_of_status("endpoint: (none):"), None);
}

#[test]
fn endpoint_missing_colon() {
    assert_eq!(endpoint_of_status("endpoint 203.0.113.5 port 51820"), None);
}

#[test]
fn endpoint_empty_status() {
    assert_eq!(endpoint_of_status(""), None);
}

#[test]
fn endpoint_uses_first_tag() {
    let status = "endpoint: 192.0.2.1:1\nendpoint: 192.0.2.2:2\n";
    assert_eq!(endpoint_of_status(status), Some("192.0.2.1".to_string()));
}

#[test]
fn domain_from_config_example() {
    let conf = "Endpoint = vpn.example.com:51820";
    assert_eq!(get_domain_from_wg_conf(conf), Ok("vpn.example.com".to_string()));
}

#[test]
fn domain_from_full_config() {
    let conf = "[Interface]\nPrivateKey = SECRET-REDACTED\nAddress = 10.0.0.2/24\n\n[Peer]\nPublicKey = abc\nEndpoint=  home.example.org :51820\nAllowedIPs = 0.0.0.0/0\n";
    assert_eq!(get_domain_from_wg_conf(conf), Ok("home.example.org".to_string()));
}

#[test]
fn domain_missing_endpoint_key() {
    let conf = "[Peer]\nPublicKey = abc\nAllowedIPs = 0.0.0.0/0\n";
    assert_eq!(get_domain_from_wg_conf(conf), Err(ConfigError::MissingEndpoint));
}

#[test]
fn domain_key_is_case_sensitive() {
    assert_eq!(get_domain_from_wg_conf("endpoint = vpn.example.com:51820"), Err(ConfigError::MissingEndpoint));
}

#[test]
fn domain_missing_equals() {
    assert_eq!(get_domain_from_wg_conf("Endpoint vpn.example.com:51820"), Err(ConfigError::MissingEndpoint));
}

#[test]
fn domain_missing_port_colon() {
    assert_eq!(get_domain_from_wg_conf("Endpoint = vpn.example.com\n"), Err(ConfigError::MissingEndpoint));
}

#[test]
fn domain_empty_is_refused() {
    assert_eq!(get_domain_from_wg_conf("Endpoint =   :51820"), Err(ConfigError::EmptyDomain));
}

#[test]
fn domain_empty_config() {
    assert_eq!(get_domain_from_wg_conf(""), Err(ConfigError::MissingEndpoint));
}

#[test]
fn endpoint_starts_at_any_numeric_character() {
    assert_eq!(endpoint_of_status("endpoint: \u{b2}10.0.0.1:51820"), Some("\u{b2}10.0.0.1".to_string()));
}
