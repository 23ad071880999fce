use ai_pulse::config::{parse_u16, Config};

#[test]
fn test_default_config() {
    let config = Config::default();
    assert_eq!(config.port, 31415);
    assert!(config.token.is_none());
}

#[test]
fn test_set_port() {
    let mut config = Config::default();
    config.set("port", "8080").unwrap();
    assert_eq!(config.port, 8080);
}

#[test]
fn test_set_token() {
    let mut config = Config::default();
    config.set("token", "my-secret").unwrap();
    assert_eq!(config.token, Some("my-secret".to_string()));
}

#[test]
fn test_set_empty_token() {
    let mut config = Config::default();
    config.token = Some("old-token".to_string());
    config.set("token", "").unwrap();
    assert!(config.token.is_none());
}

#[test]
fn test_set_invalid_key() {
    let mut config = Config::default();
    let result = config.set("invalid", "value");
    assert!(result.is_err());
}

#[test]
fn test_set_invalid_port() {
    let mut config = Config::default();
    let result = config.set("port", "not-a-number");
    assert!(result.is_err());
}

#[test]
fn set_port_below_minimum_is_refused() {
    let mut config = Config::default();
    let result = config.set("port", "80");
    assert_eq!(result, Err("Port must be at least 1024".to_string()));
    assert_eq!(config.port, 31415);
}

#[test]
fn set_unknown_key_names_it() {
    let mut config = Config::default();
    let result = config.set("colour", "red");
    assert_eq!(
        result,
        Err("Unknown config key: colour. Valid keys are: port, token".to_string())
    );
}

#[test]
fn parse_u16_agrees_with_std() {
    for s in ["0", "8080", "+42", "65535", "65536", "", "+", "-1", "12a", " 1", "007", "99999999999"] {
        assert_eq!(parse_u16(s), s.parse::<u16>().ok(), "input {:?}", s);
    }
}
