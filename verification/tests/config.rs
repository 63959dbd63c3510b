use shortener::config::{build_configuration, parse_u16, ConfigError, DEFAULT_PORT};

const DB: &str = "postgres://localhost/shortener";

fn bytes(s: &str) -> Vec<u8> {
    s.as_bytes().to_vec()
}

#[test]
fn parse_u16_accepts_decimal_numbers() {
    assert_eq!(parse_u16(&bytes("0")), Some(0));
    assert_eq!(parse_u16(&bytes("8080")), Some(8080));
    assert_eq!(parse_u16(&bytes("65535")), Some(65535));
    assert_eq!(parse_u16(&bytes("+123")), Some(123));
    assert_eq!(parse_u16(&bytes("007")), Some(7));
}

#[test]
fn parse_u16_rejects_everything_else() {
    assert_eq!(parse_u16(&bytes("")), None);
    assert_eq!(parse_u16(&bytes("+")), None);
    assert_eq!(parse_u16(&bytes("65536")), None);
    assert_eq!(parse_u16(&bytes("99999999999999999999")), None);
    assert_eq!(parse_u16(&bytes("-1")), None);
    assert_eq!(parse_u16(&bytes("12x")), None);
    assert_eq!(parse_u16(&bytes(" 80")), None);
    assert_eq!(parse_u16(&bytes("8.0")), None);
}

#[test]
fn configuration_requires_database_url() {
    assert_eq!(
        build_configuration(None, None),
        Err(ConfigError::MissingDatabaseUrl)
    );
    assert_eq!(
        build_configuration(None, Some(bytes("8080"))),
        Err(ConfigError::MissingDatabaseUrl)
    );
}

#[test]
fn configuration_port_defaults_when_absent() {
    let c = build_configuration(Some(DB.to_string()), None).unwrap();
    assert_eq!(c.database_url, DB);
    assert_eq!(c.port, DEFAULT_PORT);
    assert_eq!(c.port, 3000);
}

#[test]
fn configuration_takes_supplied_port() {
    let c = build_configuration(Some(DB.to_string()), Some(bytes("8080"))).unwrap();
    assert_eq!(c.port, 8080);
}

#[test]
fn configuration_rejects_bad_port() {
    for bad in ["abc", "70000", "", "80 ", "0x50"] {
        assert_eq!(
            build_configuration(Some(DB.to_string()), Some(bytes(bad))),
            Err(ConfigError::InvalidPort)
        );
    }
}
