use connection_test::config::{ProgramConfig, ProgramMode};

type Config = ProgramConfig<u32>;

#[test]
fn mode_words() {
    assert_eq!(Config::parse_mode("server"), Ok(ProgramMode::Server));
    assert_eq!(Config::parse_mode("client"), Ok(ProgramMode::Client));
    assert_eq!(Config::parse_mode("Server"), Err(String::from("Invalid mode!")));
    assert_eq!(Config::parse_mode(""), Err(String::from("Invalid mode!")));
}

#[test]
fn mode_names() {
    assert_eq!(ProgramMode::Server.describe(), "ServerMode");
    assert_eq!(ProgramMode::Client.describe(), "ClientMode");
}

#[test]
fn port_numbers() {
    assert_eq!(Config::parse_port("8008"), Ok(8008));
    assert_eq!(Config::parse_port("+80"), Ok(80));
    assert_eq!(Config::parse_port("0"), Ok(0));
    assert_eq!(Config::parse_port("65535"), Ok(65535));
    assert_eq!(Config::parse_port("000123"), Ok(123));
}

#[test]
fn bad_ports() {
    let err = Err(String::from("Invalid inputed port."));
    for text in ["", "+", "-1", "65536", "99999999999999999999", "12a", " 1", "1 ", "++1", "٣"] {
        assert_eq!(Config::parse_port(text), err, "{text}");
    }
}

#[test]
fn ports_match_std() {
    for text in ["0", "1", "65535", "65536", "+7", "-0", "", "+", "abc", "007", "4294967296"] {
        assert_eq!(Config::parse_port(text).ok(), text.parse::<u16>().ok(), "{text}");
    }
}

#[test]
fn port_decimal_roundtrip_law() {
    for port in [0u16, 1, 9, 10, 8008, 65535] {
        assert_eq!(Config::parse_port(&port.to_string()), Ok(port));
    }
}

#[test]
fn config_new() {
    let c = Config::new(ProgramMode::Client, 7, 8008);
    assert_eq!(c.mode, ProgramMode::Client);
    assert_eq!(c.ip, 7);
    assert_eq!(c.port, 8008);
}

#[test]
fn config_from_text_order_of_errors() {
    let bad_ip: Result<u32, String> = Err(String::from("invalid IP address syntax"));
    assert_eq!(Config::from_text("bogus", bad_ip.clone(), "x").err(), Some(String::from("Invalid mode!")));
    assert_eq!(Config::from_text("server", bad_ip.clone(), "x").err(), Some(String::from("invalid IP address syntax")));
    assert_eq!(Config::from_text("server", Ok(1), "x").err(), Some(String::from("Invalid inputed port.")));
    let c = Config::from_text("client", Ok(5), "9000").ok().unwrap();
    assert_eq!((c.mode, c.ip, c.port), (ProgramMode::Client, 5, 9000));
}

#[test]
fn config_from_text_and_port() {
    let bad_ip: Result<u32, String> = Err(String::from("nope"));
    assert_eq!(Config::from_text_and_port("x", bad_ip.clone(), 1).err(), Some(String::from("Invalid mode!")));
    assert_eq!(Config::from_text_and_port("server", bad_ip, 1).err(), Some(String::from("nope")));
    let c = Config::from_text_and_port("server", Ok(3), 8008).ok().unwrap();
    assert_eq!((c.mode, c.ip, c.port), (ProgramMode::Server, 3, 8008));
}

#[test]
fn config_from_mode_ip_port() {
    assert_eq!(Config::from_mode_ip_port("x", 1, 2).err(), Some(String::from("Invalid mode!")));
    let c = Config::from_mode_ip_port("client", 1, 2).ok().unwrap();
    assert_eq!((c.mode, c.ip, c.port), (ProgramMode::Client, 1, 2));
}
