use hermes::text::{parse_u16, push_decimal, push_padded2};
use hermes::utils::{sanitize_name, BotConfig};

#[test]
fn parse_u16_values() {
    assert_eq!(parse_u16("0"), Some(0));
    assert_eq!(parse_u16("05"), Some(5));
    assert_eq!(parse_u16("+12"), Some(12));
    assert_eq!(parse_u16("65535"), Some(65535));
    assert_eq!(parse_u16("65536"), None);
    assert_eq!(parse_u16(""), None);
    assert_eq!(parse_u16("+"), None);
    assert_eq!(parse_u16("1a"), None);
    assert_eq!(parse_u16("-1"), None);
}

#[test]
fn padded_and_plain_decimal() {
    let mut s = String::from("g");
    push_padded2(&mut s, 7);
    assert_eq!(s, "g07");
    let mut s = String::new();
    push_padded2(&mut s, 42);
    assert_eq!(s, "42");
    let mut s = String::new();
    push_decimal(&mut s, 65535);
    assert_eq!(s, "65535");
}

#[test]
fn sanitize_name_replaces_spaces_and_slashes() {
    assert_eq!(sanitize_name(&"Parallel Programming 24/25".to_string()), "Parallel_Programming_24-25");
    assert_eq!(sanitize_name(&"".to_string()), "");
}

#[test]
fn default_config_values() {
    let c = BotConfig::default();
    assert_eq!(c.team_capacity, 2);
    assert_eq!(c.team_prefix, "g");
    assert_eq!(c.leader_count, 5);
    assert_eq!(c.column_separator, " | ");
}
