use std::time::Duration;
use thumbnailer::config::{Config, Package, Version};
use thumbnailer::decimal::{parse_bounded, parse_u32, parse_u64};
use thumbnailer::options::{querify, StringHashMap, ThumbOptions, DEFAULT_WIDTH};
use thumbnailer::service::{metrics_status, ready_status, thumbnail_status};

fn entry(map: &StringHashMap<String>, key: &str) -> Option<String> {
    map.get(key).cloned()
}

#[test]
fn querify_keeps_url_and_width() {
    let map = querify("url=http://example.com/a.png&width=320");
    assert_eq!(map.len(), 2);
    assert_eq!(entry(&map, "url"), Some("http://example.com/a.png".to_string()));
    assert_eq!(entry(&map, "width"), Some("320".to_string()));
}

#[test]
fn querify_drops_other_keys_and_pieces_without_a_value() {
    let map = querify("height=3&url&=5&widths=7&Url=x&&width");
    assert_eq!(map.len(), 0);
    assert!(querify("").is_empty());
    assert!(querify("&").is_empty());
    assert!(querify("url").is_empty());
}

#[test]
fn querify_splits_at_the_first_equals_sign() {
    let map = querify("url=http://example.com/?a=b=c&width=");
    assert_eq!(entry(&map, "url"), Some("http://example.com/?a=b=c".to_string()));
    assert_eq!(entry(&map, "width"), Some(String::new()));
}

#[test]
fn querify_lets_the_last_piece_win() {
    let map = querify("width=1&url=a&width=22&url=b&other=3");
    assert_eq!(map.len(), 2);
    assert_eq!(entry(&map, "url"), Some("b".to_string()));
    assert_eq!(entry(&map, "width"), Some("22".to_string()));
}

#[test]
fn querify_counts_characters_not_bytes() {
    let map = querify("ürl=1&url=grüße/日本.png&width=9");
    assert_eq!(map.len(), 2);
    assert_eq!(entry(&map, "url"), Some("grüße/日本.png".to_string()));
    assert_eq!(entry(&map, "width"), Some("9".to_string()));
}

#[test]
fn options_from_a_map() {
    let mut map = StringHashMap::new();
    map.insert("url".to_string(), "http://example.com/cat.jpg".to_string());
    map.insert("width".to_string(), "64".to_string());
    let options = ThumbOptions::new(map);
    assert_eq!(options.url(), "http://example.com/cat.jpg");
    assert_eq!(options.width(), 64);
}

#[test]
fn options_default_to_an_empty_url_and_width_180() {
    let options = ThumbOptions::new(StringHashMap::new());
    assert_eq!(options.url(), "");
    assert_eq!(options.width(), 180);
    assert_eq!(DEFAULT_WIDTH, 180);
    let options = ThumbOptions::from_query("colour=red").unwrap();
    assert_eq!(options.url(), "");
    assert_eq!(options.width(), 180);
}

#[test]
fn options_from_a_query() {
    let options = ThumbOptions::from_query("url=http://example.com/x.gif&width=+25").unwrap();
    assert_eq!(options.url(), "http://example.com/x.gif");
    assert_eq!(options.width(), 25);
    let options = ThumbOptions::from_query("width=0&url=u").unwrap();
    assert_eq!(options.width(), 0);
}

#[test]
fn options_reject_a_width_that_is_no_number() {
    assert!(ThumbOptions::from_query("url=a&width=wide").is_none());
    assert!(ThumbOptions::from_query("width=").is_none());
    assert!(ThumbOptions::from_query("width=-1").is_none());
    assert!(ThumbOptions::from_query("width=4294967296").is_none());
    assert!(ThumbOptions::from_query("width=12&width=1x").is_none());
    assert!(ThumbOptions::from_query("width=1x&width=12").is_some());
}

#[test]
fn decimal_parsing_agrees_with_std() {
    let cases = [
        "", "+", "-", "0", "+0", "-0", "007", "42", "+42", "4294967295", "4294967296",
        "18446744073709551615", "18446744073709551616", "99999999999999999999999", " 1", "1 ",
        "1_000", "12a", "a12", "++1", "+-1", "١٢", "1.5", "0x10",
    ];
    for text in cases {
        assert_eq!(parse_u32(text), text.parse::<u32>().ok(), "u32 {:?}", text);
        assert_eq!(parse_u64(text), text.parse::<u64>().ok(), "u64 {:?}", text);
    }
    assert_eq!(parse_u32("4294967295"), Some(u32::MAX));
    assert_eq!(parse_u64("18446744073709551615"), Some(u64::MAX));
}

#[test]
fn decimal_parsing_with_a_small_bound() {
    assert_eq!(parse_bounded("7", 7), Some(7));
    assert_eq!(parse_bounded("8", 7), None);
    assert_eq!(parse_bounded("10", 9), None);
    assert_eq!(parse_bounded("0", 0), Some(0));
    assert_eq!(parse_bounded("000", 0), Some(0));
    assert_eq!(parse_bounded("1", 0), None);
    assert_eq!(parse_bounded("255", 255), Some(255));
    assert_eq!(parse_bounded("256", 255), None);
}

fn manifest() -> Package {
    Package { package: Version { name: "thumbnailer".to_string(), version: "0.3.1".to_string() } }
}

#[test]
fn config_defaults() {
    let config = Config::new(manifest(), None, None);
    assert_eq!(config.version.name, "thumbnailer");
    assert_eq!(config.version.version, "0.3.1");
    assert_eq!(config.execution.timeout, 1);
    assert_eq!(config.execution.timeout_duration, Duration::from_secs(1));
}

#[test]
fn config_takes_the_timeout_and_the_tag() {
    let config = Config::new(manifest(), Some(30), Some("v9".to_string()));
    assert_eq!(config.version.name, "thumbnailer");
    assert_eq!(config.version.version, "v9");
    assert_eq!(config.execution.timeout, 30);
    assert_eq!(config.execution.timeout_duration, Duration::from_secs(30));
    let copy = config.clone();
    assert_eq!(copy.execution.timeout_duration, Duration::from_secs(30));
    assert_eq!(copy.version.version, "v9");
}

#[test]
fn statuses() {
    assert_eq!(ready_status(true), 200);
    assert_eq!(ready_status(false), 503);
    assert_eq!(thumbnail_status(true), 200);
    assert_eq!(thumbnail_status(false), 500);
    assert_eq!(metrics_status("GET", "/metrics"), 200);
    assert_eq!(metrics_status("POST", "/metrics"), 404);
    assert_eq!(metrics_status("GET", "/metrics/"), 404);
    assert_eq!(metrics_status("GET", "/"), 404);
    assert_eq!(metrics_status("get", "/metrics"), 404);
}
