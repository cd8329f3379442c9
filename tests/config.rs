use dostr::config::{Config, ConfigError, ConfigValues};
use dostr::text::{split_char, split_once, split_words};

fn values() -> ConfigValues {
    ConfigValues {
        name: "bot".to_string(),
        about: "about".to_string(),
        picture_url: "https://pic".to_string(),
        hello_message: "hi".to_string(),
        secret: "s".to_string(),
        botpub: "p".to_string(),
        apik: "k".to_string(),
        web_port: "8080".to_string(),
        nitter_instance: "nitter.example".to_string(),
        domain: "example.com".to_string(),
        refresh_interval_secs: "+60".to_string(),
        relays: "wss://a,wss://b".to_string(),
        max_follows: "100".to_string(),
    }
}

#[test]
fn valid_settings() {
    let c = Config::from_values(values()).ok().unwrap();
    assert_eq!(c.web_port, 8080);
    assert_eq!(c.refresh_interval_secs, 60);
    assert_eq!(c.max_follows, 100);
    assert_eq!(c.relays, vec!["wss://a".to_string(), "wss://b".to_string()]);
    assert_eq!(c.name, "bot");
}

#[test]
fn missing_text_setting() {
    let mut v = values();
    v.domain = String::new();
    assert_eq!(Config::from_values(v).err(), Some(ConfigError::Domain));
}

#[test]
fn invalid_numbers() {
    let mut v = values();
    v.web_port = "70000".to_string();
    assert_eq!(Config::from_values(v).err(), Some(ConfigError::WebPort));
    let mut v = values();
    v.refresh_interval_secs = "0".to_string();
    assert_eq!(Config::from_values(v).err(), Some(ConfigError::RefreshInterval));
    let mut v = values();
    v.max_follows = "ten".to_string();
    assert_eq!(Config::from_values(v).err(), Some(ConfigError::MaxFollows));
}

#[test]
fn relay_list_with_an_empty_address_is_refused() {
    for relays in [",", "wss://a,", "a,,b", ""] {
        let mut v = values();
        v.relays = relays.to_string();
        assert_eq!(Config::from_values(v).err(), Some(ConfigError::Relays));
    }
}

#[test]
fn first_invalid_setting_is_reported() {
    let mut v = values();
    v.name = String::new();
    v.relays = String::new();
    let e = Config::from_values(v).err().unwrap();
    assert_eq!(e, ConfigError::Name);
    assert_eq!(e.variable(), "BOTNAME");
    let mut v = values();
    v.relays = String::new();
    assert_eq!(Config::from_values(v).err().unwrap().variable(), "ADD_RELAY");
}

#[test]
fn splitting_text() {
    assert_eq!(split_char("a,,b,", ','), vec!["a", "", "b", ""]);
    assert_eq!(split_char("", ','), vec![""]);
    assert_eq!(split_words(" x  y\tz\n"), vec!["x", "y", "z"]);
    assert!(split_words("   ").is_empty());
    assert_eq!(split_once("k:v:w", ':'), Some(("k".to_string(), "v:w".to_string())));
    assert_eq!(split_once("kv", ':'), None);
}
