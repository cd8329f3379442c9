use dostr::command::{channel_add, decide_add, parse_add_input, AddDecision, AddOutcome};
use dostr::registry::SimpleDatabase;

const SECRET_ONE: &str = "0000000000000000000000000000000000000000000000000000000000000001";

fn is_lower_hex64(s: &str) -> bool {
    s.len() == 64 && s.chars().all(|c| c.is_ascii_digit() || ('a'..='f').contains(&c))
}

#[test]
fn handle_becomes_feed_url() {
    assert_eq!(
        parse_add_input("!add @nasa", "nitter.example"),
        Some(("https://nitter.example/nasa/rss".to_string(), "nasa".to_string()))
    );
}

#[test]
fn channel_id_with_and_without_name() {
    assert_eq!(
        parse_add_input("!add 1234:General chat", "h"),
        Some(("1234".to_string(), "General".to_string()))
    );
    assert_eq!(
        parse_add_input("  !add\t1234:a:b  ", "h"),
        Some(("1234".to_string(), "a:b".to_string()))
    );
    assert_eq!(parse_add_input("!add 1234", "h"), Some(("1234".to_string(), "1234".to_string())));
}

#[test]
fn missing_account_name() {
    assert_eq!(parse_add_input("!add", "h"), None);
    assert_eq!(parse_add_input("   ", "h"), None);
    let db = SimpleDatabase::new("f".to_string());
    assert!(matches!(channel_add(&db, "!add ", "h", 5), AddOutcome::MissingAccountName));
}

#[test]
fn capacity_is_checked_before_the_registry() {
    let mut db = SimpleDatabase::new("f".to_string());
    let max = 3;
    for id in ["a", "b", "c"] {
        assert_eq!(decide_add(&db, id, max), AddDecision::Accept);
        db.insert(id.to_string(), "s".to_string(), id.to_string()).unwrap();
    }
    assert_eq!(decide_add(&db, "d", max), AddDecision::AtCapacity);
    assert_eq!(decide_add(&db, "a", max), AddDecision::AlreadyFollowed);
    assert!(matches!(channel_add(&db, "!add d", "h", max), AddOutcome::AtCapacity { max_follows: 3 }));
    assert_eq!(db.follows_count(), 3);
}

#[test]
fn zero_capacity_refuses_everything_new() {
    let db = SimpleDatabase::new("f".to_string());
    assert_eq!(decide_add(&db, "a", 0), AddDecision::AtCapacity);
}

#[test]
fn accepted_add_brings_fresh_identity() {
    let db = SimpleDatabase::new("f".to_string());
    match channel_add(&db, "!add @nasa", "nitter.example", 2) {
        AddOutcome::Accepted { id, name, secret, pubkey } => {
            assert_eq!(id, "https://nitter.example/nasa/rss");
            assert_eq!(name, "nasa");
            assert!(is_lower_hex64(&secret));
            assert!(is_lower_hex64(&pubkey));
            let kp = secp256k1::KeyPair::from_seckey_str(&secp256k1::Secp256k1::new(), &secret).unwrap();
            assert_eq!(kp.x_only_public_key().0.to_string(), pubkey);
        }
        _ => panic!("expected the source to be accepted"),
    }
}

#[test]
fn already_followed_gives_existing_key() {
    let mut db = SimpleDatabase::new("f".to_string());
    db.insert("77".to_string(), SECRET_ONE.to_string(), "x".to_string()).unwrap();
    match channel_add(&db, "!add 77:other", "h", 1) {
        AddOutcome::AlreadyFollowed { id, pubkey } => {
            assert_eq!(id, "77");
            assert_eq!(
                pubkey.as_deref(),
                Some("79be667ef9dcbbac55a06295ce870b07029bfcdb2dce28d959f2815b16f81798")
            );
        }
        _ => panic!("expected the source to be known"),
    }
}

#[test]
fn already_followed_with_unreadable_secret_has_no_key() {
    let mut db = SimpleDatabase::new("f".to_string());
    db.insert("77".to_string(), "nothex".to_string(), "x".to_string()).unwrap();
    match channel_add(&db, "!add 77", "h", 1) {
        AddOutcome::AlreadyFollowed { id, pubkey } => {
            assert_eq!(id, "77");
            assert_eq!(pubkey, None);
        }
        _ => panic!("expected the source to be known"),
    }
}

#[test]
fn name_may_hold_colons_and_key_text() {
    let db = SimpleDatabase::new("f".to_string());
    let hex = "0123456789abcdef0123456789abcdef0123456789abcdef0123456789abcdef";
    match channel_add(&db, &format!("!add x:{}:name", hex), "h", 5) {
        AddOutcome::Accepted { id, name, .. } => {
            assert_eq!(id, "x");
            assert_eq!(name, format!("{}:name", hex));
        }
        _ => panic!("expected the source to be accepted"),
    }
}

#[test]
fn entry_that_a_line_cannot_hold_is_refused() {
    let db = SimpleDatabase::new("f".to_string());
    let hex = "0123456789abcdef0123456789abcdef0123456789abcdef0123456789abcdef";
    let host = format!("h:{}:", hex);
    match channel_add(&db, "!add @x", &host, 5) {
        AddOutcome::NotRecordable { id } => assert_eq!(id, format!("https://{}/x/rss", host)),
        _ => panic!("expected the entry to be refused"),
    }
}
