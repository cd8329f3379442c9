use dostr::keys::{channel_public_key, get_channel_keypair, get_random_keypair};
use dostr::registry::{is_recordable, line_for, parse_line, SimpleDatabase};

const SECRET_ONE: &str = "0000000000000000000000000000000000000000000000000000000000000001";
const SECRET_A: &str = "aaaaaaaaaaaaaaaaaaaaaaaaaaaaaaaaaaaaaaaaaaaaaaaaaaaaaaaaaaaaaaaa";
const SECRET_B: &str = "BBBBBBBBBBBBBBBBBBBBBBBBBBBBBBBBBBBBBBBBBBBBBBBBBBBBBBBBBBBBBBBB";
const PUBKEY_ONE: &str = "79be667ef9dcbbac55a06295ce870b07029bfcdb2dce28d959f2815b16f81798";

#[test]
fn file_lines_with_and_without_display_name() {
    let content = format!("123:{}:General\nhttps_feed:{}\n", SECRET_A, SECRET_B);
    let db = SimpleDatabase::from_file("data/channels".to_string(), &content).unwrap();
    assert_eq!(db.follows_count(), 2);
    assert!(db.contains_key("123"));
    assert!(db.contains_key("https_feed"));
    assert_eq!(db.get("123"), SECRET_A);
    assert_eq!(db.display_name("123"), "General");
    assert_eq!(db.display_name("https_feed"), "https_feed");
    assert_eq!(db.path(), "data/channels");
}

#[test]
fn feed_address_with_colons_is_read_back() {
    let id = "https://nitter.example/nasa/rss";
    let line = line_for(id, SECRET_A, "NASA: space");
    let f = parse_line(&line).unwrap();
    assert_eq!((f.id.as_str(), f.secret.as_str(), f.display_name.as_str()), (id, SECRET_A, "NASA: space"));
    let db = SimpleDatabase::from_file("f".to_string(), &format!("{}\n", line_for(id, SECRET_A, ""))).unwrap();
    assert_eq!(db.get(id), SECRET_A);
    assert_eq!(db.display_name(id), "");
}

#[test]
fn malformed_lines_are_skipped() {
    let content = format!("only_one_field\na:short\na:b:c:d\n\nx:{}\r\n", SECRET_A);
    let db = SimpleDatabase::from_file("f".to_string(), &content).unwrap();
    assert_eq!(db.follows_count(), 1);
    assert_eq!(db.get("x"), SECRET_A);
    assert_eq!(db.display_name("x"), "x");
}

#[test]
fn duplicate_identifier_in_file_is_an_error() {
    let content = format!("a:{}\nb:{}\na:{}\n", SECRET_A, SECRET_A, SECRET_B);
    let r = SimpleDatabase::from_file("f".to_string(), &content);
    assert_eq!(r.err(), Some("a".to_string()));
}

#[test]
fn empty_file_gives_empty_registry() {
    let db = SimpleDatabase::from_file("f".to_string(), "").unwrap();
    assert_eq!(db.follows_count(), 0);
    assert!(!db.contains_key(""));
}

#[test]
fn inserting_same_id_twice_is_rejected_once() {
    let mut db = SimpleDatabase::new("f".to_string());
    assert!(db.insert("chan".to_string(), "s1".to_string(), "one".to_string()).is_ok());
    assert!(db.insert("chan".to_string(), "s2".to_string(), "two".to_string()).is_err());
    assert_eq!(db.follows_count(), 1);
    assert_eq!(db.get("chan"), "s1");
    assert_eq!(db.display_name("chan"), "one");
}

#[test]
fn get_follows_lists_entries_in_order() {
    let content = format!("a:{}:A\nb:{}\n", SECRET_A, SECRET_B);
    let db = SimpleDatabase::from_file("f".to_string(), &content).unwrap();
    let all = db.get_follows();
    assert_eq!(all.len(), 2);
    assert_eq!((all[0].id.as_str(), all[0].secret.as_str(), all[0].display_name.as_str()), ("a", SECRET_A, "A"));
    assert_eq!((all[1].id.as_str(), all[1].secret.as_str(), all[1].display_name.as_str()), ("b", SECRET_B, "b"));
}

#[test]
fn line_round_trip() {
    let line = line_for("42", SECRET_A, "Name");
    assert_eq!(line, format!("42:{}:Name", SECRET_A));
    let f = parse_line(&line).unwrap();
    assert_eq!((f.id.as_str(), f.secret.as_str(), f.display_name.as_str()), ("42", SECRET_A, "Name"));
    assert!(parse_line("nocolon").is_none());
    assert!(parse_line("id:ff").is_none());
}

#[test]
fn recordable_entries() {
    assert!(is_recordable("https://nitter.example/nasa/rss", "nasa"));
    assert!(is_recordable("1234", "a:b"));
    assert!(!is_recordable(&format!("x:{}", SECRET_A), "n"));
    assert!(!is_recordable("a\nb", "n"));
    assert!(!is_recordable("a", "n\r"));
}

#[test]
fn keypair_from_stored_secret() {
    let mut db = SimpleDatabase::new("f".to_string());
    db.insert("one".to_string(), SECRET_ONE.to_string(), "one".to_string()).unwrap();
    db.insert("bad".to_string(), "zz".to_string(), "bad".to_string()).unwrap();
    let kp = get_channel_keypair(&db, "one").unwrap();
    assert_eq!(kp.x_only_public_key().0.to_string(), PUBKEY_ONE);
    assert!(get_channel_keypair(&db, "bad").is_err());
    assert_eq!(channel_public_key(&db, "one").as_deref(), Some(PUBKEY_ONE));
    assert_eq!(channel_public_key(&db, "bad"), None);
}

#[test]
fn random_keypairs_differ() {
    let a = get_random_keypair();
    let b = get_random_keypair();
    assert_ne!(a.display_secret().to_string(), b.display_secret().to_string());
}

#[test]
fn appended_line_is_read_back() {
    let mut content = format!("a:{}:A\n", SECRET_A);
    let mut db = SimpleDatabase::from_file("f".to_string(), &content).unwrap();
    db.insert("b".to_string(), SECRET_B.to_string(), "".to_string()).unwrap();
    content.push_str(&line_for("b", SECRET_B, ""));
    content.push('\n');
    let reloaded = SimpleDatabase::from_file("f".to_string(), &content).unwrap();
    assert_eq!(reloaded.follows_count(), db.follows_count());
    assert_eq!(reloaded.get("b"), SECRET_B);
    assert_eq!(reloaded.display_name("b"), "");
}
