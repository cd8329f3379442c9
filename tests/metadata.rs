use dostr::metadata::{
    display_name_from_title, picture_url, source_kind, text_before, uptime_reply, uptime_reply_from,
    SourceKind,
};

#[test]
fn display_name_is_title_before_handle() {
    assert_eq!(display_name_from_title("NASA / @nasa"), "NASA ");
    assert_eq!(display_name_from_title("Plain title"), "Plain title");
    assert_eq!(display_name_from_title("/ @x"), "");
    assert_eq!(display_name_from_title(""), "");
}

#[test]
fn text_before_first_occurrence() {
    assert_eq!(text_before("a--b--c", "--"), "a");
    assert_eq!(text_before("abc", ""), "");
    assert_eq!(text_before("ab", "abc"), "ab");
}

#[test]
fn picture_needs_http_prefix() {
    assert_eq!(picture_url("https://pbs.example/x.jpg"), "https://pbs.example/x.jpg");
    assert_eq!(picture_url("ftp://x"), "");
    assert_eq!(picture_url("htt"), "");
}

#[test]
fn numeric_identifiers_are_chat_channels() {
    assert_eq!(source_kind("1234567890"), SourceKind::Chat(1234567890));
    assert_eq!(source_kind("https://nitter.example/nasa/rss"), SourceKind::Feed);
    assert_eq!(source_kind("99999999999999999999"), SourceKind::Feed);
    assert_eq!(source_kind(""), SourceKind::Feed);
}

#[test]
fn uptime_text() {
    assert_eq!(uptime_reply_from("1m"), "Running for 1m.");
    assert_eq!(uptime_reply(6_000_100, 100), "Running for 69d10h40m.");
    assert_eq!(uptime_reply(5, 5), "Running for 0s.");
    assert_eq!(uptime_reply(5, 10), "Running for 0s.");
}
