use vstd::prelude::*;
use vstd::string::*;

use crate::config::{parse_u64, spec_parse_u64};
use crate::text::str_eq;

verus! {

/// Whether `pat` occurs in `s` at position `k`.
pub open spec fn occurs_at(s: Seq<char>, pat: Seq<char>, k: int) -> bool {
    0 <= k && k + pat.len() <= s.len() && s.subrange(k, k + pat.len() as int) == pat
}

/// The text of `s` before the first occurrence of `pat`; all of `s` when
/// `pat` does not occur.
pub open spec fn before_first(s: Seq<char>, pat: Seq<char>) -> Seq<char> {
    if exists|k: int| occurs_at(s, pat, k) && forall|j: int| 0 <= j < k ==> !occurs_at(s, pat, j) {
        let k = choose|k: int|
            occurs_at(s, pat, k) && forall|j: int| 0 <= j < k ==> !occurs_at(s, pat, j);
        s.subrange(0, k)
    } else {
        s
    }
}

proof fn lemma_first_occurrence_unique(s: Seq<char>, pat: Seq<char>, a: int, b: int)
    requires
        occurs_at(s, pat, a) && forall|j: int| 0 <= j < a ==> !occurs_at(s, pat, j),
        occurs_at(s, pat, b) && forall|j: int| 0 <= j < b ==> !occurs_at(s, pat, j),
    ensures
        a == b,
{
}

/// Whether `pat` occurs in `s` at position `k`.
fn matches_at(s: &str, pat: &str, k: usize) -> (r: bool)
    requires
        k + pat@.len() <= s@.len(),
    ensures
        r == occurs_at(s@, pat@, k as int),
{
    let n = s.unicode_len();
    let m = pat.unicode_len();
    assert(k + m <= n);
    str_eq(s.substring_char(k, k + m), pat)
}

/// `s` up to position `k`, where the first occurrence of `pat` starts.
fn cut_at_first(s: &str, pat: &str, k: usize) -> (r: String)
    requires
        occurs_at(s@, pat@, k as int),
        forall|j: int| 0 <= j < k ==> !occurs_at(s@, pat@, j),
    ensures
        r@ == before_first(s@, pat@),
{
    proof {
        let w = choose|w: int|
            occurs_at(s@, pat@, w) && forall|j: int| 0 <= j < w ==> !occurs_at(s@, pat@, j);
        lemma_first_occurrence_unique(s@, pat@, w, k as int);
    }
    String::from_str(s.substring_char(0, k))
}

/// The text of `s` before the first occurrence of `pat`.
pub fn text_before(s: &str, pat: &str) -> (r: String)
    ensures
        r@ == before_first(s@, pat@),
{
    let n = s.unicode_len();
    let m = pat.unicode_len();
    if m <= n {
        let last = n - m;
        let mut k: usize = 0;
        while k < last
            invariant
                n == s@.len(),
                m == pat@.len(),
                last == n - m,
                k <= last,
                forall|j: int| 0 <= j < k ==> !occurs_at(s@, pat@, j),
            decreases last - k,
        {
            if matches_at(s, pat, k) {
                return cut_at_first(s, pat, k);
            }
            k += 1;
        }
        if matches_at(s, pat, last) {
            return cut_at_first(s, pat, last);
        }
    }
    String::from_str(s)
}

/// The display name of a feed, taken from its title: the part before the
/// `/ @` that introduces the account handle.
pub fn display_name_from_title(title: &str) -> (r: String)
    ensures
        r@ == before_first(title@, "/ @"@),
{
    text_before(title, "/ @")
}

/// A picture address is used only when it starts with `http`; otherwise the
/// profile gets none (the empty text).
pub open spec fn spec_picture(url: Seq<char>) -> Seq<char> {
    if url.len() >= 4 && url.subrange(0, 4) == "http"@ {
        url
    } else {
        Seq::empty()
    }
}

/// The picture address to publish for a feed's image address.
pub fn picture_url(url: &str) -> (r: String)
    ensures
        r@ == spec_picture(url@),
{
    if url.unicode_len() >= 4 && str_eq(url.substring_char(0, 4), "http") {
        String::from_str(url)
    } else {
        String::new()
    }
}

/// How a followed source is polled: a numeric identifier names a chat
/// channel, anything else a syndication feed.
#[derive(PartialEq, Eq, Structural, Clone, Copy, Debug)]
pub enum SourceKind {
    Chat(u64),
    Feed,
}

pub open spec fn spec_source_kind(id: Seq<char>) -> SourceKind {
    match spec_parse_u64(id) {
        Some(n) => SourceKind::Chat(n),
        None => SourceKind::Feed,
    }
}

/// The kind of the source with identifier `id`.
pub fn source_kind(id: &str) -> (r: SourceKind)
    ensures
        r == spec_source_kind(id@),
{
    match parse_u64(id) {
        Some(n) => SourceKind::Chat(n),
        None => SourceKind::Feed,
    }
}

/// What `compound_duration::format_dhms` writes for a number of seconds.
pub uninterp spec fn dhms_text(seconds: u64) -> Seq<char>;

/// Relies on `compound_duration::format_dhms`: a duration in seconds written
/// as days, hours, minutes and seconds (`69d10h40m`), `0s` for zero; it
/// depends on its argument alone.
#[verifier::external_body]
fn format_dhms(seconds: u64) -> (r: String)
    ensures
        r@ == dhms_text(seconds),
        seconds == 0 ==> r@ == "0s"@,
{
    compound_duration::format_dhms(seconds)
}

/// The uptime reply around a written duration.
pub fn uptime_reply_from(duration: &str) -> (r: String)
    ensures
        r@ == "Running for "@ + duration@ + "."@,
{
    let mut r = String::from_str("Running for ");
    r.append(duration);
    r.append(".");
    r
}

/// How long the bridge has been running, at `now`, having started at
/// `started` (a start after `now` counts as none).
pub fn uptime_reply(now: u64, started: u64) -> (r: String)
    ensures
        r@ == "Running for "@ + dhms_text(if now >= started { (now - started) as u64 } else { 0 })
            + "."@,
{
    let elapsed = if now >= started {
        now - started
    } else {
        0
    };
    let d = format_dhms(elapsed);
    uptime_reply_from(d.as_str())
}

} // verus!
