use vstd::prelude::*;

use crate::health::{ConnectionMessage, ConnectionStatus, Notification, notification_text};
use crate::window::{ContentItem, chronological};

verus! {

/// Where a polling worker stands in its cycle.
#[derive(PartialEq, Eq, Structural, Clone, Copy, Debug)]
pub enum Phase {
    /// The profile event of the source has yet to be sent.
    Announcing,
    /// Sleeping until the next poll.
    Idle,
    /// A fetch of the window `[since, until)` is under way.
    Fetching { until: u64 },
}

/// The decisions of the worker that polls one source; the caller performs the
/// sleeping, fetching, signing and sending that they call for.
pub struct PollWorker {
    /// Start of the next window to fetch (inclusive).
    pub since: u64,
    pub phase: Phase,
}

/// End of the window fetched at `now` when the previous window ended at
/// `since`: the current time, never earlier than `since`.
pub open spec fn window_end(since: u64, now: u64) -> u64 {
    if now >= since {
        now
    } else {
        since
    }
}

/// Start of the next window after fetching `[since, until)`: it moves to `until`
/// only when the fetch succeeded.
pub open spec fn next_since(since: u64, until: u64, fetched: bool) -> u64 {
    if fetched {
        until
    } else {
        since
    }
}

/// What the worker hands on after a fetch: the items to sign and send, in
/// chronological order, and the outcome record for the health monitor.
pub struct CycleReport {
    pub deliver: Vec<ContentItem>,
    pub outcome: ConnectionMessage,
}

impl PollWorker {
    /// A worker started at `now`: it announces the source first, and its
    /// first window starts at `now`.
    pub fn new(now: u64) -> (r: PollWorker)
        ensures
            r.since == now,
            r.phase == Phase::Announcing,
    {
        PollWorker { since: now, phase: Phase::Announcing }
    }

    /// The profile event was sent, or failed to be; either way the worker goes
    /// on to sleep.
    pub fn announced(&mut self)
        requires
            old(self).phase == Phase::Announcing,
        ensures
            final(self).since == old(self).since,
            final(self).phase == Phase::Idle,
    {
        self.phase = Phase::Idle;
    }

    /// Woken at `now`: returns the window `[since, until)` to fetch.
    pub fn begin_fetch(&mut self, now: u64) -> (r: (u64, u64))
        requires
            old(self).phase == Phase::Idle,
        ensures
            r.0 == old(self).since,
            r.1 == window_end(old(self).since, now),
            final(self).since == old(self).since,
            final(self).phase == (Phase::Fetching { until: r.1 }),
    {
        let until = if now >= self.since {
            now
        } else {
            self.since
        };
        self.phase = Phase::Fetching { until };
        (self.since, until)
    }

    /// The fetch ended, with the adapter's batch (newest first) or with a
    /// failure (`None`), observed at `observed_at`. On success the window
    /// advances and the batch is handed on in chronological order; on failure
    /// the same window is fetched again next time and nothing is delivered.
    pub fn finish_fetch(&mut self, fetched: Option<Vec<ContentItem>>, observed_at: u64) -> (r:
        CycleReport)
        requires
            old(self).phase is Fetching,
        ensures
            final(self).phase == Phase::Idle,
            final(self).since == next_since(
                old(self).since,
                old(self).phase->until,
                fetched is Some,
            ),
            r.deliver@ == match fetched {
                Some(items) => items@.reverse(),
                None => Seq::empty(),
            },
            r.outcome == (ConnectionMessage {
                status: if fetched is Some {
                    ConnectionStatus::Success
                } else {
                    ConnectionStatus::Failed
                },
                timestamp: observed_at,
            }),
    {
        let until = match self.phase {
            Phase::Fetching { until } => until,
            _ => self.since,
        };
        self.phase = Phase::Idle;
        match fetched {
            Some(items) => {
                self.since = until;
                CycleReport {
                    deliver: chronological(items),
                    outcome: ConnectionMessage {
                        status: ConnectionStatus::Success,
                        timestamp: observed_at,
                    },
                }
            },
            None => CycleReport {
                deliver: Vec::new(),
                outcome: ConnectionMessage { status: ConnectionStatus::Failed, timestamp: observed_at },
            },
        }
    }
}

/// The start of each window over a run of poll cycles from `start`: cycle `k`
/// is woken at `cycles[k].0` and its fetch succeeds when `cycles[k].1` holds.
/// Element `k` is the start of the window of cycle `k`.
pub open spec fn window_starts(start: u64, cycles: Seq<(u64, bool)>) -> Seq<u64>
    decreases cycles.len(),
{
    if cycles.len() == 0 {
        seq![start]
    } else {
        let prev = window_starts(start, cycles.drop_last());
        let since = prev.last();
        let (now, ok) = cycles.last();
        prev.push(next_since(since, window_end(since, now), ok))
    }
}

/// Window monotonicity: over any run of poll cycles, whatever the pattern of
/// successes and failures, the next window starts where a successful cycle's
/// window ended and where a failed cycle's window started, and window starts
/// never decrease.
pub proof fn lemma_window_monotonic(start: u64, cycles: Seq<(u64, bool)>)
    ensures
        window_starts(start, cycles).len() == cycles.len() + 1,
        window_starts(start, cycles)[0] == start,
        forall|k: int|
            0 <= k < cycles.len() ==> #[trigger] window_starts(start, cycles)[k + 1] == if cycles[k].1 {
                window_end(window_starts(start, cycles)[k], cycles[k].0)
            } else {
                window_starts(start, cycles)[k]
            },
        forall|j: int, k: int|
            #![trigger window_starts(start, cycles)[j], window_starts(start, cycles)[k]]
            0 <= j <= k <= cycles.len() ==> window_starts(start, cycles)[j] <= window_starts(
                start,
                cycles,
            )[k],
    decreases cycles.len(),
{
    if cycles.len() > 0 {
        let pre = cycles.drop_last();
        lemma_window_monotonic(start, pre);
        let s = window_starts(start, cycles);
        let p = window_starts(start, pre);
        assert forall|k: int| 0 <= k < cycles.len() implies #[trigger] s[k + 1] == if cycles[k].1 {
            window_end(s[k], cycles[k].0)
        } else {
            s[k]
        } by {
            if k < pre.len() {
                assert(pre[k] == cycles[k]);
                assert(p[k + 1] == s[k + 1]);
            }
        }
        assert forall|j: int, k: int|
            #![trigger s[j], s[k]]
            0 <= j <= k <= cycles.len() implies s[j] <= s[k] by {
            if k < cycles.len() {
                assert(s[j] == p[j] && s[k] == p[k]);
            } else if j < k {
                assert(s[j] == p[j]);
                assert(p[j] <= p[pre.len() as int]);
            }
        }
    }
}

/// An event yet to be signed: when it is created, its kind and its content.
/// Every event of this library carries no tags.
pub struct EventDraft {
    pub created_at: u64,
    pub kind: u64,
    pub content: String,
}

/// Kind of a short text note.
pub const TEXT_NOTE: u64 = 1;

/// Kind of a profile (metadata) event.
pub const PROFILE: u64 = 0;

/// The text posted for a content item: its body, followed by its link after a
/// blank line when it has one.
pub open spec fn item_content(item: ContentItem) -> Seq<char> {
    match item.link {
        Some(l) => item.body@ + "\n\n"@ + l@,
        None => item.body@,
    }
}

/// The text note that carries `item`, created at `created_at` (the time of
/// sending, not the item's own timestamp).
pub fn item_event(item: &ContentItem, created_at: u64) -> (r: EventDraft)
    ensures
        r.created_at == created_at,
        r.kind == TEXT_NOTE,
        r.content@ == item_content(*item),
{
    let mut content = item.body.clone();
    match &item.link {
        Some(l) => {
            content.append("\n\n");
            content.append(l.as_str());
        },
        None => {},
    }
    EventDraft { created_at, kind: TEXT_NOTE, content }
}

/// The text note that carries a health notification.
pub fn notification_event(n: Notification, created_at: u64) -> (r: EventDraft)
    ensures
        r.created_at == created_at,
        r.kind == TEXT_NOTE,
        r.content@ == notification_text(n),
{
    EventDraft { created_at, kind: TEXT_NOTE, content: n.text() }
}

/// The description of a followed source that its profile event carries.
pub struct Profile {
    pub name: String,
    pub display_name: String,
    pub about: String,
    pub picture: String,
    pub banner: String,
}

/// The content of the profile event of a source: a JSON object with its name,
/// display name, about text (followed by a line naming the bridge's own public
/// key), picture, banner and identifier at `domain`.
pub open spec fn profile_content(p: Profile, bot_pub: Seq<char>, domain: Seq<char>) -> Seq<char> {
    "{\"name\":\""@ + p.name@ + "\",\"display_name\":\""@ + p.display_name@ + "\",\"about\":\""@
        + p.about@ + " \\n\\nFeed generated by @"@ + bot_pub + "\",\"picture\":\""@ + p.picture@
        + "\",\"banner\":\""@ + p.banner@ + "\",\"nip05\":\""@ + p.name@ + "@"@ + domain + "\"}"@
}

/// The profile event of a source, created at `created_at`.
pub fn profile_event(p: &Profile, bot_pub: &str, domain: &str, created_at: u64) -> (r: EventDraft)
    ensures
        r.created_at == created_at,
        r.kind == PROFILE,
        r.content@ == profile_content(*p, bot_pub@, domain@),
{
    let mut c = String::from_str("{\"name\":\"");
    c.append(p.name.as_str());
    c.append("\",\"display_name\":\"");
    c.append(p.display_name.as_str());
    c.append("\",\"about\":\"");
    c.append(p.about.as_str());
    c.append(" \\n\\nFeed generated by @");
    c.append(bot_pub);
    c.append("\",\"picture\":\"");
    c.append(p.picture.as_str());
    c.append("\",\"banner\":\"");
    c.append(p.banner.as_str());
    c.append("\",\"nip05\":\"");
    c.append(p.name.as_str());
    c.append("@");
    c.append(domain);
    c.append("\"}");
    EventDraft { created_at, kind: PROFILE, content: c }
}

} // verus!
