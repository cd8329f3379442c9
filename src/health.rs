use vstd::prelude::*;

verus! {

/// Outcome of one poll cycle of a source.
#[derive(PartialEq, Eq, Structural, Clone, Copy, Debug)]
pub enum ConnectionStatus {
    Success,
    Failed,
}

/// One outcome record: the status of a poll cycle and when it was observed
/// (seconds since the Unix epoch).
#[derive(PartialEq, Eq, Structural, Clone, Copy, Debug)]
pub struct ConnectionMessage {
    pub status: ConnectionStatus,
    pub timestamp: u64,
}

/// A status notification that the monitor asks to be broadcast.
#[derive(PartialEq, Eq, Structural, Clone, Copy, Debug)]
pub enum Notification {
    /// Fetching works again after a failure.
    Reestablished,
    /// Fetching started to fail.
    Lost,
    /// Fetching has kept failing for at least one discard period.
    StillFailing,
}

/// Whether `m` came less than `period` seconds after `last` (a message dated
/// before `last` counts as such).
pub open spec fn within_period(last: ConnectionMessage, period: u64, m: ConnectionMessage) -> bool {
    (m.timestamp as int) - (last.timestamp as int) < period as int
}

/// The debounce rule: from the last accepted message and a new one, the next
/// last accepted message and the notification to emit, if any.
pub open spec fn debounce(last: ConnectionMessage, period: u64, m: ConnectionMessage) -> (
    ConnectionMessage,
    Option<Notification>,
) {
    if m.status != last.status {
        (
            m,
            Some(
                match m.status {
                    ConnectionStatus::Success => Notification::Reestablished,
                    ConnectionStatus::Failed => Notification::Lost,
                },
            ),
        )
    } else if within_period(last, period, m) {
        (last, None)
    } else {
        (
            m,
            match m.status {
                ConnectionStatus::Success => None,
                ConnectionStatus::Failed => Some(Notification::StillFailing),
            },
        )
    }
}

/// The notifications produced by feeding `msgs`, in order, to a monitor whose
/// last accepted message is `last`.
pub open spec fn feed(last: ConnectionMessage, period: u64, msgs: Seq<ConnectionMessage>) -> Seq<
    Option<Notification>,
>
    decreases msgs.len(),
{
    if msgs.len() == 0 {
        Seq::empty()
    } else {
        let (next, out) = debounce(last, period, msgs[0]);
        seq![out] + feed(next, period, msgs.drop_first())
    }
}

/// Debounces the outcome records of all workers into status notifications.
pub struct HealthMonitor {
    pub last_accepted: ConnectionMessage,
    pub discard_period: u64,
}

impl HealthMonitor {
    /// A monitor started at `now`: it holds a success baseline dated one
    /// discard period back (clamped at zero).
    pub fn new(now: u64, discard_period: u64) -> (r: HealthMonitor)
        ensures
            r.discard_period == discard_period,
            r.last_accepted.status == ConnectionStatus::Success,
            r.last_accepted.timestamp == if now >= discard_period {
                (now - discard_period) as u64
            } else {
                0
            },
    {
        let start = if now >= discard_period {
            now - discard_period
        } else {
            0
        };
        HealthMonitor {
            last_accepted: ConnectionMessage { status: ConnectionStatus::Success, timestamp: start },
            discard_period,
        }
    }

    /// Takes one outcome record and returns the notification it calls for.
    pub fn receive(&mut self, message: ConnectionMessage) -> (r: Option<Notification>)
        ensures
            final(self).discard_period == old(self).discard_period,
            (final(self).last_accepted, r) == debounce(
                old(self).last_accepted,
                old(self).discard_period,
                message,
            ),
    {
        let last = self.last_accepted;
        if message.status != last.status {
            self.last_accepted = message;
            match message.status {
                ConnectionStatus::Success => Some(Notification::Reestablished),
                ConnectionStatus::Failed => Some(Notification::Lost),
            }
        } else if message.timestamp < last.timestamp || message.timestamp - last.timestamp
            < self.discard_period {
            None
        } else {
            self.last_accepted = message;
            match message.status {
                ConnectionStatus::Success => None,
                ConnectionStatus::Failed => Some(Notification::StillFailing),
            }
        }
    }
}

impl Notification {
    /// The text posted for this notification.
    pub fn text(&self) -> (r: String)
        ensures
            r@ == notification_text(*self),
    {
        match self {
            Notification::Reestablished => String::from_str("Connection to the source reestablished! :)"),
            Notification::Lost => String::from_str("I can't connect to the source right now :("),
            Notification::StillFailing => String::from_str("I'm still unable to connect to the source :("),
        }
    }
}

/// The text of each notification.
pub open spec fn notification_text(n: Notification) -> Seq<char> {
    match n {
        Notification::Reestablished => "Connection to the source reestablished! :)"@,
        Notification::Lost => "I can't connect to the source right now :("@,
        Notification::StillFailing => "I'm still unable to connect to the source :("@,
    }
}

/// Once a failure has been accepted at `first.timestamp`, further failures
/// that come before one discard period has passed produce no notification.
pub proof fn lemma_quiet_failures(first: ConnectionMessage, period: u64, msgs: Seq<ConnectionMessage>)
    requires
        first.status == ConnectionStatus::Failed,
        forall|i: int|
            0 <= i < msgs.len() ==> (#[trigger] msgs[i]).status == ConnectionStatus::Failed
                && within_period(first, period, msgs[i]),
    ensures
        forall|i: int| 0 <= i < msgs.len() ==> (#[trigger] feed(first, period, msgs)[i]).is_none(),
        feed(first, period, msgs).len() == msgs.len(),
    decreases msgs.len(),
{
    if msgs.len() > 0 {
        let rest = msgs.drop_first();
        assert forall|i: int| 0 <= i < rest.len() implies (#[trigger] rest[i]).status
            == ConnectionStatus::Failed && within_period(first, period, rest[i]) by {
            assert(rest[i] == msgs[i + 1]);
        }
        lemma_quiet_failures(first, period, rest);
        let out = feed(first, period, msgs);
        assert forall|i: int| 0 <= i < msgs.len() implies (#[trigger] out[i]).is_none() by {
            if i > 0 {
                assert(out[i] == feed(first, period, rest)[i - 1]);
            }
        }
    }
}

/// Single transition: after a success baseline, a run of failures that all come
/// within one discard period of the first yields exactly one notification, the
/// first one, which reports the loss.
pub proof fn lemma_single_transition(
    baseline: ConnectionMessage,
    period: u64,
    msgs: Seq<ConnectionMessage>,
)
    requires
        baseline.status == ConnectionStatus::Success,
        msgs.len() > 0,
        forall|i: int|
            0 <= i < msgs.len() ==> (#[trigger] msgs[i]).status == ConnectionStatus::Failed
                && within_period(msgs[0], period, msgs[i]),
    ensures
        feed(baseline, period, msgs).len() == msgs.len(),
        feed(baseline, period, msgs)[0] == Some(Notification::Lost),
        forall|i: int|
            1 <= i < msgs.len() ==> (#[trigger] feed(baseline, period, msgs)[i]).is_none(),
{
    let rest = msgs.drop_first();
    assert forall|i: int| 0 <= i < rest.len() implies (#[trigger] rest[i]).status
        == ConnectionStatus::Failed && within_period(msgs[0], period, rest[i]) by {
        assert(rest[i] == msgs[i + 1]);
    }
    lemma_quiet_failures(msgs[0], period, rest);
    let out = feed(baseline, period, msgs);
    assert forall|i: int| 1 <= i < msgs.len() implies (#[trigger] out[i]).is_none() by {
        assert(out[i] == feed(msgs[0], period, rest)[i - 1]);
    }
}

/// Escalation: after a success baseline, a failure at `t` and another one
/// at `t + period + 1` yield two notifications, the loss and the reminder.
pub proof fn lemma_escalation(baseline: ConnectionMessage, period: u64, t: u64)
    requires
        baseline.status == ConnectionStatus::Success,
        t as int + period as int + 1 <= u64::MAX,
    ensures
        feed(
            baseline,
            period,
            seq![
                ConnectionMessage { status: ConnectionStatus::Failed, timestamp: t },
                ConnectionMessage {
                    status: ConnectionStatus::Failed,
                    timestamp: (t + period + 1) as u64,
                },
            ],
        ) == seq![Some(Notification::Lost), Some(Notification::StillFailing)],
{
    let m0 = ConnectionMessage { status: ConnectionStatus::Failed, timestamp: t };
    let m1 = ConnectionMessage { status: ConnectionStatus::Failed, timestamp: (t + period + 1) as u64 };
    let msgs = seq![m0, m1];
    assert(msgs.drop_first() =~= seq![m1]);
    assert(seq![m1].drop_first() =~= Seq::<ConnectionMessage>::empty());
    assert(!within_period(m0, period, m1));
    assert(debounce(m0, period, m1) == (m1, Some(Notification::StillFailing)));
    assert(feed(m1, period, Seq::<ConnectionMessage>::empty()) =~= Seq::<Option<Notification>>::empty());
    assert(feed(m0, period, seq![m1]) == seq![Some(Notification::StillFailing)] + feed(m1, period, seq![m1].drop_first()));
    assert(feed(m0, period, seq![m1]) =~= seq![Some(Notification::StillFailing)]);
    assert(feed(baseline, period, msgs) =~= seq![Some(Notification::Lost), Some(Notification::StillFailing)]);
}

} // verus!
