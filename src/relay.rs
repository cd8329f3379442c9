use vstd::prelude::*;

use crate::text::{split_char, split_on, str_eq, views};

verus! {

/// How relays are reached: directly, or through the local anonymizing proxy.
#[derive(PartialEq, Eq, Structural, Clone, Copy, Debug)]
pub enum Network {
    Clearnet,
    Tor,
}

/// The transport that the command-line argument `arg` selects.
pub open spec fn spec_parse_network(arg: Seq<char>) -> Option<Network> {
    if arg == "--clearnet"@ {
        Some(Network::Clearnet)
    } else if arg == "--tor"@ {
        Some(Network::Tor)
    } else {
        None
    }
}

/// Reads the transport argument: `--clearnet` or `--tor`.
pub fn parse_network(arg: &str) -> (r: Option<Network>)
    ensures
        r == spec_parse_network(arg@),
{
    if str_eq(arg, "--clearnet") {
        Some(Network::Clearnet)
    } else if str_eq(arg, "--tor") {
        Some(Network::Tor)
    } else {
        None
    }
}

/// The address that the proxy is asked to reach for a relay URL such as
/// `ws://host:port/path`: its third `/`-separated field, `host:port`.
pub open spec fn spec_proxy_target(relay: Seq<char>) -> Option<Seq<char>> {
    let p = split_on(relay, '/');
    if p.len() >= 3 {
        Some(p[2])
    } else {
        None
    }
}

/// The address to tunnel to for `relay`; `None` when the URL has no host part.
pub fn proxy_target(relay: &str) -> (r: Option<String>)
    ensures
        match r {
            Some(t) => spec_proxy_target(relay@) == Some(t@),
            None => spec_proxy_target(relay@) is None,
        },
{
    let mut parts = split_char(relay, '/');
    if parts.len() >= 3 {
        assert(views(parts@)[2] == parts@[2]@);
        Some(parts.swap_remove(2))
    } else {
        None
    }
}

/// Progress of sending one event to every relay connection, one at a time and
/// in order: `delivered[i]` tells whether connection `i` took the event.
pub struct Broadcast {
    pub targets: usize,
    pub delivered: Vec<bool>,
}

/// The connection a broadcast sends to next, after `sent` attempts out of
/// `targets`.
pub open spec fn spec_next_target(targets: usize, sent: Seq<bool>) -> Option<usize> {
    if sent.len() < targets {
        Some(sent.len() as usize)
    } else {
        None
    }
}

impl Broadcast {
    /// A broadcast to `targets` connections that has not sent anything yet.
    pub fn new(targets: usize) -> (r: Broadcast)
        ensures
            r.targets == targets,
            r.delivered@ == Seq::<bool>::empty(),
    {
        Broadcast { targets, delivered: Vec::new() }
    }

    /// The connection to send to next; `None` once every connection was tried.
    pub fn next_target(&self) -> (r: Option<usize>)
        ensures
            r == spec_next_target(self.targets, self.delivered@),
    {
        if self.delivered.len() < self.targets {
            Some(self.delivered.len())
        } else {
            None
        }
    }

    /// Records whether the connection just tried took the event. A failure
    /// stops nothing: the next connection is tried all the same.
    pub fn record(&mut self, sent: bool)
        requires
            old(self).delivered@.len() < old(self).targets,
        ensures
            final(self).targets == old(self).targets,
            final(self).delivered@ == old(self).delivered@.push(sent),
    {
        self.delivered.push(sent);
    }

    /// The connections that took the event, in order.
    pub fn delivered_to(&self) -> (r: Vec<usize>)
        ensures
            r@ == spec_delivered_to(self.delivered@),
    {
        let mut out: Vec<usize> = Vec::new();
        let mut i: usize = 0;
        while i < self.delivered.len()
            invariant
                i <= self.delivered@.len(),
                out@ == spec_delivered_to(self.delivered@.subrange(0, i as int)),
            decreases self.delivered.len() - i,
        {
            assert(self.delivered@.subrange(0, i + 1).drop_last() =~= self.delivered@.subrange(
                0,
                i as int,
            ));
            if self.delivered[i] {
                out.push(i);
            }
            i += 1;
        }
        assert(self.delivered@.subrange(0, self.delivered@.len() as int) =~= self.delivered@);
        out
    }
}

/// The positions of `sent` that hold `true`, in order.
pub open spec fn spec_delivered_to(sent: Seq<bool>) -> Seq<usize>
    decreases sent.len(),
{
    if sent.len() == 0 {
        Seq::empty()
    } else {
        let pre = spec_delivered_to(sent.drop_last());
        if sent.last() {
            pre.push((sent.len() - 1) as usize)
        } else {
            pre
        }
    }
}

/// The state of a broadcast to `targets` connections after the caller, as long
/// as `next_target` names a connection, sends to it and records the outcome
/// that `outcomes` gives for that attempt; with the connections tried, in order.
pub open spec fn run_broadcast(targets: usize, outcomes: Seq<bool>) -> (Seq<bool>, Seq<usize>)
    decreases outcomes.len(),
{
    if outcomes.len() == 0 {
        (Seq::empty(), Seq::empty())
    } else {
        let (sent, tried) = run_broadcast(targets, outcomes.drop_last());
        match spec_next_target(targets, sent) {
            Some(t) => (sent.push(outcomes.last()), tried.push(t)),
            None => (sent, tried),
        }
    }
}

/// Partial relay failure: whatever each send gives, a broadcast tries every
/// connection exactly once, in order, and the event reaches exactly the
/// connections whose send succeeded; a failed one never keeps the event from
/// the connections after it.
pub proof fn lemma_partial_failure(targets: usize, outcomes: Seq<bool>)
    requires
        outcomes.len() == targets,
    ensures
        run_broadcast(targets, outcomes).1 == Seq::new(targets as nat, |i: int| i as usize),
        run_broadcast(targets, outcomes).0 == outcomes,
        spec_next_target(targets, run_broadcast(targets, outcomes).0) is None,
        forall|i: int|
            0 <= i < targets ==> (#[trigger] spec_delivered_to(run_broadcast(targets, outcomes).0).contains(
                i as usize,
            ) <==> outcomes[i]),
{
    lemma_run_prefix(targets, outcomes);
    lemma_delivered_to(outcomes);
}

proof fn lemma_run_prefix(targets: usize, outcomes: Seq<bool>)
    requires
        outcomes.len() <= targets,
    ensures
        run_broadcast(targets, outcomes).1 == Seq::new(outcomes.len(), |i: int| i as usize),
        run_broadcast(targets, outcomes).0 == outcomes,
    decreases outcomes.len(),
{
    if outcomes.len() > 0 {
        let pre = outcomes.drop_last();
        lemma_run_prefix(targets, pre);
        assert(pre.push(outcomes.last()) =~= outcomes);
        assert(Seq::new(pre.len(), |i: int| i as usize).push(pre.len() as usize) =~= Seq::new(
            outcomes.len(),
            |i: int| i as usize,
        ));
    }
}

proof fn lemma_delivered_to(sent: Seq<bool>)
    requires
        sent.len() <= usize::MAX,
    ensures
        forall|i: int|
            0 <= i < sent.len() ==> (#[trigger] spec_delivered_to(sent).contains(i as usize)
                <==> sent[i]),
        forall|k: int|
            0 <= k < spec_delivered_to(sent).len() ==> (#[trigger] spec_delivered_to(sent)[k])
                < sent.len(),
    decreases sent.len(),
{
    if sent.len() > 0 {
        let pre = sent.drop_last();
        lemma_delivered_to(pre);
        let d = spec_delivered_to(sent);
        let dp = spec_delivered_to(pre);
        assert forall|i: int| 0 <= i < sent.len() implies (#[trigger] d.contains(i as usize)
            <==> sent[i]) by {
            if i < pre.len() {
                assert(pre[i] == sent[i]);
                if d.contains(i as usize) {
                    let k = choose|k: int| 0 <= k < d.len() && d[k] == i as usize;
                    if k < dp.len() {
                        assert(dp[k] == i as usize);
                    }
                }
                if dp.contains(i as usize) {
                    let k = choose|k: int| 0 <= k < dp.len() && dp[k] == i as usize;
                    assert(d[k] == i as usize);
                }
            } else {
                if sent.last() {
                    assert(d[d.len() - 1] == i as usize);
                } else {
                    if d.contains(i as usize) {
                        let k = choose|k: int| 0 <= k < d.len() && d[k] == i as usize;
                        assert(dp[k] < pre.len());
                    }
                }
            }
        }
    }
}

} // verus!
