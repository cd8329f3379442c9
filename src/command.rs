use vstd::prelude::*;
use vstd::string::*;

use crate::keys::{channel_public_key, is_lower_key_hex, new_identity, seckey_accepted, xonly_hex_of};
use crate::registry::{Entry, SimpleDatabase, has_id, is_recordable, recordable, writable};
use crate::text::{first_at, split_once, split_words, views, words};

verus! {

/// The source that an add request names: a handle (`@name`) stands for the
/// feed `https://<feed_host>/<name>/rss` displayed as `name`; otherwise the
/// text is `id` or `id:display_name`, split at its first colon, the display
/// name defaulting to the identifier.
pub open spec fn target_of(input: Seq<char>, feed_host: Seq<char>) -> (Seq<char>, Seq<char>) {
    if input.len() > 0 && input[0] == '@' {
        let handle = input.subrange(1, input.len() as int);
        ("https://"@ + feed_host + "/"@ + handle + "/rss"@, handle)
    } else if exists|k: int| first_at(input, ':', k) {
        let k = choose|k: int| first_at(input, ':', k);
        (input.subrange(0, k), input.subrange(k + 1, input.len() as int))
    } else {
        (input, input)
    }
}

/// The identifier and display name that an add command asks for: taken from
/// its second word; `None` when it has fewer than two words.
pub open spec fn add_target(content: Seq<char>, feed_host: Seq<char>) -> Option<
    (Seq<char>, Seq<char>),
> {
    let w = words(content);
    if w.len() < 2 {
        None
    } else {
        Some(target_of(w[1], feed_host))
    }
}

proof fn lemma_first_at_unique(s: Seq<char>, c: char, k1: int, k2: int)
    requires
        first_at(s, c, k1),
        first_at(s, c, k2),
    ensures
        k1 == k2,
{
    if k1 < k2 {
        assert(s[k1] != c);
    } else if k2 < k1 {
        assert(s[k2] != c);
    }
}

/// Reads the identifier and display name out of an add command whose text
/// is `content`; `None` when the command names no source.
pub fn parse_add_input(content: &str, feed_host: &str) -> (r: Option<(String, String)>)
    ensures
        match r {
            None => add_target(content@, feed_host@) is None,
            Some((id, name)) => add_target(content@, feed_host@) == Some((id@, name@)),
        },
{
    let w = split_words(content);
    if w.len() < 2 {
        return None;
    }
    assert(views(w@)[1] == w@[1]@);
    let input = w[1].as_str();
    let n = input.unicode_len();
    if n > 0 && input.get_char(0) == '@' {
        let handle = input.substring_char(1, n);
        let mut id = String::from_str("https://");
        id.append(feed_host);
        id.append("/");
        id.append(handle);
        id.append("/rss");
        return Some((id, String::from_str(handle)));
    }
    match split_once(input, ':') {
        Some((a, b)) => {
            proof {
                let k = choose|k: int|
                    first_at(input@, ':', k) && a@ == input@.subrange(0, k) && b@ == input@.subrange(
                        k + 1,
                        input@.len() as int,
                    );
                let j = choose|j: int| first_at(input@, ':', j);
                lemma_first_at_unique(input@, ':', j, k);
            }
            Some((a, b))
        },
        None => Some((String::from_str(input), String::from_str(input))),
    }
}

/// What the registry says of a request to follow a new source.
#[derive(PartialEq, Eq, Structural, Clone, Copy, Debug)]
pub enum AddDecision {
    /// The source is followed already.
    AlreadyFollowed,
    /// The registry holds the configured maximum of sources.
    AtCapacity,
    /// The source can be added.
    Accept,
}

/// The decision on a request to follow `id`, with at most `max_follows`
/// sources allowed.
pub open spec fn spec_decide(es: Seq<Entry>, id: Seq<char>, max_follows: usize) -> AddDecision {
    if has_id(es, id) {
        AddDecision::AlreadyFollowed
    } else if es.len() + 1 > max_follows {
        AddDecision::AtCapacity
    } else {
        AddDecision::Accept
    }
}

/// Decides a request to follow `id`, before anything reaches the registry.
pub fn decide_add(db: &SimpleDatabase, id: &str, max_follows: usize) -> (r: AddDecision)
    ensures
        r == spec_decide(db@, id@, max_follows),
{
    if db.contains_key(id) {
        AddDecision::AlreadyFollowed
    } else if db.follows_count() >= max_follows {
        AddDecision::AtCapacity
    } else {
        AddDecision::Accept
    }
}

/// The answer to an add command.
pub enum AddOutcome {
    /// The command names no source.
    MissingAccountName,
    /// The source is followed already; `pubkey` is its public key when its
    /// stored secret yields one.
    AlreadyFollowed { id: String, pubkey: Option<String> },
    /// The registry is full.
    AtCapacity { max_follows: usize },
    /// The registry file cannot record this identifier and display name.
    NotRecordable { id: String },
    /// The source may be added with a fresh identity: the caller appends its
    /// registry line to the file, inserts it, and starts its worker.
    Accepted { id: String, name: String, secret: String, pubkey: String },
}

/// Handles an add command whose text is `content` against the registry `db`,
/// with at most `max_follows` sources allowed. Feed handles are looked up on
/// `feed_host`.
pub fn channel_add(db: &SimpleDatabase, content: &str, feed_host: &str, max_follows: usize) -> (r:
    AddOutcome)
    requires
        db.wf(),
    ensures
        match add_target(content@, feed_host@) {
            None => r is MissingAccountName,
            Some((id, name)) => match spec_decide(db@, id, max_follows) {
                AddDecision::AlreadyFollowed => match r {
                    AddOutcome::AlreadyFollowed { id: i, pubkey } => i@ == id && (pubkey is Some
                        <==> exists|k: int|
                        0 <= k < db@.len() && db@[k].0 == id && seckey_accepted(#[trigger] db@[k].1))
                        && (pubkey matches Some(p) ==> exists|k: int|
                        0 <= k < db@.len() && db@[k].0 == id && p@ == xonly_hex_of(
                            #[trigger] db@[k].1,
                        )),
                    _ => false,
                },
                AddDecision::AtCapacity => match r {
                    AddOutcome::AtCapacity { max_follows: m } => m == max_follows,
                    _ => false,
                },
                AddDecision::Accept => if recordable(id, name) {
                    match r {
                        AddOutcome::Accepted { id: i, name: n, secret, pubkey } => i@ == id && n@
                            == name && is_lower_key_hex(secret@) && seckey_accepted(secret@)
                            && pubkey@ == xonly_hex_of(secret@) && writable((id, secret@, name)),
                        _ => false,
                    }
                } else {
                    match r {
                        AddOutcome::NotRecordable { id: i } => i@ == id,
                        _ => false,
                    }
                },
            },
        },
{
    let (id, name) = match parse_add_input(content, feed_host) {
        None => return AddOutcome::MissingAccountName,
        Some(t) => t,
    };
    match decide_add(db, id.as_str(), max_follows) {
        AddDecision::AlreadyFollowed => {
            let pubkey = channel_public_key(db, id.as_str());
            AddOutcome::AlreadyFollowed { id, pubkey }
        },
        AddDecision::AtCapacity => AddOutcome::AtCapacity { max_follows },
        AddDecision::Accept => {
            if !is_recordable(id.as_str(), name.as_str()) {
                return AddOutcome::NotRecordable { id };
            }
            let (secret, pubkey) = new_identity();
            proof {
                assert forall|i: int| 0 <= i < secret@.len() implies crate::keys::is_hex_digit(
                    #[trigger] secret@[i],
                ) by {
                    assert(crate::keys::is_lower_hex_digit(secret@[i]));
                }
            }
            AddOutcome::Accepted { id, name, secret, pubkey }
        },
    }
}

/// The registry and the decisions after a run of add requests, each accepted
/// one inserted before the next request is decided.
pub open spec fn run_adds(es: Seq<Entry>, adds: Seq<Entry>, max_follows: usize) -> (
    Seq<Entry>,
    Seq<AddDecision>,
)
    decreases adds.len(),
{
    if adds.len() == 0 {
        (es, Seq::empty())
    } else {
        let (es1, ds) = run_adds(es, adds.drop_last(), max_follows);
        let d = spec_decide(es1, adds.last().0, max_follows);
        (
            if d == AddDecision::Accept {
                es1.push(adds.last())
            } else {
                es1
            },
            ds.push(d),
        )
    }
}

proof fn lemma_adds_fill(adds: Seq<Entry>, max_follows: usize, m: int)
    requires
        0 <= m <= max_follows,
        m <= adds.len(),
        forall|i: int, j: int| 0 <= i < j < adds.len() ==> (#[trigger] adds[i]).0 != (#[trigger] adds[j]).0,
    ensures
        run_adds(Seq::empty(), adds.subrange(0, m), max_follows).0 == adds.subrange(0, m),
        run_adds(Seq::empty(), adds.subrange(0, m), max_follows).1 == Seq::new(
            m as nat,
            |i: int| AddDecision::Accept,
        ),
    decreases m,
{
    let pre = adds.subrange(0, m);
    if m == 0 {
        assert(pre =~= Seq::<Entry>::empty());
        assert(Seq::new(0, |i: int| AddDecision::Accept) =~= Seq::<AddDecision>::empty());
    } else {
        lemma_adds_fill(adds, max_follows, m - 1);
        let prev = adds.subrange(0, m - 1);
        assert(pre.drop_last() =~= prev);
        assert(!has_id(prev, adds[m - 1].0)) by {
            if has_id(prev, adds[m - 1].0) {
                let i = choose|i: int| 0 <= i < prev.len() && (#[trigger] prev[i]).0 == adds[m - 1].0;
                assert(adds[i].0 == adds[m - 1].0);
            }
        }
        assert(prev.push(adds[m - 1]) =~= pre);
        assert(Seq::new((m - 1) as nat, |i: int| AddDecision::Accept).push(AddDecision::Accept)
            =~= Seq::new(m as nat, |i: int| AddDecision::Accept));
    }
}

/// Capacity enforcement: with at most `max_follows` sources allowed and an
/// empty registry, of `max_follows + 1` requests for distinct sources the first
/// `max_follows` are accepted and the last one is refused for capacity before
/// it reaches the registry, which ends up holding `max_follows` sources.
pub proof fn lemma_capacity(adds: Seq<Entry>, max_follows: usize)
    requires
        adds.len() == max_follows + 1,
        forall|i: int, j: int| 0 <= i < j < adds.len() ==> (#[trigger] adds[i]).0 != (#[trigger] adds[j]).0,
    ensures
        forall|k: int|
            0 <= k < max_follows ==> #[trigger] run_adds(Seq::empty(), adds, max_follows).1[k]
                == AddDecision::Accept,
        run_adds(Seq::empty(), adds, max_follows).1.len() == adds.len(),
        run_adds(Seq::empty(), adds, max_follows).1[max_follows as int] == AddDecision::AtCapacity,
        run_adds(Seq::empty(), adds, max_follows).0.len() == max_follows,
{
    let m = max_follows as int;
    lemma_adds_fill(adds, max_follows, m);
    let prev = adds.subrange(0, m);
    assert(adds.drop_last() =~= prev);
    assert(!has_id(prev, adds[m].0)) by {
        if has_id(prev, adds[m].0) {
            let i = choose|i: int| 0 <= i < prev.len() && (#[trigger] prev[i]).0 == adds[m].0;
            assert(adds[i].0 == adds[m].0);
        }
    }
}

} // verus!
