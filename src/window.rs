use vstd::prelude::*;

use crate::seq_facts::{lemma_filter_contains_pred, lemma_filter_push};

verus! {

/// One piece of content that an adapter found for a source.
#[derive(Clone, Debug)]
pub struct ContentItem {
    /// When the item was published (seconds since the Unix epoch).
    pub timestamp: u64,
    pub body: String,
    pub link: Option<String>,
}

/// Whether timestamp `t` falls in the half-open window `[since, until)`.
pub open spec fn spec_in_window(t: int, since: int, until: int) -> bool {
    since <= t && t < until
}

/// Tests membership of `t` in the half-open window `[since, until)`.
pub fn in_window(t: u64, since: u64, until: u64) -> (r: bool)
    ensures
        r == spec_in_window(t as int, since as int, until as int),
{
    since <= t && t < until
}

/// The items of `items` whose timestamp lies in `[since, until)`, in their order.
pub open spec fn spec_select(items: Seq<ContentItem>, since: u64, until: u64) -> Seq<ContentItem> {
    items.filter(|it: ContentItem| spec_in_window(it.timestamp as int, since as int, until as int))
}

impl ContentItem {
    /// A copy of this item.
    pub fn duplicate(&self) -> (r: ContentItem)
        ensures
            r == *self,
    {
        let link = match &self.link {
            Some(l) => Some(l.clone()),
            None => None,
        };
        ContentItem { timestamp: self.timestamp, body: self.body.clone(), link }
    }
}

/// Keeps the items that fall in the window `[since, until)`, in their order.
pub fn select_in_window(items: &Vec<ContentItem>, since: u64, until: u64) -> (r: Vec<ContentItem>)
    ensures
        r@ == spec_select(items@, since, until),
{
    let mut out: Vec<ContentItem> = Vec::new();
    let mut i: usize = 0;
    while i < items.len()
        invariant
            i <= items.len(),
            out@ == spec_select(items@.subrange(0, i as int), since, until),
        decreases items.len() - i,
    {
        proof {
            let pre = items@.subrange(0, i as int);
            assert(items@.subrange(0, i + 1) == pre.push(items@[i as int]));
            lemma_filter_push(
                pre,
                items@[i as int],
                |it: ContentItem| spec_in_window(it.timestamp as int, since as int, until as int),
            );
        }
        if in_window(items[i].timestamp, since, until) {
            out.push(items[i].duplicate());
        }
        i += 1;
    }
    assert(items@.subrange(0, items.len() as int) == items@);
    out
}

/// Puts a batch that an adapter gave newest first into chronological order.
pub fn chronological(items: Vec<ContentItem>) -> (r: Vec<ContentItem>)
    ensures
        r@ == items@.reverse(),
{
    let mut rest = items;
    let mut out: Vec<ContentItem> = Vec::new();
    while rest.len() > 0
        invariant
            rest@ == items@.subrange(0, rest@.len() as int),
            out@ == items@.subrange(rest@.len() as int, items@.len() as int).reverse(),
            rest@.len() <= items@.len(),
        decreases rest.len(),
    {
        let it = rest.pop().unwrap();
        out.push(it);
        proof {
            let k = rest@.len() as int;
            assert(rest@ =~= items@.subrange(0, k));
            assert(out@ =~= items@.subrange(k, items@.len() as int).reverse());
        }
    }
    assert(items@.subrange(0, items@.len() as int) =~= items@);
    out
}

/// Adjacent windows `[a, b)` and `[b, c)` hold no timestamp twice, the boundary
/// `b` included, and together they hold exactly the timestamps of `[a, c)`.
pub proof fn lemma_adjacent_windows(t: int, a: int, b: int, c: int)
    requires
        a <= b <= c,
    ensures
        !(spec_in_window(t, a, b) && spec_in_window(t, b, c)),
        spec_in_window(t, a, b) || spec_in_window(t, b, c) <==> spec_in_window(t, a, c),
{
}

/// Selecting from adjacent windows `[a, b)` and `[b, c)` picks each item at
/// most once: an item picked in one window is never picked in the other.
pub proof fn lemma_no_duplicate_delivery(items: Seq<ContentItem>, a: u64, b: u64, c: u64)
    requires
        a <= b <= c,
    ensures
        forall|x: ContentItem|
            #[trigger] spec_select(items, a, b).contains(x) ==> !spec_select(items, b, c).contains(x),
        spec_select(items, a, b).len() + spec_select(items, b, c).len() == spec_select(items, a, c).len(),
    decreases items.len(),
{
    let fab = |it: ContentItem| spec_in_window(it.timestamp as int, a as int, b as int);
    let fbc = |it: ContentItem| spec_in_window(it.timestamp as int, b as int, c as int);
    assert forall|x: ContentItem| #[trigger] spec_select(items, a, b).contains(x) implies !spec_select(
        items,
        b,
        c,
    ).contains(x) by {
        lemma_filter_contains_pred(items, x, fab);
        if spec_select(items, b, c).contains(x) {
            lemma_filter_contains_pred(items, x, fbc);
        }
    }
    if items.len() > 0 {
        let pre = items.drop_last();
        lemma_no_duplicate_delivery(pre, a, b, c);
        assert(items == pre.push(items.last()));
        lemma_filter_push(pre, items.last(), fab);
        lemma_filter_push(pre, items.last(), fbc);
        lemma_filter_push(
            pre,
            items.last(),
            |it: ContentItem| spec_in_window(it.timestamp as int, a as int, c as int),
        );
    }
}

} // verus!
