use vstd::prelude::*;
use vstd::string::*;

use crate::seq_facts::lemma_filter_push;

verus! {

/// The character sequences of a sequence of strings.
pub open spec fn views(v: Seq<String>) -> Seq<Seq<char>> {
    v.map_values(|x: String| x@)
}

/// What a text is cut at: one given character, or any white space.
pub enum Separator {
    Char(char),
    Space,
}

impl Separator {
    pub open spec fn matches(self, c: char) -> bool {
        match self {
            Separator::Char(x) => c == x,
            Separator::Space => is_space(c),
        }
    }
}

/// `s` cut at every character that `sep` matches `sep` holds, separators dropped; the
/// pieces between two adjacent separators, and before or after one at either
/// end, are empty. Never empty itself: the text without any separator gives one
/// piece.
pub open spec fn split_where(s: Seq<char>, sep: Separator) -> Seq<Seq<char>>
    decreases s.len(),
{
    if s.len() == 0 {
        seq![Seq::empty()]
    } else {
        let p = split_where(s.drop_last(), sep);
        if sep.matches(s.last()) {
            p.push(Seq::empty())
        } else {
            p.update(p.len() - 1, p.last().push(s.last()))
        }
    }
}

/// `s` cut at every occurrence of `c`.
pub open spec fn split_on(s: Seq<char>, c: char) -> Seq<Seq<char>> {
    split_where(s, Separator::Char(c))
}

/// The characters that count as white space (Unicode's White_Space property).
pub open spec fn is_space(c: char) -> bool {
    ('\u{9}' <= c && c <= '\u{d}') || c == ' ' || c == '\u{85}' || c == '\u{a0}' || c == '\u{1680}'
        || ('\u{2000}' <= c && c <= '\u{200a}') || c == '\u{2028}' || c == '\u{2029}' || c
        == '\u{202f}' || c == '\u{205f}' || c == '\u{3000}'
}

/// The words of `s`: its non-empty pieces between white space.
pub open spec fn words(s: Seq<char>) -> Seq<Seq<char>> {
    split_where(s, Separator::Space).filter(|w: Seq<char>| w.len() > 0)
}

/// Whether `k` is the first position of `c` in `s`.
pub open spec fn first_at(s: Seq<char>, c: char, k: int) -> bool {
    0 <= k < s.len() && s[k] == c && forall|j: int| 0 <= j < k ==> s[j] != c
}

/// Splitting always yields at least one piece.
pub proof fn lemma_split_nonempty(s: Seq<char>, sep: Separator)
    ensures
        split_where(s, sep).len() >= 1,
    decreases s.len(),
{
    if s.len() > 0 {
        lemma_split_nonempty(s.drop_last(), sep);
    }
}

/// One step of `split_where`: the pieces of `s` from those of `s` without its
/// last character.
pub proof fn lemma_split_step(s: Seq<char>, sep: Separator)
    requires
        s.len() > 0,
    ensures
        split_where(s.drop_last(), sep).len() >= 1,
        sep.matches(s.last()) ==> split_where(s, sep) == split_where(s.drop_last(), sep).push(Seq::empty()),
        !sep.matches(s.last()) ==> split_where(s, sep) == split_where(s.drop_last(), sep).update(
            split_where(s.drop_last(), sep).len() - 1,
            split_where(s.drop_last(), sep).last().push(s.last()),
        ),
{
    lemma_split_nonempty(s.drop_last(), sep);
}

/// Tests a character against the white space of `is_space`.
pub fn char_is_space(c: char) -> (r: bool)
    ensures
        r == is_space(c),
{
    ('\u{9}' <= c && c <= '\u{d}') || c == ' ' || c == '\u{85}' || c == '\u{a0}' || c == '\u{1680}'
        || ('\u{2000}' <= c && c <= '\u{200a}') || c == '\u{2028}' || c == '\u{2029}' || c
        == '\u{202f}' || c == '\u{205f}' || c == '\u{3000}'
}

/// Cuts `s` at every occurrence of `sep`.
pub fn split_char(s: &str, sep: char) -> (r: Vec<String>)
    ensures
        views(r@) == split_on(s@, sep),
{
    let ghost f = Separator::Char(sep);
    let n = s.unicode_len();
    let mut parts: Vec<String> = Vec::new();
    let mut start: usize = 0;
    let mut i: usize = 0;
    proof {
        assert(s@.subrange(0, 0) =~= Seq::<char>::empty());
        assert(views(parts@).push(s@.subrange(0, 0)) =~= seq![Seq::<char>::empty()]);
    }
    while i < n
        invariant
            f == Separator::Char(sep),
            n == s@.len(),
            start <= i <= n,
            views(parts@).push(s@.subrange(start as int, i as int)) == split_where(
                s@.subrange(0, i as int),
                f,
            ),
        decreases n - i,
    {
        let c = s.get_char(i);
        proof {
            let pre = s@.subrange(0, i as int);
            let nxt = s@.subrange(0, i + 1);
            assert(nxt.drop_last() =~= pre);
            assert(nxt.last() == c);
            lemma_split_step(nxt, f);
            let cur = s@.subrange(start as int, i as int);
            assert(split_where(pre, f) == views(parts@).push(cur));
            if c == sep {
                assert(split_where(nxt, f) == views(parts@).push(cur).push(Seq::empty()));
            } else {
                assert(split_where(nxt, f) == views(parts@).push(cur).update(views(parts@).len() as int, cur.push(c)));
                assert(split_where(nxt, f) =~= views(parts@).push(cur.push(c)));
            }
        }
        if c == sep {
            let piece = String::from_str(s.substring_char(start, i));
            let ghost before = views(parts@);
            parts.push(piece);
            proof {
                assert(views(parts@) =~= before.push(piece@));
                assert(s@.subrange((i + 1) as int, (i + 1) as int) =~= Seq::<char>::empty());
            }
            start = i + 1;
        } else {
            proof {
                assert(s@.subrange(start as int, i + 1) =~= s@.subrange(start as int, i as int).push(
                    c,
                ));
                assert(views(parts@).push(s@.subrange(start as int, i + 1)) =~= split_where(
                    s@.subrange(0, i + 1),
                    f,
                ));
            }
        }
        i += 1;
    }
    let last = String::from_str(s.substring_char(start, n));
    let ghost before = views(parts@);
    parts.push(last);
    proof {
        assert(views(parts@) =~= before.push(last@));
        assert(s@.subrange(0, n as int) =~= s@);
    }
    parts
}

/// The words of `s`, in order.
pub fn split_words(s: &str) -> (r: Vec<String>)
    ensures
        views(r@) == words(s@),
{
    let ghost f = Separator::Space;
    let ghost ne = |w: Seq<char>| w.len() > 0;
    let n = s.unicode_len();
    let mut parts: Vec<String> = Vec::new();
    let mut start: usize = 0;
    let mut i: usize = 0;
    proof {
        assert(s@.subrange(0, 0) =~= Seq::<char>::empty());
        assert(views(parts@) =~= Seq::<Seq<char>>::empty());
        assert(seq![Seq::<char>::empty()].drop_last() =~= Seq::<Seq<char>>::empty());
        reveal(Seq::filter);
    }
    while i < n
        invariant
            f == Separator::Space,
            ne == (|w: Seq<char>| w.len() > 0),
            n == s@.len(),
            start <= i <= n,
            split_where(s@.subrange(0, i as int), f).len() >= 1,
            split_where(s@.subrange(0, i as int), f).last() == s@.subrange(start as int, i as int),
            views(parts@) == split_where(s@.subrange(0, i as int), f).drop_last().filter(ne),
        decreases n - i,
    {
        let c = s.get_char(i);
        let ghost pre = s@.subrange(0, i as int);
        let ghost nxt = s@.subrange(0, i + 1);
        let ghost sp = split_where(pre, f);
        proof {
            assert(nxt.drop_last() =~= pre);
            assert(nxt.last() == c);
            lemma_split_step(nxt, f);
        }
        if char_is_space(c) {
            if start < i {
                let piece = String::from_str(s.substring_char(start, i));
                let ghost before = views(parts@);
                parts.push(piece);
                proof {
                    assert(views(parts@) =~= before.push(piece@));
                }
            }
            proof {
                assert(split_where(nxt, f).drop_last() =~= sp);
                assert(sp =~= sp.drop_last().push(sp.last()));
                lemma_filter_push(sp.drop_last(), sp.last(), ne);
                assert(s@.subrange((i + 1) as int, (i + 1) as int) =~= Seq::<char>::empty());
            }
            start = i + 1;
        } else {
            proof {
                assert(s@.subrange(start as int, i + 1) =~= s@.subrange(start as int, i as int).push(
                    c,
                ));
                assert(split_where(nxt, f).drop_last() =~= sp.drop_last());
            }
        }
        i += 1;
    }
    let ghost sp = split_where(s@, f);
    proof {
        assert(s@.subrange(0, n as int) =~= s@);
        assert(sp =~= sp.drop_last().push(sp.last()));
        lemma_filter_push(sp.drop_last(), sp.last(), ne);
    }
    if start < n {
        let last = String::from_str(s.substring_char(start, n));
        let ghost before = views(parts@);
        parts.push(last);
        proof {
            assert(views(parts@) =~= before.push(last@));
        }
    }
    parts
}

/// Compares two strings character by character.
pub fn str_eq(a: &str, b: &str) -> (r: bool)
    ensures
        r == (a@ == b@),
{
    let n = a.unicode_len();
    if n != b.unicode_len() {
        return false;
    }
    let mut i: usize = 0;
    while i < n
        invariant
            n == a@.len() == b@.len(),
            i <= n,
            forall|j: int| 0 <= j < i ==> a@[j] == b@[j],
        decreases n - i,
    {
        if a.get_char(i) != b.get_char(i) {
            return false;
        }
        i += 1;
    }
    assert(a@ =~= b@);
    true
}

/// Cuts `s` at its first occurrence of `c`: the text before it and the text
/// after it, or `None` when `c` does not occur.
pub fn split_once(s: &str, c: char) -> (r: Option<(String, String)>)
    ensures
        match r {
            None => forall|j: int| 0 <= j < s@.len() ==> s@[j] != c,
            Some((a, b)) => exists|k: int|
                first_at(s@, c, k) && a@ == s@.subrange(0, k) && b@ == s@.subrange(k + 1, s@.len() as int),
        },
{
    let n = s.unicode_len();
    let mut i: usize = 0;
    while i < n
        invariant
            n == s@.len(),
            i <= n,
            forall|j: int| 0 <= j < i ==> s@[j] != c,
        decreases n - i,
    {
        if s.get_char(i) == c {
            let a = String::from_str(s.substring_char(0, i));
            let b = String::from_str(s.substring_char(i + 1, n));
            assert(first_at(s@, c, i as int));
            return Some((a, b));
        }
        i += 1;
    }
    None
}

} // verus!
