use vstd::prelude::*;
use vstd::string::*;

use crate::keys::{is_hex_digit, is_key_hex};
use crate::text::{split_char, split_on, str_eq, views};

verus! {

/// A followed source as the registry stores it: its identifier, the secret
/// of its signing identity (hexadecimal) and its display name.
pub struct FollowedSource {
    pub id: String,
    pub secret: String,
    pub display_name: String,
}

/// A registry entry as plain text: identifier, secret, display name.
pub type Entry = (Seq<char>, Seq<char>, Seq<char>);

pub open spec fn entry_of(f: FollowedSource) -> Entry {
    (f.id@, f.secret@, f.display_name@)
}

/// Whether some entry of `es` has identifier `id`.
pub open spec fn has_id(es: Seq<Entry>, id: Seq<char>) -> bool {
    exists|i: int| 0 <= i < es.len() && (#[trigger] es[i]).0 == id
}

/// No two entries share an identifier.
pub open spec fn ids_unique(es: Seq<Entry>) -> bool {
    forall|i: int, j: int| 0 <= i < j < es.len() ==> (#[trigger] es[i]).0 != (#[trigger] es[j]).0
}

/// A line without the carriage return that may end it.
pub open spec fn strip_cr(l: Seq<char>) -> Seq<char> {
    if l.len() > 0 && l.last() == '\r' {
        l.drop_last()
    } else {
        l
    }
}

/// Whether the secret field of a line starts after position `p`: a colon
/// there, then 64 hexadecimal digits, then a colon or the end of the line.
pub open spec fn key_at(l: Seq<char>, p: int) -> bool {
    0 <= p && p + 65 <= l.len() && l[p] == ':' && is_key_hex(l.subrange(p + 1, p + 65)) && (p + 65
        == l.len() || l[p + 65] == ':')
}

/// `p` is the first position where a secret field starts.
pub open spec fn first_key_at(l: Seq<char>, p: int) -> bool {
    key_at(l, p) && forall|j: int| 0 <= j < p ==> !key_at(l, j)
}

/// The entry that a line of the registry file holds: `id:secret` or
/// `id:secret:display_name`, where the secret is 64 hexadecimal digits and the
/// display name defaults to the identifier. The identifier ends at the first
/// colon that starts a secret field, so it may hold colons itself (a feed's
/// address), and so may the display name. A line without a secret field is
/// malformed.
pub open spec fn parsed_line(line: Seq<char>) -> Option<Entry> {
    let l = strip_cr(line);
    if exists|p: int| first_key_at(l, p) {
        let p = choose|p: int| first_key_at(l, p);
        let id = l.subrange(0, p);
        Some(
            (
                id,
                l.subrange(p + 1, p + 65),
                if p + 65 == l.len() {
                    id
                } else {
                    l.subrange(p + 66, l.len() as int)
                },
            ),
        )
    } else {
        None
    }
}

proof fn lemma_first_key_unique(l: Seq<char>, a: int, b: int)
    requires
        first_key_at(l, a),
        first_key_at(l, b),
    ensures
        a == b,
{
}

/// The entries that the lines `ls` describe, in order, malformed lines
/// skipped; `None` when two of them share an identifier.
pub open spec fn load(ls: Seq<Seq<char>>) -> Option<Seq<Entry>>
    decreases ls.len(),
{
    if ls.len() == 0 {
        Some(Seq::empty())
    } else {
        match load(ls.drop_last()) {
            None => None,
            Some(es) => match parsed_line(ls.last()) {
                None => Some(es),
                Some(e) => if has_id(es, e.0) {
                    None
                } else {
                    Some(es.push(e))
                },
            },
        }
    }
}

/// Once two lines clash, no later line makes the file consistent again.
proof fn lemma_load_clash_persists(ls: Seq<Seq<char>>, k: int)
    requires
        0 <= k <= ls.len(),
        load(ls.subrange(0, k)) is None,
    ensures
        load(ls) is None,
    decreases ls.len(),
{
    if k < ls.len() {
        assert(ls.drop_last().subrange(0, k) =~= ls.subrange(0, k));
        lemma_load_clash_persists(ls.drop_last(), k);
    } else {
        assert(ls.subrange(0, k) =~= ls);
    }
}

/// The registry after an insertion of `e` into `es`, and whether it was
/// accepted: an identifier that is already there is rejected and the registry
/// stays as it was.
pub open spec fn spec_insert(es: Seq<Entry>, e: Entry) -> (Seq<Entry>, bool) {
    if has_id(es, e.0) {
        (es, false)
    } else {
        (es.push(e), true)
    }
}

/// The line of the registry file that records an entry.
pub open spec fn spec_line(e: Entry) -> Seq<char> {
    (e.0.push(':') + e.1).push(':') + e.2
}

/// No character of `f` is a line break.
pub open spec fn single_line(f: Seq<char>) -> bool {
    forall|i: int| 0 <= i < f.len() ==> f[i] != '\n'
}

/// An identifier and a display name that a line records faithfully: the
/// identifier holds nothing that reads as a secret field, neither holds a line
/// break, and the display name does not end in a carriage return.
pub open spec fn recordable(id: Seq<char>, name: Seq<char>) -> bool {
    (forall|p: int| 0 <= p < id.len() ==> !key_at(id, p)) && single_line(id) && single_line(name)
        && !(name.len() > 0 && name.last() == '\r')
}

/// An entry that its line records faithfully.
pub open spec fn writable(e: Entry) -> bool {
    is_key_hex(e.1) && recordable(e.0, e.2)
}

/// Inside the identifier, a secret field of the line is one of the identifier.
proof fn lemma_key_in_id(e: Entry, p: int)
    requires
        is_key_hex(e.1),
        0 <= p < e.0.len(),
        key_at(spec_line(e), p),
    ensures
        key_at(e.0, p),
{
    let l = spec_line(e);
    let n = e.0.len() as int;
    assert(l[n] == ':');
    if p + 65 > n {
        let w = l.subrange(p + 1, p + 65);
        assert(w[n - p - 1] == l[n]);
        assert(!is_hex_digit(w[n - p - 1]));
    } else {
        assert(l.subrange(p + 1, p + 65) =~= e.0.subrange(p + 1, p + 65));
        assert(l[p] == e.0[p]);
        if p + 65 < n {
            assert(l[p + 65] == e.0[p + 65]);
        }
    }
}

/// The line written for an entry reads back as that entry.
pub proof fn lemma_line_round_trip(e: Entry)
    requires
        writable(e),
    ensures
        parsed_line(spec_line(e)) == Some(e),
{
    let l = spec_line(e);
    let n = e.0.len() as int;
    assert(l.len() == n + 66 + e.2.len());
    assert(strip_cr(l) == l) by {
        if e.2.len() > 0 {
            assert(l.last() == e.2.last());
        } else {
            assert(l.last() == ':');
        }
    }
    assert(l.subrange(n + 1, n + 65) =~= e.1);
    assert(l[n] == ':' && l[n + 65] == ':');
    assert(key_at(l, n));
    assert forall|j: int| 0 <= j < n implies !key_at(l, j) by {
        if key_at(l, j) {
            lemma_key_in_id(e, j);
        }
    }
    assert(first_key_at(l, n));
    let p = choose|p: int| first_key_at(l, p);
    lemma_first_key_unique(l, p, n);
    assert(l.subrange(0, n) =~= e.0);
    assert(l.subrange(n + 66, l.len() as int) =~= e.2);
}

/// Appending to the registry file the line of an entry that an insertion
/// accepted keeps the file in step with the registry: reading the lines back
/// gives the registry after the insertion.
pub proof fn lemma_append_keeps_file_in_step(ls: Seq<Seq<char>>, es: Seq<Entry>, e: Entry)
    requires
        load(ls) == Some(es),
        writable(e),
        spec_insert(es, e).1,
    ensures
        load(ls.push(spec_line(e))) == Some(spec_insert(es, e).0),
{
    lemma_line_round_trip(e);
    assert(ls.push(spec_line(e)).drop_last() =~= ls);
}

/// The followed sources, backed by a line-oriented file that the caller
/// appends each new entry to.
pub struct SimpleDatabase {
    follows: Vec<FollowedSource>,
    file: String,
}

impl View for SimpleDatabase {
    type V = Seq<Entry>;

    closed spec fn view(&self) -> Seq<Entry> {
        self.follows@.map_values(|f: FollowedSource| entry_of(f))
    }
}

impl SimpleDatabase {
    /// Identifiers are unique.
    pub open spec fn wf(&self) -> bool {
        ids_unique(self@)
    }

    /// The path of the backing file.
    pub closed spec fn spec_path(&self) -> Seq<char> {
        self.file@
    }

    /// An empty registry backed by the file at `path`.
    pub fn new(path: String) -> (r: SimpleDatabase)
        ensures
            r.wf(),
            r@ == Seq::<Entry>::empty(),
            r.spec_path() == path@,
    {
        let r = SimpleDatabase { follows: Vec::new(), file: path };
        assert(r@ =~= Seq::<Entry>::empty());
        r
    }

    /// The path of the backing file.
    pub fn path(&self) -> (r: &str)
        ensures
            r@ == self.spec_path(),
    {
        self.file.as_str()
    }

    /// The registry that the file at `path`, whose text is `content`, records.
    /// Malformed lines are skipped; an identifier recorded twice is an error,
    /// which carries that identifier.
    pub fn from_file(path: String, content: &str) -> (r: Result<SimpleDatabase, String>)
        ensures
            match r {
                Ok(db) => db.wf() && load(split_on(content@, '\n')) == Some(db@) && db.spec_path()
                    == path@,
                Err(_) => load(split_on(content@, '\n')) is None,
            },
    {
        let lines = split_char(content, '\n');
        let ghost ls = views(lines@);
        let mut db = SimpleDatabase::new(path);
        let mut i: usize = 0;
        assert(ls.subrange(0, 0) =~= Seq::<Seq<char>>::empty());
        while i < lines.len()
            invariant
                ls == views(lines@),
                ls == split_on(content@, '\n'),
                i <= lines.len(),
                db.wf(),
                db.spec_path() == path@,
                load(ls.subrange(0, i as int)) == Some(db@),
            decreases lines.len() - i,
        {
            let ghost pre = ls.subrange(0, i as int);
            assert(ls.subrange(0, i + 1).drop_last() =~= pre);
            assert(ls.subrange(0, i + 1).last() == lines@[i as int]@);
            match parse_line(lines[i].as_str()) {
                None => {},
                Some(f) => {
                    if db.contains_key(f.id.as_str()) {
                        proof {
                            lemma_load_clash_persists(ls, i + 1);
                        }
                        return Err(f.id);
                    }
                    let ghost before = db@;
                    db.follows.push(f);
                    assert(db@ =~= before.push(entry_of(f)));
                    assert(db.wf()) by {
                        assert forall|a: int, b: int| 0 <= a < b < db@.len() implies (
                        #[trigger] db@[a]).0 != (#[trigger] db@[b]).0 by {
                            if b == before.len() {
                                assert(db@[a] == before[a]);
                            } else {
                                assert(db@[a] == before[a] && db@[b] == before[b]);
                            }
                        }
                    }
                },
            }
            i += 1;
        }
        assert(ls.subrange(0, lines.len() as int) =~= ls);
        Ok(db)
    }

    /// Whether some source has identifier `key`.
    pub fn contains_key(&self, key: &str) -> (r: bool)
        ensures
            r == has_id(self@, key@),
    {
        let mut i: usize = 0;
        while i < self.follows.len()
            invariant
                i <= self.follows.len(),
                forall|j: int| 0 <= j < i ==> (#[trigger] self@[j]).0 != key@,
            decreases self.follows.len() - i,
        {
            if str_eq(self.follows[i].id.as_str(), key) {
                assert(self@[i as int].0 == key@);
                return true;
            }
            i += 1;
        }
        false
    }

    /// Position of the source with identifier `key`.
    fn position(&self, key: &str) -> (r: usize)
        requires
            has_id(self@, key@),
        ensures
            r < self@.len(),
            self@[r as int].0 == key@,
            self.follows@[r as int].id@ == key@,
    {
        let mut i: usize = 0;
        while i < self.follows.len()
            invariant
                i <= self.follows.len(),
                has_id(self@, key@),
                forall|j: int| 0 <= j < i ==> (#[trigger] self@[j]).0 != key@,
            decreases self.follows.len() - i,
        {
            if str_eq(self.follows[i].id.as_str(), key) {
                return i;
            }
            i += 1;
        }
        proof {
            let j = choose|j: int| 0 <= j < self@.len() && (#[trigger] self@[j]).0 == key@;
            assert(self@[j].0 == key@);
        }
        0
    }

    /// The secret of the source with identifier `key`, which must be there.
    pub fn get(&self, key: &str) -> (r: String)
        requires
            self.wf(),
            has_id(self@, key@),
        ensures
            forall|i: int| 0 <= i < self@.len() && #[trigger] self@[i].0 == key@ ==> self@[i].1 == r@,
    {
        let i = self.position(key);
        let r = self.follows[i].secret.clone();
        assert(self@[i as int].1 == r@);
        r
    }

    /// The display name of the source with identifier `key`, which must be there.
    pub fn display_name(&self, key: &str) -> (r: String)
        requires
            self.wf(),
            has_id(self@, key@),
        ensures
            forall|i: int| 0 <= i < self@.len() && #[trigger] self@[i].0 == key@ ==> self@[i].2 == r@,
    {
        let i = self.position(key);
        let r = self.follows[i].display_name.clone();
        assert(self@[i as int].2 == r@);
        r
    }

    /// Number of followed sources: of entries, whose identifiers are distinct
    /// by `wf`.
    pub fn follows_count(&self) -> (r: usize)
        ensures
            r == self@.len(),
    {
        self.follows.len()
    }

    /// All followed sources, in the order they were recorded.
    pub fn get_follows(&self) -> (r: Vec<FollowedSource>)
        ensures
            r@.map_values(|f: FollowedSource| entry_of(f)) == self@,
    {
        let mut out: Vec<FollowedSource> = Vec::new();
        let mut i: usize = 0;
        while i < self.follows.len()
            invariant
                i <= self.follows.len(),
                out@.map_values(|f: FollowedSource| entry_of(f)) == self@.subrange(0, i as int),
            decreases self.follows.len() - i,
        {
            let f = &self.follows[i];
            let copy = FollowedSource {
                id: f.id.clone(),
                secret: f.secret.clone(),
                display_name: f.display_name.clone(),
            };
            let ghost before = out@.map_values(|f: FollowedSource| entry_of(f));
            out.push(copy);
            assert(out@.map_values(|f: FollowedSource| entry_of(f)) =~= before.push(entry_of(copy)));
            assert(self@.subrange(0, i + 1) =~= self@.subrange(0, i as int).push(self@[i as int]));
            i += 1;
        }
        assert(self@.subrange(0, self@.len() as int) =~= self@);
        out
    }

    /// Records a new source. An identifier that is already there is rejected
    /// and the registry is left unchanged. The caller appends `line_for` of
    /// the entry to the backing file before it lets others read the registry.
    pub fn insert(&mut self, id: String, secret: String, display_name: String) -> (r: Result<(), String>)
        requires
            old(self).wf(),
        ensures
            final(self).wf(),
            final(self).spec_path() == old(self).spec_path(),
            (final(self)@, r is Ok) == spec_insert(old(self)@, (id@, secret@, display_name@)),
    {
        if self.contains_key(id.as_str()) {
            return Err(String::from_str("Key already in the database"));
        }
        let ghost before = self@;
        let f = FollowedSource { id, secret, display_name };
        self.follows.push(f);
        assert(self@ =~= before.push(entry_of(f)));
        assert(self.wf()) by {
            assert forall|a: int, b: int| 0 <= a < b < self@.len() implies (#[trigger] self@[a]).0
                != (#[trigger] self@[b]).0 by {
                if b == before.len() {
                    assert(self@[a] == before[a]);
                } else {
                    assert(self@[a] == before[a] && self@[b] == before[b]);
                }
            }
        }
        Ok(())
    }
}

/// Reads one line of the registry file.
pub fn parse_line(line: &str) -> (r: Option<FollowedSource>)
    ensures
        match r {
            None => parsed_line(line@) is None,
            Some(f) => parsed_line(line@) == Some(entry_of(f)),
        },
{
    let n = line.unicode_len();
    let body = if n > 0 && line.get_char(n - 1) == '\r' {
        line.substring_char(0, n - 1)
    } else {
        line.substring_char(0, n)
    };
    assert(body@ == strip_cr(line@)) by {
        assert(line@.subrange(0, n as int) =~= line@);
        if n > 0 {
            assert(line@.subrange(0, n - 1) =~= line@.drop_last());
        }
    }
    let n = body.unicode_len();
    let mut p: usize = 0;
    while p < n
        invariant
            n == body@.len(),
            body@ == strip_cr(line@),
            p <= n,
            forall|j: int| 0 <= j < p ==> !key_at(body@, j),
        decreases n - p,
    {
        if key_field_at(body, p) {
            let ghost l = body@;
            proof {
                assert(first_key_at(l, p as int));
                let q = choose|q: int| first_key_at(l, q);
                lemma_first_key_unique(l, q, p as int);
            }
            let id = String::from_str(body.substring_char(0, p));
            let secret = String::from_str(body.substring_char(p + 1, p + 65));
            let display_name = if p + 65 == n {
                String::from_str(body.substring_char(0, p))
            } else {
                String::from_str(body.substring_char(p + 66, n))
            };
            return Some(FollowedSource { id, secret, display_name });
        }
        p += 1;
    }
    proof {
        assert forall|q: int| !first_key_at(body@, q) by {
            if first_key_at(body@, q) && q >= n {
                assert(q + 65 <= body@.len());
            }
        }
    }
    None
}

/// Tests a character for a hexadecimal digit.
fn hex_digit(c: char) -> (r: bool)
    ensures
        r == is_hex_digit(c),
{
    ('0' <= c && c <= '9') || ('a' <= c && c <= 'f') || ('A' <= c && c <= 'F')
}

/// Whether the secret field of line `l` starts at position `p`.
fn key_field_at(l: &str, p: usize) -> (r: bool)
    requires
        p <= l@.len(),
    ensures
        r == key_at(l@, p as int),
{
    let n = l.unicode_len();
    if n - p < 65 || l.get_char(p) != ':' {
        return false;
    }
    let mut k: usize = p + 1;
    while k < p + 65
        invariant
            n == l@.len(),
            p + 65 <= n,
            p + 1 <= k <= p + 65,
            forall|j: int| p + 1 <= j < k ==> is_hex_digit(#[trigger] l@[j]),
        decreases p + 65 - k,
    {
        if !hex_digit(l.get_char(k)) {
            proof {
                let w = l@.subrange(p + 1, p + 65);
                assert(w[k - p - 1] == l@[k as int]);
            }
            return false;
        }
        k += 1;
    }
    proof {
        let w = l@.subrange(p + 1, p + 65);
        assert forall|i: int| 0 <= i < w.len() implies is_hex_digit(#[trigger] w[i]) by {
            assert(w[i] == l@[p + 1 + i]);
        }
    }
    p + 65 == n || l.get_char(p + 65) == ':'
}

/// Whether no character of `s` is a line break.
fn no_line_break(s: &str) -> (r: bool)
    ensures
        r == single_line(s@),
{
    let n = s.unicode_len();
    let mut i: usize = 0;
    while i < n
        invariant
            n == s@.len(),
            i <= n,
            forall|j: int| 0 <= j < i ==> s@[j] != '\n',
        decreases n - i,
    {
        if s.get_char(i) == '\n' {
            return false;
        }
        i += 1;
    }
    true
}

/// Whether a line records this identifier and display name faithfully.
pub fn is_recordable(id: &str, display_name: &str) -> (r: bool)
    ensures
        r == recordable(id@, display_name@),
{
    let n = id.unicode_len();
    let mut p: usize = 0;
    while p < n
        invariant
            n == id@.len(),
            p <= n,
            forall|j: int| 0 <= j < p ==> !key_at(id@, j),
        decreases n - p,
    {
        if key_field_at(id, p) {
            return false;
        }
        p += 1;
    }
    let m = display_name.unicode_len();
    no_line_break(id) && no_line_break(display_name) && !(m > 0 && display_name.get_char(m - 1)
        == '\r')
}

/// The line of the registry file that records a source.
pub fn line_for(id: &str, secret: &str, display_name: &str) -> (r: String)
    ensures
        r@ == spec_line((id@, secret@, display_name@)),
{
    proof {
        reveal_strlit(":");
    }
    let mut r = String::from_str(id);
    r.append(":");
    r.append(secret);
    r.append(":");
    r.append(display_name);
    assert(r@ =~= spec_line((id@, secret@, display_name@)));
    r
}

/// Registry uniqueness: inserting the same identifier twice into a registry
/// that does not hold it succeeds once and is rejected the second time; the
/// registry grows by one entry, the first one.
pub proof fn lemma_insert_twice(es: Seq<Entry>, first: Entry, second: Entry)
    requires
        !has_id(es, first.0),
        second.0 == first.0,
    ensures
        spec_insert(es, first) == (es.push(first), true),
        spec_insert(spec_insert(es, first).0, second) == (es.push(first), false),
        spec_insert(spec_insert(es, first).0, second).0.len() == es.len() + 1,
{
    assert(es.push(first)[es.len() as int].0 == second.0);
}

} // verus!
