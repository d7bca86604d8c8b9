//! A map of header names to header values whose entries are kept in the
//! order of their names, as `String`s compare in std (byte by byte, over
//! their UTF-8 encodings).

use vstd::prelude::*;
use vstd::utf8::encode_utf8;

verus! {

/// `a` comes before `b` because, at position `i`, `a` has ended or has a
/// smaller byte than `b`, and the two agree on every byte before `i`.
pub open spec fn bytes_lt_at(a: Seq<u8>, b: Seq<u8>, i: int) -> bool {
    &&& 0 <= i <= a.len()
    &&& i < b.len()
    &&& forall|j: int| 0 <= j < i ==> a[j] == b[j]
    &&& (i == a.len() || a[i] < b[i])
}

/// Strict lexicographic order of byte strings, the order of `[u8]` in std.
pub open spec fn bytes_lt(a: Seq<u8>, b: Seq<u8>) -> bool {
    exists|i: int| bytes_lt_at(a, b, i)
}

/// Order of header names: the order of their UTF-8 encodings, which is how
/// `String` and `str` compare in std.
pub open spec fn key_lt(a: Seq<char>, b: Seq<char>) -> bool {
    bytes_lt(encode_utf8(a), encode_utf8(b))
}

/// No byte string comes before itself.
pub proof fn lemma_bytes_lt_irreflexive(a: Seq<u8>)
    ensures
        !bytes_lt(a, a),
{
}

/// At most one of two byte strings comes before the other.
pub proof fn lemma_bytes_lt_asymmetric(a: Seq<u8>, b: Seq<u8>)
    requires
        bytes_lt(a, b),
    ensures
        !bytes_lt(b, a),
{
    let i = choose|i: int| bytes_lt_at(a, b, i);
    if bytes_lt(b, a) {
        let j = choose|j: int| bytes_lt_at(b, a, j);
        if i < j {
            assert(b[i] == a[i]);
        } else if j < i {
            assert(a[j] == b[j]);
        }
    }
}

/// The order of byte strings is transitive.
pub proof fn lemma_bytes_lt_transitive(a: Seq<u8>, b: Seq<u8>, c: Seq<u8>)
    requires
        bytes_lt(a, b),
        bytes_lt(b, c),
    ensures
        bytes_lt(a, c),
{
    let i = choose|i: int| bytes_lt_at(a, b, i);
    let j = choose|j: int| bytes_lt_at(b, c, j);
    if i < j {
        assert(b[i] == c[i]);
        assert(bytes_lt_at(a, c, i));
    } else if j < i {
        assert(a[j] == b[j]);
        assert(bytes_lt_at(a, c, j));
    } else {
        assert(bytes_lt_at(a, c, i));
    }
}

/// Two names with the same UTF-8 encoding are the same name.
pub proof fn lemma_encode_injective(a: Seq<char>, b: Seq<char>)
    requires
        encode_utf8(a) == encode_utf8(b),
    ensures
        a == b,
{
    vstd::utf8::encode_utf8_decode_utf8(a);
    vstd::utf8::encode_utf8_decode_utf8(b);
}

/// Any two byte strings are equal or one comes before the other.
pub proof fn lemma_bytes_lt_total(a: Seq<u8>, b: Seq<u8>)
    ensures
        a == b || bytes_lt(a, b) || bytes_lt(b, a),
    decreases a.len(),
{
    if a.len() == 0 || b.len() == 0 {
        if a.len() < b.len() {
            assert(bytes_lt_at(a, b, 0));
        } else if b.len() < a.len() {
            assert(bytes_lt_at(b, a, 0));
        } else {
            assert(a =~= b);
        }
    } else if a[0] < b[0] {
        assert(bytes_lt_at(a, b, 0));
    } else if b[0] < a[0] {
        assert(bytes_lt_at(b, a, 0));
    } else {
        let (ta, tb) = (a.drop_first(), b.drop_first());
        lemma_bytes_lt_total(ta, tb);
        if ta == tb {
            assert(a =~= seq![a[0]] + ta);
            assert(b =~= seq![b[0]] + tb);
        } else if bytes_lt(ta, tb) {
            let i = choose|i: int| bytes_lt_at(ta, tb, i);
            assert forall|j: int| 0 <= j < i + 1 implies a[j] == b[j] by {
                if j > 0 {
                    assert(a[j] == ta[j - 1] && b[j] == tb[j - 1]);
                }
            }
            assert(bytes_lt_at(a, b, i + 1));
        } else {
            let i = choose|i: int| bytes_lt_at(tb, ta, i);
            assert forall|j: int| 0 <= j < i + 1 implies b[j] == a[j] by {
                if j > 0 {
                    assert(a[j] == ta[j - 1] && b[j] == tb[j - 1]);
                }
            }
            assert(bytes_lt_at(b, a, i + 1));
        }
    }
}

/// A read gives back what the last write stored under the same name, and
/// a write leaves every other name as it was.
pub proof fn lemma_read_after_write(
    m: Map<Seq<char>, Seq<char>>,
    k: Seq<char>,
    v: Seq<char>,
    other: Seq<char>,
)
    requires
        other != k,
    ensures
        m.insert(k, v).contains_key(k),
        m.insert(k, v)[k] == v,
        m.insert(k, v).contains_key(other) == m.contains_key(other),
        m.contains_key(other) ==> m.insert(k, v)[other] == m[other],
{
}

/// The result of comparing two byte strings.
pub enum ByteOrder {
    Less,
    Equal,
    Greater,
}

/// Compares two byte strings lexicographically, as `[u8]` compares in std.
pub fn compare_bytes(a: &[u8], b: &[u8]) -> (r: ByteOrder)
    ensures
        r is Less <==> bytes_lt(a@, b@),
        r is Equal <==> a@ == b@,
        r is Greater <==> bytes_lt(b@, a@),
{
    let n: usize = if a.len() < b.len() { a.len() } else { b.len() };
    let mut i: usize = 0;
    while i < n
        invariant
            0 <= i <= n,
            n == a@.len() || n == b@.len(),
            n <= a@.len(),
            n <= b@.len(),
            forall|j: int| 0 <= j < i ==> a@[j] == b@[j],
        decreases n - i,
    {
        if a[i] < b[i] {
            assert(bytes_lt_at(a@, b@, i as int));
            proof {
                lemma_bytes_lt_asymmetric(a@, b@);
            }
            return ByteOrder::Less;
        }
        if b[i] < a[i] {
            assert(bytes_lt_at(b@, a@, i as int));
            proof {
                lemma_bytes_lt_asymmetric(b@, a@);
            }
            return ByteOrder::Greater;
        }
        i = i + 1;
    }
    if a.len() < b.len() {
        assert(bytes_lt_at(a@, b@, i as int));
        proof {
            lemma_bytes_lt_asymmetric(a@, b@);
        }
        ByteOrder::Less
    } else if b.len() < a.len() {
        assert(bytes_lt_at(b@, a@, i as int));
        proof {
            lemma_bytes_lt_asymmetric(b@, a@);
        }
        ByteOrder::Greater
    } else {
        assert(a@ =~= b@);
        proof {
            lemma_bytes_lt_irreflexive(a@);
        }
        ByteOrder::Equal
    }
}


/// A map from header names to header values. Its entries are kept sorted by
/// name (in the order `key_lt`), and no name occurs twice.
pub struct HeaderMap {
    entries: Vec<(String, String)>,
}

/// The names and values of a sequence of entries, as character sequences.
pub open spec fn entry_views(entries: Seq<(String, String)>) -> Seq<(Seq<char>, Seq<char>)> {
    entries.map_values(|e: (String, String)| (e.0@, e.1@))
}

/// Entries sorted strictly by name.
pub open spec fn sorted_by_name(entries: Seq<(Seq<char>, Seq<char>)>) -> bool {
    forall|i: int, j: int|
        0 <= i < j < entries.len() ==> key_lt(#[trigger] entries[i].0, #[trigger] entries[j].0)
}

/// The map that a sequence of entries with distinct names stands for.
pub open spec fn entries_map(entries: Seq<(Seq<char>, Seq<char>)>) -> Map<Seq<char>, Seq<char>> {
    Map::new(
        |k: Seq<char>| exists|i: int| 0 <= i < entries.len() && #[trigger] entries[i].0 == k,
        |k: Seq<char>| entries[choose|i: int| 0 <= i < entries.len() && #[trigger] entries[i].0 == k].1,
    )
}

/// In sorted entries, each entry gives the value of its name.
pub proof fn lemma_entries_map_at(entries: Seq<(Seq<char>, Seq<char>)>, i: int)
    requires
        sorted_by_name(entries),
        0 <= i < entries.len(),
    ensures
        entries_map(entries).contains_key(entries[i].0),
        entries_map(entries)[entries[i].0] == entries[i].1,
{
    let k = entries[i].0;
    assert(entries_map(entries).dom().contains(k));
    let c = choose|c: int| 0 <= c < entries.len() && #[trigger] entries[c].0 == k;
    if c != i {
        lemma_bytes_lt_irreflexive(encode_utf8(k));
        if c < i {
            assert(key_lt(entries[c].0, entries[i].0));
        } else {
            assert(key_lt(entries[i].0, entries[c].0));
        }
    }
}

/// Putting a new name at a place after every smaller name and before every
/// larger one keeps the entries sorted.
proof fn lemma_sorted_insert(
    ev: Seq<(Seq<char>, Seq<char>)>,
    p: int,
    k: Seq<char>,
    v: Seq<char>,
)
    requires
        sorted_by_name(ev),
        0 <= p <= ev.len(),
        forall|j: int| 0 <= j < p ==> key_lt(#[trigger] ev[j].0, k),
        p < ev.len() ==> key_lt(k, ev[p].0),
    ensures
        sorted_by_name(ev.insert(p, (k, v))),
        !entries_map(ev).contains_key(k),
{
    if entries_map(ev).contains_key(k) {
        let j = choose|j: int| 0 <= j < ev.len() && #[trigger] ev[j].0 == k;
        lemma_bytes_lt_irreflexive(encode_utf8(k));
        if j > p {
            assert(key_lt(ev[p].0, ev[j].0));
            lemma_bytes_lt_transitive(encode_utf8(k), encode_utf8(ev[p].0), encode_utf8(ev[j].0));
        }
    }
    let nv = ev.insert(p, (k, v));
    assert forall|a: int, b: int| 0 <= a < b < nv.len() implies key_lt(
        #[trigger] nv[a].0,
        #[trigger] nv[b].0,
    ) by {
        if a < p {
            if b == p {
            } else if b < p {
                assert(nv[b].0 == ev[b].0);
            } else {
                assert(nv[b].0 == ev[b - 1].0);
            }
        } else if a == p {
            assert(nv[b].0 == ev[b - 1].0);
            if b - 1 > p {
                assert(key_lt(ev[p].0, ev[b - 1].0));
                lemma_bytes_lt_transitive(
                    encode_utf8(k),
                    encode_utf8(ev[p].0),
                    encode_utf8(ev[b - 1].0),
                );
            }
        } else {
            assert(nv[a].0 == ev[a - 1].0);
            assert(nv[b].0 == ev[b - 1].0);
        }
    }
}

/// Inserting `k` (or replacing its entry) in sorted entries stores `v`
/// under `k` in the map they stand for, and leaves every other name as it
/// was.
proof fn lemma_insert_map(
    old_ev: Seq<(Seq<char>, Seq<char>)>,
    ev: Seq<(Seq<char>, Seq<char>)>,
    p: int,
    inserted: bool,
    k: Seq<char>,
    v: Seq<char>,
)
    requires
        sorted_by_name(old_ev),
        sorted_by_name(ev),
        0 <= p <= old_ev.len(),
        inserted ==> ev == old_ev.insert(p, (k, v)),
        inserted ==> !entries_map(old_ev).contains_key(k),
        !inserted ==> p < old_ev.len() && old_ev[p].0 == k && ev == old_ev.update(p, (k, v)),
    ensures
        entries_map(ev) == entries_map(old_ev).insert(k, v),
{
    let om = entries_map(old_ev);
    let nm = entries_map(ev);
    let target = om.insert(k, v);
    assert(ev[p] == (k, v));
    lemma_entries_map_at(ev, p);
    assert forall|kk: Seq<char>| #[trigger] nm.contains_key(kk) implies target.contains_key(kk)
        && nm[kk] == target[kk] by {
        let jj = choose|jj: int| 0 <= jj < ev.len() && #[trigger] ev[jj].0 == kk;
        lemma_entries_map_at(ev, jj);
        if kk != k {
            let j = if inserted && jj > p {
                jj - 1
            } else {
                jj
            };
            assert(old_ev[j] == ev[jj]);
            lemma_entries_map_at(old_ev, j);
        }
    }
    assert forall|kk: Seq<char>| #[trigger] target.contains_key(kk) implies nm.contains_key(kk) by {
        if kk != k {
            let j = choose|j: int| 0 <= j < old_ev.len() && #[trigger] old_ev[j].0 == kk;
            let jj = if inserted && j >= p {
                j + 1
            } else {
                j
            };
            assert(ev[jj] == old_ev[j]);
            lemma_entries_map_at(ev, jj);
        }
    }
    assert(nm =~= target);
}

impl HeaderMap {
    /// The entries, name and value each as a character sequence, in order.
    pub closed spec fn entry_seq(&self) -> Seq<(Seq<char>, Seq<char>)> {
        entry_views(self.entries@)
    }

    #[verifier::type_invariant]
    spec fn inv(self) -> bool {
        sorted_by_name(entry_views(self.entries@))
    }
}

impl View for HeaderMap {
    type V = Map<Seq<char>, Seq<char>>;

    closed spec fn view(&self) -> Map<Seq<char>, Seq<char>> {
        entries_map(entry_views(self.entries@))
    }
}

impl HeaderMap {
    /// The entries in order of their names. Each gives the value stored
    /// under its name, and each stored name has an entry.
    pub fn entries(&self) -> (r: &[(String, String)])
        ensures
            entry_views(r@) == self.entry_seq(),
            sorted_by_name(self.entry_seq()),
            self@ == entries_map(self.entry_seq()),
            forall|i: int|
                0 <= i < r@.len() ==> {
                    &&& self@.contains_key(#[trigger] r@[i].0@)
                    &&& self@[r@[i].0@] == r@[i].1@
                },
            forall|k: Seq<char>|
                #[trigger] self@.contains_key(k) ==> exists|i: int|
                    0 <= i < r@.len() && #[trigger] r@[i].0@ == k,
    {
        proof {
            use_type_invariant(self);
            let ev = self.entry_seq();
            assert forall|i: int| 0 <= i < self.entries@.len() implies {
                &&& self@.contains_key(#[trigger] self.entries@[i].0@)
                &&& self@[self.entries@[i].0@] == self.entries@[i].1@
            } by {
                lemma_entries_map_at(ev, i);
            }
            assert forall|k: Seq<char>| #[trigger] self@.contains_key(k) implies exists|i: int|
                0 <= i < self.entries@.len() && #[trigger] self.entries@[i].0@ == k by {
                let i = choose|i: int| 0 <= i < ev.len() && #[trigger] ev[i].0 == k;
                assert(self.entries@[i].0@ == k);
            }
        }
        self.entries.as_slice()
    }

    /// An empty map.
    pub fn new() -> (m: HeaderMap)
        ensures
            m@ == Map::<Seq<char>, Seq<char>>::empty(),
            m.entry_seq() == Seq::<(Seq<char>, Seq<char>)>::empty(),
    {
        let m = HeaderMap { entries: Vec::new() };
        assert(m@ =~= Map::<Seq<char>, Seq<char>>::empty());
        assert(m.entry_seq() =~= Seq::<(Seq<char>, Seq<char>)>::empty());
        m
    }

    /// The value stored under `key`, if any.
    pub fn get(&self, key: &str) -> (r: Option<&String>)
        ensures
            match r {
                Some(v) => self@.contains_key(key@) && v@ == self@[key@],
                None => !self@.contains_key(key@),
            },
    {
        proof {
            use_type_invariant(self);
        }
        let kb = key.as_bytes();
        let n = self.entries.len();
        let mut i: usize = 0;
        while i < n
            invariant
                n == self.entries@.len(),
                0 <= i <= n,
                kb@ == encode_utf8(key@),
                sorted_by_name(entry_views(self.entries@)),
                forall|j: int| 0 <= j < i ==> self.entries@[j].0@ != key@,
            decreases n - i,
        {
            let e = &self.entries[i];
            match compare_bytes(kb, e.0.as_str().as_bytes()) {
                ByteOrder::Equal => {
                    proof {
                        lemma_encode_injective(key@, e.0@);
                        lemma_entries_map_at(entry_views(self.entries@), i as int);
                    }
                    return Some(&e.1);
                },
                _ => {},
            }
            i = i + 1;
        }
        proof {
            let ev = entry_views(self.entries@);
            if self@.contains_key(key@) {
                let j = choose|j: int| 0 <= j < ev.len() && #[trigger] ev[j].0 == key@;
                assert(self.entries@[j].0@ == key@);
            }
        }
        None
    }

    /// Stores `value` under `key`, and gives back the value that was stored
    /// there before, if any.
    pub fn insert(&mut self, key: String, value: String) -> (r: Option<String>)
        ensures
            final(self)@ == old(self)@.insert(key@, value@),
            match r {
                Some(v) => old(self)@.contains_key(key@) && v@ == old(self)@[key@],
                None => !old(self)@.contains_key(key@),
            },
    {
        proof {
            use_type_invariant(&*self);
        }
        let ghost old_map = self@;
        let ghost old_ev = entry_views(self.entries@);
        let mut entries: Vec<(String, String)> = Vec::new();
        std::mem::swap(&mut entries, &mut self.entries);
        assert(entry_views(entries@) == old_ev);
        let n = entries.len();
        let mut i: usize = 0;
        while i < n
            invariant
                n == entries@.len(),
                0 <= i <= n,
                entry_views(entries@) == old_ev,
                sorted_by_name(old_ev),
                old_map == entries_map(old_ev),
                old_map == old(self)@,
                forall|j: int| 0 <= j < i ==> key_lt(#[trigger] old_ev[j].0, key@),
            decreases n - i,
        {
            let c = compare_bytes(key.as_str().as_bytes(), entries[i].0.as_str().as_bytes());
            match c {
                ByteOrder::Equal => {
                    let (_, old_value) = entries.remove(i);
                    entries.insert(i, (key, value));
                    proof {
                        lemma_encode_injective(key@, old_ev[i as int].0);
                        let ev = entry_views(entries@);
                        assert(ev =~= old_ev.update(i as int, (key@, value@)));
                        assert(sorted_by_name(ev)) by {
                            assert forall|a: int, b: int| 0 <= a < b < ev.len() implies key_lt(
                                #[trigger] ev[a].0,
                                #[trigger] ev[b].0,
                            ) by {
                                assert(ev[a].0 == old_ev[a].0);
                                assert(ev[b].0 == old_ev[b].0);
                            }
                        }
                        lemma_entries_map_at(old_ev, i as int);
                        lemma_insert_map(old_ev, ev, i as int, false, key@, value@);
                    }
                    self.entries = entries;
                    return Some(old_value);
                },
                ByteOrder::Less => {
                    entries.insert(i, (key, value));
                    proof {
                        let ev = entry_views(entries@);
                        assert(ev =~= old_ev.insert(i as int, (key@, value@)));
                        lemma_sorted_insert(old_ev, i as int, key@, value@);
                        lemma_insert_map(old_ev, ev, i as int, true, key@, value@);
                    }
                    self.entries = entries;
                    return None;
                },
                ByteOrder::Greater => {},
            }
            i = i + 1;
        }
        entries.push((key, value));
        proof {
            let ev = entry_views(entries@);
            assert(ev =~= old_ev.insert(n as int, (key@, value@)));
            lemma_sorted_insert(old_ev, n as int, key@, value@);
            lemma_insert_map(old_ev, ev, n as int, true, key@, value@);
        }
        self.entries = entries;
        None
    }
}

} // verus!
