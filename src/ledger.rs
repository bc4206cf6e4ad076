use vstd::prelude::*;
use vstd::utf8::*;
use crate::order::{bytes_lt, compare_bytes, lemma_bytes_lt_irreflexive, lemma_bytes_lt_total, lemma_bytes_lt_transitive};

verus! {

broadcast use vstd::utf8::group_utf8_lib;

/// What the ledger holds for one name.
#[derive(Debug)]
pub struct NameRecord {
    pub resolver: String,
    pub created: u64,
    pub expiration: u64,
}

/// A name record with its resolver seen as characters.
pub struct RecordView {
    pub resolver: Seq<char>,
    pub created: u64,
    pub expiration: u64,
}

impl View for NameRecord {
    type V = RecordView;

    open spec fn view(&self) -> RecordView {
        RecordView { resolver: self.resolver@, created: self.created, expiration: self.expiration }
    }
}

/// A record, or its absence, counts as expired at `now`: absence always does,
/// a record once `now` reaches its expiration.
pub open spec fn expired(record: Option<RecordView>, now: u64) -> bool {
    match record {
        None => true,
        Some(r) => now >= r.expiration,
    }
}

impl NameRecord {
    pub fn is_expired(&self, now: u64) -> (r: bool)
        ensures
            r == (now >= self.expiration),
    {
        now >= self.expiration
    }

    /// A copy of the record.
    pub fn duplicate(&self) -> (r: NameRecord)
        ensures
            r@ == self@,
    {
        NameRecord {
            resolver: self.resolver.clone(),
            created: self.created,
            expiration: self.expiration,
        }
    }
}

/// The bytes of a key: its UTF-8 encoding.
pub open spec fn bytes_key(k: Seq<char>) -> Seq<u8> {
    encode_utf8(k)
}

/// Ledger order: by the bytes of the key's UTF-8 encoding.
pub open spec fn key_lt(a: Seq<char>, b: Seq<char>) -> bool {
    bytes_lt(bytes_key(a), bytes_key(b))
}

/// Two keys with the same bytes are the same key.
pub proof fn lemma_key_bytes_injective(a: Seq<char>, b: Seq<char>)
    ensures
        bytes_key(a) == bytes_key(b) <==> a == b,
{
    assert(decode_utf8(encode_utf8(a)) == a);
    assert(decode_utf8(encode_utf8(b)) == b);
}

/// Keys in strictly ascending ledger order.
pub open spec fn sorted_keys(s: Seq<(Seq<char>, RecordView)>) -> bool {
    forall|i: int, j: int| 0 <= i < j < s.len() ==> key_lt(#[trigger] s[i].0, #[trigger] s[j].0)
}

/// `k` is the key of some entry of `s`.
pub open spec fn has_key(s: Seq<(Seq<char>, RecordView)>, k: Seq<char>) -> bool {
    exists|i: int| 0 <= i < s.len() && #[trigger] s[i].0 == k
}

/// A position of `s` whose key is `k`, where there is one.
pub open spec fn index_of(s: Seq<(Seq<char>, RecordView)>, k: Seq<char>) -> int {
    choose|i: int| 0 <= i < s.len() && #[trigger] s[i].0 == k
}

/// The map from key to record that a list of entries stands for.
pub open spec fn map_of(s: Seq<(Seq<char>, RecordView)>) -> Map<Seq<char>, RecordView> {
    Map::new(|k: Seq<char>| has_key(s, k), |k: Seq<char>| s[index_of(s, k)].1)
}

pub proof fn lemma_key_lt_ne(a: Seq<char>, b: Seq<char>)
    requires
        key_lt(a, b),
    ensures
        a != b,
{
    lemma_bytes_lt_irreflexive(encode_utf8(a));
}

pub proof fn lemma_key_lt_transitive(a: Seq<char>, b: Seq<char>, c: Seq<char>)
    requires
        key_lt(a, b),
        key_lt(b, c),
    ensures
        key_lt(a, c),
{
    lemma_bytes_lt_transitive(encode_utf8(a), encode_utf8(b), encode_utf8(c));
}

pub proof fn lemma_key_lt_total(a: Seq<char>, b: Seq<char>)
    ensures
        key_lt(a, b) || key_lt(b, a) || a == b,
        !(key_lt(a, b) && key_lt(b, a)),
{
    lemma_bytes_lt_total(encode_utf8(a), encode_utf8(b));
    if encode_utf8(a) == encode_utf8(b) {
        assert(decode_utf8(encode_utf8(a)) == a);
        assert(decode_utf8(encode_utf8(b)) == b);
    }
}

/// In sorted entries, the map holds each entry's record under its key.
pub proof fn lemma_map_of_index(s: Seq<(Seq<char>, RecordView)>, i: int)
    requires
        sorted_keys(s),
        0 <= i < s.len(),
    ensures
        map_of(s).contains_key(s[i].0),
        map_of(s)[s[i].0] == s[i].1,
{
    let k = s[i].0;
    assert(has_key(s, k));
    let j = index_of(s, k);
    if j < i {
        lemma_key_lt_ne(s[j].0, s[i].0);
    } else if j > i {
        lemma_key_lt_ne(s[i].0, s[j].0);
    }
    assert(j == i);
    assert(map_of(s).contains_key(k));
    assert(map_of(s)[k] == s[j].1);
}

/// A key below every entry from position `p` on, and above every entry
/// before it, is not in the map.
pub proof fn lemma_map_of_absent(s: Seq<(Seq<char>, RecordView)>, p: int, k: Seq<char>)
    requires
        sorted_keys(s),
        0 <= p <= s.len(),
        forall|i: int| 0 <= i < p ==> key_lt(#[trigger] s[i].0, k),
        p == s.len() || key_lt(k, s[p].0),
    ensures
        !map_of(s).contains_key(k),
        forall|i: int| p <= i < s.len() ==> key_lt(k, #[trigger] s[i].0),
{
    assert forall|i: int| p <= i < s.len() implies key_lt(k, #[trigger] s[i].0) by {
        if i > p {
            lemma_key_lt_transitive(k, s[p].0, s[i].0);
        }
    }
    if has_key(s, k) {
        let j = choose|j: int| 0 <= j < s.len() && #[trigger] s[j].0 == k;
        if j < p {
            lemma_key_lt_ne(s[j].0, k);
        } else {
            lemma_key_lt_ne(k, s[j].0);
        }
    }
}

pub proof fn lemma_map_of_insert(
    s: Seq<(Seq<char>, RecordView)>,
    p: int,
    k: Seq<char>,
    v: RecordView,
)
    requires
        sorted_keys(s),
        0 <= p <= s.len(),
        forall|i: int| 0 <= i < p ==> key_lt(#[trigger] s[i].0, k),
        forall|i: int| p <= i < s.len() ==> key_lt(k, #[trigger] s[i].0),
    ensures
        sorted_keys(s.insert(p, (k, v))),
        map_of(s.insert(p, (k, v))) == map_of(s).insert(k, v),
{
    let t = s.insert(p, (k, v));
    assert forall|i: int, j: int| 0 <= i < j < t.len() implies key_lt(
        #[trigger] t[i].0,
        #[trigger] t[j].0,
    ) by {
        if i < p && j > p {
            lemma_key_lt_transitive(t[i].0, k, t[j].0);
        }
    }
    let m1 = map_of(t);
    let m2 = map_of(s).insert(k, v);
    assert forall|kk: Seq<char>| m1.contains_key(kk) implies m2.contains_key(kk) && m1[kk]
        == m2[kk] by {
        let j = choose|j: int| 0 <= j < t.len() && #[trigger] t[j].0 == kk;
        lemma_map_of_index(t, j);
        if j < p {
            lemma_map_of_index(s, j);
            lemma_key_lt_ne(s[j].0, k);
        } else if j > p {
            lemma_map_of_index(s, j - 1);
            lemma_key_lt_ne(k, s[j - 1].0);
        } else {
            assert(t[p] == (k, v));
        }
    }
    assert forall|kk: Seq<char>| m2.contains_key(kk) implies m1.contains_key(kk) by {
        if kk == k {
            assert(t[p].0 == k);
        } else {
            let j = choose|j: int| 0 <= j < s.len() && #[trigger] s[j].0 == kk;
            if j < p {
                assert(t[j].0 == kk);
            } else {
                assert(t[j + 1].0 == kk);
            }
        }
    }
    assert(m1 =~= m2);
}

pub proof fn lemma_map_of_update(
    s: Seq<(Seq<char>, RecordView)>,
    p: int,
    v: RecordView,
)
    requires
        sorted_keys(s),
        0 <= p < s.len(),
    ensures
        sorted_keys(s.update(p, (s[p].0, v))),
        map_of(s.update(p, (s[p].0, v))) == map_of(s).insert(s[p].0, v),
{
    let k = s[p].0;
    let t = s.update(p, (k, v));
    assert forall|i: int, j: int| 0 <= i < j < t.len() implies key_lt(
        #[trigger] t[i].0,
        #[trigger] t[j].0,
    ) by {
        assert(t[i].0 == s[i].0 && t[j].0 == s[j].0);
    }
    let m1 = map_of(t);
    let m2 = map_of(s).insert(k, v);
    assert forall|kk: Seq<char>| m1.contains_key(kk) implies m2.contains_key(kk) && m1[kk]
        == m2[kk] by {
        let j = choose|j: int| 0 <= j < t.len() && #[trigger] t[j].0 == kk;
        lemma_map_of_index(t, j);
        if j != p {
            lemma_map_of_index(s, j);
            if j < p {
                lemma_key_lt_ne(s[j].0, k);
            } else {
                lemma_key_lt_ne(k, s[j].0);
            }
        }
    }
    assert forall|kk: Seq<char>| m2.contains_key(kk) implies m1.contains_key(kk) by {
        if kk == k {
            assert(t[p].0 == k);
        } else {
            let j = choose|j: int| 0 <= j < s.len() && #[trigger] s[j].0 == kk;
            assert(t[j].0 == kk);
        }
    }
    assert(m1 =~= m2);
}

pub proof fn lemma_map_of_remove(s: Seq<(Seq<char>, RecordView)>, p: int)
    requires
        sorted_keys(s),
        0 <= p < s.len(),
    ensures
        sorted_keys(s.remove(p)),
        map_of(s.remove(p)) == map_of(s).remove(s[p].0),
{
    let k = s[p].0;
    let t = s.remove(p);
    assert forall|i: int, j: int| 0 <= i < j < t.len() implies key_lt(
        #[trigger] t[i].0,
        #[trigger] t[j].0,
    ) by {
        let i2 = if i < p { i } else { i + 1 };
        let j2 = if j < p { j } else { j + 1 };
        assert(t[i] == s[i2] && t[j] == s[j2]);
    }
    let m1 = map_of(t);
    let m2 = map_of(s).remove(k);
    assert forall|kk: Seq<char>| #[trigger] m1.contains_key(kk) implies m2.contains_key(kk) && m1[kk]
        == m2[kk] by {
        let j = choose|j: int| 0 <= j < t.len() && #[trigger] t[j].0 == kk;
        lemma_map_of_index(t, j);
        let j2 = if j < p { j } else { j + 1 };
        assert(t[j] == s[j2]);
        lemma_map_of_index(s, j2);
        if j2 < p {
            lemma_key_lt_ne(s[j2].0, k);
        } else {
            lemma_key_lt_ne(k, s[j2].0);
        }
    }
    assert forall|kk: Seq<char>| m2.contains_key(kk) implies m1.contains_key(kk) by {
        let j = choose|j: int| 0 <= j < s.len() && #[trigger] s[j].0 == kk;
        if j < p {
            assert(t[j].0 == kk);
        } else {
            assert(j != p);
            assert(t[j - 1].0 == kk);
        }
    }
    assert(m1 =~= m2);
}

/// One ledger entry.
#[derive(Debug)]
pub struct Entry {
    pub key: String,
    pub record: NameRecord,
}

/// The durable map from name to record, kept in ascending order of the key's
/// bytes.
#[derive(Debug)]
pub struct Ledger {
    entries: Vec<Entry>,
}

impl Ledger {
    /// The entries as (key, record) pairs, in ledger order.
    pub closed spec fn entries_view(&self) -> Seq<(Seq<char>, RecordView)> {
        self.entries@.map_values(|e: Entry| (e.key@, e.record@))
    }

    pub closed spec fn wf(&self) -> bool {
        sorted_keys(self.entries_view())
    }

    pub closed spec fn view(&self) -> Map<Seq<char>, RecordView> {
        map_of(self.entries_view())
    }

    pub fn new() -> (r: Ledger)
        ensures
            r.wf(),
            r@ == Map::<Seq<char>, RecordView>::empty(),
    {
        let r = Ledger { entries: Vec::new() };
        assert(r@ =~= Map::<Seq<char>, RecordView>::empty());
        r
    }

    /// Where `key` stands or would stand, and whether it is there.
    fn find(&self, key: &str) -> (r: (usize, bool))
        requires
            self.wf(),
        ensures
            r.0 <= self.entries_view().len(),
            forall|i: int| 0 <= i < r.0 ==> key_lt(#[trigger] self.entries_view()[i].0, key@),
            r.1 ==> r.0 < self.entries_view().len() && self.entries_view()[r.0 as int].0 == key@,
            !r.1 ==> (r.0 == self.entries_view().len() || key_lt(
                key@,
                self.entries_view()[r.0 as int].0,
            )),
    {
        let kb = key.as_bytes();
        let mut i: usize = 0;
        while i < self.entries.len()
            invariant
                i <= self.entries@.len(),
                self.entries_view().len() == self.entries@.len(),
                kb@ == encode_utf8(key@),
                forall|j: int| 0 <= j < i ==> key_lt(#[trigger] self.entries_view()[j].0, key@),
            decreases self.entries@.len() - i,
        {
            let c = compare_bytes(self.entries[i].key.as_str().as_bytes(), kb);
            assert(self.entries_view()[i as int].0 == self.entries@[i as int].key@);
            match c {
                core::cmp::Ordering::Less => {
                    i = i + 1;
                },
                core::cmp::Ordering::Equal => {
                    assert(decode_utf8(encode_utf8(key@)) == key@);
                    assert(decode_utf8(encode_utf8(self.entries@[i as int].key@))
                        == self.entries@[i as int].key@);
                    return (i, true);
                },
                core::cmp::Ordering::Greater => {
                    return (i, false);
                },
            }
        }
        (i, false)
    }

    /// The record held under `key`, if any.
    pub fn get(&self, key: &str) -> (r: Option<&NameRecord>)
        requires
            self.wf(),
        ensures
            match r {
                Some(rec) => self@.contains_key(key@) && self@[key@] == rec@,
                None => !self@.contains_key(key@),
            },
    {
        let (p, found) = self.find(key);
        if found {
            proof {
                lemma_map_of_index(self.entries_view(), p as int);
            }
            Some(&self.entries[p].record)
        } else {
            proof {
                lemma_map_of_absent(self.entries_view(), p as int, key@);
            }
            None
        }
    }

    /// Stores `record` under `key`, replacing what was there.
    pub fn save(&mut self, key: String, record: NameRecord)
        requires
            old(self).wf(),
        ensures
            final(self).wf(),
            final(self)@ == old(self)@.insert(key@, record@),
    {
        let (p, found) = self.find(key.as_str());
        let ghost s = self.entries_view();
        let ghost kv = key@;
        let ghost rv = record@;
        if found {
            self.entries.set(p, Entry { key, record });
            proof {
                lemma_map_of_update(s, p as int, rv);
                assert(self.entries_view() =~= s.update(p as int, (kv, rv)));
            }
        } else {
            proof {
                lemma_map_of_absent(s, p as int, kv);
                lemma_map_of_insert(s, p as int, kv, rv);
            }
            self.entries.insert(p, Entry { key, record });
            assert(self.entries_view() =~= s.insert(p as int, (kv, rv)));
        }
    }

    /// Deletes what is held under `key`, if anything.
    pub fn remove(&mut self, key: &str)
        requires
            old(self).wf(),
        ensures
            final(self).wf(),
            final(self)@ == old(self)@.remove(key@),
    {
        let (p, found) = self.find(key);
        let ghost s = self.entries_view();
        if found {
            proof {
                lemma_map_of_remove(s, p as int);
            }
            self.entries.remove(p);
            assert(self.entries_view() =~= s.remove(p as int));
        } else {
            proof {
                lemma_map_of_absent(s, p as int, key@);
                assert(map_of(s).remove(key@) =~= map_of(s));
            }
        }
    }

    /// The keys of the records that resolve to `address` and have not expired
    /// at `now`, in ledger order.
    pub fn names_resolving_to(&self, address: &String, now: u64) -> (r: Vec<String>)
        requires
            self.wf(),
        ensures
            forall|i: int|
                0 <= i < r@.len() ==> self@.contains_key(#[trigger] r@[i]@) && self@[r@[i]@].resolver
                    == address@ && now < self@[r@[i]@].expiration,
            forall|k: Seq<char>|
                #[trigger] self@.contains_key(k) && self@[k].resolver == address@ && now
                    < self@[k].expiration ==> exists|i: int| 0 <= i < r@.len() && r@[i]@ == k,
            forall|i: int, j: int| 0 <= i < j < r@.len() ==> key_lt(#[trigger] r@[i]@, #[trigger] r@[j]@),
    {
        let ghost s = self.entries_view();
        let mut out: Vec<String> = Vec::new();
        let mut i: usize = 0;
        while i < self.entries.len()
            invariant
                s == self.entries_view(),
                sorted_keys(s),
                s.len() == self.entries@.len(),
                i <= s.len(),
                forall|p: int|
                    0 <= p < out@.len() ==> map_of(s).contains_key(#[trigger] out@[p]@)
                        && map_of(s)[out@[p]@].resolver == address@ && now
                        < map_of(s)[out@[p]@].expiration,
                forall|p: int, j: int|
                    0 <= p < out@.len() && i <= j < s.len() ==> key_lt(
                        #[trigger] out@[p]@,
                        #[trigger] s[j].0,
                    ),
                forall|p: int, q: int| 0 <= p < q < out@.len() ==> key_lt(#[trigger] out@[p]@, #[trigger] out@[q]@),
                forall|j: int|
                    0 <= j < i && (#[trigger] s[j]).1.resolver == address@ && now < s[j].1.expiration
                        ==> exists|p: int| 0 <= p < out@.len() && out@[p]@ == s[j].0,
            decreases s.len() - i,
        {
            let entry = &self.entries[i];
            assert(s[i as int] == (entry.key@, entry.record@));
            if entry.record.resolver == *address && now < entry.record.expiration {
                proof {
                    lemma_map_of_index(s, i as int);
                }
                let ghost before = out@;
                out.push(entry.key.clone());
                assert(out@[before.len() as int]@ == s[i as int].0);
                assert forall|p: int, j: int|
                    0 <= p < out@.len() && i + 1 <= j < s.len() implies key_lt(
                    #[trigger] out@[p]@,
                    #[trigger] s[j].0,
                ) by {
                    if p < before.len() {
                        assert(out@[p] == before[p]);
                    } else {
                        assert(key_lt(s[i as int].0, s[j].0));
                    }
                }
                assert forall|p: int, q: int| 0 <= p < q < out@.len() implies key_lt(
                    #[trigger] out@[p]@,
                    #[trigger] out@[q]@,
                ) by {
                    if q == before.len() {
                        assert(out@[p] == before[p]);
                        assert(key_lt(before[p]@, s[i as int].0));
                    } else {
                        assert(out@[p] == before[p] && out@[q] == before[q]);
                    }
                }
                assert forall|j: int|
                    0 <= j < i + 1 && (#[trigger] s[j]).1.resolver == address@ && now
                        < s[j].1.expiration implies exists|p: int|
                    0 <= p < out@.len() && out@[p]@ == s[j].0 by {
                    if j < i {
                        let p = choose|p: int| 0 <= p < before.len() && before[p]@ == s[j].0;
                        assert(out@[p] == before[p]);
                    } else {
                        assert(out@[before.len() as int]@ == s[j].0);
                    }
                }
            }
            i = i + 1;
        }
        assert forall|k: Seq<char>|
            #[trigger] self@.contains_key(k) && self@[k].resolver == address@ && now
                < self@[k].expiration implies exists|p: int| 0 <= p < out@.len() && out@[p]@ == k by {
            let j = index_of(s, k);
            lemma_map_of_index(s, j);
            assert(s[j].0 == k);
        }
        out
    }

    /// The entries, in ascending order of the keys' bytes.
    pub fn entries(&self) -> (r: &Vec<Entry>)
        requires
            self.wf(),
        ensures
            forall|i: int|
                0 <= i < r@.len() ==> self@.contains_key(#[trigger] r@[i].key@) && self@[r@[i].key@]
                    == r@[i].record@,
            forall|k: Seq<char>| #[trigger]
                self@.contains_key(k) ==> exists|i: int| 0 <= i < r@.len() && r@[i].key@ == k,
            forall|i: int, j: int| 0 <= i < j < r@.len() ==> key_lt(#[trigger] r@[i].key@, #[trigger] r@[j].key@),
    {
        let ghost s = self.entries_view();
        assert forall|i: int| 0 <= i < self.entries@.len() implies self@.contains_key(
            #[trigger] self.entries@[i].key@,
        ) && self@[self.entries@[i].key@] == self.entries@[i].record@ by {
            assert(s[i] == (self.entries@[i].key@, self.entries@[i].record@));
            lemma_map_of_index(s, i);
        }
        assert forall|k: Seq<char>| #[trigger] self@.contains_key(k) implies exists|i: int|
            0 <= i < self.entries@.len() && self.entries@[i].key@ == k by {
            let i = index_of(s, k);
            assert(s[i] == (self.entries@[i].key@, self.entries@[i].record@));
        }
        assert forall|i: int, j: int| 0 <= i < j < self.entries@.len() implies key_lt(
            #[trigger] self.entries@[i].key@,
            #[trigger] self.entries@[j].key@,
        ) by {
            assert(s[i].0 == self.entries@[i].key@ && s[j].0 == self.entries@[j].key@);
        }
        &self.entries
    }
}

} // verus!
