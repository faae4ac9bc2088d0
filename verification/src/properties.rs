//! A map from strings to strings kept in increasing key order, as a
//! `BTreeMap<String, String>` keeps it, and its JSON object text.

use vstd::prelude::*;
use vstd::utf8::encode_utf8;
use crate::order::{lex_lt, byte_order, Order, lemma_lex_total, lemma_lex_irreflexive, lemma_lex_transitive};
use crate::text::same_text;
use crate::json::{ToJson, join_commas, json_quote, push_quoted};

verus! {

/// A key and its value.
pub type Entry = (Seq<char>, Seq<char>);

/// The keys of `e` increase strictly, in the byte order in which strings compare.
pub open spec fn keys_increasing(e: Seq<Entry>) -> bool {
    forall|i: int, j: int|
        0 <= i < j < e.len() ==> lex_lt(encode_utf8(#[trigger] e[i].0), encode_utf8(#[trigger] e[j].0))
}

/// Some entry of `e` has the key `k`.
pub open spec fn has_key(e: Seq<Entry>, k: Seq<char>) -> bool {
    exists|i: int| 0 <= i < e.len() && #[trigger] e[i].0 == k
}

/// The value that `e` gives the key `k`, if any.
pub open spec fn lookup(e: Seq<Entry>, k: Seq<char>) -> Option<Seq<char>> {
    if has_key(e, k) {
        Some(e[choose|i: int| 0 <= i < e.len() && #[trigger] e[i].0 == k].1)
    } else {
        None
    }
}

/// The JSON text `"key":value` of one entry.
pub open spec fn entry_json(en: Entry) -> Seq<char> {
    json_quote(en.0) + seq![':'] + json_quote(en.1)
}

/// A JSON object with the given entries, in their order.
pub open spec fn json_object(e: Seq<Entry>) -> Seq<char> {
    seq!['{'] + join_commas(e.map_values(|en: Entry| entry_json(en))) + seq!['}']
}

/// A string map ordered by key.
pub struct Properties {
    entries: Vec<(String, String)>,
}

/// The view of stored entries.
pub open spec fn entry_views(v: Seq<(String, String)>) -> Seq<Entry> {
    v.map_values(|p: (String, String)| (p.0@, p.1@))
}

impl View for Properties {
    type V = Seq<Entry>;

    closed spec fn view(&self) -> Seq<Entry> {
        entry_views(self.entries@)
    }
}

/// In increasing keys, a key stands at one index only.
pub proof fn lemma_key_index(e: Seq<Entry>, i: int, j: int)
    requires
        keys_increasing(e),
        0 <= i < e.len(),
        0 <= j < e.len(),
        e[i].0 == e[j].0,
    ensures
        i == j,
{
    if i < j {
        lemma_lex_irreflexive(encode_utf8(e[i].0));
    } else if j < i {
        lemma_lex_irreflexive(encode_utf8(e[i].0));
    }
}

/// In increasing keys, the value of the key at index `i` is the value at `i`.
pub proof fn lemma_lookup_at(e: Seq<Entry>, i: int)
    requires
        keys_increasing(e),
        0 <= i < e.len(),
    ensures
        lookup(e, e[i].0) == Some(e[i].1),
{
    assert(has_key(e, e[i].0));
    let j = choose|j: int| 0 <= j < e.len() && #[trigger] e[j].0 == e[i].0;
    lemma_key_index(e, i, j);
}

impl Properties {
    #[verifier::type_invariant]
    closed spec fn increasing(&self) -> bool {
        keys_increasing(self@)
    }

    /// An empty map.
    pub fn new() -> (m: Properties)
        ensures
            m@ == Seq::<Entry>::empty(),
            keys_increasing(m@),
    {
        let m = Properties { entries: Vec::new() };
        assert(m@ =~= Seq::<Entry>::empty());
        m
    }

    /// The number of entries.
    pub fn len(&self) -> (n: usize)
        ensures
            n == self@.len(),
    {
        self.entries.len()
    }

    /// The value of `key`, if it has one.
    pub fn get(&self, key: &str) -> (r: Option<&String>)
        ensures
            match r {
                Some(v) => lookup(self@, key@) == Some(v@),
                None => lookup(self@, key@) is None,
            },
    {
        proof {
            use_type_invariant(self);
        }
        let mut i: usize = 0;
        while i < self.entries.len()
            invariant
                i <= self.entries@.len(),
                self@ == entry_views(self.entries@),
                keys_increasing(self@),
                forall|j: int| 0 <= j < i ==> self@[j].0 != key@,
            decreases self.entries.len() - i,
        {
            let ghost ev = self@;
            assert(ev[i as int].0 == self.entries@[i as int].0@);
            if same_text(self.entries[i].0.as_str(), key) {
                proof {
                    lemma_lookup_at(ev, i as int);
                }
                return Some(&self.entries[i].1);
            }
            i = i + 1;
        }
        None
    }

    /// Sets `key` to `value` and returns the value it had before, if any.
    pub fn insert(&mut self, key: String, value: String) -> (r: Option<String>)
        ensures
            keys_increasing(final(self)@),
            old(self)@.len() == 0 ==> final(self)@ == seq![(key@, value@)],
            forall|k: Seq<char>|
                #[trigger] lookup(final(self)@, k) == if k == key@ {
                    Some(value@)
                } else {
                    lookup(old(self)@, k)
                },
            match r {
                Some(v) => lookup(old(self)@, key@) == Some(v@),
                None => lookup(old(self)@, key@) is None,
            },
    {
        broadcast use vstd::utf8::encode_utf8_decode_utf8;

        proof {
            use_type_invariant(&*self);
        }
        let ghost old_e = self@;
        let mut e: Vec<(String, String)> = Vec::new();
        std::mem::swap(&mut e, &mut self.entries);
        assert(entry_views(e@) == old_e);
        let n = e.len();
        let mut i: usize = 0;
        while i < n && byte_order(e[i].0.as_str().as_bytes(), key.as_str().as_bytes()) == Order::Less
            invariant
                n == e@.len(),
                i <= n,
                entry_views(e@) == old_e,
                keys_increasing(old_e),
                forall|j: int| 0 <= j < i ==> lex_lt(encode_utf8(#[trigger] old_e[j].0), encode_utf8(key@)),
            decreases n - i,
        {
            assert(old_e[i as int].0 == e@[i as int].0@);
            i = i + 1;
        }
        // Every key from `i` on is not below `key`.
        proof {
            if i < n {
                assert(old_e[i as int].0 == e@[i as int].0@);
                lemma_lex_total(encode_utf8(old_e[i as int].0), encode_utf8(key@));
            }
        }
        let found = i < n && same_text(e[i].0.as_str(), key.as_str());
        let ghost k = key@;
        let ghost v = value@;
        if found {
            let old_pair = e.remove(i);
            e.insert(i, (key, value));
            let ghost new_e = old_e.update(i as int, (k, v));
            proof {
                assert(entry_views(e@) =~= new_e);
                assert(old_e[i as int].0 == k);
                assert forall|a: int, b: int| 0 <= a < b < new_e.len() implies lex_lt(
                    encode_utf8(#[trigger] new_e[a].0),
                    encode_utf8(#[trigger] new_e[b].0),
                ) by {
                    assert(new_e[a].0 == old_e[a].0);
                    assert(new_e[b].0 == old_e[b].0);
                }
                assert forall|q: Seq<char>| #[trigger] lookup(new_e, q) == if q == k {
                    Some(v)
                } else {
                    lookup(old_e, q)
                } by {
                    lemma_lookup_at(new_e, i as int);
                    if q != k {
                        if has_key(old_e, q) {
                            let j = choose|j: int| 0 <= j < old_e.len() && #[trigger] old_e[j].0 == q;
                            lemma_lookup_at(old_e, j);
                            lemma_lookup_at(new_e, j);
                        } else {
                            assert(!has_key(new_e, q));
                        }
                    }
                }
                lemma_lookup_at(old_e, i as int);
                assert(old_pair.1@ == old_e[i as int].1);
            }
            self.entries = e;
            Some(old_pair.1)
        } else {
            e.insert(i, (key, value));
            let ghost new_e = old_e.insert(i as int, (k, v));
            proof {
                assert(entry_views(e@) =~= new_e);
                if i < n {
                    // the key at `i` is above `key`
                    assert(old_e[i as int].0 == e@[i as int + 1].0@);
                    if old_e[i as int].0 == k {
                        assert(false);
                    }
                    assert(!lex_lt(encode_utf8(old_e[i as int].0), encode_utf8(k)));
                    assert(vstd::utf8::decode_utf8(encode_utf8(old_e[i as int].0)) == old_e[i as int].0);
                    assert(vstd::utf8::decode_utf8(encode_utf8(k)) == k);
                    assert(encode_utf8(old_e[i as int].0) != encode_utf8(k));
                    lemma_lex_total(encode_utf8(old_e[i as int].0), encode_utf8(k));
                }
                assert forall|b: int| i < b < new_e.len() implies lex_lt(
                    encode_utf8(k),
                    encode_utf8(#[trigger] new_e[b].0),
                ) by {
                    assert(new_e[b] == old_e[b - 1]);
                    if b - 1 > i {
                        assert(lex_lt(encode_utf8(old_e[i as int].0), encode_utf8(old_e[b - 1].0)));
                        lemma_lex_transitive(encode_utf8(k), encode_utf8(old_e[i as int].0), encode_utf8(old_e[b - 1].0));
                    }
                }
                assert forall|a: int, b: int| 0 <= a < b < new_e.len() implies lex_lt(
                    encode_utf8(#[trigger] new_e[a].0),
                    encode_utf8(#[trigger] new_e[b].0),
                ) by {
                    if b < i {
                    } else if b == i {
                    } else if a == i {
                    } else if a < i {
                        lemma_lex_transitive(encode_utf8(old_e[a].0), encode_utf8(k), encode_utf8(new_e[b].0));
                    } else {
                    }
                }
                assert(!has_key(old_e, k)) by {
                    if has_key(old_e, k) {
                        let j = choose|j: int| 0 <= j < old_e.len() && #[trigger] old_e[j].0 == k;
                        if j < i {
                            lemma_lex_irreflexive(encode_utf8(k));
                        } else if j > i {
                            lemma_lex_transitive(encode_utf8(k), encode_utf8(old_e[i as int].0), encode_utf8(old_e[j].0));
                            lemma_lex_irreflexive(encode_utf8(k));
                        }
                    }
                }
                assert forall|q: Seq<char>| #[trigger] lookup(new_e, q) == if q == k {
                    Some(v)
                } else {
                    lookup(old_e, q)
                } by {
                    lemma_lookup_at(new_e, i as int);
                    if q != k {
                        if has_key(old_e, q) {
                            let j = choose|j: int| 0 <= j < old_e.len() && #[trigger] old_e[j].0 == q;
                            lemma_lookup_at(old_e, j);
                            if j < i {
                                lemma_lookup_at(new_e, j);
                            } else {
                                assert(new_e[j + 1] == old_e[j]);
                                lemma_lookup_at(new_e, j + 1);
                            }
                        } else {
                            if has_key(new_e, q) {
                                let j = choose|j: int| 0 <= j < new_e.len() && #[trigger] new_e[j].0 == q;
                                if j < i {
                                    assert(old_e[j].0 == q);
                                } else if j > i {
                                    assert(old_e[j - 1].0 == q);
                                }
                            }
                        }
                    }
                }
            }
            self.entries = e;
            None
        }
    }
}

impl ToJson for Properties {
    open spec fn json(&self) -> Seq<char> {
        json_object(self@)
    }

    fn push_json(&self, out: &mut String) {
        proof {
            reveal_strlit("{");
            reveal_strlit("}");
        }
        let ghost start = out@;
        let ghost texts = self@.map_values(|en: Entry| entry_json(en));
        out.append("{");
        assert("{"@ =~= seq!['{']);
        let mut i: usize = 0;
        while i < self.entries.len()
            invariant
                i <= self.entries@.len(),
                self@ == entry_views(self.entries@),
                texts == self@.map_values(|en: Entry| entry_json(en)),
                out@ == start + seq!['{'] + join_commas(texts.take(i as int)),
            decreases self.entries.len() - i,
        {
            proof {
                reveal_strlit(",");
                reveal_strlit(":");
            }
            let ghost before = out@;
            if i > 0 {
                out.append(",");
                assert(","@ =~= seq![',']);
            }
            let ghost mid = out@;
            assert(i > 0 ==> mid =~= before + seq![',']);
            push_quoted(out, self.entries[i].0.as_str());
            out.append(":");
            assert(":"@ =~= seq![':']);
            push_quoted(out, self.entries[i].1.as_str());
            proof {
                let t = texts[i as int];
                assert(t == entry_json(self@[i as int]));
                assert(out@ =~= mid + t);
                assert(texts.take(i + 1).drop_last() =~= texts.take(i as int));
                if i == 0 {
                    assert(texts.take(1) =~= seq![texts[0]]);
                    assert(join_commas(texts.take(1)) == texts[0]);
                    assert(out@ =~= start + seq!['{'] + join_commas(texts.take(1)));
                } else {
                    assert(join_commas(texts.take(i + 1)) == join_commas(texts.take(i as int))
                        + seq![','] + texts[i as int]);
                    assert(out@ =~= start + seq!['{'] + join_commas(texts.take(i + 1)));
                }
            }
            i = i + 1;
        }
        out.append("}");
        assert("}"@ =~= seq!['}']);
        assert(texts.take(i as int) =~= texts);
    }
}

} // verus!
