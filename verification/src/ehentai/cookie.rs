//! A minimal cookie jar: it stores the key/value pairs received in
//! `Set-Cookie` headers and bakes them back into one `Cookie` request
//! header, in insertion order.

use vstd::prelude::*;
use vstd::string::*;
use crate::text::{find, find_char, lemma_find_char, str_eq, trim, trim_spec};

verus! {

/// One stored cookie value.
pub struct Cookie {
    pub value: String,
}

impl Cookie {
    pub fn new(value: String) -> (c: Cookie)
        ensures
            c.value == value,
    {
        Cookie { value }
    }
}

/// Index of the first entry with key `k`, or `s.len()` when `k` is absent.
pub open spec fn key_index(s: Seq<(Seq<char>, Seq<char>)>, k: Seq<char>) -> int
    decreases s.len(),
{
    if s.len() == 0 {
        0
    } else if s[0].0 == k {
        0
    } else {
        1 + key_index(s.skip(1), k)
    }
}

pub open spec fn has_key(s: Seq<(Seq<char>, Seq<char>)>, k: Seq<char>) -> bool {
    key_index(s, k) < s.len()
}

/// `key_index` points at the first entry with key `k`.
pub proof fn lemma_key_index(s: Seq<(Seq<char>, Seq<char>)>, k: Seq<char>)
    ensures
        0 <= key_index(s, k) <= s.len(),
        key_index(s, k) < s.len() ==> s[key_index(s, k)].0 == k,
        forall|i: int| 0 <= i < key_index(s, k) ==> s[i].0 != k,
    decreases s.len(),
{
    if s.len() != 0 && s[0].0 != k {
        lemma_key_index(s.skip(1), k);
        assert forall|i: int| 0 <= i < key_index(s, k) implies s[i].0 != k by {
            if i > 0 {
                assert(s.skip(1)[i - 1].0 != k);
            }
        }
    }
}

/// The key/value pair carried by one `Set-Cookie` header: everything before
/// the first `;`, split at its first `=`, both sides trimmed.
pub open spec fn cookie_key_of(header: Seq<char>) -> Seq<char> {
    let pair = header.take(find_char(header, ';'));
    trim_spec(pair.take(find_char(pair, '=')))
}

pub open spec fn cookie_value_of(header: Seq<char>) -> Seq<char> {
    let pair = header.take(find_char(header, ';'));
    trim_spec(pair.skip(find_char(pair, '=') + 1))
}

/// Whether the part of a `Set-Cookie` header before the first `;` carries an
/// `=` at all.
pub open spec fn header_has_pair(header: Seq<char>) -> bool {
    find_char(header.take(find_char(header, ';')), '=') < header.take(
        find_char(header, ';'),
    ).len()
}

/// The `Cookie` header text for a sequence of stored pairs, in order.
pub open spec fn baked(s: Seq<(Seq<char>, Seq<char>)>) -> Seq<char>
    decreases s.len(),
{
    if s.len() == 0 {
        Seq::empty()
    } else {
        baked(s.drop_last()) + s.last().0 + "="@ + s.last().1 + "; "@
    }
}

proof fn lemma_baked_take_succ(s: Seq<(Seq<char>, Seq<char>)>, i: int)
    requires
        0 <= i < s.len(),
    ensures
        baked(s.take(i + 1)) == baked(s.take(i)) + s[i].0 + "="@ + s[i].1 + "; "@,
{
    let t = s.take(i + 1);
    assert(t.drop_last() =~= s.take(i));
    assert(baked(t) == baked(t.drop_last()) + t.last().0 + "="@ + t.last().1 + "; "@);
}

/// The cookie jar: key/value pairs with unique keys, kept in insertion
/// order.
pub struct CookieStore {
    pub pairs: Vec<(String, Cookie)>,
}

impl CookieStore {
    /// The stored pairs as mathematical sequences.
    pub open spec fn entries(self) -> Seq<(Seq<char>, Seq<char>)> {
        self.pairs@.map_values(|p: (String, Cookie)| (p.0@, p.1.value@))
    }

    /// Keys are unique.
    pub open spec fn wf(self) -> bool {
        forall|i: int, j: int|
            0 <= i < j < self.entries().len() ==> #[trigger] self.entries()[i].0
                != #[trigger] self.entries()[j].0
    }

    pub fn new() -> (store: CookieStore)
        ensures
            store.entries() == Seq::<(Seq<char>, Seq<char>)>::empty(),
            store.wf(),
    {
        let store = CookieStore { pairs: Vec::new() };
        assert(store.entries() =~= Seq::<(Seq<char>, Seq<char>)>::empty());
        store
    }

    /// Record one `Set-Cookie` header. A key already present keeps its
    /// position and gets the new value; a new key is appended at the end.
    #[verifier::loop_isolation(false)]
    pub fn set(&mut self, header: &str)
        requires
            old(self).wf(),
            header_has_pair(header@),
        ensures
            final(self).wf(),
            has_key(old(self).entries(), cookie_key_of(header@)) ==> final(self).entries()
                == old(self).entries().update(
                key_index(old(self).entries(), cookie_key_of(header@)),
                (cookie_key_of(header@), cookie_value_of(header@)),
            ),
            !has_key(old(self).entries(), cookie_key_of(header@)) ==> final(self).entries()
                == old(self).entries().push(
                (cookie_key_of(header@), cookie_value_of(header@)),
            ),
    {
        proof {
            lemma_find_char(header@, ';');
        }
        let semi = find(header, ';');
        let pair = header.substring_char(0, semi);
        proof {
            lemma_find_char(pair@, '=');
        }
        let eq = find(pair, '=');
        let key = trim(pair.substring_char(0, eq));
        let val = trim(pair.substring_char(eq + 1, pair.unicode_len()));
        proof {
            assert(pair@.take(find_char(pair@, '=')) =~= pair@.subrange(0, eq as int));
            assert(pair@.skip(find_char(pair@, '=') + 1) =~= pair@.subrange(
                eq + 1,
                pair@.len() as int,
            ));
            assert(key@ == cookie_key_of(header@));
            assert(val@ == cookie_value_of(header@));
            lemma_key_index(self.entries(), key@);
        }
        let ghost k = key@;
        let n = self.pairs.len();
        let mut i: usize = 0;
        while i < n
            invariant
                i <= n,
                self.pairs@ == old(self).pairs@,
                forall|j: int| 0 <= j < i ==> self.entries()[j].0 != k,
            decreases n - i,
        {
            let hit = {
                let entry = &self.pairs[i];
                str_eq(entry.0.as_str(), key)
            };
            if hit {
                let ks = key.to_owned();
                let vs = val.to_owned();
                assert(old(self).entries()[i as int].0 == k);
                self.pairs[i] = (ks, Cookie { value: vs });
                proof {
                    let e0 = old(self).entries();
                    assert(self.entries() =~~= e0.update(
                        key_index(e0, k),
                        (cookie_key_of(header@), cookie_value_of(header@)),
                    ));
                    assert forall|a: int, b: int|
                        0 <= a < b < self.entries().len() implies #[trigger] self.entries()[a].0
                        != #[trigger] self.entries()[b].0 by {
                        assert(self.entries()[a].0 == e0[a].0);
                        assert(self.entries()[b].0 == e0[b].0);
                    }
                }
                return ;
            }
            i = i + 1;
        }
        proof {
            assert(old(self).entries().len() == n as int);
            assert forall|j: int| 0 <= j < n implies #[trigger] old(self).entries()[j].0 != k by {
                assert(self.entries()[j].0 != k);
            }
            assert(!has_key(old(self).entries(), k));
        }
        let ks = key.to_owned();
        let vs = val.to_owned();
        self.pairs.push((ks, Cookie { value: vs }));
        proof {
            let e0 = old(self).entries();
            assert(self.entries() =~~= e0.push(
                (cookie_key_of(header@), cookie_value_of(header@)),
            ));
            assert forall|a: int, b: int|
                0 <= a < b < self.entries().len() implies #[trigger] self.entries()[a].0
                != #[trigger] self.entries()[b].0 by {
                if b < e0.len() {
                    assert(self.entries()[a].0 == e0[a].0);
                    assert(self.entries()[b].0 == e0[b].0);
                } else {
                    assert(self.entries()[a].0 == e0[a].0);
                    assert(self.entries()[b].0 == k);
                }
            }
        }
    }

    /// Bake the whole jar into one `Cookie` request header. The host is
    /// accepted for interface compatibility and does not yet narrow the
    /// result.
    #[verifier::loop_isolation(false)]
    pub fn bake(&self, _host: &str) -> (res: String)
        ensures
            res@ == baked(self.entries()),
    {
        let mut res = String::new();
        let n = self.pairs.len();
        let mut i: usize = 0;
        while i < n
            invariant
                i <= n,
                res@ == baked(self.entries().take(i as int)),
            decreases n - i,
        {
            proof {
                lemma_baked_take_succ(self.entries(), i as int);
            }
            let entry = &self.pairs[i];
            res.append(entry.0.as_str());
            res.append("=");
            res.append(entry.1.value.as_str());
            res.append("; ");
            i = i + 1;
        }
        assert(self.entries().take(n as int) =~= self.entries());
        res
    }
}

} // verus!
