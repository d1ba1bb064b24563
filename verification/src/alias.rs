//! The persisted alias store: a keyed map from (contract name, network
//! passphrase) to the deployed on-network identifier. Entries are created
//! on first deploy, updated on permitted redeploys, and never deleted.

use vstd::prelude::*;
use crate::strutil;

verus! {

/// Some entry of `es` binds (name, passphrase) to `id`.
pub open spec fn entries_have(
    es: Seq<(String, String, String)>,
    name: Seq<char>,
    passphrase: Seq<char>,
    id: Seq<char>,
) -> bool {
    exists|t: int|
        0 <= t < es.len() && (#[trigger] es[t]).0@ == name && es[t].1@ == passphrase && es[t].2@
            == id
}

/// The alias records of one workspace.
#[derive(Debug)]
pub struct AliasStore {
    entries: Vec<(String, String, String)>,
}

impl AliasStore {
    /// No two entries share a (name, passphrase) key.
    pub closed spec fn wf(self) -> bool {
        forall|a: int, b: int|
            0 <= a < b < self.entries@.len() ==> !((#[trigger] self.entries@[a]).0@ == (
            #[trigger] self.entries@[b]).0@ && self.entries@[a].1@ == self.entries@[b].1@)
    }

    /// The store maps (name, passphrase) to `id`.
    pub closed spec fn has(self, name: Seq<char>, passphrase: Seq<char>, id: Seq<char>) -> bool {
        entries_have(self.entries@, name, passphrase, id)
    }

    /// How many aliases the store holds.
    pub closed spec fn size(self) -> nat {
        self.entries@.len()
    }

    /// An empty store: well-formed, with no alias at all.
    pub fn new() -> (r: AliasStore)
        ensures
            r.wf(),
            r.size() == 0,
            forall|n: Seq<char>, p: Seq<char>, id: Seq<char>| !r.has(n, p, id),
    {
        AliasStore { entries: Vec::new() }
    }

    /// Looks up the identifier recorded for (name, passphrase).
    pub fn get(&self, name: &str, passphrase: &str) -> (r: Option<String>)
        ensures
            match r {
                Some(id) => self.has(name@, passphrase@, id@),
                None => forall|id: Seq<char>| !self.has(name@, passphrase@, id),
            },
    {
        let mut t: usize = 0;
        while t < self.entries.len()
            invariant
                t <= self.entries@.len(),
                forall|k: int|
                    0 <= k < t ==> !((#[trigger] self.entries@[k]).0@ == name@
                        && self.entries@[k].1@ == passphrase@),
            decreases self.entries@.len() - t,
        {
            if strutil::str_eq(self.entries[t].0.as_str(), name) && strutil::str_eq(
                self.entries[t].1.as_str(),
                passphrase,
            ) {
                return Some(self.entries[t].2.clone());
            }
            t = t + 1;
        }
        proof {
            assert forall|id: Seq<char>| !self.has(name@, passphrase@, id) by {
                if self.has(name@, passphrase@, id) {
                    let k = choose|k: int|
                        0 <= k < self.entries@.len() && (#[trigger] self.entries@[k]).0@ == name@
                            && self.entries@[k].1@ == passphrase@ && self.entries@[k].2@ == id;
                    assert(false);
                }
            }
        }
        None
    }

    /// Records (name, passphrase) -> id, replacing the entry if the key
    /// exists and appending it otherwise; nothing is ever deleted and no
    /// other key changes.
    pub fn save(&mut self, name: &str, passphrase: &str, contract_id: &str)
        requires
            old(self).wf(),
        ensures
            final(self).wf(),
            final(self).has(name@, passphrase@, contract_id@),
            forall|n: Seq<char>, p: Seq<char>, id: Seq<char>|
                !(n == name@ && p == passphrase@) ==> (final(self).has(n, p, id) <==> old(
                    self,
                ).has(n, p, id)),
            forall|id: Seq<char>|
                final(self).has(name@, passphrase@, id) ==> id == contract_id@,
            final(self).size() >= old(self).size(),
    {
        let entry = (
            String::from_str(name),
            String::from_str(passphrase),
            String::from_str(contract_id),
        );
        let mut t: usize = 0;
        while t < self.entries.len()
            invariant
                *self == *old(self),
                old(self).wf(),
                t <= self.entries@.len(),
                forall|k: int|
                    0 <= k < t ==> !((#[trigger] self.entries@[k]).0@ == name@
                        && self.entries@[k].1@ == passphrase@),
                entry.0@ == name@ && entry.1@ == passphrase@ && entry.2@ == contract_id@,
            decreases self.entries@.len() - t,
        {
            if strutil::str_eq(self.entries[t].0.as_str(), name) && strutil::str_eq(
                self.entries[t].1.as_str(),
                passphrase,
            ) {
                let ghost orig = self.entries@;
                proof {
                    assert(old(self).wf());
                    assert(orig == old(self).entries@);
                    assert forall|a: int, b: int| 0 <= a < b < orig.len() implies !((
                    #[trigger] orig[a]).0@ == (#[trigger] orig[b]).0@ && orig[a].1@
                        == orig[b].1@) by {
                        assert(!((#[trigger] old(self).entries@[a]).0@ == (#[trigger] old(
                            self,
                        ).entries@[b]).0@ && old(self).entries@[a].1@ == old(
                            self,
                        ).entries@[b].1@));
                    }
                }
                self.entries.set(t, entry);
                proof {
                    assert(self.entries@ =~= orig.update(t as int, self.entries@[t as int]));
                    assert(self.entries@[t as int].0@ == name@);
                    lemma_save_update(orig, self.entries@, t as int, name@, passphrase@,
                        contract_id@);
                }
                return ;
            }
            t = t + 1;
        }
        let ghost orig = self.entries@;
        self.entries.push(entry);
        proof {
            assert(self.entries@[orig.len() as int].0@ == name@);
            assert forall|n: Seq<char>, p: Seq<char>, id: Seq<char>|
                !(n == name@ && p == passphrase@) implies (self.has(n, p, id) <==> old(self).has(
                n,
                p,
                id,
            )) by {
                if self.has(n, p, id) {
                    let k = choose|k: int|
                        0 <= k < self.entries@.len() && (#[trigger] self.entries@[k]).0@ == n
                            && self.entries@[k].1@ == p && self.entries@[k].2@ == id;
                    assert(k < orig.len());
                    assert(orig[k] == self.entries@[k]);
                }
                if old(self).has(n, p, id) {
                    let k = choose|k: int|
                        0 <= k < orig.len() && (#[trigger] orig[k]).0@ == n && orig[k].1@ == p
                            && orig[k].2@ == id;
                    assert(self.entries@[k] == orig[k]);
                }
            }
            assert forall|id: Seq<char>| self.has(name@, passphrase@, id) implies id
                == contract_id@ by {
                let k = choose|k: int|
                    0 <= k < self.entries@.len() && (#[trigger] self.entries@[k]).0@ == name@
                        && self.entries@[k].1@ == passphrase@ && self.entries@[k].2@ == id;
                if k < orig.len() {
                    assert(orig[k] == self.entries@[k]);
                }
            }
        }
    }
}

proof fn lemma_save_update(
    orig: Seq<(String, String, String)>,
    cur: Seq<(String, String, String)>,
    t: int,
    name: Seq<char>,
    passphrase: Seq<char>,
    id: Seq<char>,
)
    requires
        0 <= t < orig.len(),
        cur.len() == orig.len(),
        forall|k: int| 0 <= k < orig.len() && k != t ==> #[trigger] cur[k] == orig[k],
        cur[t].0@ == name && cur[t].1@ == passphrase && cur[t].2@ == id,
        orig[t].0@ == name && orig[t].1@ == passphrase,
        forall|a: int, b: int|
            0 <= a < b < orig.len() ==> !((#[trigger] orig[a]).0@ == (#[trigger] orig[b]).0@
                && orig[a].1@ == orig[b].1@),
    ensures
        forall|a: int, b: int|
            0 <= a < b < cur.len() ==> !((#[trigger] cur[a]).0@ == (#[trigger] cur[b]).0@
                && cur[a].1@ == cur[b].1@),
        exists|k: int|
            0 <= k < cur.len() && (#[trigger] cur[k]).0@ == name && cur[k].1@ == passphrase
                && cur[k].2@ == id,
        forall|n: Seq<char>, p: Seq<char>, i2: Seq<char>|
            !(n == name && p == passphrase) ==> (#[trigger] entries_have(cur, n, p, i2)
                <==> entries_have(orig, n, p, i2)),
        forall|i2: Seq<char>| #[trigger] entries_have(cur, name, passphrase, i2) ==> i2 == id,
{
    assert forall|a: int, b: int| 0 <= a < b < cur.len() implies !((#[trigger] cur[a]).0@ == (
    #[trigger] cur[b]).0@ && cur[a].1@ == cur[b].1@) by {
        assert(!(orig[a].0@ == orig[b].0@ && orig[a].1@ == orig[b].1@));
    }
    assert(cur[t].0@ == name && cur[t].1@ == passphrase && cur[t].2@ == id);
    assert forall|n: Seq<char>, p: Seq<char>, i2: Seq<char>|
        !(n == name && p == passphrase) implies (#[trigger] entries_have(cur, n, p, i2)
        <==> entries_have(orig, n, p, i2)) by {
        if entries_have(cur, n, p, i2) {
            let k = choose|k: int|
                0 <= k < cur.len() && (#[trigger] cur[k]).0@ == n && cur[k].1@ == p && cur[k].2@
                    == i2;
            assert(k != t);
            assert(orig[k] == cur[k]);
        }
        if entries_have(orig, n, p, i2) {
            let k = choose|k: int|
                0 <= k < orig.len() && (#[trigger] orig[k]).0@ == n && orig[k].1@ == p
                    && orig[k].2@ == i2;
            assert(k != t);
            assert(cur[k] == orig[k]);
        }
    }
    assert forall|i2: Seq<char>| #[trigger] entries_have(cur, name, passphrase, i2) implies i2
        == id by {
        let k = choose|k: int|
            0 <= k < cur.len() && (#[trigger] cur[k]).0@ == name && cur[k].1@ == passphrase
                && cur[k].2@ == i2;
        if k != t {
            assert(orig[k] == cur[k]);
            if k < t {
                assert(!(orig[k].0@ == orig[t].0@ && orig[k].1@ == orig[t].1@));
            } else {
                assert(!(orig[t].0@ == orig[k].0@ && orig[t].1@ == orig[k].1@));
            }
        }
    }
}

/// With a well-formed store, the identifier recorded under one key is
/// unique: two recorded identifiers for the same key are the same.
pub proof fn lemma_alias_functional(
    s: AliasStore,
    n: Seq<char>,
    p: Seq<char>,
    a: Seq<char>,
    b: Seq<char>,
)
    requires
        s.wf(),
        s.has(n, p, a),
        s.has(n, p, b),
    ensures
        a == b,
{
    let ka = choose|k: int|
        0 <= k < s.entries@.len() && (#[trigger] s.entries@[k]).0@ == n && s.entries@[k].1@ == p
            && s.entries@[k].2@ == a;
    let kb = choose|k: int|
        0 <= k < s.entries@.len() && (#[trigger] s.entries@[k]).0@ == n && s.entries@[k].1@ == p
            && s.entries@[k].2@ == b;
    if ka < kb {
        assert(!(s.entries@[ka].0@ == s.entries@[kb].0@ && s.entries@[ka].1@ == s.entries@[kb].1@));
    } else if kb < ka {
        assert(!(s.entries@[kb].0@ == s.entries@[ka].0@ && s.entries@[kb].1@ == s.entries@[ka].1@));
    }
}

} // verus!
