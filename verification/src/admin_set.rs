//! The contract core's administrator set: a set of addresses that is
//! initialized once and thereafter changed only with a majority of the
//! current administrators signing.

use vstd::prelude::*;
use crate::soroban::Address;

verus! {

/// The administrator set, as a duplicate-free list of addresses.
#[derive(Debug)]
pub struct AdminSet(pub Vec<Address>);

/// What the set's operations refuse.
#[derive(Debug, Clone, Copy, PartialEq, Eq, Structural)]
pub enum Error {
    /// Not enough signatures.
    NonEnoughSignatures,
    /// Account is not admin.
    AccountIsNotAdmin,
    /// Already initialized.
    AlreadyInitialized,
}

/// Every listed address appears once.
pub open spec fn addrs_wf(v: Seq<Address>) -> bool {
    v.no_duplicates()
}

pub fn addr_list_contains(v: &Vec<Address>, a: Address) -> (r: bool)
    ensures
        r == v@.contains(a),
{
    let mut i: usize = 0;
    while i < v.len()
        invariant
            i <= v@.len(),
            forall|t: int| 0 <= t < i ==> v@[t] != a,
        decreases v@.len() - i,
    {
        if v[i].0 == a.0 {
            proof {
                assert(v@[i as int] == a);
            }
            return true;
        }
        i = i + 1;
    }
    false
}

/// Copies `from` into `to`, keeping each address once.
pub fn insert_unique_all(to: &mut Vec<Address>, from: &Vec<Address>)
    requires
        addrs_wf(old(to)@),
    ensures
        addrs_wf(final(to)@),
        forall|a: Address| final(to)@.contains(a) <==> (old(to)@.contains(a) || from@.contains(a)),
{
    let mut i: usize = 0;
    while i < from.len()
        invariant
            i <= from@.len(),
            addrs_wf(to@),
            forall|a: Address|
                to@.contains(a) <==> (old(to)@.contains(a) || from@.take(i as int).contains(a)),
        decreases from@.len() - i,
    {
        let ghost pre = to@;
        if !addr_list_contains(to, from[i]) {
            to.push(from[i]);
            proof {
                assert(to@.drop_last() =~= pre);
                assert(to@.last() == from@[i as int]);
                assert(addrs_wf(to@)) by {
                    assert forall|x: int, y: int|
                        0 <= x < y < to@.len() implies to@[x] != to@[y] by {
                        if y == to@.len() - 1 {
                            assert(pre.contains(pre[x]));
                        }
                    }
                }
            }
        }
        proof {
            assert(from@.take(i + 1).drop_last() =~= from@.take(i as int));
            assert(from@.take(i + 1).last() == from@[i as int]);
            assert forall|a: Address|
                to@.contains(a) <==> (old(to)@.contains(a) || from@.take(i + 1).contains(a)) by {
                if from@.take(i + 1).contains(a) {
                    let t = choose|t: int| 0 <= t < i + 1 && #[trigger] from@.take(i + 1)[t] == a;
                    if t < i {
                        assert(from@.take(i as int)[t] == a);
                    } else {
                        assert(a == from@[i as int]);
                    }
                }
                if from@.take(i as int).contains(a) {
                    let t = choose|t: int| 0 <= t < i && #[trigger] from@.take(i as int)[t] == a;
                    assert(from@.take(i + 1)[t] == a);
                }
                if a == from@[i as int] {
                    assert(from@.take(i + 1)[i as int] == a);
                }
                if to@.contains(a) && !pre.contains(a) {
                    let t = choose|t: int| 0 <= t < to@.len() && #[trigger] to@[t] == a;
                    assert(t == to@.len() - 1 || pre.contains(a));
                }
            }
        }
        i = i + 1;
    }
    proof {
        assert(from@.take(from@.len() as int) =~= from@);
    }
}

impl Default for AdminSet {
    /// The uninitialized set: no administrators at all.
    fn default() -> (r: AdminSet)
        ensures
            addrs_wf(r.0@),
            r.0@.len() == 0,
    {
        AdminSet(Vec::new())
    }
}

pub trait IsAdmins {
    /// The current administrators.
    spec fn admins_view(&self) -> Set<Address>;

    /// Whether the set is duplicate-free.
    spec fn admins_wf(&self) -> bool;

    /// Whether the given address is an administrator.
    fn admins_contains(&self, author: Address) -> (r: bool)
        requires
            self.admins_wf(),
        ensures
            r == self.admins_view().contains(author),
    ;

    /// Initialize the administrators; only an uninitialized set may be.
    fn admins_init(&mut self, admins: Vec<Address>)
        requires
            old(self).admins_wf(),
            old(self).admins_view() =~= Set::<Address>::empty(),
        ensures
            final(self).admins_wf(),
            forall|a: Address| final(self).admins_view().contains(a) <==> admins@.contains(a),
    ;

    /// Add a member; a majority of the current administrators must sign,
    /// each a current administrator, unless the set is still empty, in
    /// which case the given administrators initialize it.
    fn admins_set(&mut self, admins: Vec<Address>, new_member: Address)
        requires
            old(self).admins_wf(),
            !(old(self).admins_view() =~= Set::<Address>::empty()) ==> ({
                &&& admins@.len() >= old(self).admins_view().len() / 2
                &&& forall|t: int|
                    0 <= t < admins@.len() ==> old(self).admins_view().contains(
                        #[trigger] admins@[t],
                    )
            }),
        ensures
            final(self).admins_wf(),
            old(self).admins_view() =~= Set::<Address>::empty() ==> forall|a: Address|
                final(self).admins_view().contains(a) <==> admins@.contains(a),
            !(old(self).admins_view() =~= Set::<Address>::empty()) ==> final(self).admins_view()
                =~= old(self).admins_view().insert(new_member),
    ;
}

impl IsAdmins for AdminSet {
    open spec fn admins_view(&self) -> Set<Address> {
        self.0@.to_set()
    }

    open spec fn admins_wf(&self) -> bool {
        addrs_wf(self.0@)
    }

    fn admins_contains(&self, author: Address) -> (r: bool) {
        let r = addr_list_contains(&self.0, author);
        proof {
            assert(self.0@.contains(author) == self.0@.to_set().contains(author));
        }
        r
    }

    fn admins_init(&mut self, admins: Vec<Address>) {
        insert_unique_all(&mut self.0, &admins);
        proof {
            assert(old(self).admins_view() =~= Set::<Address>::empty());
            assert forall|a: Address|
                final(self).admins_view().contains(a) <==> admins@.contains(a) by {
                assert(self.0@.contains(a) == self.0@.to_set().contains(a));
                assert(!old(self).0@.contains(a)) by {
                    if old(self).0@.contains(a) {
                        assert(old(self).0@.to_set().contains(a));
                    }
                }
            }
        }
    }

    fn admins_set(&mut self, admins: Vec<Address>, new_member: Address) {
        if self.0.len() == 0 {
            proof {
                assert(self.0@ =~= Seq::<Address>::empty());
            }
            insert_unique_all(&mut self.0, &admins);
            proof {
                assert forall|a: Address|
                    self.0@.to_set().contains(a) <==> admins@.contains(a) by {
                    assert(self.0@.contains(a) == self.0@.to_set().contains(a));
                }
            }
            return ;
        }
        proof {
            assert(self.0@.contains(self.0@[0]));
            assert(self.0@.to_set().contains(self.0@[0]));
        }
        let ghost pre = self.0@;
        if !addr_list_contains(&self.0, new_member) {
            self.0.push(new_member);
            proof {
                assert(self.0@.drop_last() =~= pre);
                assert(addrs_wf(self.0@)) by {
                    assert forall|x: int, y: int|
                        0 <= x < y < self.0@.len() implies self.0@[x] != self.0@[y] by {
                        if y == self.0@.len() - 1 {
                            assert(pre.contains(pre[x]));
                        }
                    }
                }
                assert(self.0@ == pre.push(new_member));
                pre.lemma_push_to_set_commute(new_member);
            }
        } else {
            proof {
                assert(self.0@.to_set() =~= pre.to_set().insert(new_member)) by {
                    assert(pre.contains(new_member) == pre.to_set().contains(new_member));
                }
            }
        }
    }
}

} // verus!
