use vstd::prelude::*;

verus! {

/// The set of currently-connected client identities. Membership reflects
/// "currently has an open session", nothing more: the registry is used for
/// diagnostics (connection counts) and never to decide whether a message is
/// delivered. The surrounding process guards one `Registry` value by mutual
/// exclusion and hands every session a shared handle to it.
pub struct Registry {
    /// The connected identities, in registration order, each at most once.
    pub ids: Vec<u128>,
}

impl View for Registry {
    type V = Seq<u128>;

    open spec fn view(&self) -> Seq<u128> {
        self.ids@
    }
}

impl Registry {
    /// A registry is a set: no identity appears twice.
    pub open spec fn wf(self) -> bool {
        self@.no_duplicates()
    }

    /// Whether `id` currently has an open session.
    pub open spec fn has(self, id: u128) -> bool {
        self@.contains(id)
    }

    /// An empty registry: no client is connected.
    pub fn new() -> (r: Registry)
        ensures
            r.wf(),
            r@ == Seq::<u128>::empty(),
    {
        Registry { ids: Vec::new() }
    }

    /// Adds `id`. Identities are process-lifetime unique and never reused
    /// while registered, so a registered identity is never offered again.
    pub fn register(&mut self, id: u128)
        requires
            old(self).wf(),
            !old(self).has(id),
        ensures
            final(self).wf(),
            final(self)@ == old(self)@.push(id),
    {
        self.ids.push(id);
        proof {
            assert forall|i: int, j: int|
                0 <= i < j < self@.len() implies self@[i] != self@[j] by {
                if j == self@.len() - 1 {
                    if old(self)@[i] == id {
                        assert(old(self)@.contains(id));
                    }
                }
            }
        }
    }

    /// Removes `id` if present; doing nothing when it is absent. The
    /// identities of all other clients are untouched, in their order.
    pub fn deregister(&mut self, id: u128)
        requires
            old(self).wf(),
        ensures
            final(self).wf(),
            !final(self).has(id),
            final(self)@ == old(self)@.remove_value(id),
            forall|x: u128| x != id ==> (final(self).has(x) <==> old(self).has(x)),
            old(self).has(id) ==> final(self)@.len() == old(self)@.len() - 1,
            !old(self).has(id) ==> final(self)@ == old(self)@,
    {
        let ghost s = self@;
        let mut i: usize = 0;
        while i < self.ids.len()
            invariant
                self@ == s,
                s == old(self)@,
                s.no_duplicates(),
                i <= s.len(),
                forall|k: int| 0 <= k < i ==> s[k] != id,
            decreases self.ids.len() - i,
        {
            if self.ids[i] == id {
                self.ids.remove(i);
                proof {
                    assert(s.contains(id)) by {
                        assert(s[i as int] == id);
                    }
                    s.index_of_first_ensures(id);
                    let idx = s.index_of_first(id)->Some_0;
                    assert(idx == i as int) by {
                        assert(s[idx] == id);
                        assert(forall|j: int| 0 <= j < idx ==> s[j] != id);
                    }
                    assert(self@ == s.remove_value(id));
                    lemma_remove_keeps_no_duplicates(s, i as int);
                    assert forall|x: u128| self@.contains(x) implies s.contains(x) by {
                        let k = choose|k: int| 0 <= k < self@.len() && self@[k] == x;
                        if k < i as int {
                            assert(s[k] == x);
                        } else {
                            assert(s[k + 1] == x);
                        }
                    }
                    assert(!self@.contains(id)) by {
                        if self@.contains(id) {
                            let k = choose|k: int|
                                0 <= k < self@.len() && self@[k] == id;
                            if k < i as int {
                                assert(s[k] == id);
                            } else {
                                assert(s[k + 1] == id);
                            }
                        }
                    }
                    assert forall|x: u128| x != id && s.contains(x)
                        implies self@.contains(x) by {
                        let k = choose|k: int| 0 <= k < s.len() && s[k] == x;
                        if k < i as int {
                            assert(self@[k] == x);
                        } else {
                            assert(self@[k - 1] == x);
                        }
                    }
                }
                return;
            }
            i += 1;
        }
        proof {
            assert(!s.contains(id));
            s.index_of_first_ensures(id);
            assert(self@ =~= s.remove_value(id));
        }
    }

    /// Whether `id` is currently registered.
    pub fn contains(&self, id: u128) -> (r: bool)
        ensures
            r == self.has(id),
    {
        let mut i: usize = 0;
        while i < self.ids.len()
            invariant
                i <= self@.len(),
                forall|k: int| 0 <= k < i ==> self@[k] != id,
            decreases self.ids.len() - i,
        {
            if self.ids[i] == id {
                return true;
            }
            i += 1;
        }
        false
    }

    /// How many clients are currently connected.
    pub fn count(&self) -> (r: usize)
        ensures
            r == self@.len(),
    {
        self.ids.len()
    }

    /// With the registry well-formed, its length is the size of the set of
    /// connected identities: `count` reports set cardinality.
    pub proof fn lemma_count_is_set_size(self)
        requires
            self.wf(),
        ensures
            self@.to_set().len() == self@.len(),
    {
        self@.unique_seq_to_set();
    }
}

/// Removing one element of a duplicate-free sequence keeps it duplicate-free.
proof fn lemma_remove_keeps_no_duplicates(s: Seq<u128>, i: int)
    requires
        0 <= i < s.len(),
        s.no_duplicates(),
    ensures
        s.remove(i).no_duplicates(),
{
    let r = s.remove(i);
    assert forall|p: int, q: int| 0 <= p < q < r.len() implies r[p] != r[q] by {
        let sp: int = if p < i { p } else { p + 1 };
        let sq: int = if q < i { q } else { q + 1 };
        assert(r[p] == s[sp]);
        assert(r[q] == s[sq]);
    }
}

} // verus!
