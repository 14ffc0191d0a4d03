//! A map from socket addresses to peer identifiers.

use vstd::prelude::*;
use crate::net::SocketAddress;
use crate::room_core::PeerId;

verus! {

/// The map an entry list stands for: later entries win.
pub open spec fn book_view(e: Seq<(SocketAddress, PeerId)>) -> Map<SocketAddress, PeerId>
    decreases e.len(),
{
    if e.len() == 0 {
        Map::empty()
    } else {
        book_view(e.drop_last()).insert(e.last().0, e.last().1)
    }
}

/// No address occurs twice.
pub open spec fn distinct_addresses(e: Seq<(SocketAddress, PeerId)>) -> bool {
    forall|i: int, j: int| 0 <= i < j < e.len() ==> #[trigger] e[i].0 != #[trigger] e[j].0
}

proof fn lemma_book_view(e: Seq<(SocketAddress, PeerId)>)
    requires
        distinct_addresses(e),
    ensures
        forall|a: SocketAddress| #[trigger]
            book_view(e).contains_key(a) <==> exists|i: int| 0 <= i < e.len() && e[i].0 == a,
        forall|i: int| 0 <= i < e.len() ==> #[trigger] book_view(e)[e[i].0] == e[i].1,
        book_view(e).dom().finite(),
    decreases e.len(),
{
    if e.len() > 0 {
        let d = e.drop_last();
        assert(distinct_addresses(d)) by {
            assert forall|i: int, j: int| 0 <= i < j < d.len() implies #[trigger] d[i].0
                != #[trigger] d[j].0 by {
                assert(d[i] == e[i] && d[j] == e[j]);
            }
        }
        lemma_book_view(d);
        assert forall|a: SocketAddress| #[trigger]
            book_view(e).contains_key(a) <==> exists|i: int| 0 <= i < e.len() && e[i].0 == a by {
            if book_view(e).contains_key(a) {
                if a == e.last().0 {
                    assert(e[e.len() - 1].0 == a);
                } else {
                    let i = choose|i: int| 0 <= i < d.len() && d[i].0 == a;
                    assert(e[i].0 == a);
                }
            }
            if exists|i: int| 0 <= i < e.len() && e[i].0 == a {
                let i = choose|i: int| 0 <= i < e.len() && e[i].0 == a;
                if i < e.len() - 1 {
                    assert(d[i].0 == a);
                }
            }
        }
        assert forall|i: int| 0 <= i < e.len() implies #[trigger] book_view(e)[e[i].0]
            == e[i].1 by {
            if i < e.len() - 1 {
                assert(d[i] == e[i]);
                assert(e[i].0 != e[e.len() - 1].0);
            }
        }
    }
}

/// A map from socket addresses to peer identifiers.
pub struct AddressBook {
    entries: Vec<(SocketAddress, PeerId)>,
}

impl View for AddressBook {
    type V = Map<SocketAddress, PeerId>;

    closed spec fn view(&self) -> Map<SocketAddress, PeerId> {
        book_view(self.entries@)
    }
}

impl AddressBook {
    /// Well-formed: no address occurs twice.
    pub closed spec fn wf(&self) -> bool {
        distinct_addresses(self.entries@)
    }

    /// An empty book.
    pub fn new() -> (b: Self)
        ensures
            b.wf(),
            b@ == Map::<SocketAddress, PeerId>::empty(),
    {
        AddressBook { entries: Vec::new() }
    }

    fn position(&self, addr: &SocketAddress) -> (r: Option<usize>)
        requires
            self.wf(),
        ensures
            r matches Some(i) ==> i < self.entries@.len() && self.entries@[i as int].0 == *addr,
            r is None ==> !self@.contains_key(*addr),
    {
        proof {
            lemma_book_view(self.entries@);
        }
        let mut i: usize = 0;
        while i < self.entries.len()
            invariant
                i <= self.entries@.len(),
                forall|k: int| 0 <= k < i ==> self.entries@[k].0 != *addr,
            decreases self.entries@.len() - i,
        {
            if self.entries[i].0 == *addr {
                return Some(i);
            }
            i = i + 1;
        }
        None
    }

    /// The peer recorded for `addr`.
    pub fn get(&self, addr: &SocketAddress) -> (r: Option<PeerId>)
        requires
            self.wf(),
        ensures
            r == (if self@.contains_key(*addr) {
                Some(self@[*addr])
            } else {
                None
            }),
    {
        proof {
            lemma_book_view(self.entries@);
        }
        match self.position(addr) {
            Some(i) => Some(self.entries[i].1),
            None => None,
        }
    }

    /// Records `id` for `addr`, replacing what was recorded.
    pub fn insert(&mut self, addr: SocketAddress, id: PeerId)
        requires
            old(self).wf(),
        ensures
            final(self).wf(),
            final(self)@ == old(self)@.insert(addr, id),
    {
        proof {
            lemma_book_view(self.entries@);
        }
        match self.position(&addr) {
            Some(i) => {
                let ghost before = self.entries@;
                self.entries.set(i, (addr, id));
                proof {
                    let after = self.entries@;
                    assert(after == before.update(i as int, (addr, id)));
                    assert(distinct_addresses(after)) by {
                        assert forall|p: int, q: int| 0 <= p < q < after.len() implies #[trigger] after[p].0
                            != #[trigger] after[q].0 by {
                            if p != i && q != i {
                                assert(after[p] == before[p] && after[q] == before[q]);
                            } else if p == i {
                                assert(after[q] == before[q]);
                                assert(before[p].0 == addr);
                            } else {
                                assert(after[p] == before[p]);
                                assert(before[q].0 == addr);
                            }
                        }
                    }
                    lemma_book_view(after);
                    assert(book_view(after) =~= book_view(before).insert(addr, id)) by {
                        assert forall|a: SocketAddress| #[trigger] book_view(after).contains_key(a)
                            <==> book_view(before).insert(addr, id).contains_key(a) by {
                            if a != addr {
                                if exists|k: int| 0 <= k < after.len() && after[k].0 == a {
                                    let k = choose|k: int| 0 <= k < after.len() && after[k].0 == a;
                                    assert(before[k].0 == a);
                                }
                                if exists|k: int| 0 <= k < before.len() && before[k].0 == a {
                                    let k = choose|k: int| 0 <= k < before.len() && before[k].0 == a;
                                    assert(after[k].0 == a);
                                }
                            } else {
                                assert(after[i as int].0 == a);
                            }
                        }
                        assert forall|a: SocketAddress| #[trigger] book_view(after).contains_key(a)
                            implies book_view(after)[a] == book_view(before).insert(addr, id)[a] by {
                            let k = choose|k: int| 0 <= k < after.len() && after[k].0 == a;
                            assert(book_view(after)[after[k].0] == after[k].1);
                            if k != i {
                                assert(before[k] == after[k]);
                                assert(book_view(before)[before[k].0] == before[k].1);
                            }
                        }
                    }
                }
            },
            None => {
                let ghost before = self.entries@;
                self.entries.push((addr, id));
                proof {
                    let after = self.entries@;
                    assert(after.drop_last() =~= before);
                    assert(distinct_addresses(after)) by {
                        assert forall|p: int, q: int| 0 <= p < q < after.len() implies #[trigger] after[p].0
                            != #[trigger] after[q].0 by {
                            if q == after.len() - 1 {
                                assert(after[p] == before[p]);
                                assert(book_view(before).contains_key(before[p].0));
                            } else {
                                assert(after[p] == before[p] && after[q] == before[q]);
                            }
                        }
                    }
                }
            },
        }
    }

    /// Forgets `addr`.
    pub fn remove(&mut self, addr: &SocketAddress)
        requires
            old(self).wf(),
        ensures
            final(self).wf(),
            final(self)@ == old(self)@.remove(*addr),
    {
        proof {
            lemma_book_view(self.entries@);
        }
        match self.position(addr) {
            Some(i) => {
                let ghost before = self.entries@;
                self.entries.remove(i);
                proof {
                    let after = self.entries@;
                    assert(after == before.remove(i as int));
                    assert forall|k: int| 0 <= k < after.len() implies #[trigger] after[k] == (if k
                        < i {
                        before[k]
                    } else {
                        before[k + 1]
                    }) by {}
                    assert(distinct_addresses(after)) by {
                        assert forall|p: int, q: int| 0 <= p < q < after.len() implies #[trigger] after[p].0
                            != #[trigger] after[q].0 by {
                            let pp = if p < i { p } else { p + 1 };
                            let qq = if q < i { q } else { q + 1 };
                            assert(after[p] == before[pp] && after[q] == before[qq]);
                        }
                    }
                    lemma_book_view(after);
                    assert(book_view(after) =~= book_view(before).remove(*addr)) by {
                        assert forall|a: SocketAddress| #[trigger] book_view(after).contains_key(a)
                            <==> book_view(before).remove(*addr).contains_key(a) by {
                            if exists|k: int| 0 <= k < after.len() && after[k].0 == a {
                                let k = choose|k: int| 0 <= k < after.len() && after[k].0 == a;
                                let kk = if k < i { k } else { k + 1 };
                                assert(before[kk].0 == a);
                                assert(kk != i);
                            }
                            if a != *addr && exists|k: int| 0 <= k < before.len() && before[k].0 == a {
                                let k = choose|k: int| 0 <= k < before.len() && before[k].0 == a;
                                assert(k != i);
                                let kk = if k < i { k } else { k - 1 };
                                assert(after[kk].0 == a);
                            }
                        }
                        assert forall|a: SocketAddress| #[trigger] book_view(after).contains_key(a)
                            implies book_view(after)[a] == book_view(before).remove(*addr)[a] by {
                            let k = choose|k: int| 0 <= k < after.len() && after[k].0 == a;
                            let kk = if k < i { k } else { k + 1 };
                            assert(after[k] == before[kk]);
                            assert(book_view(after)[after[k].0] == after[k].1);
                            assert(book_view(before)[before[kk].0] == before[kk].1);
                        }
                    }
                }
            },
            None => {
                assert(self@ =~= old(self)@.remove(*addr));
            },
        }
    }
}

} // verus!
