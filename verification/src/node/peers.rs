//! The peer index: the known addresses of each peer, keyed by peer
//! identifier. Entries are kept in the order the peers were first seen.

use crate::node::event::{clone_addrs, has_addr, PeerAddr, PeerAddrView};
use vstd::prelude::*;

verus! {

/// One entry of the index as a mathematical value: peer and addresses.
pub type EntryView = (Seq<char>, Seq<PeerAddrView>);

/// True iff no peer has two entries.
pub open spec fn keys_distinct(entries: Seq<EntryView>) -> bool {
    forall|i: int, j: int|
        0 <= i < entries.len() && 0 <= j < entries.len() && i != j ==> entries[i].0 != entries[j].0
}

/// True iff some entry is for `peer`.
pub open spec fn has_key(entries: Seq<EntryView>, peer: Seq<char>) -> bool {
    exists|i: int| 0 <= i < entries.len() && #[trigger] entries[i].0 == peer
}

/// The entries as a map from peer to addresses.
pub open spec fn as_map(entries: Seq<EntryView>) -> Map<Seq<char>, Seq<PeerAddrView>>
    decreases entries.len(),
{
    if entries.len() == 0 {
        Map::empty()
    } else {
        as_map(entries.drop_last()).insert(entries.last().0, entries.last().1)
    }
}

/// `existing` with those of `new` appended that it does not hold yet.
pub open spec fn merged(existing: Seq<PeerAddrView>, new: Seq<PeerAddrView>) -> Seq<PeerAddrView>
    decreases new.len(),
{
    if new.len() == 0 {
        existing
    } else if existing.contains(new[0]) {
        merged(existing, new.drop_first())
    } else {
        merged(existing.push(new[0]), new.drop_first())
    }
}

/// The addresses known for `peer`; none for an unknown peer.
pub open spec fn known_addrs(index: Map<Seq<char>, Seq<PeerAddrView>>, peer: Seq<char>) -> Seq<
    PeerAddrView,
> {
    if index.dom().contains(peer) {
        index[peer]
    } else {
        Seq::empty()
    }
}

/// The map has exactly the peers of the entries.
pub proof fn lemma_as_map_dom(entries: Seq<EntryView>, peer: Seq<char>)
    ensures
        as_map(entries).dom().contains(peer) <==> has_key(entries, peer),
    decreases entries.len(),
{
    if entries.len() > 0 {
        let front = entries.drop_last();
        lemma_as_map_dom(front, peer);
        if has_key(entries, peer) {
            let i = choose|i: int| 0 <= i < entries.len() && #[trigger] entries[i].0 == peer;
            if i < front.len() {
                assert(front[i].0 == peer);
            }
        }
        if has_key(front, peer) {
            let i = choose|i: int| 0 <= i < front.len() && #[trigger] front[i].0 == peer;
            assert(entries[i].0 == peer);
        }
        if entries.last().0 == peer {
            assert(entries[entries.len() - 1].0 == peer);
        }
    }
}

/// With distinct peers, the map gives each peer the addresses of its entry.
pub proof fn lemma_as_map_at(entries: Seq<EntryView>, i: int)
    requires
        keys_distinct(entries),
        0 <= i < entries.len(),
    ensures
        as_map(entries).dom().contains(entries[i].0),
        as_map(entries)[entries[i].0] == entries[i].1,
    decreases entries.len(),
{
    let front = entries.drop_last();
    if i < entries.len() - 1 {
        assert(keys_distinct(front)) by {
            assert forall|a: int, b: int|
                0 <= a < front.len() && 0 <= b < front.len() && a != b implies front[a].0
                != front[b].0 by {
                assert(entries[a].0 != entries[b].0);
            }
        }
        lemma_as_map_at(front, i);
        assert(entries[i].0 != entries[entries.len() - 1].0);
    }
}

/// Appending an entry for a new peer inserts it into the map.
pub proof fn lemma_as_map_push(entries: Seq<EntryView>, entry: EntryView)
    ensures
        as_map(entries.push(entry)) == as_map(entries).insert(entry.0, entry.1),
{
    assert(entries.push(entry).drop_last() =~= entries);
}

/// With distinct peers, replacing the addresses of an entry replaces them in
/// the map.
pub proof fn lemma_as_map_update(entries: Seq<EntryView>, i: int, addrs: Seq<PeerAddrView>)
    requires
        keys_distinct(entries),
        0 <= i < entries.len(),
    ensures
        keys_distinct(entries.update(i, (entries[i].0, addrs))),
        as_map(entries.update(i, (entries[i].0, addrs))) == as_map(entries).insert(
            entries[i].0,
            addrs,
        ),
    decreases entries.len(),
{
    let after = entries.update(i, (entries[i].0, addrs));
    assert(keys_distinct(after)) by {
        assert forall|a: int, b: int|
            0 <= a < after.len() && 0 <= b < after.len() && a != b implies after[a].0
            != after[b].0 by {
            assert(entries[a].0 != entries[b].0);
        }
    }
    let front = entries.drop_last();
    if i == entries.len() - 1 {
        assert(after.drop_last() =~= front);
        assert(as_map(after) =~= as_map(entries).insert(entries[i].0, addrs));
    } else {
        assert(keys_distinct(front)) by {
            assert forall|a: int, b: int|
                0 <= a < front.len() && 0 <= b < front.len() && a != b implies front[a].0
                != front[b].0 by {
                assert(entries[a].0 != entries[b].0);
            }
        }
        lemma_as_map_update(front, i, addrs);
        assert(after.drop_last() =~= front.update(i, (front[i].0, addrs)));
        assert(entries[i].0 != entries[entries.len() - 1].0);
        assert(as_map(after) =~= as_map(entries).insert(entries[i].0, addrs));
    }
}

/// With distinct peers, removing an entry removes its peer from the map.
pub proof fn lemma_as_map_remove(entries: Seq<EntryView>, i: int)
    requires
        keys_distinct(entries),
        0 <= i < entries.len(),
    ensures
        keys_distinct(entries.remove(i)),
        as_map(entries.remove(i)) == as_map(entries).remove(entries[i].0),
    decreases entries.len(),
{
    let after = entries.remove(i);
    assert(keys_distinct(after)) by {
        assert forall|a: int, b: int|
            0 <= a < after.len() && 0 <= b < after.len() && a != b implies after[a].0
            != after[b].0 by {
            let a0 = if a < i { a } else { a + 1 };
            let b0 = if b < i { b } else { b + 1 };
            assert(entries[a0].0 != entries[b0].0);
        }
    }
    let front = entries.drop_last();
    if i == entries.len() - 1 {
        assert(after =~= front);
        lemma_as_map_dom(front, entries[i].0);
        if has_key(front, entries[i].0) {
            let k = choose|k: int| 0 <= k < front.len() && #[trigger] front[k].0 == entries[i].0;
            assert(entries[k].0 == entries[i].0);
        }
        assert(as_map(front) =~= as_map(entries).remove(entries[i].0));
    } else {
        assert(keys_distinct(front)) by {
            assert forall|a: int, b: int|
                0 <= a < front.len() && 0 <= b < front.len() && a != b implies front[a].0
                != front[b].0 by {
                assert(entries[a].0 != entries[b].0);
            }
        }
        lemma_as_map_remove(front, i);
        assert(after.drop_last() =~= front.remove(i));
        assert(after.last() == entries.last());
        assert(entries[i].0 != entries[entries.len() - 1].0);
        assert(as_map(after) =~= as_map(entries).remove(entries[i].0));
    }
}

/// The known addresses of each peer. No peer is held twice.
#[derive(Debug)]
pub struct PeerIndex {
    entries: Vec<(String, Vec<PeerAddr>)>,
}

impl View for PeerIndex {
    type V = Map<Seq<char>, Seq<PeerAddrView>>;

    closed spec fn view(&self) -> Map<Seq<char>, Seq<PeerAddrView>> {
        as_map(self.entries.deep_view())
    }
}

impl PeerIndex {
    /// Every index is well formed: no peer has two entries.
    pub closed spec fn wf(&self) -> bool {
        keys_distinct(self.entries.deep_view())
    }

    /// The entries in the order the peers were first seen.
    pub closed spec fn entries(&self) -> Seq<EntryView> {
        self.entries.deep_view()
    }

    /// An index without peers: it has no entry, and so maps no peer to
    /// addresses.
    pub fn new() -> (index: Self)
        ensures
            index.wf(),
            index.entries() == Seq::<EntryView>::empty(),
            index@ == Map::<Seq<char>, Seq<PeerAddrView>>::empty(),
    {
        let entries: Vec<(String, Vec<PeerAddr>)> = Vec::new();
        assert(entries.deep_view() =~= Seq::<EntryView>::empty());
        PeerIndex { entries }
    }

    /// The position of the entry for `peer`, if there is one.
    fn find(&self, peer: &String) -> (r: Option<usize>)
        ensures
            match r {
                Some(i) => i < self.entries().len() && self.entries()[i as int].0 == peer@,
                None => !has_key(self.entries(), peer@),
            },
    {
        let mut i: usize = 0;
        while i < self.entries.len()
            invariant
                i <= self.entries@.len(),
                forall|j: int| 0 <= j < i ==> self.entries.deep_view()[j].0 != peer@,
            decreases self.entries@.len() - i,
        {
            if self.entries[i].0 == *peer {
                assert(self.entries.deep_view()[i as int].0 == peer@);
                return Some(i);
            }
            i += 1;
        }
        None
    }

    /// Number of peers in the index.
    pub fn len(&self) -> (n: usize)
        ensures
            n == self.entries().len(),
    {
        self.entries.len()
    }

    /// True when the index holds `peer`.
    pub fn contains_key(&self, peer: &String) -> (found: bool)
        ensures
            found == self@.dom().contains(peer@),
    {
        proof {
            lemma_as_map_dom(self.entries.deep_view(), peer@);
        }
        self.find(peer).is_some()
    }

    /// Removes `peer` and its addresses, if the index holds it.
    pub fn remove(&mut self, peer: &String)
        requires
            old(self).wf(),
        ensures
            final(self).wf(),
            final(self)@ == old(self)@.remove(peer@),
    {
        let ghost before = self.entries.deep_view();
        match self.find(peer) {
            Some(i) => {
                self.entries.remove(i);
                proof {
                    assert(self.entries.deep_view() =~= before.remove(i as int));
                    lemma_as_map_remove(before, i as int);
                }
            },
            None => {
                proof {
                    lemma_as_map_dom(before, peer@);
                    assert(as_map(before).remove(peer@) =~= as_map(before));
                }
            },
        }
    }

    /// Appends `addr` to the addresses of `peer`, which is added to the
    /// index if it is not in it.
    pub fn push_addr(&mut self, peer: String, addr: PeerAddr)
        requires
            old(self).wf(),
        ensures
            final(self).wf(),
            final(self)@ == old(self)@.insert(
                peer@,
                known_addrs(old(self)@, peer@).push(addr@),
            ),
    {
        let ghost before = self.entries.deep_view();
        proof {
            lemma_as_map_dom(before, peer@);
        }
        match self.find(&peer) {
            Some(i) => {
                let ghost addrs = before[i as int].1;
                let ghost old_entries = self.entries@;
                self.entries[i].1.push(addr);
                proof {
                    lemma_as_map_at(before, i as int);
                    assert(self.entries@.len() == old_entries.len());
                    assert(self.entries@[i as int].0 == old_entries[i as int].0);
                    assert(self.entries@[i as int].1@ == old_entries[i as int].1@.push(addr));
                    assert(forall|j: int|
                        0 <= j < old_entries.len() && j != i ==> self.entries@[j]
                            == old_entries[j]);
                    assert(self.entries@[i as int].1.deep_view() =~= addrs.push(addr@));
                    assert(self.entries.deep_view() =~= before.update(
                        i as int,
                        (before[i as int].0, addrs.push(addr@)),
                    ));
                    lemma_as_map_update(before, i as int, addrs.push(addr@));
                }
            },
            None => {
                let mut addrs: Vec<PeerAddr> = Vec::new();
                addrs.push(addr);
                assert(addrs.deep_view() =~= Seq::<PeerAddrView>::empty().push(addr@));
                self.entries.push((peer, addrs));
                proof {
                    let entry = (peer@, Seq::<PeerAddrView>::empty().push(addr@));
                    assert(self.entries.deep_view() =~= before.push(entry));
                    lemma_as_map_push(before, entry);
                    assert(keys_distinct(before.push(entry)));
                }
            },
        }
    }

    /// Adds to the addresses of `peer` those of `addrs` that are not among
    /// them yet; `peer` is added to the index if it is not in it.
    pub fn merge_addrs(&mut self, peer: String, addrs: &Vec<PeerAddr>)
        requires
            old(self).wf(),
        ensures
            final(self).wf(),
            final(self)@ == old(self)@.insert(
                peer@,
                merged(known_addrs(old(self)@, peer@), addrs.deep_view()),
            ),
    {
        let ghost before = self.entries.deep_view();
        let ghost target = merged(known_addrs(as_map(before), peer@), addrs.deep_view());
        proof {
            lemma_as_map_dom(before, peer@);
        }
        let at = match self.find(&peer) {
            Some(i) => {
                proof {
                    lemma_as_map_at(before, i as int);
                    assert(before.update(i as int, before[i as int]) =~= before);
                }
                i
            },
            None => {
                let none: Vec<PeerAddr> = Vec::new();
                assert(none.deep_view() =~= Seq::<PeerAddrView>::empty());
                self.entries.push((peer, none));
                proof {
                    let entry = (peer@, Seq::<PeerAddrView>::empty());
                    assert(self.entries.deep_view() =~= before.push(entry));
                    assert(keys_distinct(before.push(entry)));
                    assert(before.push(entry).update(before.len() as int, entry) =~= before.push(
                        entry,
                    ));
                }
                self.entries.len() - 1
            },
        };
        let ghost base = self.entries.deep_view();
        let ghost key = base[at as int].0;
        proof {
            assert(key == peer@);
            assert(base[at as int].1 == known_addrs(as_map(before), peer@));
            assert(addrs.deep_view().skip(0) =~= addrs.deep_view());
        }
        let mut i: usize = 0;
        while i < addrs.len()
            invariant
                i <= addrs@.len(),
                at < self.entries@.len(),
                keys_distinct(base),
                at < base.len(),
                key == base[at as int].0,
                self.entries.deep_view() == base.update(
                    at as int,
                    (key, self.entries.deep_view()[at as int].1),
                ),
                merged(self.entries.deep_view()[at as int].1, addrs.deep_view().skip(i as int))
                    == target,
            decreases addrs@.len() - i,
        {
            let ghost current = self.entries.deep_view()[at as int].1;
            let ghost rest = addrs.deep_view().skip(i as int);
            proof {
                assert(rest[0] == addrs@[i as int]@);
                assert(rest.drop_first() =~= addrs.deep_view().skip(i + 1));
            }
            if !has_addr(&self.entries[at].1, &addrs[i]) {
                let copy = addrs[i].clone();
                let ghost old_entries = self.entries@;
                let ghost old_deep = self.entries.deep_view();
                self.entries[at].1.push(copy);
                proof {
                    assert(old_deep == base.update(at as int, (key, old_deep[at as int].1)));
                    assert(old_deep.len() == base.len());
                    assert(old_deep[at as int].0 == key);
                    assert forall|j: int| 0 <= j < old_entries.len() && j != at implies (
                    #[trigger] self.entries.deep_view()[j]) == base[j] by {
                        assert(self.entries@[j] == old_entries[j]);
                        assert(old_deep[j] == base.update(
                            at as int,
                            (key, old_deep[at as int].1),
                        )[j]);
                        assert(old_deep[j] == base[j]);
                    }
                    assert(self.entries.deep_view()[at as int].0 == key);
                    assert(self.entries@.len() == old_entries.len());
                    assert(self.entries@[at as int].0 == old_entries[at as int].0);
                    assert(self.entries@[at as int].1@ == old_entries[at as int].1@.push(copy));
                    assert(forall|j: int|
                        0 <= j < old_entries.len() && j != at ==> self.entries@[j]
                            == old_entries[j]);
                    assert(self.entries@[at as int].1.deep_view() =~= current.push(copy@));
                    assert(self.entries.deep_view()[at as int].1 =~= current.push(copy@));
                    assert(self.entries.deep_view() =~= base.update(
                        at as int,
                        (key, current.push(copy@)),
                    ));
                }
            }
            i += 1;
        }
        proof {
            assert(addrs.deep_view().skip(i as int) =~= Seq::<PeerAddrView>::empty());
            let last = self.entries.deep_view()[at as int].1;
            assert(last == target);
            lemma_as_map_update(base, at as int, target);
            if has_key(before, peer@) {
                assert(base == before);
                assert(as_map(before).insert(key, target) == as_map(before).insert(peer@, target));
            } else {
                lemma_as_map_push(before, (peer@, Seq::<PeerAddrView>::empty()));
                assert(as_map(base).insert(key, target) =~= as_map(before).insert(
                    peer@,
                    target,
                ));
            }
        }
    }

    /// The peers and their addresses, in the order the peers were first
    /// seen. Each peer of the index occurs once.
    pub fn snapshot(&self) -> (list: Vec<(String, Vec<PeerAddr>)>)
        requires
            self.wf(),
        ensures
            list.deep_view() == self.entries(),
            keys_distinct(list.deep_view()),
            as_map(list.deep_view()) == self@,
    {
        let mut list: Vec<(String, Vec<PeerAddr>)> = Vec::new();
        let mut i: usize = 0;
        while i < self.entries.len()
            invariant
                i <= self.entries@.len(),
                list@.len() == i,
                forall|j: int|
                    0 <= j < i ==> (#[trigger] list.deep_view()[j]) == self.entries.deep_view()[j],
            decreases self.entries@.len() - i,
        {
            let peer = self.entries[i].0.clone();
            let addrs = clone_addrs(&self.entries[i].1);
            let ghost before = list.deep_view();
            list.push((peer, addrs));
            assert(list.deep_view() =~= before.push((peer@, addrs.deep_view())));
            i += 1;
        }
        assert(list.deep_view() =~= self.entries.deep_view());
        list
    }
}

} // verus!
