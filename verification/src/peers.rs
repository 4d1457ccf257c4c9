//! The peers' public endpoints, keyed by the peer's public key.

use vstd::prelude::*;

verus! {

/// A socket address as plain values: an IPv4 or IPv6 address and a port.
#[derive(Clone, Copy, Debug, PartialEq, Eq)]
pub enum PeerAddr {
    V4 { octets: [u8; 4], port: u16 },
    V6 { segments: [u16; 8], port: u16, flowinfo: u32, scope_id: u32 },
}

/// The map that a list of (key, address) pairs with distinct keys stands for.
pub open spec fn pairs_map(ps: Seq<(Seq<char>, PeerAddr)>) -> Map<Seq<char>, PeerAddr> {
    Map::new(
        |k: Seq<char>| exists|i: int| 0 <= i < ps.len() && #[trigger] ps[i].0 == k,
        |k: Seq<char>| ps[choose|i: int| 0 <= i < ps.len() && #[trigger] ps[i].0 == k].1,
    )
}

/// No key occurs twice.
pub open spec fn keys_distinct(ps: Seq<(Seq<char>, PeerAddr)>) -> bool {
    forall|i: int, j: int| 0 <= i < ps.len() && 0 <= j < ps.len() && i != j ==> #[trigger] ps[i].0 != #[trigger] ps[j].0
}

/// Peer endpoints by public key: at most one endpoint per key.
pub struct PeerTable {
    entries: Vec<(String, PeerAddr)>,
}

impl PeerTable {
    /// The entries as (key, address) pairs.
    pub closed spec fn pairs(&self) -> Seq<(Seq<char>, PeerAddr)> {
        Seq::new(self.entries.len() as nat, |i: int| (self.entries@[i].0@, self.entries@[i].1))
    }

    #[verifier::type_invariant]
    closed spec fn well_formed(&self) -> bool {
        keys_distinct(self.pairs())
    }
}

impl View for PeerTable {
    type V = Map<Seq<char>, PeerAddr>;

    closed spec fn view(&self) -> Map<Seq<char>, PeerAddr> {
        pairs_map(self.pairs())
    }
}

/// Looking a key up in the pairs finds the pair that holds it.
proof fn lemma_pairs_map_at(ps: Seq<(Seq<char>, PeerAddr)>, i: int)
    requires
        keys_distinct(ps),
        0 <= i < ps.len(),
    ensures
        pairs_map(ps).contains_key(ps[i].0),
        pairs_map(ps)[ps[i].0] == ps[i].1,
{
    let k = ps[i].0;
    assert(ps[i].0 == k);
    let j = choose|j: int| 0 <= j < ps.len() && #[trigger] ps[j].0 == k;
    assert(j == i);
}

impl PeerTable {
    /// An empty table.
    pub fn new() -> (r: PeerTable)
        ensures
            r@ == Map::<Seq<char>, PeerAddr>::empty(),
    {
        let r = PeerTable { entries: Vec::new() };
        assert(r@ =~= Map::<Seq<char>, PeerAddr>::empty());
        r
    }

    /// Records `addr` as the endpoint of `key`, replacing any earlier one.
    pub fn insert(&mut self, key: String, addr: PeerAddr)
        ensures
            final(self)@ == old(self)@.insert(key@, addr),
    {
        proof {
            use_type_invariant(&*self);
        }
        let ghost old_ps = self.pairs();
        let mut entries: Vec<(String, PeerAddr)> = Vec::new();
        std::mem::swap(&mut entries, &mut self.entries);
        assert(Seq::new(entries@.len(), |i: int| (entries@[i].0@, entries@[i].1)) =~= old_ps);
        let n = entries.len();
        let mut i: usize = 0;
        while i < n
            invariant
                0 <= i <= n,
                n == entries.len(),
                old_ps.len() == n,
                old(self)@ == pairs_map(old_ps),
                keys_distinct(old_ps),
                forall|j: int| 0 <= j < n ==> #[trigger] old_ps[j] == (entries@[j].0@, entries@[j].1),
                forall|j: int| 0 <= j < i ==> (#[trigger] old_ps[j]).0 != key@,
            decreases n - i,
        {
            if entries[i].0 == key {
                let ghost k = key@;
                assert(old_ps[i as int].0 == k);
                entries.set(i, (key, addr));
                let ghost new_ps = Seq::new(entries@.len(), |j: int| (entries@[j].0@, entries@[j].1));
                assert(new_ps =~= old_ps.update(i as int, (k, addr)));
                assert(keys_distinct(new_ps)) by {
                    assert forall|a: int, b: int|
                        0 <= a < new_ps.len() && 0 <= b < new_ps.len() && a != b implies #[trigger] new_ps[a].0
                        != #[trigger] new_ps[b].0 by {
                        assert(old_ps[a].0 != old_ps[b].0);
                    }
                }
                assert(pairs_map(new_ps) =~= pairs_map(old_ps).insert(k, addr)) by {
                    assert forall|q: Seq<char>|
                        #[trigger] pairs_map(new_ps).contains_key(q) <==> pairs_map(old_ps).insert(
                            k,
                            addr,
                        ).contains_key(q) by {
                        if q == k {
                            assert(new_ps[i as int].0 == q);
                        }
                        if pairs_map(old_ps).contains_key(q) {
                            let j = choose|j: int| 0 <= j < old_ps.len() && #[trigger] old_ps[j].0 == q;
                            assert(new_ps[j].0 == q);
                        }
                        if pairs_map(new_ps).contains_key(q) {
                            let j = choose|j: int| 0 <= j < new_ps.len() && #[trigger] new_ps[j].0 == q;
                            assert(old_ps[j].0 == q);
                        }
                    }
                    assert forall|q: Seq<char>| #[trigger] pairs_map(new_ps).contains_key(q) implies pairs_map(new_ps)[q]
                        == pairs_map(old_ps).insert(k, addr)[q] by {
                        let j = choose|j: int| 0 <= j < new_ps.len() && #[trigger] new_ps[j].0 == q;
                        lemma_pairs_map_at(new_ps, j);
                        if j != i {
                            assert(old_ps[j].0 != old_ps[i as int].0);
                            lemma_pairs_map_at(old_ps, j);
                        }
                    }
                }
                self.entries = entries;
                assert(self.pairs() =~= new_ps);
                return;
            }
            i = i + 1;
        }
        let ghost k = key@;
        entries.push((key, addr));
        let ghost new_ps = Seq::new(entries@.len(), |j: int| (entries@[j].0@, entries@[j].1));
        assert(new_ps =~= old_ps.push((k, addr)));
        assert(keys_distinct(new_ps)) by {
            assert forall|a: int, b: int|
                0 <= a < new_ps.len() && 0 <= b < new_ps.len() && a != b implies #[trigger] new_ps[a].0
                != #[trigger] new_ps[b].0 by {
                if a < n && b < n {
                    assert(old_ps[a].0 != old_ps[b].0);
                } else if a < n {
                    assert(old_ps[a].0 != k);
                } else {
                    assert(old_ps[b].0 != k);
                }
            }
        }
        assert(pairs_map(new_ps) =~= pairs_map(old_ps).insert(k, addr)) by {
            assert forall|q: Seq<char>|
                #[trigger] pairs_map(new_ps).contains_key(q) <==> pairs_map(old_ps).insert(
                    k,
                    addr,
                ).contains_key(q) by {
                if pairs_map(old_ps).contains_key(q) {
                    let j = choose|j: int| 0 <= j < old_ps.len() && #[trigger] old_ps[j].0 == q;
                    assert(new_ps[j].0 == q);
                }
                if q == k {
                    assert(new_ps[n as int].0 == q);
                }
                if pairs_map(new_ps).contains_key(q) {
                    let j = choose|j: int| 0 <= j < new_ps.len() && #[trigger] new_ps[j].0 == q;
                    if j < n {
                        assert(old_ps[j].0 == q);
                    }
                }
            }
            assert forall|q: Seq<char>| #[trigger] pairs_map(new_ps).contains_key(q) implies pairs_map(new_ps)[q]
                == pairs_map(old_ps).insert(k, addr)[q] by {
                let j = choose|j: int| 0 <= j < new_ps.len() && #[trigger] new_ps[j].0 == q;
                lemma_pairs_map_at(new_ps, j);
                if j < n {
                    lemma_pairs_map_at(old_ps, j);
                }
            }
        }
        self.entries = entries;
        assert(self.pairs() =~= new_ps);
    }

    /// The endpoint recorded for `key`, if any.
    pub fn get(&self, key: &str) -> (r: Option<PeerAddr>)
        ensures
            r == (if self@.contains_key(key@) {
                Some(self@[key@])
            } else {
                None
            }),
    {
        proof {
            use_type_invariant(self);
        }
        let ghost ps = self.pairs();
        let n = self.entries.len();
        let mut i: usize = 0;
        while i < n
            invariant
                0 <= i <= n,
                n == self.entries.len(),
                ps == self.pairs(),
                keys_distinct(ps),
                forall|j: int| 0 <= j < i ==> (#[trigger] ps[j]).0 != key@,
            decreases n - i,
        {
            assert(ps[i as int] == (self.entries@[i as int].0@, self.entries@[i as int].1));
            if crate::text::string_equals(&self.entries[i].0, key) {
                proof {
                    lemma_pairs_map_at(ps, i as int);
                }
                return Some(self.entries[i].1);
            }
            i = i + 1;
        }
        assert(!self@.contains_key(key@)) by {
            if self@.contains_key(key@) {
                let j = choose|j: int| 0 <= j < ps.len() && #[trigger] ps[j].0 == key@;
                assert(ps[j].0 != key@);
            }
        }
        None
    }

    /// A copy of the table.
    pub fn duplicate(&self) -> (r: PeerTable)
        ensures
            r@ == self@,
    {
        proof {
            use_type_invariant(self);
        }
        let mut entries: Vec<(String, PeerAddr)> = Vec::new();
        let n = self.entries.len();
        let mut i: usize = 0;
        while i < n
            invariant
                0 <= i <= n,
                n == self.entries.len(),
                entries@.len() == i,
                forall|j: int| 0 <= j < i ==> #[trigger] entries@[j].0@ == self.entries@[j].0@ && entries@[j].1 == self.entries@[j].1,
            decreases n - i,
        {
            entries.push((self.entries[i].0.clone(), self.entries[i].1));
            i = i + 1;
        }
        assert(Seq::new(entries@.len(), |i: int| (entries@[i].0@, entries@[i].1)) =~= self.pairs());
        let r = PeerTable { entries };
        assert(r.pairs() =~= self.pairs());
        r
    }

    /// The entries, one per key, each with the endpoint the table holds for it.
    pub fn to_vec(&self) -> (r: Vec<(String, PeerAddr)>)
        ensures
            keys_distinct(Seq::new(r@.len(), |i: int| (r@[i].0@, r@[i].1))),
            pairs_map(Seq::new(r@.len(), |i: int| (r@[i].0@, r@[i].1))) == self@,
    {
        proof {
            use_type_invariant(self);
        }
        let t = self.duplicate();
        proof {
            use_type_invariant(&t);
        }
        let r = t.entries;
        assert(Seq::new(r@.len(), |i: int| (r@[i].0@, r@[i].1)) =~= t.pairs());
        r
    }
}

} // verus!
