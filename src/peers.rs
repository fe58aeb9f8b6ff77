//! Which peer to try next: a fixed list in turn, or peers found by
//! discovery, with a cache of earlier finds and a blacklist of peers that
//! failed.
use vstd::prelude::*;

use std::collections::VecDeque;

use crate::addr::SocketAddress;

verus! {

/// The peers in turn, forever.
pub struct RoundRobin {
    peers: Vec<SocketAddress>,
    next: usize,
}

impl RoundRobin {
    #[verifier::type_invariant]
    spec fn inv(self) -> bool {
        self.next < self.peers@.len()
    }

    /// The list, and the position of the peer that comes next.
    pub closed spec fn peers(&self) -> Seq<SocketAddress> {
        self.peers@
    }

    /// The position in the list of the peer that comes next.
    pub closed spec fn position(&self) -> int {
        self.next as int
    }

    /// Starts at the first of `peers`, which must not be empty.
    pub fn new(peers: Vec<SocketAddress>) -> (r: RoundRobin)
        requires
            peers@.len() > 0,
        ensures
            r.peers() == peers@,
            r.position() == 0,
    {
        RoundRobin { peers, next: 0 }
    }

    /// The next peer; after the last comes the first again.
    pub fn next_peer(&mut self) -> (r: SocketAddress)
        ensures
            0 <= old(self).position() < old(self).peers().len(),
            r == old(self).peers()[old(self).position()],
            final(self).peers() == old(self).peers(),
            final(self).position() == (old(self).position() + 1) % (old(self).peers().len() as int),
    {
        proof {
            use_type_invariant(&*self);
        }
        let r = self.peers[self.next];
        let n = self.peers.len();
        let p = self.next;
        if p + 1 == n {
            self.next = 0;
            assert((p + 1) % (n as int) == 0) by (nonlinear_arith)
                requires
                    p + 1 == n,
                    n > 0,
            ;
        } else {
            self.next = p + 1;
            assert((p + 1) % (n as int) == p + 1) by (nonlinear_arith)
                requires
                    p + 1 < n,
            ;
        }
        r
    }
}

/// What the discovery selector holds: peers found earlier, oldest first, and
/// the peers that failed a connection.
pub struct PeerCacheState {
    pub cache: Seq<SocketAddress>,
    pub blacklist: Set<SocketAddress>,
}

/// Start of a selection: the blacklisted peers leave the cache.
pub open spec fn prune_spec(s: PeerCacheState) -> PeerCacheState {
    PeerCacheState {
        cache: s.cache.filter(|a: SocketAddress| !s.blacklist.contains(a)),
        blacklist: s.blacklist,
    }
}

/// Discovery found `a`: a peer not in the cache is selected and joins the
/// cache's end; one in the cache is passed over.
pub open spec fn offer_spec(s: PeerCacheState, a: SocketAddress) -> (PeerCacheState, bool) {
    if s.cache.contains(a) {
        (s, false)
    } else {
        (PeerCacheState { cache: s.cache.push(a), blacklist: s.blacklist }, true)
    }
}

/// Nothing new was found in time: the oldest cached peer is selected and
/// moves to the cache's end.
pub open spec fn take_cached_spec(s: PeerCacheState) -> (PeerCacheState, Option<SocketAddress>) {
    if s.cache.len() == 0 {
        (s, None)
    } else {
        (
            PeerCacheState { cache: s.cache.drop_first().push(s.cache[0]), blacklist: s.blacklist },
            Some(s.cache[0]),
        )
    }
}

/// Once a peer is blacklisted, a selection never takes it from the cache:
/// the start of the selection removes it, and the cache hands out only what
/// it then holds. (Only a fresh find by discovery can select it again.)
pub proof fn lemma_blacklisted_not_reused(s: PeerCacheState, a: SocketAddress)
    requires
        s.blacklist.contains(a),
    ensures
        !prune_spec(s).cache.contains(a),
        take_cached_spec(prune_spec(s)).1 != Some(a),
        !take_cached_spec(prune_spec(s)).0.cache.contains(a),
{
    let pred = |x: SocketAddress| !s.blacklist.contains(x);
    let c = prune_spec(s).cache;
    if c.contains(a) {
        let i = choose|i: int| 0 <= i < c.len() && c[i] == a;
        s.cache.lemma_filter_pred(pred, i);
    }
    if c.len() > 0 {
        assert(c.contains(c[0]));
        let t = take_cached_spec(prune_spec(s)).0.cache;
        if t.contains(a) {
            let i = choose|i: int| 0 <= i < t.len() && t[i] == a;
            if i < t.len() - 1 {
                assert(c[i + 1] == a);
            }
        }
    }
}

/// The discovery selector's cache and blacklist.
pub struct PeerCache {
    cache: VecDeque<SocketAddress>,
    invalid: Vec<SocketAddress>,
}

impl View for PeerCache {
    type V = PeerCacheState;

    closed spec fn view(&self) -> PeerCacheState {
        PeerCacheState { cache: self.cache@, blacklist: self.invalid@.to_set() }
    }
}

impl PeerCache {
    /// The cache holds each peer at most once.
    pub closed spec fn wf(&self) -> bool {
        self.cache@.no_duplicates()
    }

    /// Empty cache, empty blacklist.
    pub fn new() -> (r: PeerCache)
        ensures
            r.wf(),
            r@.cache == Seq::<SocketAddress>::empty(),
            r@.blacklist == Set::<SocketAddress>::empty(),
    {
        let r = PeerCache { cache: VecDeque::new(), invalid: Vec::new() };
        assert(r.invalid@.to_set() =~= Set::<SocketAddress>::empty());
        r
    }

    fn is_blacklisted(&self, a: &SocketAddress) -> (r: bool)
        ensures
            r == self@.blacklist.contains(*a),
    {
        let mut i: usize = 0;
        while i < self.invalid.len()
            invariant
                i <= self.invalid@.len(),
                forall|j: int| 0 <= j < i ==> self.invalid@[j] != *a,
            decreases self.invalid@.len() - i,
        {
            if self.invalid[i] == *a {
                assert(self.invalid@.to_set().contains(self.invalid@[i as int]));
                return true;
            }
            i += 1;
        }
        proof {
            if self.invalid@.to_set().contains(*a) {
                let j = choose|j: int| 0 <= j < self.invalid@.len() && self.invalid@[j] == *a;
            }
        }
        false
    }

    /// Whether the cache holds `a`.
    pub fn is_cached(&self, a: &SocketAddress) -> (r: bool)
        ensures
            r == self@.cache.contains(*a),
    {
        let mut i: usize = 0;
        while i < self.cache.len()
            invariant
                i <= self.cache@.len(),
                forall|j: int| 0 <= j < i ==> self.cache@[j] != *a,
            decreases self.cache@.len() - i,
        {
            if self.cache[i] == *a {
                return true;
            }
            i += 1;
        }
        false
    }

    /// Whether a selection may fall back on the cache when nothing new is
    /// found in time: only where the cache is not empty.
    pub fn cache_timeout_enabled(&self) -> (r: bool)
        ensures
            r == (self@.cache.len() > 0),
    {
        self.cache.len() > 0
    }

    /// Starts a selection: removes every blacklisted peer from the cache,
    /// keeping the order of the others.
    pub fn prune(&mut self)
        requires
            old(self).wf(),
        ensures
            final(self).wf(),
            final(self)@ == prune_spec(old(self)@),
    {
        let ghost s = self@;
        let ghost pred = |x: SocketAddress| !s.blacklist.contains(x);
        let mut kept: VecDeque<SocketAddress> = VecDeque::new();
        let mut i: usize = 0;
        while i < self.cache.len()
            invariant
                self@ == s,
                pred == (|x: SocketAddress| !s.blacklist.contains(x)),
                s.cache.no_duplicates(),
                i <= s.cache.len(),
                kept@ == s.cache.take(i as int).filter(pred),
            decreases s.cache.len() - i,
        {
            let a = self.cache[i];
            proof {
                let t = s.cache.take(i + 1);
                assert(t.drop_last() =~= s.cache.take(i as int));
                assert(t.last() == a);
                reveal(Seq::filter);
            }
            if !self.is_blacklisted(&a) {
                kept.push_back(a);
            }
            i += 1;
        }
        proof {
            assert(s.cache.take(s.cache.len() as int) =~= s.cache);
            let f = s.cache.filter(pred);
            lemma_filter_no_duplicates(s.cache, pred);
        }
        self.cache = kept;
    }

    /// Discovery found `a`. Returns whether `a` is selected: it is where the
    /// cache does not hold it, and then joins the cache's end.
    pub fn offer(&mut self, a: SocketAddress) -> (r: bool)
        requires
            old(self).wf(),
        ensures
            final(self).wf(),
            (final(self)@, r) == offer_spec(old(self)@, a),
    {
        if self.is_cached(&a) {
            false
        } else {
            let ghost before = self.cache@;
            self.cache.push_back(a);
            proof {
                assert forall|x: int, y: int| 0 <= x < y < self.cache@.len() implies self.cache@[x]
                    != self.cache@[y] by {
                    if y == before.len() {
                        assert(before.contains(before[x]));
                    }
                }
            }
            true
        }
    }

    /// Nothing new was found in time: selects the oldest cached peer and
    /// moves it to the cache's end; `None` where the cache is empty.
    pub fn take_cached(&mut self) -> (r: Option<SocketAddress>)
        requires
            old(self).wf(),
        ensures
            final(self).wf(),
            (final(self)@, r) == take_cached_spec(old(self)@),
    {
        let ghost before = self.cache@;
        match self.cache.pop_front() {
            Some(a) => {
                self.cache.push_back(a);
                proof {
                    assert(self.cache@ =~= before.drop_first().push(before[0]));
                    assert forall|x: int, y: int| 0 <= x < y < self.cache@.len() implies self.cache@[x]
                        != self.cache@[y] by {
                        if y == before.len() - 1 {
                            assert(self.cache@[x] == before[x + 1]);
                        } else {
                            assert(self.cache@[x] == before[x + 1]);
                            assert(self.cache@[y] == before[y + 1]);
                        }
                    }
                }
                Some(a)
            },
            None => None,
        }
    }

    /// Records that a connection to `a` failed.
    pub fn blacklist(&mut self, a: SocketAddress)
        requires
            old(self).wf(),
        ensures
            final(self).wf(),
            final(self)@.cache == old(self)@.cache,
            final(self)@.blacklist == old(self)@.blacklist.insert(a),
    {
        let ghost before = self.invalid@;
        if !self.is_blacklisted(&a) {
            self.invalid.push(a);
            proof {
                assert(self.invalid@.to_set() =~= before.to_set().insert(a)) by {
                    assert forall|x: SocketAddress| self.invalid@.to_set().contains(x) implies before.to_set().insert(
                        a,
                    ).contains(x) by {
                        let j = choose|j: int| 0 <= j < self.invalid@.len() && self.invalid@[j] == x;
                        if j < before.len() {
                            assert(before[j] == x);
                        }
                    }
                    assert forall|x: SocketAddress| before.to_set().insert(a).contains(x) implies self.invalid@.to_set().contains(
                        x,
                    ) by {
                        if x == a {
                            assert(self.invalid@[before.len() as int] == a);
                        } else {
                            let j = choose|j: int| 0 <= j < before.len() && before[j] == x;
                            assert(self.invalid@[j] == x);
                        }
                    }
                }
            }
        } else {
            assert(before.to_set().insert(a) =~= before.to_set());
        }
    }
}

proof fn lemma_filter_no_duplicates(s: Seq<SocketAddress>, pred: spec_fn(SocketAddress) -> bool)
    requires
        s.no_duplicates(),
    ensures
        s.filter(pred).no_duplicates(),
    decreases s.len(),
{
    reveal(Seq::filter);
    if s.len() > 0 {
        let init = s.drop_last();
        assert forall|x: int, y: int| 0 <= x < y < init.len() implies init[x] != init[y] by {
            assert(s[x] != s[y]);
        }
        lemma_filter_no_duplicates(init, pred);
        let f = init.filter(pred);
        if pred(s.last()) {
            assert forall|x: int| 0 <= x < f.len() implies f[x] != s.last() by {
                assert(f.contains(f[x]));
                init.lemma_filter_contains_rev(pred, f[x]);
                let j = choose|j: int| 0 <= j < init.len() && init[j] == f[x];
                assert(s[j] != s[s.len() - 1]);
            }
        }
    }
}

} // verus!
