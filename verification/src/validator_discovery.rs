//! Validator discovery for the network bridge: which validators are
//! requested, which peers are connected and which authorities they speak for,
//! and what to tell the requesters and the network when connections and
//! revocations happen.
//!
//! Authorities, peers, network addresses and request channels are known here
//! by integer handles; the caller keeps the real values behind them, asks the
//! authority discovery service for addresses, sends the notices on the
//! channels and hands the peer-set updates to the network.

use std::collections::{HashMap, HashSet};
use vstd::prelude::*;
use vstd::multiset::Multiset;

verus! {

/// The peer set a request or a connection belongs to.
#[derive(Clone, Copy, PartialEq, Eq, Debug)]
pub enum PeerSet {
    /// Validation protocol peers.
    Validation,
    /// Collation protocol peers.
    Collation,
}

/// An address that the authority discovery service knows for an authority,
/// with the peer it names when it carries one.
#[derive(Clone, Copy, PartialEq, Eq, Debug)]
pub struct DiscoveredAddress {
    /// The address.
    pub addr: u64,
    /// The peer that the address names, if it names one.
    pub peer: Option<u64>,
}

/// A connected authority to report on a request's channel.
#[derive(Clone, Copy, PartialEq, Eq, Debug)]
pub struct ConnectionNotice {
    /// The request's channel.
    pub channel: u64,
    /// The authority that connected.
    pub authority: u64,
    /// The peer it connected as.
    pub peer: u64,
}

/// How many times a sequence holds a value.
pub open spec fn occurrences(s: Seq<u64>, a: u64) -> nat {
    s.to_multiset().count(a)
}

/// The value a counter map holds for a key, 0 where it holds none.
pub open spec fn count_of(m: Map<u64, u64>, a: u64) -> nat {
    if m.contains_key(a) {
        m[a] as nat
    } else {
        0
    }
}

/// Whether some connected peer is known to speak for `authority`.
pub open spec fn cached_in(connected: Map<u64, Set<u64>>, authority: u64) -> bool {
    exists|p: u64| #[trigger] connected.contains_key(p) && connected[p].contains(authority)
}

/// Whether the discovered addresses of `authority` name `peer`.
pub open spec fn discovered_peer(
    book: Map<u64, Vec<DiscoveredAddress>>,
    authority: u64,
    peer: u64,
) -> bool {
    &&& book.contains_key(authority)
    &&& exists|k: int| 0 <= k < book[authority]@.len() && #[trigger] book[authority]@[k].peer == Some(peer)
}

/// The authorities of `ids` that a lookup attaches to `peer`: those that no
/// connected peer was known to speak for and whose discovered addresses name
/// `peer`.
pub open spec fn attached_to(
    connected: Map<u64, Set<u64>>,
    book: Map<u64, Vec<DiscoveredAddress>>,
    ids: Seq<u64>,
    peer: u64,
) -> Set<u64> {
    Set::new(|x: u64| ids.contains(x) && !cached_in(connected, x) && discovered_peer(book, x, peer))
}

/// Whether a lookup finds a connected peer for `authority`.
pub open spec fn found_connected(
    connected: Map<u64, Set<u64>>,
    book: Map<u64, Vec<DiscoveredAddress>>,
    authority: u64,
) -> bool {
    cached_in(connected, authority) || exists|p: u64|
        #[trigger] connected.contains_key(p) && discovered_peer(book, authority, p)
}

/// Whether one of the first `k` addresses names `peer`.
pub open spec fn names_peer_before(addresses: Seq<DiscoveredAddress>, k: int, peer: u64) -> bool {
    exists|j: int| 0 <= j < k && #[trigger] addresses[j].peer == Some(peer)
}

/// A sequence with one more element holds what it held and the new element.
proof fn lemma_push_contains(s: Seq<u64>, v: u64)
    ensures
        forall|x: u64| #[trigger] s.push(v).contains(x) <==> (s.contains(x) || x == v),
{
    assert forall|x: u64| #[trigger] s.push(v).contains(x) <==> (s.contains(x) || x == v) by {
        if s.push(v).contains(x) {
            let j = choose|j: int| 0 <= j < s.push(v).len() && s.push(v)[j] == x;
            if j < s.len() {
                assert(s[j] == x);
            }
        }
        if s.contains(x) {
            let j = choose|j: int| 0 <= j < s.len() && s[j] == x;
            assert(s.push(v)[j] == x);
        }
        if x == v {
            assert(s.push(v)[s.len() as int] == x);
        }
    }
}

/// The first connected peer that is known to speak for `id`, if any.
fn find_cached_peer(connected: &HashMap<u64, HashSet<u64>>, id: u64) -> (r: Option<u64>)
    ensures
        r matches Some(p) ==> connected@.contains_key(p) && connected@[p]@.contains(id),
        r is None ==> forall|p: u64|
            #[trigger] connected@.contains_key(p) ==> !connected@[p]@.contains(id),
{
    let ghost mut checked: Set<u64> = Set::empty();
    for p in it: connected.keys()
        invariant
            it.seq().unref().to_set() == connected@.dom(),
            checked == it.seq().unref().take(it.index() as int).to_set(),
            it.index() == it.seq().len() ==> checked == connected@.dom(),
            forall|q: u64| #[trigger] checked.contains(q) ==> !connected@[q]@.contains(id),
    {
        let ids = connected.get(p).unwrap();
        if ids.contains(&id) {
            return Some(*p);
        }
        proof {
            assert(it.seq().unref().take(it.index() + 1) =~= it.seq().unref().take(
                it.index() as int,
            ).push(*p));
            assert(it.seq().unref().take(it.seq().len() as int) =~= it.seq().unref());
            checked = checked.insert(*p);
        }
    }
    None
}

/// The state of one connection request that has not been seen revoked.
pub struct NonRevokedConnectionRequestState {
    requested: Vec<u64>,
    pending: HashSet<u64>,
    sender: u64,
}

impl NonRevokedConnectionRequestState {
    /// The authorities the request asked for, in order.
    pub closed spec fn requested_ids(self) -> Seq<u64> {
        self.requested@
    }

    /// The requested authorities not yet reported connected.
    pub closed spec fn pending_ids(self) -> Set<u64> {
        self.pending@
    }

    /// The channel on which connections are reported.
    pub closed spec fn channel(self) -> u64 {
        self.sender
    }

    /// A request for `requested`, waiting for `pending`, reporting on `sender`.
    pub fn new(requested: Vec<u64>, pending: HashSet<u64>, sender: u64) -> (r: Self)
        ensures
            r.requested_ids() == requested@,
            r.pending_ids() == pending@,
            r.channel() == sender,
    {
        Self { requested, pending, sender }
    }

    /// An authority connected as `peer_id`: if the request was waiting for it,
    /// it stops waiting and the connection is to be reported on its channel.
    pub fn on_authority_connected(&mut self, authority: &u64, peer_id: &u64) -> (r: Option<
        ConnectionNotice,
    >)
        ensures
            final(self).requested_ids() == old(self).requested_ids(),
            final(self).channel() == old(self).channel(),
            final(self).pending_ids() == old(self).pending_ids().remove(*authority),
            r == (if old(self).pending_ids().contains(*authority) {
                Some(
                    ConnectionNotice {
                        channel: old(self).channel(),
                        authority: *authority,
                        peer: *peer_id,
                    },
                )
            } else {
                None
            }),
    {
        if self.pending.remove(authority) {
            Some(ConnectionNotice { channel: self.sender, authority: *authority, peer: *peer_id })
        } else {
            None
        }
    }

    /// The channel on which connections are reported.
    pub fn sender(&self) -> (r: u64)
        ensures
            r == self.channel(),
    {
        self.sender
    }

    /// The authorities the request asked for.
    pub fn requested(&self) -> (r: &[u64])
        ensures
            r@ == self.requested_ids(),
    {
        self.requested.as_slice()
    }
}

/// Called when a request was revoked, for each validator it named: the
/// validator's request counter goes down by one, and the validator leaves the
/// map, and is returned, when the counter reaches 0.
pub fn on_revoke(map: &mut HashMap<u64, u64>, id: u64) -> (r: Option<u64>)
    ensures
        match old(map)@.get(id) {
            Some(v) => if v <= 1 {
                &&& final(map)@ == old(map)@.remove(id)
                &&& r == Some(id)
            } else {
                &&& final(map)@ == old(map)@.insert(id, (v - 1) as u64)
                &&& r is None
            },
            None => final(map)@ == old(map)@ && r is None,
        },
{
    let current: Option<u64> = match map.get(&id) {
        Some(v) => Some(*v),
        None => None,
    };
    match current {
        Some(v) => {
            let next: u64 = v.saturating_sub(1);
            if next == 0 {
                map.remove(&id);
                Some(id)
            } else {
                map.insert(id, next);
                None
            }
        },
        None => None,
    }
}

/// How many times the requests name `a`, all together.
pub open spec fn requested_count(reqs: Seq<NonRevokedConnectionRequestState>, a: u64) -> nat
    decreases reqs.len(),
{
    if reqs.len() == 0 {
        0
    } else {
        requested_count(reqs.drop_last(), a) + occurrences(reqs.last().requested_ids(), a)
    }
}

/// How many authorities the requests name, all together.
pub open spec fn total_requested(reqs: Seq<NonRevokedConnectionRequestState>) -> nat
    decreases reqs.len(),
{
    if reqs.len() == 0 {
        0
    } else {
        total_requested(reqs.drop_last()) + reqs.last().requested_ids().len()
    }
}

/// A prefix holds a value at most as often as the whole sequence.
proof fn lemma_occurrences_prefix(s: Seq<u64>, j: int, a: u64)
    requires
        0 <= j <= s.len(),
    ensures
        occurrences(s.take(j), a) <= occurrences(s, a),
    decreases s.len() - j,
{
    broadcast use vstd::seq_lib::group_to_multiset_ensures;

    if j < s.len() {
        assert(s.take(j + 1) =~= s.take(j).push(s[j]));
        lemma_occurrences_prefix(s, j + 1, a);
    } else {
        assert(s.take(j) =~= s);
    }
}

/// The empty prefix holds nothing.
proof fn lemma_occurrences_empty(s: Seq<u64>)
    ensures
        forall|a: u64| #[trigger] occurrences(s.take(0), a) == 0,
{
    broadcast use vstd::seq_lib::group_to_multiset_ensures;

    assert forall|a: u64| #[trigger] occurrences(s.take(0), a) == 0 by {
        assert(!s.take(0).contains(a));
    }
}

/// Extending a prefix by the next element counts that element once more.
proof fn lemma_occurrences_step(s: Seq<u64>, j: int)
    requires
        0 <= j < s.len(),
    ensures
        forall|a: u64| #[trigger]
            occurrences(s.take(j + 1), a) == occurrences(s.take(j), a) + (if s[j] == a {
                1nat
            } else {
                0nat
            }),
        occurrences(s.take(j), s[j]) + 1 <= occurrences(s, s[j]),
{
    broadcast use vstd::seq_lib::group_to_multiset_ensures;

    assert(s.take(j + 1) =~= s.take(j).push(s[j]));
    lemma_occurrences_prefix(s, j + 1, s[j]);
}

/// Adds one to the counter of each validator in `ids`, once per occurrence.
fn count_requests(map: &mut HashMap<u64, u64>, ids: &Vec<u64>)
    requires
        forall|a: u64| #[trigger] old(map)@.contains_key(a) ==> old(map)@[a] > 0,
        forall|a: u64|
            #[trigger] ids@.contains(a) ==> count_of(old(map)@, a) + occurrences(ids@, a) <= u64::MAX,
    ensures
        forall|a: u64| #[trigger]
            count_of(final(map)@, a) == count_of(old(map)@, a) + occurrences(ids@, a),
        forall|a: u64| #[trigger] final(map)@.contains_key(a) ==> final(map)@[a] > 0,
{
    proof {
        lemma_occurrences_empty(ids@);
    }
    let mut i: usize = 0;
    while i < ids.len()
        invariant
            i <= ids.len(),
            forall|a: u64|
                #[trigger] ids@.contains(a) ==> count_of(old(map)@, a) + occurrences(ids@, a) <= u64::MAX,
            forall|a: u64| #[trigger]
                count_of(map@, a) == count_of(old(map)@, a) + occurrences(ids@.take(i as int), a),
            forall|a: u64| #[trigger] map@.contains_key(a) ==> map@[a] > 0,
        decreases ids.len() - i,
    {
        let id: u64 = ids[i];
        proof {
            lemma_occurrences_step(ids@, i as int);
            assert(ids@.contains(id)) by {
                assert(ids@[i as int] == id);
            }
            assert(count_of(map@, id) + 1 <= u64::MAX);
        }
        let ghost before = map@;
        let current: u64 = match map.get(&id) {
            Some(v) => *v,
            None => 0,
        };
        assert(current == count_of(before, id));
        map.insert(id, current + 1);
        proof {
            assert forall|a: u64| #[trigger]
                count_of(map@, a) == count_of(old(map)@, a) + occurrences(ids@.take(i + 1), a) by {
                assert(occurrences(ids@.take(i + 1), a) == occurrences(ids@.take(i as int), a) + (
                if ids@[i as int] == a {
                    1nat
                } else {
                    0nat
                }));
                if a != id {
                    assert(count_of(map@, a) == count_of(before, a));
                }
            }
        }
        i = i + 1;
    }
    assert(ids@.take(ids.len() as int) =~= ids@);
}

/// Revokes one occurrence of each validator in `ids` (`on_revoke`), and
/// appends to `dropped` the validators whose counter reached 0.
fn release_requested(map: &mut HashMap<u64, u64>, ids: &[u64], dropped: &mut Vec<u64>)
    requires
        forall|a: u64| #[trigger] old(map)@.contains_key(a) ==> old(map)@[a] > 0,
        forall|a: u64| #[trigger] count_of(old(map)@, a) >= occurrences(ids@, a),
    ensures
        forall|a: u64| #[trigger]
            count_of(final(map)@, a) == count_of(old(map)@, a) - occurrences(ids@, a),
        forall|a: u64| #[trigger] final(map)@.contains_key(a) ==> final(map)@[a] > 0,
        forall|a: u64| #[trigger]
            final(dropped)@.contains(a) <==> (old(dropped)@.contains(a) || (occurrences(ids@, a) > 0
                && count_of(final(map)@, a) == 0)),
{
    proof {
        lemma_occurrences_empty(ids@);
    }
    let mut j: usize = 0;
    while j < ids.len()
        invariant
            j <= ids.len(),
            forall|a: u64| #[trigger] count_of(old(map)@, a) >= occurrences(ids@, a),
            forall|a: u64| #[trigger]
                count_of(map@, a) == count_of(old(map)@, a) - occurrences(ids@.take(j as int), a),
            forall|a: u64| #[trigger] map@.contains_key(a) ==> map@[a] > 0,
            forall|a: u64| #[trigger]
                dropped@.contains(a) <==> (old(dropped)@.contains(a) || (occurrences(
                    ids@.take(j as int),
                    a,
                ) > 0 && count_of(map@, a) == 0)),
        decreases ids.len() - j,
    {
        let id: u64 = ids[j];
        let ghost before = map@;
        proof {
            lemma_occurrences_step(ids@, j as int);
            lemma_occurrences_prefix(ids@, j as int, id);
            assert(count_of(map@, id) >= 1);
        }
        let released = on_revoke(map, id);
        let ghost dropped_before = dropped@;
        match released {
            Some(v) => {
                dropped.push(v);
            },
            None => {},
        }
        proof {
            lemma_push_contains(dropped_before, id);
            assert forall|a: u64| #[trigger]
                count_of(map@, a) == count_of(old(map)@, a) - occurrences(ids@.take(j + 1), a) by {
                assert(occurrences(ids@.take(j + 1), a) == occurrences(ids@.take(j as int), a) + (
                if ids@[j as int] == a {
                    1nat
                } else {
                    0nat
                }));
                if a != id {
                    assert(count_of(map@, a) == count_of(before, a));
                }
            }
            assert forall|a: u64| #[trigger]
                dropped@.contains(a) <==> (old(dropped)@.contains(a) || (occurrences(
                    ids@.take(j + 1),
                    a,
                ) > 0 && count_of(map@, a) == 0)) by {
                assert(occurrences(ids@.take(j + 1), a) == occurrences(ids@.take(j as int), a) + (
                if ids@[j as int] == a {
                    1nat
                } else {
                    0nat
                }));
                if a != id {
                    assert(count_of(map@, a) == count_of(before, a));
                }
            }
        }
        j = j + 1;
    }
    assert(ids@.take(ids.len() as int) =~= ids@);
}

/// Counter maps with positive values are equal when their counts are.
proof fn lemma_counts_determine_map(m1: Map<u64, u64>, m2: Map<u64, u64>)
    requires
        forall|a: u64| #[trigger] m1.contains_key(a) ==> m1[a] > 0,
        forall|a: u64| #[trigger] m2.contains_key(a) ==> m2[a] > 0,
        forall|a: u64| #[trigger] count_of(m1, a) == count_of(m2, a),
    ensures
        m1 == m2,
{
    assert forall|a: u64| m1.contains_key(a) <==> m2.contains_key(a) by {
        assert(count_of(m1, a) == count_of(m2, a));
    }
    assert forall|a: u64| m1.contains_key(a) implies m1[a] == m2[a] by {
        assert(count_of(m1, a) == count_of(m2, a));
    }
    assert(m1 =~= m2);
}

/// Adds to `set` the first `limit` addresses of the list (all for `None`).
fn extend_with_addresses(set: &mut HashSet<u64>, addresses: &Vec<DiscoveredAddress>, limit: Option<usize>)
    ensures
        final(set)@ == old(set)@.union(first_addresses(addresses@, limit)),
{
    let end: usize = match limit {
        Some(l) => if l < addresses.len() {
            l
        } else {
            addresses.len()
        },
        None => addresses.len(),
    };
    let mut k: usize = 0;
    while k < end
        invariant
            k <= end,
            end <= addresses@.len(),
            limit matches Some(l) ==> end == (if l < addresses@.len() { l as int } else { addresses@.len() as int }),
            limit is None ==> end == addresses@.len(),
            set@ == old(set)@.union(first_addresses(addresses@.take(k as int), None)),
        decreases end - k,
    {
        let ghost before = set@;
        set.insert(addresses[k].addr);
        proof {
            let t1 = addresses@.take(k + 1);
            let t0 = addresses@.take(k as int);
            assert(first_addresses(t1, None) =~= first_addresses(t0, None).insert(addresses@[k as int].addr)) by {
                assert forall|addr: u64| first_addresses(t1, None).contains(addr) implies first_addresses(t0, None).insert(addresses@[k as int].addr).contains(addr) by {
                    let j = choose|j: int| 0 <= j < t1.len() && (None::<usize> matches Some(l) ==> j < l) && #[trigger] t1[j].addr == addr;
                    if j < k {
                        assert(t0[j].addr == addr);
                    }
                }
                assert forall|addr: u64| first_addresses(t0, None).insert(addresses@[k as int].addr).contains(addr) implies first_addresses(t1, None).contains(addr) by {
                    if addr == addresses@[k as int].addr {
                        assert(t1[k as int].addr == addr);
                    } else {
                        let j = choose|j: int| 0 <= j < t0.len() && (None::<usize> matches Some(l) ==> j < l) && #[trigger] t0[j].addr == addr;
                        assert(t1[j].addr == addr);
                    }
                }
            }
            assert(set@ =~= old(set)@.union(first_addresses(t1, None)));
        }
        k = k + 1;
    }
    proof {
        let t = addresses@.take(end as int);
        assert(first_addresses(t, None) =~= first_addresses(addresses@, limit)) by {
            assert forall|addr: u64| first_addresses(t, None).contains(addr) implies first_addresses(addresses@, limit).contains(addr) by {
                let j = choose|j: int| 0 <= j < t.len() && (None::<usize> matches Some(l) ==> j < l) && #[trigger] t[j].addr == addr;
                assert(addresses@[j].addr == addr);
            }
            assert forall|addr: u64| first_addresses(addresses@, limit).contains(addr) implies first_addresses(t, None).contains(addr) by {
                let j = choose|j: int| 0 <= j < addresses@.len() && (limit matches Some(l) ==> j < l) && #[trigger] addresses@[j].addr == addr;
                assert(t[j].addr == addr);
            }
        }
    }
}

/// The addresses that the book lists for the given authorities, at most
/// `limit` per authority.
fn addresses_of(
    authorities: &Vec<u64>,
    book: &HashMap<u64, Vec<DiscoveredAddress>>,
    limit: Option<usize>,
) -> (r: HashSet<u64>)
    ensures
        r@ == known_addresses(book@, authorities@.to_set(), limit),
{
    let mut r: HashSet<u64> = HashSet::new();
    let mut i: usize = 0;
    proof {
        assert(authorities@.take(0).to_set() =~= Set::empty());
        assert(known_addresses(book@, Set::empty(), limit) =~= Set::empty());
    }
    while i < authorities.len()
        invariant
            i <= authorities.len(),
            r@ == known_addresses(book@, authorities@.take(i as int).to_set(), limit),
        decreases authorities.len() - i,
    {
        let a: u64 = authorities[i];
        let ghost s0 = authorities@.take(i as int).to_set();
        let ghost s1 = authorities@.take(i + 1).to_set();
        proof {
            assert(authorities@.take(i + 1) =~= authorities@.take(i as int).push(a));
            lemma_push_contains(authorities@.take(i as int), a);
            assert(s1 =~= s0.insert(a));
        }
        match book.get(&a) {
            Some(addresses) => {
                extend_with_addresses(&mut r, addresses, limit);
                proof {
                    assert(known_addresses(book@, s1, limit) =~= known_addresses(book@, s0, limit).union(
                        first_addresses(book@[a]@, limit),
                    )) by {
                        assert forall|addr: u64| known_addresses(book@, s1, limit).contains(addr)
                            implies known_addresses(book@, s0, limit).union(first_addresses(book@[a]@, limit)).contains(addr) by {
                            let b = choose|b: u64| #[trigger] s1.contains(b) && book@.contains_key(b) && first_addresses(book@[b]@, limit).contains(addr);
                            if b != a {
                                assert(s0.contains(b));
                            }
                        }
                        assert forall|addr: u64| known_addresses(book@, s0, limit).union(first_addresses(book@[a]@, limit)).contains(addr)
                            implies known_addresses(book@, s1, limit).contains(addr) by {
                            if first_addresses(book@[a]@, limit).contains(addr) {
                                assert(s1.contains(a));
                            } else {
                                let b = choose|b: u64| #[trigger] s0.contains(b) && book@.contains_key(b) && first_addresses(book@[b]@, limit).contains(addr);
                                assert(s1.contains(b));
                            }
                        }
                    }
                }
            },
            None => {
                proof {
                    assert(known_addresses(book@, s1, limit) =~= known_addresses(book@, s0, limit)) by {
                        assert forall|addr: u64| known_addresses(book@, s1, limit).contains(addr)
                            implies known_addresses(book@, s0, limit).contains(addr) by {
                            let b = choose|b: u64| #[trigger] s1.contains(b) && book@.contains_key(b) && first_addresses(book@[b]@, limit).contains(addr);
                            assert(s0.contains(b));
                        }
                        assert forall|addr: u64| known_addresses(book@, s0, limit).contains(addr)
                            implies known_addresses(book@, s1, limit).contains(addr) by {
                            let b = choose|b: u64| #[trigger] s0.contains(b) && book@.contains_key(b) && first_addresses(book@[b]@, limit).contains(addr);
                            assert(s1.contains(b));
                        }
                    }
                }
            },
        }
        i = i + 1;
    }
    assert(authorities@.take(authorities.len() as int) =~= authorities@);
    r
}

/// The requested authorities that are not among the already connected ones.
fn pending_of(ids: &Vec<u64>, already_connected: &HashMap<u64, u64>) -> (r: HashSet<u64>)
    ensures
        r@ == Set::new(|a: u64| ids@.contains(a) && !already_connected@.contains_key(a)),
{
    let mut r: HashSet<u64> = HashSet::new();
    let mut i: usize = 0;
    while i < ids.len()
        invariant
            i <= ids.len(),
            r@ == Set::new(
                |a: u64| ids@.take(i as int).contains(a) && !already_connected@.contains_key(a),
            ),
        decreases ids.len() - i,
    {
        let a: u64 = ids[i];
        proof {
            assert(ids@.take(i + 1) =~= ids@.take(i as int).push(a));
            lemma_push_contains(ids@.take(i as int), a);
        }
        if !already_connected.contains_key(&a) {
            r.insert(a);
        }
        proof {
            assert(r@ =~= Set::new(
                |x: u64| ids@.take(i + 1).contains(x) && !already_connected@.contains_key(x),
            ));
        }
        i = i + 1;
    }
    assert(ids@.take(ids.len() as int) =~= ids@);
    r
}

/// The requests whose flag is not set, in order.
pub open spec fn unrevoked(
    reqs: Seq<NonRevokedConnectionRequestState>,
    flags: Seq<bool>,
) -> Seq<NonRevokedConnectionRequestState>
    decreases reqs.len(),
{
    if reqs.len() == 0 {
        reqs
    } else {
        let rest = unrevoked(reqs.drop_first(), flags.drop_first());
        if flags[0] {
            rest
        } else {
            seq![reqs[0]] + rest
        }
    }
}

/// How many times the first `i` requests whose flag is set name `a`.
pub open spec fn revoked_count(
    reqs: Seq<NonRevokedConnectionRequestState>,
    flags: Seq<bool>,
    i: int,
    a: u64,
) -> nat
    decreases i,
{
    if i <= 0 {
        0
    } else {
        revoked_count(reqs, flags, i - 1, a) + (if flags[i - 1] {
            occurrences(reqs[i - 1].requested_ids(), a)
        } else {
            0
        })
    }
}

/// The validators that a clean-up lets go: named by a revoked request and by
/// no request that remains.
pub open spec fn released(
    old_reqs: Seq<NonRevokedConnectionRequestState>,
    flags: Seq<bool>,
    new_reqs: Seq<NonRevokedConnectionRequestState>,
) -> Set<u64> {
    Set::new(
        |a: u64|
            revoked_count(old_reqs, flags, old_reqs.len() as int, a) > 0 && requested_count(
                new_reqs,
                a,
            ) == 0,
    )
}

/// The addresses among the first `limit` of a list (all of them for `None`).
pub open spec fn first_addresses(v: Seq<DiscoveredAddress>, limit: Option<usize>) -> Set<u64> {
    Set::new(
        |addr: u64|
            exists|k: int|
                0 <= k < v.len() && (limit matches Some(l) ==> k < l) && #[trigger] v[k].addr == addr,
    )
}

/// The addresses that the book lists for the given authorities, at most
/// `limit` per authority.
pub open spec fn known_addresses(
    book: Map<u64, Vec<DiscoveredAddress>>,
    authorities: Set<u64>,
    limit: Option<usize>,
) -> Set<u64> {
    Set::new(
        |addr: u64|
            exists|a: u64|
                #[trigger] authorities.contains(a) && book.contains_key(a) && first_addresses(
                    book[a]@,
                    limit,
                ).contains(addr),
    )
}

proof fn lemma_rc_push(s: Seq<NonRevokedConnectionRequestState>, r: NonRevokedConnectionRequestState)
    ensures
        forall|a: u64| #[trigger]
            requested_count(s.push(r), a) == requested_count(s, a) + occurrences(r.requested_ids(), a),
{
    assert(s.push(r).drop_last() =~= s);
}

proof fn lemma_rc_update(
    s: Seq<NonRevokedConnectionRequestState>,
    i: int,
    v: NonRevokedConnectionRequestState,
)
    requires
        0 <= i < s.len(),
    ensures
        forall|a: u64| #[trigger]
            requested_count(s.update(i, v), a) + occurrences(s[i].requested_ids(), a)
                == requested_count(s, a) + occurrences(v.requested_ids(), a),
    decreases s.len(),
{
    let t = s.update(i, v);
    if i == s.len() - 1 {
        assert(t.drop_last() =~= s.drop_last());
        assert forall|a: u64| #[trigger]
            requested_count(s.update(i, v), a) + occurrences(s[i].requested_ids(), a)
                == requested_count(s, a) + occurrences(v.requested_ids(), a) by {
            assert(requested_count(t, a) == requested_count(t.drop_last(), a) + occurrences(
                t.last().requested_ids(),
                a,
            ));
            assert(requested_count(s, a) == requested_count(s.drop_last(), a) + occurrences(
                s.last().requested_ids(),
                a,
            ));
        }
    } else {
        assert(t.drop_last() =~= s.drop_last().update(i, v));
        lemma_rc_update(s.drop_last(), i, v);
        assert forall|a: u64| #[trigger]
            requested_count(s.update(i, v), a) + occurrences(s[i].requested_ids(), a)
                == requested_count(s, a) + occurrences(v.requested_ids(), a) by {
            assert(requested_count(t, a) == requested_count(t.drop_last(), a) + occurrences(
                t.last().requested_ids(),
                a,
            ));
            assert(requested_count(s, a) == requested_count(s.drop_last(), a) + occurrences(
                s.last().requested_ids(),
                a,
            ));
            assert(t.last() == s.last());
            assert(s.drop_last()[i] == s[i]);
            assert(requested_count(s.drop_last().update(i, v), a) + occurrences(
                s.drop_last()[i].requested_ids(),
                a,
            ) == requested_count(s.drop_last(), a) + occurrences(v.requested_ids(), a));
        }
    }
}

/// `swap_remove(i)` takes away exactly what the `i`-th request counted.
proof fn lemma_rc_swap_remove(s: Seq<NonRevokedConnectionRequestState>, i: int)
    requires
        0 <= i < s.len(),
    ensures
        forall|a: u64| #[trigger]
            requested_count(s.update(i, s.last()).drop_last(), a) + occurrences(s[i].requested_ids(), a)
                == requested_count(s, a),
{
    lemma_rc_update(s, i, s.last());
    let t = s.update(i, s.last());
    assert(t.last() == s.last());
    assert forall|a: u64| #[trigger]
        requested_count(s.update(i, s.last()).drop_last(), a) + occurrences(s[i].requested_ids(), a)
            == requested_count(s, a) by {
        assert(requested_count(t, a) == requested_count(t.drop_last(), a) + occurrences(
            t.last().requested_ids(),
            a,
        ));
    }
}

/// `swap_remove(i)` takes the `i`-th element out of the multiset.
proof fn lemma_ms_swap_remove(s: Seq<NonRevokedConnectionRequestState>, i: int)
    requires
        0 <= i < s.len(),
    ensures
        s.update(i, s.last()).drop_last().to_multiset() =~= s.to_multiset().remove(s[i]),
{
    broadcast use vstd::seq_lib::group_to_multiset_ensures;

    let t = s.update(i, s.last());
    let n = s.len() - 1;
    assert(t.drop_last() =~= t.remove(n));
    if i == n {
        assert(t =~= s);
    } else {
        assert(t.remove(i) =~= s.remove(i));
        assert(t[n] == s.last());
        assert(t[i] == s.last());
        assert(t.remove(n).to_multiset() =~= t.to_multiset().remove(s.last()));
        assert(t.remove(i).to_multiset() =~= t.to_multiset().remove(s.last()));
    }
}

/// The revoked requests among the first `i` count no more than those
/// requests.
proof fn lemma_revoked_le(s: Seq<NonRevokedConnectionRequestState>, f: Seq<bool>, i: int)
    requires
        0 <= i <= s.len(),
    ensures
        forall|a: u64| #[trigger] revoked_count(s, f, i, a) <= requested_count(s.take(i), a),
    decreases i,
{
    if i > 0 {
        lemma_revoked_le(s, f, i - 1);
        assert(s.take(i).drop_last() =~= s.take(i - 1));
        assert forall|a: u64| #[trigger] revoked_count(s, f, i, a) <= requested_count(s.take(i), a) by {
            assert(requested_count(s.take(i), a) == requested_count(s.take(i).drop_last(), a)
                + occurrences(s.take(i).last().requested_ids(), a));
            assert(s.take(i).last() == s[i - 1]);
            assert(revoked_count(s, f, i - 1, a) <= requested_count(s.take(i - 1), a));
            assert(revoked_count(s, f, i, a) == revoked_count(s, f, i - 1, a) + (if f[i - 1] {
                occurrences(s[i - 1].requested_ids(), a)
            } else {
                0
            }));
        }
    }
}

/// A prefix of the requests counts no more than all of them.
proof fn lemma_rc_prefix(s: Seq<NonRevokedConnectionRequestState>, j: int)
    requires
        0 <= j <= s.len(),
    ensures
        forall|a: u64| #[trigger] requested_count(s.take(j), a) <= requested_count(s, a),
    decreases s.len() - j,
{
    if j < s.len() {
        assert(s.take(j + 1).drop_last() =~= s.take(j));
        lemma_rc_prefix(s, j + 1);
        assert forall|a: u64| #[trigger] requested_count(s.take(j), a) <= requested_count(s, a) by {
            assert(requested_count(s.take(j + 1), a) == requested_count(s.take(j + 1).drop_last(), a)
                + occurrences(s.take(j + 1).last().requested_ids(), a));
        }
    } else {
        assert(s.take(j) =~= s);
    }
}

/// Unflagged requests add nothing to the revoked count.
proof fn lemma_revoked_unflagged(s: Seq<NonRevokedConnectionRequestState>, f: Seq<bool>, u: int, t: int)
    requires
        0 <= u <= t <= f.len(),
        forall|j: int| u <= j < t ==> !f[j],
    ensures
        forall|a: u64| #[trigger] revoked_count(s, f, u, a) == revoked_count(s, f, t, a),
    decreases t - u,
{
    if u < t {
        lemma_revoked_unflagged(s, f, u, t - 1);
    }
}

/// The multiset of what is left when the flagged requests at `t` and after
/// are gone.
spec fn kept(s: Seq<NonRevokedConnectionRequestState>, f: Seq<bool>, t: int) -> Multiset<
    NonRevokedConnectionRequestState,
> {
    s.take(t).to_multiset().add(unrevoked(s.skip(t), f.skip(t)).to_multiset())
}

proof fn lemma_ms_cons(x: NonRevokedConnectionRequestState, r: Seq<NonRevokedConnectionRequestState>)
    ensures
        (seq![x] + r).to_multiset() =~= r.to_multiset().insert(x),
{
    broadcast use vstd::seq_lib::group_to_multiset_ensures;

    let c = seq![x] + r;
    assert(c.remove(0) =~= r);
    assert(c[0] == x);
    assert(c.to_multiset().count(x) > 0) by {
        assert(c.contains(x));
    }
}

proof fn lemma_kept_step(s: Seq<NonRevokedConnectionRequestState>, f: Seq<bool>, u: int)
    requires
        0 <= u < s.len(),
        f.len() == s.len(),
    ensures
        !f[u] ==> kept(s, f, u) =~= kept(s, f, u + 1),
        f[u] ==> kept(s, f, u) =~= kept(s, f, u + 1).remove(s[u]),
{
    broadcast use vstd::seq_lib::group_to_multiset_ensures;

    assert(s.skip(u).drop_first() =~= s.skip(u + 1));
    assert(f.skip(u).drop_first() =~= f.skip(u + 1));
    assert(s.take(u + 1) =~= s.take(u).push(s[u]));
    let rest = unrevoked(s.skip(u + 1), f.skip(u + 1));
    if !f[u] {
        lemma_ms_cons(s[u], rest);
    }
}

proof fn lemma_kept_unflagged(s: Seq<NonRevokedConnectionRequestState>, f: Seq<bool>, u: int, t: int)
    requires
        0 <= u <= t <= s.len(),
        f.len() == s.len(),
        forall|j: int| u <= j < t ==> !f[j],
    ensures
        kept(s, f, u) == kept(s, f, t),
    decreases t - u,
{
    if u < t {
        lemma_kept_step(s, f, u);
        lemma_kept_unflagged(s, f, u + 1, t);
    }
}

proof fn lemma_kept_ends(s: Seq<NonRevokedConnectionRequestState>, f: Seq<bool>)
    requires
        f.len() == s.len(),
    ensures
        kept(s, f, s.len() as int) =~= s.to_multiset(),
        kept(s, f, 0) =~= unrevoked(s, f).to_multiset(),
{
    broadcast use vstd::seq_lib::group_to_multiset_ensures;

    assert(s.take(s.len() as int) =~= s);
    assert(s.skip(s.len() as int).len() == 0);
    assert(unrevoked(s.skip(s.len() as int), f.skip(s.len() as int)).len() == 0);
    assert(s.take(0).len() == 0);
    assert(s.skip(0) =~= s);
    assert(f.skip(0) =~= f);
}

/// The notices that the requests waiting for `authority` are owed when it
/// connects as `peer`, in request order.
pub open spec fn notices_for(
    reqs: Seq<NonRevokedConnectionRequestState>,
    authority: u64,
    peer: u64,
) -> Seq<ConnectionNotice>
    decreases reqs.len(),
{
    if reqs.len() == 0 {
        Seq::empty()
    } else {
        let rest = notices_for(reqs.drop_last(), authority, peer);
        if reqs.last().pending_ids().contains(authority) {
            rest.push(ConnectionNotice { channel: reqs.last().channel(), authority, peer })
        } else {
            rest
        }
    }
}

/// Requests that name the same validators count the same.
proof fn lemma_rc_same_requested(
    s1: Seq<NonRevokedConnectionRequestState>,
    s2: Seq<NonRevokedConnectionRequestState>,
)
    requires
        s1.len() == s2.len(),
        forall|j: int| 0 <= j < s1.len() ==> #[trigger] s1[j].requested_ids() == s2[j].requested_ids(),
    ensures
        forall|a: u64| #[trigger] requested_count(s1, a) == requested_count(s2, a),
    decreases s1.len(),
{
    if s1.len() > 0 {
        lemma_rc_same_requested(s1.drop_last(), s2.drop_last());
        assert forall|a: u64| #[trigger] requested_count(s1, a) == requested_count(s2, a) by {
            assert(s1.last().requested_ids() == s2.last().requested_ids());
            assert(requested_count(s1.drop_last(), a) == requested_count(s2.drop_last(), a));
        }
    }
}

/// The changes to ask of the network for a peer set: the addresses to connect
/// to and keep, and those no request needs any more.
pub struct PeersSetUpdate {
    /// Addresses to add to the peer set.
    pub add: HashSet<u64>,
    /// Addresses to remove from the peer set.
    pub remove: HashSet<u64>,
}

/// What `find_connected_validators` does: the peers, requests and counters
/// stay; each connected peer is recorded as speaking for the requested
/// validators that no connected peer was known to speak for and whose
/// discovered addresses name it; the result holds each requested validator
/// that is found connected, with a connected peer that speaks for it.
pub open spec fn find_connected_post(
    pre: StatePerPeerSet,
    post: StatePerPeerSet,
    validator_ids: Seq<u64>,
    book: Map<u64, Vec<DiscoveredAddress>>,
    result: Map<u64, u64>,
) -> bool {
    &&& post.requests() == pre.requests()
    &&& post.requested_validators() == pre.requested_validators()
    &&& post.connected().dom() == pre.connected().dom()
    &&& forall|p: u64| #[trigger]
        post.connected().contains_key(p) ==> post.connected()[p] == pre.connected()[p].union(
            attached_to(pre.connected(), book, validator_ids, p),
        )
    &&& forall|x: u64| #[trigger]
        result.contains_key(x) <==> (validator_ids.contains(x) && found_connected(
            pre.connected(),
            book,
            x,
        ))
    &&& forall|x: u64| #[trigger]
        result.contains_key(x) ==> {
            &&& pre.connected().contains_key(result[x])
            &&& post.connected()[result[x]].contains(x)
            &&& !cached_in(pre.connected(), x) ==> discovered_peer(book, x, result[x])
        }
}

/// Whether `found` is what a lookup of `ids` among the connected peers
/// gives: exactly the validators of `ids` that some connected peer speaks
/// for, each with such a peer.
pub open spec fn connected_lookup(connected: Map<u64, Set<u64>>, ids: Seq<u64>, found: Map<u64, u64>) -> bool {
    &&& forall|x: u64| #[trigger] found.contains_key(x) <==> (ids.contains(x) && cached_in(connected, x))
    &&& forall|x: u64| #[trigger]
        found.contains_key(x) ==> connected.contains_key(found[x]) && connected[found[x]].contains(x)
}

/// What `find_connected_validators` returns is the lookup of the requested
/// validators among the connected peers it leaves: the `already_connected`
/// that `on_request` takes.
pub proof fn found_validators_are_connected_lookup(
    pre: StatePerPeerSet,
    post: StatePerPeerSet,
    ids: Seq<u64>,
    book: Map<u64, Vec<DiscoveredAddress>>,
    result: Map<u64, u64>,
)
    requires
        find_connected_post(pre, post, ids, book, result),
    ensures
        connected_lookup(post.connected(), ids, result),
{
    assert forall|x: u64| #[trigger] result.contains_key(x) implies post.connected().contains_key(result[x])
        && post.connected()[result[x]].contains(x) by {
        assert(pre.connected().contains_key(result[x]));
    }
    assert forall|x: u64| #[trigger] result.contains_key(x) <==> (ids.contains(x) && cached_in(post.connected(), x)) by {
        if result.contains_key(x) {
            assert(post.connected().contains_key(result[x]) && post.connected()[result[x]].contains(x));
        }
        if ids.contains(x) && cached_in(post.connected(), x) {
            let p = choose|p: u64| #[trigger] post.connected().contains_key(p) && post.connected()[p].contains(x);
            assert(pre.connected().contains_key(p));
            assert(post.connected()[p] == pre.connected()[p].union(attached_to(pre.connected(), book, ids, p)));
            if pre.connected()[p].contains(x) {
                assert(cached_in(pre.connected(), x));
            } else {
                assert(attached_to(pre.connected(), book, ids, p).contains(x));
                assert(discovered_peer(book, x, p));
            }
            assert(found_connected(pre.connected(), book, x));
        }
    }
}

/// The stored requests after the revoked ones are taken out one by one,
/// last index first, each swapped with the last request and dropped
/// (`flags[j]`: whether the request at `j` is revoked; `j`: the indices
/// below it are still to be looked at).
pub open spec fn sweep(
    s: Seq<NonRevokedConnectionRequestState>,
    flags: Seq<bool>,
    j: int,
) -> Seq<NonRevokedConnectionRequestState>
    decreases j,
{
    if j <= 0 {
        s
    } else {
        let i = j - 1;
        sweep(
            if flags[i] {
                s.update(i, s.last()).drop_last()
            } else {
                s
            },
            flags,
            i,
        )
    }
}

/// Looking at indices that are not revoked changes nothing.
proof fn lemma_sweep_unflagged(
    s: Seq<NonRevokedConnectionRequestState>,
    flags: Seq<bool>,
    lo: int,
    hi: int,
)
    requires
        0 <= lo <= hi,
        forall|j: int| lo <= j < hi ==> !flags[j],
    ensures
        sweep(s, flags, hi) == sweep(s, flags, lo),
    decreases hi - lo,
{
    if lo < hi {
        assert(!flags[hi - 1]);
        lemma_sweep_unflagged(s, flags, lo, hi - 1);
    }
}

/// What `on_request` does. The connected peers stay. If the receiver was
/// dropped, nothing changes and there is no update. Otherwise the stored
/// requests are the unrevoked ones, in some order, followed by the new one
/// (its validators, those of them not already connected as pending, its
/// channel), and the update adds the first three known addresses of each
/// requested validator and removes all known addresses of the validators
/// released by the clean-up.
pub open spec fn on_request_post(
    pre: StatePerPeerSet,
    post: StatePerPeerSet,
    validator_ids: Seq<u64>,
    connected: u64,
    already_connected: Map<u64, u64>,
    receiver_dropped: bool,
    revoked: Seq<bool>,
    book: Map<u64, Vec<DiscoveredAddress>>,
    r: Option<PeersSetUpdate>,
) -> bool {
    &&& post.connected() == pre.connected()
    &&& receiver_dropped ==> {
        &&& r is None
        &&& post.requests() == pre.requests()
        &&& post.requested_validators() == pre.requested_validators()
    }
    &&& !receiver_dropped ==> (r matches Some(update) && {
        &&& post.requests().len() > 0
        &&& post.requests().drop_last() == sweep(pre.requests(), revoked, pre.requests().len() as int)
        &&& post.requests().drop_last().to_multiset() == unrevoked(
            pre.requests(),
            revoked,
        ).to_multiset()
        &&& post.requests().last().requested_ids() == validator_ids
        &&& post.requests().last().pending_ids() == Set::new(
            |a: u64| validator_ids.contains(a) && !already_connected.contains_key(a),
        )
        &&& post.requests().last().channel() == connected
        &&& update.add@ == known_addresses(book, validator_ids.to_set(), Some(3usize))
        &&& update.remove@ == known_addresses(
            book,
            released(pre.requests(), revoked, post.requests()),
            None,
        )
    })
}

/// What `on_peer_connected` does: the counters and the requested validators
/// stay; with an authority, every request stops waiting for it, the notices
/// are those owed by the requests that waited for it, and the peer speaks for
/// it in addition to what it was known to speak for; without, there are no
/// notices and the peer is recorded as speaking for none.
pub open spec fn peer_connected_post(
    pre: StatePerPeerSet,
    post: StatePerPeerSet,
    peer_id: u64,
    maybe_authority: Option<u64>,
    notices: Seq<ConnectionNotice>,
) -> bool {
    &&& post.requested_validators() == pre.requested_validators()
    &&& post.requests().len() == pre.requests().len()
    &&& forall|j: int|
        0 <= j < pre.requests().len() ==> {
            &&& #[trigger] post.requests()[j].requested_ids() == pre.requests()[j].requested_ids()
            &&& post.requests()[j].channel() == pre.requests()[j].channel()
            &&& post.requests()[j].pending_ids() == match maybe_authority {
                Some(a) => pre.requests()[j].pending_ids().remove(a),
                None => pre.requests()[j].pending_ids(),
            }
        }
    &&& notices == match maybe_authority {
        Some(a) => notices_for(pre.requests(), a, peer_id),
        None => Seq::empty(),
    }
    &&& post.connected() == match maybe_authority {
        Some(a) => pre.connected().insert(
            peer_id,
            (if pre.connected().contains_key(peer_id) {
                pre.connected()[peer_id]
            } else {
                Set::empty()
            }).insert(a),
        ),
        None => pre.connected().insert(peer_id, Set::empty()),
    }
}

/// What `on_peer_disconnected` does: the peer is no longer connected.
pub open spec fn peer_disconnected_post(pre: StatePerPeerSet, post: StatePerPeerSet, peer_id: u64) -> bool {
    &&& post.connected() == pre.connected().remove(peer_id)
    &&& post.requested_validators() == pre.requested_validators()
    &&& post.requests() == pre.requests()
}

/// The discovery state of one peer set.
pub struct StatePerPeerSet {
    connected_peers: HashMap<u64, HashSet<u64>>,
    requested_validators: HashMap<u64, u64>,
    non_revoked_discovery_requests: Vec<NonRevokedConnectionRequestState>,
}

impl StatePerPeerSet {
    /// The connected peers, each with the authorities it is known to speak for.
    pub closed spec fn connected(self) -> Map<u64, Set<u64>> {
        self.connected_peers@.map_values(|s: HashSet<u64>| s@)
    }

    /// For each requested validator, the number of stored requests naming it.
    pub closed spec fn requested_validators(self) -> Map<u64, u64> {
        self.requested_validators@
    }

    /// The stored requests, not yet seen revoked.
    pub closed spec fn requests(self) -> Seq<NonRevokedConnectionRequestState> {
        self.non_revoked_discovery_requests@
    }

    /// The counters are exact: a validator's counter is the number of times the
    /// stored requests name it, and validators that none names have none.
    pub open spec fn wf(self) -> bool {
        &&& forall|a: u64|
            #[trigger] count_of(self.requested_validators(), a) == requested_count(self.requests(), a)
        &&& forall|a: u64|
            #[trigger] self.requested_validators().contains_key(a) ==> self.requested_validators()[a] > 0
    }

    /// A state with no peers and no requests.
    pub fn new() -> (r: Self)
        ensures
            r.wf(),
            r.connected() == Map::<u64, Set<u64>>::empty(),
            r.requested_validators() == Map::<u64, u64>::empty(),
            r.requests() == Seq::<NonRevokedConnectionRequestState>::empty(),
    {
        let r = StatePerPeerSet {
            connected_peers: HashMap::new(),
            requested_validators: HashMap::new(),
            non_revoked_discovery_requests: Vec::new(),
        };
        assert(r.connected() =~= Map::<u64, Set<u64>>::empty());
        r
    }

    /// Records that the connected `peer` speaks for `authority`.
    fn attach(&mut self, peer: u64, authority: u64)
        requires
            old(self).connected().contains_key(peer),
        ensures
            final(self).connected() == old(self).connected().insert(
                peer,
                old(self).connected()[peer].insert(authority),
            ),
            final(self).requested_validators() == old(self).requested_validators(),
            final(self).requests() == old(self).requests(),
    {
        let mut ids = self.connected_peers.remove(&peer).unwrap();
        ids.insert(authority);
        self.connected_peers.insert(peer, ids);
        assert(self.connected() =~= old(self).connected().insert(
            peer,
            old(self).connected()[peer].insert(authority),
        ));
    }

    /// Find connected validators using the given `validator_ids`: each is
    /// looked up among the connected peers, and failing that among the peers
    /// that its discovered addresses (`book`) name, which are then recorded as
    /// speaking for it. Returns the found validators with a peer each.
    pub fn find_connected_validators(
        &mut self,
        validator_ids: &Vec<u64>,
        book: &HashMap<u64, Vec<DiscoveredAddress>>,
    ) -> (result: HashMap<u64, u64>)
        requires
            old(self).wf(),
        ensures
            final(self).wf(),
            find_connected_post(*old(self), *final(self), validator_ids@, book@, result@),

    {
        let ghost conn0 = self.connected();
        let mut result: HashMap<u64, u64> = HashMap::new();
        let mut i: usize = 0;
        while i < validator_ids.len()
            invariant
                i <= validator_ids.len(),
                self.wf(),
                self.requests() == old(self).requests(),
                self.requested_validators() == old(self).requested_validators(),
                conn0 == old(self).connected(),
                self.connected().dom() == conn0.dom(),
                forall|p: u64| #[trigger]
                    self.connected().contains_key(p) ==> self.connected()[p] == conn0[p].union(
                        attached_to(conn0, book@, validator_ids@.take(i as int), p),
                    ),
                forall|x: u64| #[trigger]
                    result@.contains_key(x) <==> (validator_ids@.take(i as int).contains(x)
                        && found_connected(conn0, book@, x)),
                forall|x: u64| #[trigger]
                    result@.contains_key(x) ==> {
                        &&& conn0.contains_key(result@[x])
                        &&& self.connected()[result@[x]].contains(x)
                        &&& !cached_in(conn0, x) ==> discovered_peer(book@, x, result@[x])
                    },
            decreases validator_ids.len() - i,
        {
            let id: u64 = validator_ids[i];
            let ghost prev = validator_ids@.take(i as int);
            let ghost next = validator_ids@.take(i + 1);
            assert(next =~= prev.push(id));
            proof {
                lemma_push_contains(prev, id);
            }
            let cached = find_cached_peer(&self.connected_peers, id);
            match cached {
                Some(pid) => {
                    assert(self.connected().contains_key(pid) && self.connected()[pid].contains(id));
                    assert(found_connected(conn0, book@, id)) by {
                        if !cached_in(conn0, id) {
                            assert(attached_to(conn0, book@, prev, pid).contains(id));
                        }
                    }
                    assert forall|p: u64| #[trigger] self.connected().contains_key(p) implies
                        self.connected()[p] == conn0[p].union(attached_to(conn0, book@, next, p)) by {
                        if !cached_in(conn0, id) && discovered_peer(book@, id, p) {
                            // `id` was attached already while handling an earlier occurrence
                            assert(attached_to(conn0, book@, prev, pid).contains(id));
                            assert(prev.contains(id));
                        }
                        assert(attached_to(conn0, book@, next, p) =~= attached_to(conn0, book@, prev, p));
                    }
                    result.insert(id, pid);
                },
                None => {
                    assert(!cached_in(conn0, id)) by {
                        if cached_in(conn0, id) {
                            let p = choose|p: u64| #[trigger] conn0.contains_key(p) && conn0[p].contains(id);
                            assert(self.connected().contains_key(p));
                        }
                    }
                    assert(!result@.contains_key(id)) by {
                        if result@.contains_key(id) {
                            assert(self.connected()[result@[id]].contains(id));
                        }
                    }
                    match book.get(&id) {
                        Some(addresses) => {
                            let mut k: usize = 0;
                            while k < addresses.len()
                                invariant
                                    k <= addresses.len(),
                                    book@.contains_key(id),
                                    addresses@ == book@[id]@,
                                    !cached_in(conn0, id),
                                    self.wf(),
                                    self.requests() == old(self).requests(),
                                    self.requested_validators() == old(self).requested_validators(),
                                    self.connected().dom() == conn0.dom(),
                                    forall|p: u64| #[trigger]
                                        self.connected().contains_key(p) ==> self.connected()[p]
                                            == conn0[p].union(attached_to(conn0, book@, prev, p)).union(
                                            if names_peer_before(addresses@, k as int, p) {
                                                set![id]
                                            } else {
                                                Set::empty()
                                            },
                                        ),
                                    forall|x: u64| #[trigger]
                                        result@.contains_key(x) <==> (prev.contains(x) && found_connected(conn0, book@, x))
                                            || (x == id && exists|p: u64| #[trigger] conn0.contains_key(p) && names_peer_before(addresses@, k as int, p)),
                                    forall|x: u64| #[trigger]
                                        result@.contains_key(x) ==> {
                                            &&& conn0.contains_key(result@[x])
                                            &&& self.connected()[result@[x]].contains(x)
                                            &&& !cached_in(conn0, x) ==> discovered_peer(book@, x, result@[x])
                                        },
                                decreases addresses.len() - k,
                            {
                                let entry = addresses[k];
                                let ghost before = self.connected();
                                match entry.peer {
                                    Some(peer) => {
                                        if self.connected_peers.contains_key(&peer) {
                                            self.attach(peer, id);
                                            result.insert(id, peer);
                                        }
                                    },
                                    None => {},
                                }
                                proof {
                                    assert forall|p: u64|
                                        names_peer_before(addresses@, k + 1, p) <==> (names_peer_before(
                                            addresses@,
                                            k as int,
                                            p,
                                        ) || addresses@[k as int].peer == Some(p)) by {
                                        if names_peer_before(addresses@, k + 1, p) {
                                            let j = choose|j: int|
                                                0 <= j < k + 1 && #[trigger] addresses@[j].peer == Some(p);
                                            if j < k {
                                                assert(names_peer_before(addresses@, k as int, p));
                                            }
                                        }
                                        if addresses@[k as int].peer == Some(p) {
                                            assert(0 <= k < k + 1);
                                        }
                                        if names_peer_before(addresses@, k as int, p) {
                                            let j = choose|j: int|
                                                0 <= j < k && #[trigger] addresses@[j].peer == Some(p);
                                            assert(0 <= j < k + 1);
                                        }
                                    }
                                    assert forall|p: u64| #[trigger] self.connected().contains_key(p) implies
                                        self.connected()[p] == conn0[p].union(
                                        attached_to(conn0, book@, prev, p),
                                    ).union(
                                        if names_peer_before(addresses@, k + 1, p) {
                                            set![id]
                                        } else {
                                            Set::empty()
                                        },
                                    ) by {
                                        assert(before.contains_key(p));
                                        if addresses@[k as int].peer == Some(p) {
                                            assert(self.connected()[p] =~= conn0[p].union(
                                                attached_to(conn0, book@, prev, p),
                                            ).union(set![id]));
                                        } else {
                                            assert(self.connected()[p] == before[p]);
                                        }
                                    }
                                    if let Some(peer) = entry.peer {
                                        if conn0.contains_key(peer) {
                                            assert(names_peer_before(addresses@, k + 1, peer));
                                        }
                                    }
                                }
                                k = k + 1;
                            }
                            proof {
                                assert forall|p: u64|
                                    names_peer_before(addresses@, addresses@.len() as int, p)
                                        == discovered_peer(book@, id, p) by {
                                    if discovered_peer(book@, id, p) {
                                        let j = choose|j: int|
                                            0 <= j < book@[id]@.len() && #[trigger] book@[id]@[j].peer == Some(p);
                                        assert(addresses@[j].peer == Some(p));
                                    }
                                    if names_peer_before(addresses@, addresses@.len() as int, p) {
                                        let j = choose|j: int|
                                            0 <= j < addresses@.len() && #[trigger] addresses@[j].peer == Some(p);
                                        assert(book@[id]@[j].peer == Some(p));
                                    }
                                }
                                assert forall|p: u64| #[trigger] self.connected().contains_key(p) implies
                                    self.connected()[p] == conn0[p].union(attached_to(conn0, book@, next, p)) by {
                                    if discovered_peer(book@, id, p) {
                                        assert(attached_to(conn0, book@, next, p) =~= attached_to(
                                            conn0,
                                            book@,
                                            prev,
                                            p,
                                        ).insert(id));
                                        assert(self.connected()[p] =~= conn0[p].union(
                                            attached_to(conn0, book@, next, p),
                                        ));
                                    } else {
                                        assert(attached_to(conn0, book@, next, p) =~= attached_to(
                                            conn0,
                                            book@,
                                            prev,
                                            p,
                                        ));
                                        assert(self.connected()[p] =~= conn0[p].union(
                                            attached_to(conn0, book@, next, p),
                                        ));
                                    }
                                }
                                assert forall|x: u64| #[trigger]
                                    result@.contains_key(x) <==> (next.contains(x) && found_connected(conn0, book@, x)) by {
                                    if x == id {
                                        if found_connected(conn0, book@, x) {
                                            let p = choose|p: u64|
                                                #[trigger] conn0.contains_key(p) && discovered_peer(book@, id, p);
                                            assert(names_peer_before(addresses@, addresses@.len() as int, p));
                                        }
                                        assert(next.contains(id)) by { assert(next[i as int] == id); }
                                    } else {
                                        assert(next.contains(x) <==> prev.contains(x)) by {
                                            if next.contains(x) {
                                                let j = choose|j: int| 0 <= j < next.len() && next[j] == x;
                                                assert(prev[j] == x);
                                            }
                                        }
                                    }
                                }
                            }
                        },
                        None => {
                            proof {
                                assert(!found_connected(conn0, book@, id));
                                assert forall|p: u64| #[trigger] self.connected().contains_key(p) implies
                                    self.connected()[p] == conn0[p].union(attached_to(conn0, book@, next, p)) by {
                                    assert(attached_to(conn0, book@, next, p) =~= attached_to(
                                        conn0,
                                        book@,
                                        prev,
                                        p,
                                    ));
                                }
                                assert forall|x: u64| #[trigger]
                                    result@.contains_key(x) <==> (next.contains(x) && found_connected(conn0, book@, x)) by {
                                    if x != id {
                                        assert(next.contains(x) <==> prev.contains(x)) by {
                                            if next.contains(x) {
                                                let j = choose|j: int| 0 <= j < next.len() && next[j] == x;
                                                assert(prev[j] == x);
                                            }
                                        }
                                    }
                                }
                            }
                        },
                    }
                },
            }
            i = i + 1;
        }
        assert(validator_ids@.take(validator_ids.len() as int) =~= validator_ids@);
        result
    }

    /// On a new connection request. `already_connected` is what
    /// `find_connected_validators` returned for the same validators;
    /// `receiver_dropped` says whether the requester's channel turned out
    /// closed while they were reported on it; `revoked` says, for each stored
    /// request in order, whether its channel is closed; `book` holds the
    /// addresses the authority discovery service knows.
    ///
    /// The validators' counters go up. If the receiver was dropped, the request
    /// is revoked at once: the counters go back down and nothing more happens
    /// (`None`). Otherwise the revoked stored requests are cleaned up, their
    /// validators' counters going down, the new request is stored, waiting for
    /// the validators not already connected, and the network is to add the
    /// first three known addresses of each requested validator and to remove
    /// all known addresses of the validators no request names any more.
    pub fn on_request(
        &mut self,
        validator_ids: Vec<u64>,
        connected: u64,
        already_connected: &HashMap<u64, u64>,
        receiver_dropped: bool,
        revoked: &Vec<bool>,
        book: &HashMap<u64, Vec<DiscoveredAddress>>,
    ) -> (r: Option<PeersSetUpdate>)
        requires
            old(self).wf(),
            connected_lookup(old(self).connected(), validator_ids@, already_connected@),
            revoked@.len() == old(self).requests().len(),
            forall|a: u64| #[trigger]
                validator_ids@.contains(a) ==> count_of(old(self).requested_validators(), a)
                    + occurrences(validator_ids@, a) <= u64::MAX,
        ensures
            final(self).wf(),
            on_request_post(*old(self), *final(self), validator_ids@, connected, already_connected@, receiver_dropped, revoked@, book@, r),

    {
        let ghost reqs0 = self.non_revoked_discovery_requests@;
        let ghost flags = revoked@;
        let ghost map0 = self.requested_validators@;
        assert(self.requested_validators() == map0);
        assert(self.requests() == reqs0);
        // Increment the counter of how many times the validators were requested.
        count_requests(&mut self.requested_validators, &validator_ids);
        if receiver_dropped {
            // the request is already revoked
            let mut ignored: Vec<u64> = Vec::new();
            release_requested(&mut self.requested_validators, validator_ids.as_slice(), &mut ignored);
            proof {
                lemma_counts_determine_map(self.requested_validators@, map0);
                assert(self.requested_validators() == self.requested_validators@);
            }
            return None;
        }
        // collect multiaddress of validators
        let multiaddr_to_add = addresses_of(&validator_ids, book, Some(3));

        // clean up revoked requests
        let mut revoked_indices: Vec<usize> = Vec::new();
        let mut revoked_validators: Vec<u64> = Vec::new();
        let n0: usize = self.non_revoked_discovery_requests.len();
        let mut i: usize = 0;
        while i < n0
            invariant
                i <= n0,
                n0 == reqs0.len(),
                flags.len() == n0,
                flags == revoked@,
                self.non_revoked_discovery_requests@ == reqs0,
                self.connected() == old(self).connected(),
                forall|a: u64| #[trigger] self.requested_validators@.contains_key(a) ==> self.requested_validators@[a] > 0,
                forall|a: u64| #[trigger]
                    count_of(self.requested_validators@, a) + revoked_count(reqs0, flags, i as int, a)
                        == requested_count(reqs0, a) + occurrences(validator_ids@, a),
                forall|a: u64| #[trigger]
                    revoked_validators@.contains(a) <==> (revoked_count(reqs0, flags, i as int, a) > 0
                        && count_of(self.requested_validators@, a) == 0),
                forall|m: int| 0 <= m < revoked_indices@.len() ==> {
                    &&& #[trigger] revoked_indices@[m] < i
                    &&& flags[revoked_indices@[m] as int]
                    &&& revoked_indices@[m] + (revoked_indices@.len() - m) <= i
                },
                forall|m1: int, m2: int|
                    0 <= m1 < m2 < revoked_indices@.len() ==> #[trigger] revoked_indices@[m1] < #[trigger] revoked_indices@[m2],
                forall|j: int|
                    0 <= j < i && #[trigger] flags[j] ==> exists|m: int|
                        0 <= m < revoked_indices@.len() && revoked_indices@[m] == j,
            decreases n0 - i,
        {
            if revoked[i] {
                let ghost before = self.requested_validators@;
                let ghost req = reqs0[i as int];
                proof {
                    lemma_revoked_le(reqs0, flags, i as int);
                    lemma_rc_prefix(reqs0, i + 1);
                    assert(reqs0.take(i + 1).drop_last() =~= reqs0.take(i as int));
                    assert(reqs0.take(i + 1).last() == req);
                    assert forall|a: u64| #[trigger] count_of(before, a) >= occurrences(req.requested_ids(), a) by {
                        assert(requested_count(reqs0.take(i + 1), a) == requested_count(reqs0.take(i as int), a)
                            + occurrences(req.requested_ids(), a));
                        assert(revoked_count(reqs0, flags, i as int, a) <= requested_count(reqs0.take(i as int), a));
                        assert(requested_count(reqs0.take(i + 1), a) <= requested_count(reqs0, a));
                    }
                }
                release_requested(
                    &mut self.requested_validators,
                    self.non_revoked_discovery_requests[i].requested(),
                    &mut revoked_validators,
                );
                proof {
                    assert forall|a: u64| #[trigger]
                        count_of(self.requested_validators@, a) + revoked_count(reqs0, flags, i + 1, a)
                            == requested_count(reqs0, a) + occurrences(validator_ids@, a) by {
                        assert(revoked_count(reqs0, flags, i + 1, a) == revoked_count(reqs0, flags, i as int, a)
                            + occurrences(req.requested_ids(), a));
                    }
                    assert forall|a: u64| #[trigger]
                        revoked_validators@.contains(a) <==> (revoked_count(reqs0, flags, i + 1, a) > 0
                            && count_of(self.requested_validators@, a) == 0) by {
                        assert(revoked_count(reqs0, flags, i + 1, a) == revoked_count(reqs0, flags, i as int, a)
                            + occurrences(req.requested_ids(), a));
                        assert(count_of(before, a) >= occurrences(req.requested_ids(), a));
                    }
                }
                let ghost ri_before = revoked_indices@;
                revoked_indices.push(i);
                proof {
                    assert forall|j: int|
                        0 <= j < i + 1 && #[trigger] flags[j] implies exists|m: int|
                            0 <= m < revoked_indices@.len() && revoked_indices@[m] == j by {
                        if j == i {
                            assert(revoked_indices@[ri_before.len() as int] == j);
                        } else {
                            let m = choose|m: int| 0 <= m < ri_before.len() && ri_before[m] == j;
                            assert(revoked_indices@[m] == j);
                        }
                    }
                }
            } else {
                proof {
                    assert forall|a: u64| #[trigger]
                        revoked_count(reqs0, flags, i + 1, a) == revoked_count(reqs0, flags, i as int, a) by {}
                }
            }
            i = i + 1;
        }

        // clean up revoked requests states, last index first
        let n: usize = revoked_indices.len();
        let mut k: usize = n;
        let ghost mut t: int = n0 as int;
        proof {
            lemma_kept_ends(reqs0, flags);
            assert(reqs0.take(t) =~= reqs0);
        }
        while k > 0
            invariant
                k <= n,
                n == revoked_indices@.len(),
                n0 == reqs0.len(),
                flags.len() == n0,
                self.connected() == old(self).connected(),
                t == (if k < n { revoked_indices@[k as int] as int } else { n0 as int }),
                self.non_revoked_discovery_requests@.len() == n0 - (n - k),
                t <= self.non_revoked_discovery_requests@.len(),
                self.non_revoked_discovery_requests@.take(t) == reqs0.take(t),
                self.non_revoked_discovery_requests@.to_multiset() == kept(reqs0, flags, t),
                sweep(self.non_revoked_discovery_requests@, flags, t) == sweep(reqs0, flags, n0 as int),
                forall|a: u64| #[trigger] self.requested_validators@.contains_key(a) ==> self.requested_validators@[a] > 0,
                forall|a: u64| #[trigger]
                    count_of(self.requested_validators@, a) + revoked_count(reqs0, flags, n0 as int, a)
                        == requested_count(reqs0, a) + occurrences(validator_ids@, a),
                forall|a: u64| #[trigger]
                    revoked_validators@.contains(a) <==> (revoked_count(reqs0, flags, n0 as int, a) > 0
                        && count_of(self.requested_validators@, a) == 0),
                forall|a: u64| #[trigger]
                    requested_count(self.non_revoked_discovery_requests@, a) + revoked_count(reqs0, flags, n0 as int, a)
                        == requested_count(reqs0, a) + revoked_count(reqs0, flags, t, a),
                forall|m: int| 0 <= m < revoked_indices@.len() ==> {
                    &&& #[trigger] revoked_indices@[m] < n0
                    &&& flags[revoked_indices@[m] as int]
                    &&& revoked_indices@[m] + (revoked_indices@.len() - m) <= n0
                },
                forall|m1: int, m2: int|
                    0 <= m1 < m2 < revoked_indices@.len() ==> #[trigger] revoked_indices@[m1] < #[trigger] revoked_indices@[m2],
                forall|j: int|
                    0 <= j < n0 && #[trigger] flags[j] ==> exists|m: int|
                        0 <= m < revoked_indices@.len() && revoked_indices@[m] == j,
            decreases k,
        {
            k = k - 1;
            let idx: usize = revoked_indices[k];
            let ghost cur = self.non_revoked_discovery_requests@;
            proof {
                assert forall|j: int| idx < j < t implies !flags[j] by {
                    if flags[j] {
                        let m = choose|m: int| 0 <= m < revoked_indices@.len() && revoked_indices@[m] == j;
                        if m <= k {
                            if m < k {
                                assert(revoked_indices@[m] < revoked_indices@[k as int]);
                            }
                        } else {
                            assert(k + 1 < n);
                            if m > k + 1 {
                                assert(revoked_indices@[k + 1] < revoked_indices@[m]);
                            }
                        }
                    }
                }
                assert(idx < t) by {
                    if k + 1 < n {
                        assert(revoked_indices@[k as int] < revoked_indices@[k + 1]);
                    }
                }
                assert(cur[idx as int] == reqs0[idx as int]) by {
                    assert(cur.take(t)[idx as int] == reqs0.take(t)[idx as int]);
                }
                lemma_ms_swap_remove(cur, idx as int);
                lemma_rc_swap_remove(cur, idx as int);
                lemma_kept_unflagged(reqs0, flags, idx + 1, t);
                lemma_kept_step(reqs0, flags, idx as int);
                lemma_revoked_unflagged(reqs0, flags, idx + 1, t);
                lemma_sweep_unflagged(cur, flags, idx + 1, t);
                assert(flags[idx as int]);
            }
            let _revoked_request = self.non_revoked_discovery_requests.swap_remove(idx);
            proof {
                let next = self.non_revoked_discovery_requests@;
                assert(next =~= cur.update(idx as int, cur.last()).drop_last());
                assert(next.take(idx as int) =~= reqs0.take(idx as int)) by {
                    assert forall|j: int| 0 <= j < idx implies next[j] == reqs0[j] by {
                        assert(cur.take(t)[j] == reqs0.take(t)[j]);
                    }
                }
                assert forall|a: u64| #[trigger]
                    requested_count(next, a) + revoked_count(reqs0, flags, n0 as int, a)
                        == requested_count(reqs0, a) + revoked_count(reqs0, flags, idx as int, a) by {
                    assert(revoked_count(reqs0, flags, idx + 1, a) == revoked_count(reqs0, flags, idx as int, a)
                        + occurrences(reqs0[idx as int].requested_ids(), a));
                    assert(revoked_count(reqs0, flags, idx + 1, a) == revoked_count(reqs0, flags, t, a));
                }
                t = idx as int;
            }
        }
        proof {
            assert forall|j: int| 0 <= j < t implies !flags[j] by {
                if flags[j] {
                    let m = choose|m: int| 0 <= m < revoked_indices@.len() && revoked_indices@[m] == j;
                    if m > 0 {
                        assert(revoked_indices@[0] < revoked_indices@[m]);
                    }
                }
            }
            lemma_kept_unflagged(reqs0, flags, 0, t);
            lemma_revoked_unflagged(reqs0, flags, 0, t);
            lemma_sweep_unflagged(self.non_revoked_discovery_requests@, flags, 0, t);
        }
        let ghost kept_reqs = self.non_revoked_discovery_requests@;
        assert(kept_reqs == sweep(reqs0, flags, n0 as int));

        // multiaddresses to remove
        let multiaddr_to_remove = addresses_of(&revoked_validators, book, None);

        let pending = pending_of(&validator_ids, already_connected);
        let request = NonRevokedConnectionRequestState::new(validator_ids, pending, connected);
        let ghost new_request = request;
        self.non_revoked_discovery_requests.push(request);
        proof {
            let fin = self.non_revoked_discovery_requests@;
            lemma_rc_push(kept_reqs, new_request);
            assert(fin.drop_last() =~= kept_reqs);
            assert forall|a: u64| #[trigger]
                count_of(self.requested_validators@, a) == requested_count(fin, a) by {
                assert(revoked_count(reqs0, flags, 0, a) == 0);
                assert(revoked_count(reqs0, flags, t, a) == revoked_count(reqs0, flags, 0, a));
                assert(requested_count(kept_reqs, a) + revoked_count(reqs0, flags, n0 as int, a)
                    == requested_count(reqs0, a) + revoked_count(reqs0, flags, t, a));
                assert(requested_count(fin, a) == requested_count(kept_reqs, a) + occurrences(new_request.requested_ids(), a));
            }
            assert(self.requested_validators() == self.requested_validators@);
            assert(self.requests() == fin);
            assert(revoked_validators@.to_set() =~= released(reqs0, flags, fin)) by {
                assert forall|a: u64| revoked_validators@.to_set().contains(a) <==> released(reqs0, flags, fin).contains(a) by {
                    assert(revoked_count(reqs0, flags, 0, a) == 0);
                    assert(count_of(self.requested_validators@, a) == requested_count(fin, a));
                }
            }
        }
        Some(PeersSetUpdate { add: multiaddr_to_add, remove: multiaddr_to_remove })
    }

    /// Should be called when a peer connected, with the authority it speaks
    /// for if known. Each request waiting for that authority stops waiting,
    /// and the returned notices are to be sent on their channels (a failed
    /// send is ignored). The peer is recorded as connected, speaking for the
    /// authority in addition to those already known; without an authority it
    /// is recorded as speaking for none.
    pub fn on_peer_connected(&mut self, peer_id: u64, maybe_authority: Option<u64>) -> (notices: Vec<
        ConnectionNotice,
    >)
        requires
            old(self).wf(),
        ensures
            final(self).wf(),
            peer_connected_post(*old(self), *final(self), peer_id, maybe_authority, notices@),

    {
        let ghost reqs0 = self.non_revoked_discovery_requests@;
        let mut notices: Vec<ConnectionNotice> = Vec::new();
        match maybe_authority {
            Some(authority) => {
                let n: usize = self.non_revoked_discovery_requests.len();
                let mut i: usize = 0;
                while i < n
                    invariant
                        i <= n,
                        n == reqs0.len(),
                        self.non_revoked_discovery_requests@.len() == n,
                        self.connected() == old(self).connected(),
                        self.requested_validators@ == old(self).requested_validators(),
                        reqs0 == old(self).requests(),
                        forall|j: int| i <= j < n ==> #[trigger] self.non_revoked_discovery_requests@[j] == reqs0[j],
                        forall|j: int|
                            0 <= j < i ==> {
                                &&& #[trigger] self.non_revoked_discovery_requests@[j].requested_ids() == reqs0[j].requested_ids()
                                &&& self.non_revoked_discovery_requests@[j].channel() == reqs0[j].channel()
                                &&& self.non_revoked_discovery_requests@[j].pending_ids() == reqs0[j].pending_ids().remove(authority)
                            },
                        notices@ == notices_for(reqs0.take(i as int), authority, peer_id),
                    decreases n - i,
                {
                    let notice = self.non_revoked_discovery_requests[i].on_authority_connected(&authority, &peer_id);
                    let ghost before = notices@;
                    match notice {
                        Some(nt) => {
                            notices.push(nt);
                        },
                        None => {},
                    }
                    proof {
                        assert(reqs0.take(i + 1).drop_last() =~= reqs0.take(i as int));
                        assert(reqs0.take(i + 1).last() == reqs0[i as int]);
                    }
                    i = i + 1;
                }
                assert(reqs0.take(n as int) =~= reqs0);
                let ghost conn_before = self.connected();
                let mut ids = match self.connected_peers.remove(&peer_id) {
                    Some(ids) => ids,
                    None => HashSet::new(),
                };
                ids.insert(authority);
                self.connected_peers.insert(peer_id, ids);
                proof {
                    assert(self.connected() =~= old(self).connected().insert(
                        peer_id,
                        (if old(self).connected().contains_key(peer_id) {
                            old(self).connected()[peer_id]
                        } else {
                            Set::empty()
                        }).insert(authority),
                    ));
                }
            },
            None => {
                self.connected_peers.insert(peer_id, HashSet::new());
                assert(self.connected() =~= old(self).connected().insert(peer_id, Set::empty()));
            },
        }
        proof {
            lemma_rc_same_requested(self.non_revoked_discovery_requests@, reqs0);
            assert(self.requests() == self.non_revoked_discovery_requests@);
            assert(self.requested_validators() == self.requested_validators@);
            assert(old(self).requests() == reqs0);
            assert(self.requested_validators() == old(self).requested_validators());
        }
        notices
    }

    /// Should be called when a peer disconnected.
    pub fn on_peer_disconnected(&mut self, peer_id: &u64)
        requires
            old(self).wf(),
        ensures
            final(self).wf(),
            peer_disconnected_post(*old(self), *final(self), *peer_id),

    {
        self.connected_peers.remove(peer_id);
        assert(self.connected() =~= old(self).connected().remove(*peer_id));
        assert(self.requests() == old(self).requests());
        assert(self.requested_validators() == old(self).requested_validators());
    }

    /// The number of stored requests.
    pub fn request_count(&self) -> (r: usize)
        ensures
            r == self.requests().len(),
    {
        self.non_revoked_discovery_requests.len()
    }

    /// The channels of the stored requests, in order: the caller tells from
    /// them which requests were revoked.
    pub fn request_channels(&self) -> (r: Vec<u64>)
        ensures
            r@.len() == self.requests().len(),
            forall|j: int| 0 <= j < r@.len() ==> r@[j] == #[trigger] self.requests()[j].channel(),
    {
        let mut out: Vec<u64> = Vec::new();
        let mut j: usize = 0;
        while j < self.non_revoked_discovery_requests.len()
            invariant
                j <= self.requests().len(),
                out@.len() == j,
                forall|k: int| 0 <= k < j ==> out@[k] == #[trigger] self.requests()[k].channel(),
            decreases self.requests().len() - j,
        {
            out.push(self.non_revoked_discovery_requests[j].sender());
            j = j + 1;
        }
        out
    }

    /// Whether `peer` is connected and known to speak for `authority`.
    pub fn speaks_for(&self, peer: u64, authority: u64) -> (r: bool)
        ensures
            r == (self.connected().contains_key(peer) && self.connected()[peer].contains(authority)),
    {
        match self.connected_peers.get(&peer) {
            Some(ids) => ids.contains(&authority),
            None => false,
        }
    }

    /// The request counter of `authority` (0 when it has none).
    pub fn request_counter(&self, authority: u64) -> (r: u64)
        ensures
            r == count_of(self.requested_validators(), authority),
    {
        match self.requested_validators.get(&authority) {
            Some(v) => *v,
            None => 0,
        }
    }
}

/// The validator discovery service: one state per peer set.
pub struct Service {
    validation: StatePerPeerSet,
    collation: StatePerPeerSet,
}

impl Service {
    /// The state of a peer set.
    pub closed spec fn state(self, peer_set: PeerSet) -> StatePerPeerSet {
        match peer_set {
            PeerSet::Validation => self.validation,
            PeerSet::Collation => self.collation,
        }
    }

    /// Both peer sets' states are well formed.
    pub open spec fn wf(self) -> bool {
        &&& self.state(PeerSet::Validation).wf()
        &&& self.state(PeerSet::Collation).wf()
    }

    /// A service with no peers and no requests in either peer set.
    pub fn new() -> (r: Self)
        ensures
            r.wf(),
            forall|q: PeerSet|
                {
                    &&& #[trigger] r.state(q).connected() == Map::<u64, Set<u64>>::empty()
                    &&& r.state(q).requested_validators() == Map::<u64, u64>::empty()
                    &&& r.state(q).requests() == Seq::<NonRevokedConnectionRequestState>::empty()
                },
    {
        Service { validation: StatePerPeerSet::new(), collation: StatePerPeerSet::new() }
    }

    /// Find connected validators using the given `validator_ids`
    /// (`StatePerPeerSet::find_connected_validators` on the peer set's state).
    pub fn find_connected_validators(
        &mut self,
        validator_ids: &Vec<u64>,
        peer_set: PeerSet,
        book: &HashMap<u64, Vec<DiscoveredAddress>>,
    ) -> (result: HashMap<u64, u64>)
        requires
            old(self).wf(),
        ensures
            final(self).wf(),
            find_connected_post(
                old(self).state(peer_set),
                final(self).state(peer_set),
                validator_ids@,
                book@,
                result@,
            ),
            forall|q: PeerSet| q != peer_set ==> #[trigger] final(self).state(q) == old(self).state(q),
    {
        match peer_set {
            PeerSet::Validation => self.validation.find_connected_validators(validator_ids, book),
            PeerSet::Collation => self.collation.find_connected_validators(validator_ids, book),
        }
    }

    /// On a new connection request (`StatePerPeerSet::on_request` on the peer
    /// set's state). On every path, the dropped receiver's included, the
    /// peer set's counters stay exact (`wf`: each counter is the number of
    /// times the stored requests name its validator, and only named validators
    /// have one), and the other peer set is left as it was.
    pub fn on_request(
        &mut self,
        validator_ids: Vec<u64>,
        peer_set: PeerSet,
        connected: u64,
        already_connected: &HashMap<u64, u64>,
        receiver_dropped: bool,
        revoked: &Vec<bool>,
        book: &HashMap<u64, Vec<DiscoveredAddress>>,
    ) -> (r: Option<PeersSetUpdate>)
        requires
            old(self).wf(),
            connected_lookup(old(self).state(peer_set).connected(), validator_ids@, already_connected@),
            revoked@.len() == old(self).state(peer_set).requests().len(),
            forall|a: u64| #[trigger]
                validator_ids@.contains(a) ==> count_of(
                    old(self).state(peer_set).requested_validators(),
                    a,
                ) + occurrences(validator_ids@, a) <= u64::MAX,
        ensures
            final(self).wf(),
            on_request_post(
                old(self).state(peer_set),
                final(self).state(peer_set),
                validator_ids@,
                connected,
                already_connected@,
                receiver_dropped,
                revoked@,
                book@,
                r,
            ),
            forall|q: PeerSet| q != peer_set ==> #[trigger] final(self).state(q) == old(self).state(q),
    {
        match peer_set {
            PeerSet::Validation => self.validation.on_request(
                validator_ids,
                connected,
                already_connected,
                receiver_dropped,
                revoked,
                book,
            ),
            PeerSet::Collation => self.collation.on_request(
                validator_ids,
                connected,
                already_connected,
                receiver_dropped,
                revoked,
                book,
            ),
        }
    }

    /// Should be called when a peer connected (`StatePerPeerSet::on_peer_connected`
    /// on the peer set's state).
    pub fn on_peer_connected(
        &mut self,
        peer_id: u64,
        peer_set: PeerSet,
        maybe_authority: Option<u64>,
    ) -> (notices: Vec<ConnectionNotice>)
        requires
            old(self).wf(),
        ensures
            final(self).wf(),
            peer_connected_post(
                old(self).state(peer_set),
                final(self).state(peer_set),
                peer_id,
                maybe_authority,
                notices@,
            ),
            forall|q: PeerSet| q != peer_set ==> #[trigger] final(self).state(q) == old(self).state(q),
    {
        match peer_set {
            PeerSet::Validation => self.validation.on_peer_connected(peer_id, maybe_authority),
            PeerSet::Collation => self.collation.on_peer_connected(peer_id, maybe_authority),
        }
    }

    /// Should be called when a peer disconnected.
    pub fn on_peer_disconnected(&mut self, peer_id: &u64, peer_set: PeerSet)
        requires
            old(self).wf(),
        ensures
            final(self).wf(),
            peer_disconnected_post(old(self).state(peer_set), final(self).state(peer_set), *peer_id),
            forall|q: PeerSet| q != peer_set ==> #[trigger] final(self).state(q) == old(self).state(q),
    {
        match peer_set {
            PeerSet::Validation => self.validation.on_peer_disconnected(peer_id),
            PeerSet::Collation => self.collation.on_peer_disconnected(peer_id),
        }
    }

    /// The number of stored requests of a peer set.
    pub fn request_count(&self, peer_set: PeerSet) -> (r: usize)
        ensures
            r == self.state(peer_set).requests().len(),
    {
        match peer_set {
            PeerSet::Validation => self.validation.request_count(),
            PeerSet::Collation => self.collation.request_count(),
        }
    }

    /// The channels of the stored requests of a peer set, in order.
    pub fn request_channels(&self, peer_set: PeerSet) -> (r: Vec<u64>)
        ensures
            r@.len() == self.state(peer_set).requests().len(),
            forall|j: int|
                0 <= j < r@.len() ==> r@[j] == #[trigger] self.state(peer_set).requests()[j].channel(),
    {
        match peer_set {
            PeerSet::Validation => self.validation.request_channels(),
            PeerSet::Collation => self.collation.request_channels(),
        }
    }

    /// Whether `peer` is connected in a peer set and known to speak for `authority`.
    pub fn speaks_for(&self, peer_set: PeerSet, peer: u64, authority: u64) -> (r: bool)
        ensures
            r == (self.state(peer_set).connected().contains_key(peer) && self.state(
                peer_set,
            ).connected()[peer].contains(authority)),
    {
        match peer_set {
            PeerSet::Validation => self.validation.speaks_for(peer, authority),
            PeerSet::Collation => self.collation.speaks_for(peer, authority),
        }
    }

    /// The request counter of `authority` in a peer set.
    pub fn request_counter(&self, peer_set: PeerSet, authority: u64) -> (r: u64)
        ensures
            r == count_of(self.state(peer_set).requested_validators(), authority),
    {
        match peer_set {
            PeerSet::Validation => self.validation.request_counter(authority),
            PeerSet::Collation => self.collation.request_counter(authority),
        }
    }
}

/// The requests count a validator exactly when one of them names it.
proof fn lemma_rc_positive(reqs: Seq<NonRevokedConnectionRequestState>, a: u64)
    ensures
        requested_count(reqs, a) > 0 <==> exists|j: int|
            0 <= j < reqs.len() && #[trigger] reqs[j].requested_ids().contains(a),
    decreases reqs.len(),
{
    broadcast use vstd::seq_lib::group_to_multiset_ensures;

    if reqs.len() > 0 {
        let init = reqs.drop_last();
        lemma_rc_positive(init, a);
        if exists|j: int| 0 <= j < reqs.len() && #[trigger] reqs[j].requested_ids().contains(a) {
            let j = choose|j: int| 0 <= j < reqs.len() && #[trigger] reqs[j].requested_ids().contains(a);
            if j < reqs.len() - 1 {
                assert(init[j].requested_ids().contains(a));
            }
        }
        if exists|j: int| 0 <= j < init.len() && #[trigger] init[j].requested_ids().contains(a) {
            let j = choose|j: int| 0 <= j < init.len() && #[trigger] init[j].requested_ids().contains(a);
            assert(reqs[j].requested_ids().contains(a));
        }
        if reqs.last().requested_ids().contains(a) {
            assert(reqs[reqs.len() - 1].requested_ids().contains(a));
        }
    }
}

/// In a well-formed state a validator has a request counter exactly when some
/// stored request names it, and the counter says how many times the stored
/// requests name it.
pub proof fn requested_validator_iff_named(s: StatePerPeerSet, a: u64)
    requires
        s.wf(),
    ensures
        s.requested_validators().contains_key(a) <==> exists|j: int|
            0 <= j < s.requests().len() && #[trigger] s.requests()[j].requested_ids().contains(a),
        s.requested_validators().contains_key(a) ==> s.requested_validators()[a] == requested_count(
            s.requests(),
            a,
        ),
{
    lemma_rc_positive(s.requests(), a);
    assert(count_of(s.requested_validators(), a) == requested_count(s.requests(), a));
}

/// A validator that a remaining request names is not released by a
/// clean-up: its addresses are not removed from the peer set.
pub proof fn named_validator_not_released(
    old_reqs: Seq<NonRevokedConnectionRequestState>,
    flags: Seq<bool>,
    new_reqs: Seq<NonRevokedConnectionRequestState>,
    a: u64,
    j: int,
)
    requires
        0 <= j < new_reqs.len(),
        new_reqs[j].requested_ids().contains(a),
    ensures
        !released(old_reqs, flags, new_reqs).contains(a),
{
    lemma_rc_positive(new_reqs, a);
}

/// A request that waits for an authority gets a notice on its channel when
/// the authority connects.
pub proof fn waiting_request_is_notified(
    reqs: Seq<NonRevokedConnectionRequestState>,
    j: int,
    a: u64,
    peer: u64,
)
    requires
        0 <= j < reqs.len(),
        reqs[j].pending_ids().contains(a),
    ensures
        notices_for(reqs, a, peer).contains(
            ConnectionNotice { channel: reqs[j].channel(), authority: a, peer },
        ),
    decreases reqs.len(),
{
    let n = ConnectionNotice { channel: reqs[j].channel(), authority: a, peer };
    let rest = notices_for(reqs.drop_last(), a, peer);
    if j == reqs.len() - 1 {
        assert(notices_for(reqs, a, peer) == rest.push(n));
        assert(rest.push(n)[rest.len() as int] == n);
    } else {
        waiting_request_is_notified(reqs.drop_last(), j, a, peer);
        let k = choose|k: int| 0 <= k < rest.len() && rest[k] == n;
        if reqs.last().pending_ids().contains(a) {
            assert(rest.push(
                ConnectionNotice { channel: reqs.last().channel(), authority: a, peer },
            )[k] == n);
        }
    }
}

/// Every notice goes to the channel of a request that waited for the
/// authority, and names the authority and the peer.
pub proof fn notice_goes_to_waiting_request(
    reqs: Seq<NonRevokedConnectionRequestState>,
    a: u64,
    peer: u64,
    n: ConnectionNotice,
)
    requires
        notices_for(reqs, a, peer).contains(n),
    ensures
        n.authority == a,
        n.peer == peer,
        exists|j: int|
            0 <= j < reqs.len() && #[trigger] reqs[j].pending_ids().contains(a) && reqs[j].channel()
                == n.channel,
    decreases reqs.len(),
{
    let rest = notices_for(reqs.drop_last(), a, peer);
    let k = choose|k: int| 0 <= k < notices_for(reqs, a, peer).len() && notices_for(reqs, a, peer)[k] == n;
    if k < rest.len() {
        assert(rest[k] == n);
        notice_goes_to_waiting_request(reqs.drop_last(), a, peer, n);
        let j = choose|j: int|
            0 <= j < reqs.drop_last().len() && #[trigger] reqs.drop_last()[j].pending_ids().contains(a)
                && reqs.drop_last()[j].channel() == n.channel;
        assert(reqs[j].pending_ids().contains(a));
    } else {
        assert(reqs[reqs.len() - 1].pending_ids().contains(a));
    }
}

/// No request waiting for an authority: no notices.
proof fn lemma_no_waiting_no_notice(reqs: Seq<NonRevokedConnectionRequestState>, a: u64, peer: u64)
    requires
        forall|j: int| 0 <= j < reqs.len() ==> !(#[trigger] reqs[j].pending_ids().contains(a)),
    ensures
        notices_for(reqs, a, peer) == Seq::<ConnectionNotice>::empty(),
    decreases reqs.len(),
{
    if reqs.len() > 0 {
        assert(!reqs[reqs.len() - 1].pending_ids().contains(a));
        assert forall|j: int| 0 <= j < reqs.drop_last().len() implies !(#[trigger] reqs.drop_last()[j].pending_ids().contains(a)) by {
            assert(!reqs[j].pending_ids().contains(a));
        }
        lemma_no_waiting_no_notice(reqs.drop_last(), a, peer);
    }
}

/// An authority's connection is reported at most once: once it connected,
/// no request waits for it any more, so connecting again (as any peer) owes
/// no notice.
pub proof fn authority_reported_once(
    pre: StatePerPeerSet,
    post: StatePerPeerSet,
    peer: u64,
    a: u64,
    notices: Seq<ConnectionNotice>,
    later_peer: u64,
)
    requires
        peer_connected_post(pre, post, peer, Some(a), notices),
    ensures
        notices_for(post.requests(), a, later_peer) == Seq::<ConnectionNotice>::empty(),
{
    assert forall|j: int| 0 <= j < post.requests().len() implies !(#[trigger] post.requests()[j].pending_ids().contains(a)) by {
        assert(j < pre.requests().len());
        assert(post.requests()[j].requested_ids() == pre.requests()[j].requested_ids());
        assert(post.requests()[j].pending_ids() == pre.requests()[j].pending_ids().remove(a));
    }
    lemma_no_waiting_no_notice(post.requests(), a, later_peer);
}

/// A request is fulfilled on peer connection: a requested validator that was
/// not already connected is reported on the request's channel when it later
/// connects.
pub proof fn request_fulfilled_on_connection(
    pre: StatePerPeerSet,
    mid: StatePerPeerSet,
    post: StatePerPeerSet,
    validator_ids: Seq<u64>,
    channel: u64,
    already_connected: Map<u64, u64>,
    revoked: Seq<bool>,
    book: Map<u64, Vec<DiscoveredAddress>>,
    update: Option<PeersSetUpdate>,
    a: u64,
    peer: u64,
    notices: Seq<ConnectionNotice>,
)
    requires
        on_request_post(pre, mid, validator_ids, channel, already_connected, false, revoked, book, update),
        validator_ids.contains(a),
        !already_connected.contains_key(a),
        peer_connected_post(mid, post, peer, Some(a), notices),
    ensures
        notices.contains(ConnectionNotice { channel, authority: a, peer }),
{
    let last = mid.requests().len() - 1;
    assert(mid.requests()[last] == mid.requests().last());
    assert(mid.requests()[last].pending_ids().contains(a));
    waiting_request_is_notified(mid.requests(), last, a, peer);
}

} // verus!
