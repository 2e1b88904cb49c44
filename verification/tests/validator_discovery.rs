use moonrabbit::validator_discovery::{
    on_revoke, ConnectionNotice, DiscoveredAddress, NonRevokedConnectionRequestState, PeerSet,
    Service,
};
use std::collections::{HashMap, HashSet};

/// The network, the authority discovery service and the requesters' channels
/// around a validator discovery service.
struct Harness {
    service: Service,
    peers_set: HashSet<u64>,
    by_authority_id: HashMap<u64, Vec<DiscoveredAddress>>,
    by_peer_id: HashMap<u64, u64>,
    channels: Vec<(Vec<(u64, u64)>, bool)>,
}

const ALICE: u64 = 1;
const BOB: u64 = 2;
const CHARLIE: u64 = 3;

fn known_authorities() -> Vec<u64> {
    vec![ALICE, BOB, CHARLIE]
}

fn known_peer_ids() -> Vec<u64> {
    vec![101, 102, 103]
}

fn known_multiaddr() -> Vec<u64> {
    vec![1234, 1235, 1236]
}

impl Harness {
    fn empty() -> Self {
        Harness {
            service: Service::new(),
            peers_set: HashSet::new(),
            by_authority_id: HashMap::new(),
            by_peer_id: HashMap::new(),
            channels: Vec::new(),
        }
    }

    fn new() -> Self {
        let mut h = Harness::empty();
        for ((a, p), addr) in known_authorities()
            .into_iter()
            .zip(known_peer_ids())
            .zip(known_multiaddr())
        {
            h.by_authority_id.insert(a, vec![DiscoveredAddress { addr, peer: None }]);
            h.by_peer_id.insert(p, a);
        }
        h
    }

    fn channel(&mut self) -> u64 {
        self.channels.push((Vec::new(), false));
        (self.channels.len() - 1) as u64
    }

    fn drop_receiver(&mut self, c: u64) {
        self.channels[c as usize].1 = true;
    }

    /// Receives the next connection reported on a channel.
    fn next(&mut self, c: u64) -> (u64, u64) {
        let queue = &mut self.channels[c as usize].0;
        assert!(!queue.is_empty(), "nothing was reported");
        queue.remove(0)
    }

    fn deliver(&mut self, notices: Vec<ConnectionNotice>) {
        for n in notices {
            let ch = &mut self.channels[n.channel as usize];
            if !ch.1 {
                ch.0.push((n.authority, n.peer));
            }
        }
    }

    fn on_peer_connected(&mut self, peer: u64) {
        let maybe_authority = self.by_peer_id.get(&peer).cloned();
        let notices = self.service.on_peer_connected(peer, PeerSet::Validation, maybe_authority);
        self.deliver(notices);
    }

    fn on_request(&mut self, validator_ids: Vec<u64>, connected: u64) {
        let found = self.service.find_connected_validators(
            &validator_ids,
            PeerSet::Validation,
            &self.by_authority_id,
        );
        let mut receiver_dropped = false;
        for (id, peer) in found.iter() {
            let ch = &mut self.channels[connected as usize];
            if ch.1 {
                receiver_dropped = true;
                break;
            }
            ch.0.push((*id, *peer));
        }
        let revoked: Vec<bool> = self
            .service
            .request_channels(PeerSet::Validation)
            .iter()
            .map(|c| self.channels[*c as usize].1)
            .collect();
        let update = self.service.on_request(
            validator_ids,
            PeerSet::Validation,
            connected,
            &found,
            receiver_dropped,
            &revoked,
            &self.by_authority_id,
        );
        if let Some(update) = update {
            self.peers_set.extend(update.add.iter().cloned());
            self.peers_set.retain(|a| !update.remove.contains(a));
        }
    }
}

#[test]
fn requests_are_fulfilled_immediately_for_already_connected_peers() {
    let mut h = Harness::new();
    let peer_ids = known_peer_ids();
    let authority_ids = known_authorities();

    let req1 = vec![authority_ids[0], authority_ids[1]];
    let c = h.channel();

    h.on_peer_connected(peer_ids[0]);
    h.on_request(req1, c);

    // the results should be immediately available
    let reply1 = h.next(c);
    assert_eq!(reply1.0, authority_ids[0]);
    assert_eq!(reply1.1, peer_ids[0]);
}

#[test]
fn requests_are_fulfilled_on_peer_connection() {
    let mut h = Harness::new();
    let peer_ids = known_peer_ids();
    let authority_ids = known_authorities();

    let req1 = vec![authority_ids[0], authority_ids[1]];
    let c = h.channel();

    h.on_request(req1, c);

    h.on_peer_connected(peer_ids[0]);
    let reply1 = h.next(c);
    assert_eq!(reply1.0, authority_ids[0]);
    assert_eq!(reply1.1, peer_ids[0]);

    h.on_peer_connected(peer_ids[1]);
    let reply2 = h.next(c);
    assert_eq!(reply2.0, authority_ids[1]);
    assert_eq!(reply2.1, peer_ids[1]);
}

#[test]
fn requests_are_removed_on_revoke() {
    let mut h = Harness::new();
    let peer_ids = known_peer_ids();
    let authority_ids = known_authorities();

    let c1 = h.channel();

    h.on_peer_connected(peer_ids[0]);
    h.on_peer_connected(peer_ids[1]);

    h.on_request(vec![authority_ids[0]], c1);

    let _ = h.next(c1);
    // revoke the request
    h.drop_receiver(c1);

    let c2 = h.channel();

    h.on_request(vec![authority_ids[1]], c2);

    let reply = h.next(c2);
    assert_eq!(reply.0, authority_ids[1]);
    assert_eq!(reply.1, peer_ids[1]);
    assert_eq!(h.service.request_count(PeerSet::Validation), 1);
}

#[test]
fn revoking_requests_with_overlapping_validator_sets() {
    let mut h = Harness::new();
    let peer_ids = known_peer_ids();
    let authority_ids = known_authorities();

    let c1 = h.channel();

    h.on_peer_connected(peer_ids[0]);
    h.on_peer_connected(peer_ids[1]);

    h.on_request(vec![authority_ids[0], authority_ids[2]], c1);

    let _ = h.next(c1);
    // revoke the first request
    h.drop_receiver(c1);

    let c2 = h.channel();

    h.on_request(vec![authority_ids[0], authority_ids[1]], c2);

    let _ = h.next(c2);
    assert_eq!(h.service.request_count(PeerSet::Validation), 1);
    assert_eq!(h.peers_set.len(), 2);

    // revoke the second request
    h.drop_receiver(c2);

    let c3 = h.channel();

    h.on_request(vec![authority_ids[0]], c3);

    let _ = h.next(c3);
    assert_eq!(h.service.request_count(PeerSet::Validation), 1);
    assert_eq!(h.peers_set.len(), 1);
}

/// A validator connects, but the authority discovery does not yet know that
/// the connecting node is a validator, as can happen at a node's start.
#[test]
fn handle_validator_connect_without_authority_discovery_knowing_it() {
    let mut h = Harness::empty();

    let validator_peer_id: u64 = 777;
    let validator_id: u64 = ALICE;

    let c = h.channel();

    h.on_peer_connected(validator_peer_id);

    let address = DiscoveredAddress { addr: known_multiaddr()[0], peer: Some(validator_peer_id) };
    h.by_peer_id.insert(validator_peer_id, validator_id);
    h.by_authority_id.insert(validator_id, vec![address]);

    h.on_request(vec![validator_id], c);

    assert_eq!((validator_id, validator_peer_id), h.next(c));
    assert!(h.service.speaks_for(PeerSet::Validation, validator_peer_id, validator_id));
}

#[test]
fn a_dropped_receiver_revokes_the_request_at_once() {
    let mut h = Harness::new();
    let peer_ids = known_peer_ids();

    h.on_peer_connected(peer_ids[0]);
    let c = h.channel();
    h.drop_receiver(c);
    h.on_request(vec![ALICE, BOB], c);

    assert_eq!(h.service.request_count(PeerSet::Validation), 0);
    assert_eq!(h.service.request_counter(PeerSet::Validation, ALICE), 0);
    assert_eq!(h.service.request_counter(PeerSet::Validation, BOB), 0);
    assert!(h.peers_set.is_empty());
}

#[test]
fn requested_addresses_are_added_to_the_peer_set() {
    let mut h = Harness::new();
    let c = h.channel();
    h.on_request(vec![ALICE, CHARLIE], c);

    let expected: HashSet<u64> = [1234, 1236].iter().cloned().collect();
    assert_eq!(h.peers_set, expected);
    assert_eq!(h.service.request_counter(PeerSet::Validation, ALICE), 1);
    assert_eq!(h.service.request_counter(PeerSet::Validation, CHARLIE), 1);
    assert_eq!(h.service.request_count(PeerSet::Collation), 0);
}

#[test]
fn an_authority_is_reported_once_per_request() {
    let mut h = Harness::new();
    let c = h.channel();
    h.on_request(vec![ALICE], c);
    h.on_peer_connected(101);
    assert_eq!(h.next(c), (ALICE, 101));
    h.service.on_peer_disconnected(&101, PeerSet::Validation);
    h.on_peer_connected(101);
    assert!(h.channels[c as usize].0.is_empty());
}

#[test]
fn on_revoke_counts_down_and_releases() {
    let mut map: HashMap<u64, u64> = HashMap::new();
    map.insert(5, 2);
    assert_eq!(on_revoke(&mut map, 5), None);
    assert_eq!(map.get(&5), Some(&1));
    assert_eq!(on_revoke(&mut map, 5), Some(5));
    assert!(map.get(&5).is_none());
    assert_eq!(on_revoke(&mut map, 9), None);
    assert!(map.is_empty());
}

#[test]
fn a_request_reports_each_awaited_authority_once() {
    let pending: HashSet<u64> = [ALICE, BOB].iter().cloned().collect();
    let mut request = NonRevokedConnectionRequestState::new(vec![ALICE, BOB], pending, 4);
    assert_eq!(request.requested(), &[ALICE, BOB][..]);
    assert_eq!(request.sender(), 4);
    let first = request.on_authority_connected(&ALICE, &101);
    assert_eq!(first, Some(ConnectionNotice { channel: 4, authority: ALICE, peer: 101 }));
    assert_eq!(request.on_authority_connected(&ALICE, &101), None);
    assert_eq!(request.on_authority_connected(&CHARLIE, &103), None);
}
