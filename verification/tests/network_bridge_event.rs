use moonrabbit::network_bridge_event::{NetworkBridgeEvent, NetworkView, ObservedRole, WrongVariant};

#[derive(Debug, Clone, PartialEq)]
enum Protocol {
    Bitfield(u32),
    Statement(u8),
}

fn bitfield(m: &Protocol) -> Result<u32, WrongVariant> {
    match m {
        Protocol::Bitfield(b) => Ok(*b),
        _ => Err(WrongVariant),
    }
}

#[test]
fn messages_are_narrowed() {
    let e: NetworkBridgeEvent<Protocol> = NetworkBridgeEvent::PeerMessage(3, Protocol::Bitfield(9));
    match e.focus(bitfield) {
        Ok(NetworkBridgeEvent::PeerMessage(p, b)) => assert_eq!((p, b), (3, 9)),
        _ => panic!("expected a message"),
    }
    let other: NetworkBridgeEvent<Protocol> = NetworkBridgeEvent::PeerMessage(3, Protocol::Statement(1));
    assert!(matches!(other.focus(bitfield), Err(WrongVariant)));
}

#[test]
fn other_events_are_copied() {
    let e: NetworkBridgeEvent<Protocol> = NetworkBridgeEvent::PeerConnected(1, ObservedRole::Authority, Some(4));
    assert!(matches!(
        e.focus(bitfield),
        Ok(NetworkBridgeEvent::PeerConnected(1, ObservedRole::Authority, Some(4)))
    ));
    let e: NetworkBridgeEvent<Protocol> = NetworkBridgeEvent::PeerDisconnected(2);
    assert!(matches!(e.focus(bitfield), Ok(NetworkBridgeEvent::PeerDisconnected(2))));
    let view = NetworkView { heads: vec![5, 6], finalized_number: 3 };
    let e: NetworkBridgeEvent<Protocol> = NetworkBridgeEvent::PeerViewChange(7, view.clone());
    match e.focus(bitfield) {
        Ok(NetworkBridgeEvent::PeerViewChange(p, v)) => assert_eq!((p, v), (7, view.clone())),
        _ => panic!("expected a view change"),
    }
    let e: NetworkBridgeEvent<Protocol> = NetworkBridgeEvent::OurViewChange(view.clone());
    match e.focus(bitfield) {
        Ok(NetworkBridgeEvent::OurViewChange(v)) => assert_eq!(v, view),
        _ => panic!("expected our view change"),
    }
}
