use bt_a2dp::codec::{CodecCapability, CodecNegotiation, EndpointType, RemoteStreamEndpoint};
use bt_a2dp::connected_peers::{ConnectError, ConnectedPeers, PeerHandle, StartError};
use bt_a2dp::peer::{Channel, PeerError, PeerId, StartedStream};
use bt_a2dp::profile::ProfileDescriptor;
use bt_a2dp::stream::{StreamEndpoint, Streams};
use futures::executor::block_on;
use futures::StreamExt;

const SBC: u8 = 0;
const AAC: u8 = 2;

// Arbitrarily chosen ID for the SBC stream endpoint.
const SBC_SEID: u8 = 9;

// Arbitrarily chosen ID for the AAC stream endpoint.
const AAC_SEID: u8 = 10;

fn sbc_codec() -> CodecCapability {
    CodecCapability { codec_type: SBC, parameters: 0b1111 }
}

fn aac_codec() -> CodecCapability {
    CodecCapability { codec_type: AAC, parameters: 0b0110 }
}

fn build_test_stream(id: u8, codec: CodecCapability) -> StreamEndpoint {
    StreamEndpoint { id, direction: EndpointType::Sink, codec, in_use: false }
}

fn setup_connected_peer_test() -> (PeerId, ConnectedPeers) {
    let id = PeerId(1);
    let peers = ConnectedPeers::new(
        Streams::new(),
        CodecNegotiation::build(vec![], EndpointType::Sink),
    );
    (id, peers)
}

#[test]
fn connect_creates_peer() {
    let (id, mut peers) = setup_connected_peer_test();

    let channel = Channel { id: 100 };

    let peer = peers.connected(id, channel, false).expect("peer should connect");
    let peer = peers.upgrade(&peer).expect("peer should be connected");

    assert_eq!(peer.id(), id);
    assert_eq!(peer.channels(), &vec![channel]);
    assert!(!peer.is_closed());
    assert!(peers.is_connected(&id));
}

#[test]
fn connect_notifies_streams() {
    let (id, mut peers) = setup_connected_peer_test();

    let peer_stream = peers.connected_stream();
    let peer_stream_two = peers.connected_stream();
    let mut peer_stream = peer_stream.into_stream();
    let mut peer_stream_two = peer_stream_two.into_stream();

    let peer = peers.connected(id, Channel { id: 100 }, false).expect("peer should connect");
    assert!(peers.upgrade(&peer).is_some(), "peer should be connected");

    // Peers should have been notified of the new peer
    let weak = block_on(peer_stream.next()).expect("peer stream to produce");
    assert_eq!(weak.key(), id);
    let weak = block_on(peer_stream_two.next()).expect("peer stream to produce");
    assert_eq!(weak.key(), id);

    // If you drop one stream, the other one should still produce.
    drop(peer_stream);

    let id2 = PeerId(2);
    let peer2 = peers.connected(id2, Channel { id: 200 }, false).expect("peer should connect");
    assert!(peers.upgrade(&peer2).is_some(), "peer two should be connected");

    let weak = block_on(peer_stream_two.next()).expect("peer stream to produce");
    assert_eq!(weak.key(), id2);
    assert_eq!(weak, peer2);
}

#[test]
fn listeners_see_connects_in_order() {
    let (_, mut peers) = setup_connected_peer_test();
    let mut listener = peers.connected_stream().into_stream();

    let first = peers.connected(PeerId(1), Channel { id: 1 }, false).expect("connects");
    assert_eq!(block_on(listener.next()), Some(first));
    let second = peers.connected(PeerId(2), Channel { id: 2 }, false).expect("connects");
    assert_eq!(block_on(listener.next()), Some(second));
    let third = peers.connected(PeerId(3), Channel { id: 3 }, false).expect("connects");
    assert_eq!(block_on(listener.next()), Some(third));
}

#[test]
fn listener_that_does_not_take_handles_is_dropped() {
    let (_, mut peers) = setup_connected_peer_test();
    let mut idle = peers.connected_stream().into_stream();
    let mut active = peers.connected_stream().into_stream();

    // The idle listener's slot is taken by the first handle, so the second is refused and the
    // idle listener is pruned; the active one takes every handle.
    let first = peers.connected(PeerId(1), Channel { id: 1 }, false).expect("connects");
    assert_eq!(block_on(active.next()), Some(first));
    let second = peers.connected(PeerId(2), Channel { id: 2 }, false).expect("connects");
    assert_eq!(block_on(active.next()), Some(second));

    assert_eq!(block_on(idle.next()), Some(first));
    // The registry dropped its sender, so the idle stream ends.
    assert_eq!(block_on(idle.next()), None);
}

#[test]
fn connect_initiation_uses_negotiation() {
    let id = PeerId(1);

    let remote_aac_seid: u8 = 2;
    let remote_sbc_seid: u8 = 1;

    let negotiation =
        CodecNegotiation::build(vec![aac_codec(), sbc_codec()], EndpointType::Sink);

    let mut streams = Streams::new();
    streams.insert(build_test_stream(SBC_SEID, sbc_codec()));
    streams.insert(build_test_stream(AAC_SEID, aac_codec()));

    let mut peers = ConnectedPeers::new(streams, negotiation);

    let handle = peers.connected(id, Channel { id: 7 }, true);
    assert!(handle.is_ok());
    let handle = handle.unwrap();
    assert!(peers.pending_start(&handle));

    // Should discover remote streams, negotiate, and start.
    let endpoints = vec![
        RemoteStreamEndpoint { id: remote_sbc_seid, direction: EndpointType::Source, codec: sbc_codec() },
        RemoteStreamEndpoint { id: remote_aac_seid, direction: EndpointType::Source, codec: aac_codec() },
    ];

    let started = peers.start_streaming(&handle, &endpoints).expect("stream starts");
    // Should set the aac stream, matched with local AAC seid.
    assert_eq!(started.remote_id, remote_aac_seid);
    assert_eq!(started.local_id, AAC_SEID);
    assert_eq!(started.config, aac_codec());

    let peer = peers.upgrade(&handle).expect("still connected");
    assert_eq!(peer.started(), Some(started));
    assert!(!peers.pending_start(&handle));
    assert_eq!(peers.start_streaming(&handle, &endpoints), Err(StartError::NotPending));
}

#[test]
fn failed_negotiation_detaches_peer() {
    let negotiation = CodecNegotiation::build(vec![aac_codec()], EndpointType::Sink);
    let mut streams = Streams::new();
    streams.insert(build_test_stream(AAC_SEID, aac_codec()));
    let mut peers = ConnectedPeers::new(streams, negotiation);

    let handle = peers.connected(PeerId(4), Channel { id: 1 }, true).expect("connects");
    let remote_sbc_only =
        vec![RemoteStreamEndpoint { id: 1, direction: EndpointType::Source, codec: sbc_codec() }];
    assert_eq!(
        peers.start_streaming(&handle, &remote_sbc_only),
        Err(StartError::NoCompatibleStream)
    );
    assert!(peers.upgrade(&handle).is_none());
    assert!(!peers.is_connected(&PeerId(4)));
    assert_eq!(peers.start_streaming(&handle, &remote_sbc_only), Err(StartError::Disconnected));
}

#[test]
fn negotiation_without_a_free_local_endpoint_detaches_peer() {
    // The policy prefers AAC but the template has no AAC endpoint.
    let negotiation = CodecNegotiation::build(vec![aac_codec()], EndpointType::Sink);
    let mut streams = Streams::new();
    streams.insert(build_test_stream(SBC_SEID, sbc_codec()));
    let mut peers = ConnectedPeers::new(streams, negotiation);

    let handle = peers.connected(PeerId(5), Channel { id: 1 }, true).expect("connects");
    let remotes =
        vec![RemoteStreamEndpoint { id: 3, direction: EndpointType::Source, codec: aac_codec() }];
    assert_eq!(
        peers.start_streaming(&handle, &remotes),
        Err(StartError::Start(PeerError::NoLocalStream))
    );
    assert!(peers.upgrade(&handle).is_none());
}

#[test]
fn non_initiator_has_no_negotiation() {
    let negotiation = CodecNegotiation::build(vec![aac_codec()], EndpointType::Sink);
    let mut peers = ConnectedPeers::new(Streams::new(), negotiation);
    let handle = peers.connected(PeerId(6), Channel { id: 1 }, false).expect("connects");
    assert!(!peers.pending_start(&handle));
    let remotes =
        vec![RemoteStreamEndpoint { id: 3, direction: EndpointType::Source, codec: aac_codec() }];
    assert_eq!(peers.start_streaming(&handle, &remotes), Err(StartError::NotPending));
    assert!(peers.upgrade(&handle).is_some());
}

#[test]
fn direction_change_does_not_reach_pending_negotiation() {
    let negotiation = CodecNegotiation::build(vec![aac_codec()], EndpointType::Sink);
    let mut streams = Streams::new();
    streams.insert(build_test_stream(AAC_SEID, aac_codec()));
    let mut peers = ConnectedPeers::new(streams, negotiation);

    let handle = peers.connected(PeerId(8), Channel { id: 1 }, true).expect("connects");
    peers.set_preferred_direction(EndpointType::Source);
    assert_eq!(peers.preferred_direction(), EndpointType::Source);

    // The entry negotiates as a sink, as the policy was when it connected.
    let remotes =
        vec![RemoteStreamEndpoint { id: 3, direction: EndpointType::Source, codec: aac_codec() }];
    let started = peers.start_streaming(&handle, &remotes).expect("starts");
    assert_eq!(
        started,
        StartedStream { local_id: AAC_SEID, remote_id: 3, config: aac_codec() }
    );
}

#[test]
fn connected_peers_peer_disconnect_removes_peer() {
    let (id, mut peers) = setup_connected_peer_test();

    let handle = peers.connected(id, Channel { id: 1 }, false);
    assert!(handle.is_ok());
    let handle = handle.unwrap();

    // Disconnect the signaling channel, peer should be gone.
    peers.transport_closed(&handle);
    assert!(peers.detach(&handle));

    assert!(peers.get(&id).is_none());
    assert!(peers.upgrade(&handle).is_none());
}

#[test]
fn closed_session_refuses_channel_until_detached() {
    let (id, mut peers) = setup_connected_peer_test();
    let handle = peers.connected(id, Channel { id: 1 }, false).expect("connects");
    peers.transport_closed(&handle);
    assert!(peers.upgrade(&handle).expect("not yet detached").is_closed());

    let mut listener = peers.connected_stream().into_stream();
    let second = peers.connected(id, Channel { id: 2 }, false);
    assert_eq!(second, Err(ConnectError::ChannelAttach(PeerError::Disconnected)));
    // A refused channel announces nothing.
    assert!(listener.try_next().is_err());
    assert_eq!(peers.upgrade(&handle).unwrap().channels(), &vec![Channel { id: 1 }]);
}

#[test]
fn connected_peers_reconnect_works() {
    let (id, mut peers) = setup_connected_peer_test();

    let first = peers.connected(id, Channel { id: 1 }, false);
    assert!(first.is_ok());
    let first = first.unwrap();

    // Disconnect the signaling channel, peer should be gone.
    peers.transport_closed(&first);
    peers.detach(&first);

    assert!(peers.get(&id).is_none());

    // Connect another peer with the same ID
    let second = peers.connected(id, Channel { id: 2 }, false);
    assert!(second.is_ok());
    let second = second.unwrap();

    // Should be connected.
    assert!(peers.get(&id).is_some());
    assert_ne!(first, second);
    assert!(peers.upgrade(&first).is_none());
    assert!(peers.upgrade(&second).is_some());

    // Detaching through the stale handle leaves the new entry alone.
    assert!(!peers.detach(&first));
    assert!(peers.upgrade(&second).is_some());
}

#[test]
fn second_connect_merges_into_existing_entry() {
    let (id, mut peers) = setup_connected_peer_test();
    let mut listener = peers.connected_stream().into_stream();

    let a = peers.connected(id, Channel { id: 1 }, false).expect("first connects");
    assert_eq!(block_on(listener.next()), Some(a));
    let b = peers.connected(id, Channel { id: 2 }, false).expect("second merges");
    assert_eq!(a, b);
    let peer = peers.upgrade(&a).expect("live");
    assert_eq!(peer.channels(), &vec![Channel { id: 1 }, Channel { id: 2 }]);

    // The merged handle is announced too.
    assert_eq!(block_on(listener.next()), Some(a));
    let c = peers.connected(PeerId(9), Channel { id: 3 }, false).expect("connects");
    assert_eq!(block_on(listener.next()), Some(c));
}

#[test]
fn simultaneous_connects_share_one_entry() {
    let (id, mut peers) = setup_connected_peer_test();
    let a = peers.connected(id, Channel { id: 1 }, true).expect("connects");
    let b = peers.connected(id, Channel { id: 2 }, false).expect("connects");
    assert_eq!(a, b);
    assert_eq!(peers.get_weak(&id), Some(a));
}

#[test]
fn found_before_connect_sets_descriptor() {
    let (id, mut peers) = setup_connected_peer_test();
    let desc = ProfileDescriptor { profile_id: 0x110D, major_version: 1, minor_version: 3 };
    peers.found(id, desc);
    let handle = peers.connected(id, Channel { id: 1 }, false).expect("connects");
    assert_eq!(peers.upgrade(&handle).unwrap().descriptor(), Some(desc));
}

#[test]
fn found_after_connect_updates_live_peer() {
    let (id, mut peers) = setup_connected_peer_test();
    let handle = peers.connected(id, Channel { id: 1 }, false).expect("connects");
    assert_eq!(peers.upgrade(&handle).unwrap().descriptor(), None);
    let desc = ProfileDescriptor { profile_id: 0x110B, major_version: 1, minor_version: 2 };
    peers.found(id, desc);
    assert_eq!(peers.upgrade(&handle).unwrap().descriptor(), Some(desc));
    let newer = ProfileDescriptor { profile_id: 0x110B, major_version: 1, minor_version: 4 };
    peers.found(id, newer);
    assert_eq!(peers.get(&id).unwrap().descriptor(), Some(newer));
}

#[test]
fn each_peer_gets_a_fresh_copy_of_the_streams() {
    let negotiation = CodecNegotiation::build(vec![sbc_codec()], EndpointType::Sink);
    let mut streams = Streams::new();
    streams.insert(build_test_stream(SBC_SEID, sbc_codec()));
    let mut peers = ConnectedPeers::new(streams, negotiation);

    let remotes =
        vec![RemoteStreamEndpoint { id: 1, direction: EndpointType::Source, codec: sbc_codec() }];
    let a = peers.connected(PeerId(1), Channel { id: 1 }, true).expect("connects");
    let b = peers.connected(PeerId(2), Channel { id: 2 }, true).expect("connects");
    peers.start_streaming(&a, &remotes).expect("a starts");
    assert!(peers.upgrade(&a).unwrap().streams().get(0).in_use);
    assert!(!peers.upgrade(&b).unwrap().streams().get(0).in_use);
    peers.start_streaming(&b, &remotes).expect("b starts on its own copy");
}
