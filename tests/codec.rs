use bt_a2dp::codec::{CodecCapability, CodecNegotiation, EndpointType, RemoteStreamEndpoint};
use bt_a2dp::stream::{StreamEndpoint, Streams};

fn codec(codec_type: u8, parameters: u32) -> CodecCapability {
    CodecCapability { codec_type, parameters }
}

fn source(id: u8, c: CodecCapability) -> RemoteStreamEndpoint {
    RemoteStreamEndpoint { id, direction: EndpointType::Source, codec: c }
}

#[test]
fn negotiation_picks_the_only_supported_preference() {
    let a = codec(2, 0b01);
    let b = codec(0, 0b10);
    let negotiation = CodecNegotiation::build(vec![a, b], EndpointType::Sink);
    let remotes = vec![source(4, codec(0, 0b11))];
    assert_eq!(negotiation.select(&remotes), Some((b, 4)));
}

#[test]
fn negotiation_fails_when_nothing_matches() {
    let a = codec(2, 0b01);
    let b = codec(0, 0b10);
    let negotiation = CodecNegotiation::build(vec![a, b], EndpointType::Sink);
    // Another codec, a parameter set that shares nothing, and the wrong direction.
    let remotes = vec![
        source(1, codec(1, 0b11)),
        source(2, codec(0, 0b01)),
        RemoteStreamEndpoint { id: 3, direction: EndpointType::Sink, codec: a },
    ];
    assert_eq!(negotiation.select(&remotes), None);
    assert_eq!(negotiation.select(&vec![]), None);
}

#[test]
fn negotiation_prefers_earlier_configurations_in_any_remote_order() {
    let a = codec(2, 0b01);
    let b = codec(0, 0b10);
    let negotiation = CodecNegotiation::build(vec![a, b], EndpointType::Sink);
    let ra = source(7, codec(2, 0b11));
    let rb = source(8, codec(0, 0b11));
    assert_eq!(negotiation.select(&vec![ra, rb]), Some((a, 7)));
    assert_eq!(negotiation.select(&vec![rb, ra]), Some((a, 7)));
}

#[test]
fn negotiation_takes_the_first_matching_remote() {
    let a = codec(2, 0b01);
    let negotiation = CodecNegotiation::build(vec![a], EndpointType::Sink);
    let remotes = vec![source(5, codec(2, 0b01)), source(6, codec(2, 0b01))];
    assert_eq!(negotiation.select(&remotes), Some((a, 5)));
}

#[test]
fn negotiation_follows_direction() {
    let a = codec(2, 0b01);
    let mut negotiation = CodecNegotiation::build(vec![a], EndpointType::Sink);
    let sink = RemoteStreamEndpoint { id: 9, direction: EndpointType::Sink, codec: a };
    assert_eq!(negotiation.select(&vec![sink]), None);
    negotiation.set_direction(EndpointType::Source);
    assert_eq!(negotiation.direction(), EndpointType::Source);
    assert_eq!(negotiation.select(&vec![sink]), Some((a, 9)));
    let copy = negotiation.snapshot();
    negotiation.set_direction(EndpointType::Sink);
    assert_eq!(copy.direction(), EndpointType::Source);
}

#[test]
fn streams_insert_replaces_same_id_and_as_new_resets() {
    let mut streams = Streams::new();
    let e = StreamEndpoint { id: 1, direction: EndpointType::Sink, codec: codec(0, 1), in_use: true };
    streams.insert(e);
    streams.insert(StreamEndpoint { id: 2, ..e });
    streams.insert(StreamEndpoint { codec: codec(2, 1), ..e });
    assert_eq!(streams.len(), 2);
    assert_eq!(streams.get(0).codec, codec(2, 1));
    assert_eq!(streams.position(2), Some(1));
    assert_eq!(streams.position(3), None);

    let copy = streams.as_new();
    assert_eq!(copy.len(), 2);
    assert!(!copy.get(0).in_use);
    assert!(!copy.get(1).in_use);
    assert!(streams.get(0).in_use);
}
