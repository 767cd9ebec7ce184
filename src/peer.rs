use vstd::prelude::*;

use crate::codec::{CodecCapability, EndpointType};
use crate::profile::ProfileDescriptor;
use crate::stream::{first_available, lemma_first_available, StreamEndpoint, Streams};

verus! {

/// Identifies a remote device.
#[derive(Clone, Copy, Debug, PartialEq, Eq, Structural, Hash)]
pub struct PeerId(pub u64);

/// A transport channel to a remote device, known by the handle that the transport gave it.
#[derive(Clone, Copy, Debug, PartialEq, Eq, Structural)]
pub struct Channel {
    pub id: u64,
}

/// A stream that a session has configured and started: the local endpoint, the remote endpoint
/// and the codec configuration.
#[derive(Clone, Copy, Debug, PartialEq, Eq, Structural)]
pub struct StartedStream {
    pub local_id: u8,
    pub remote_id: u8,
    pub config: CodecCapability,
}

/// Why an operation on a session failed.
#[derive(Clone, Copy, Debug, PartialEq, Eq, Structural)]
pub enum PeerError {
    /// The session's transport has closed.
    Disconnected,
    /// No local endpoint of the right direction and codec is free to carry the stream.
    NoLocalStream,
}

/// One remote device's session: its channels, its working copy of the local endpoints, the
/// profile descriptor learned for it and the stream it started, if any.
#[derive(Debug)]
pub struct Peer {
    id: PeerId,
    streams: Streams,
    descriptor: Option<ProfileDescriptor>,
    channels: Vec<Channel>,
    closed: bool,
    started: Option<StartedStream>,
}

impl Peer {
    pub closed spec fn id_view(&self) -> PeerId {
        self.id
    }

    pub closed spec fn streams_view(&self) -> Seq<StreamEndpoint> {
        self.streams@
    }

    pub closed spec fn descriptor_view(&self) -> Option<ProfileDescriptor> {
        self.descriptor
    }

    pub closed spec fn channels_view(&self) -> Seq<Channel> {
        self.channels@
    }

    pub closed spec fn is_closed_view(&self) -> bool {
        self.closed
    }

    pub closed spec fn started_view(&self) -> Option<StartedStream> {
        self.started
    }

    pub closed spec fn wf(&self) -> bool {
        self.streams.wf()
    }

    /// A session with `id` over `channel`, using `streams` as its endpoints.
    pub fn create(id: PeerId, channel: Channel, streams: Streams) -> (r: Self)
        requires
            streams.wf(),
        ensures
            r.wf(),
            r.id_view() == id,
            r.streams_view() == streams@,
            r.descriptor_view() is None,
            r.channels_view() == seq![channel],
            !r.is_closed_view(),
            r.started_view() is None,
    {
        let mut channels: Vec<Channel> = Vec::new();
        channels.push(channel);
        assert(channels@ =~= seq![channel]);
        Peer { id, streams, descriptor: None, channels, closed: false, started: None }
    }

    pub fn id(&self) -> (r: PeerId)
        ensures
            r == self.id_view(),
    {
        self.id
    }

    pub fn descriptor(&self) -> (r: Option<ProfileDescriptor>)
        ensures
            r == self.descriptor_view(),
    {
        self.descriptor
    }

    pub fn streams(&self) -> (r: &Streams)
        ensures
            r@ == self.streams_view(),
    {
        &self.streams
    }

    pub fn channels(&self) -> (r: &Vec<Channel>)
        ensures
            r@ == self.channels_view(),
    {
        &self.channels
    }

    pub fn is_closed(&self) -> (r: bool)
        ensures
            r == self.is_closed_view(),
    {
        self.closed
    }

    pub fn started(&self) -> (r: Option<StartedStream>)
        ensures
            r == self.started_view(),
    {
        self.started
    }

    /// Records the profile metadata known for this device.
    pub fn set_descriptor(&mut self, desc: ProfileDescriptor)
        ensures
            final(self).descriptor_view() == Some(desc),
            final(self).same_but_descriptor(*old(self)),
    {
        self.descriptor = Some(desc);
    }

    /// Everything but the descriptor is as in `other`.
    pub open spec fn same_but_descriptor(&self, other: Peer) -> bool {
        &&& self.wf() == other.wf()
        &&& self.id_view() == other.id_view()
        &&& self.streams_view() == other.streams_view()
        &&& self.channels_view() == other.channels_view()
        &&& self.is_closed_view() == other.is_closed_view()
        &&& self.started_view() == other.started_view()
    }

    /// Attaches another transport channel to the session; a session whose transport has closed
    /// takes none.
    pub fn receive_channel(&mut self, channel: Channel) -> (r: Result<(), PeerError>)
        ensures
            old(self).is_closed_view() ==> r == Err::<(), PeerError>(PeerError::Disconnected)
                && *final(self) == *old(self),
            !old(self).is_closed_view() ==> r is Ok && final(self).channels_view() == old(
                self,
            ).channels_view().push(channel) && final(self).descriptor_view() == old(
                self,
            ).descriptor_view() && final(self).wf() == old(self).wf() && final(self).id_view()
                == old(self).id_view() && final(self).streams_view() == old(self).streams_view()
                && !final(self).is_closed_view() && final(self).started_view() == old(
                self,
            ).started_view(),
    {
        if self.closed {
            return Err(PeerError::Disconnected);
        }
        self.channels.push(channel);
        Ok(())
    }

    /// Notes that the session's transport has closed: from now on its operations fail.
    pub fn close(&mut self)
        ensures
            final(self).is_closed_view(),
            final(self).wf() == old(self).wf(),
            final(self).id_view() == old(self).id_view(),
            final(self).streams_view() == old(self).streams_view(),
            final(self).descriptor_view() == old(self).descriptor_view(),
            final(self).channels_view() == old(self).channels_view(),
            final(self).started_view() == old(self).started_view(),
    {
        self.closed = true;
    }

    /// Starts a stream of configuration `config` towards the remote endpoint `remote_id`, on the
    /// first free local endpoint of direction `direction` that supports the codec.
    pub fn stream_start(
        &mut self,
        remote_id: u8,
        config: CodecCapability,
        direction: EndpointType,
    ) -> (r: Result<StartedStream, PeerError>)
        requires
            old(self).wf(),
        ensures
            final(self).wf(),
            final(self).id_view() == old(self).id_view(),
            final(self).descriptor_view() == old(self).descriptor_view(),
            final(self).channels_view() == old(self).channels_view(),
            final(self).is_closed_view() == old(self).is_closed_view(),
            ({
                let before = old(self).streams_view();
                match first_available(before, config, direction) {
                    _ if old(self).is_closed_view() => {
                        &&& r == Err::<StartedStream, PeerError>(PeerError::Disconnected)
                        &&& *final(self) == *old(self)
                    },
                    None => {
                        &&& r == Err::<StartedStream, PeerError>(PeerError::NoLocalStream)
                        &&& *final(self) == *old(self)
                    },
                    Some(i) => {
                        let s = StartedStream { local_id: before[i].id, remote_id, config };
                        &&& r == Ok::<StartedStream, PeerError>(s)
                        &&& final(self).started_view() == Some(s)
                        &&& final(self).streams_view() == before.update(
                            i,
                            StreamEndpoint { in_use: true, ..before[i] },
                        )
                    },
                }
            }),
    {
        if self.closed {
            return Err(PeerError::Disconnected);
        }
        match self.streams.find_available(config, direction) {
            None => {
                assert(first_available(self.streams@, config, direction) is None);
                Err(PeerError::NoLocalStream)
            },
            Some(i) => {
                proof {
                    lemma_first_available(self.streams@, config, direction, i as int);
                }
                let local = self.streams.get(i);
                self.streams.mark_in_use(i);
                let started = StartedStream { local_id: local.id, remote_id, config };
                self.started = Some(started);
                Ok(started)
            },
        }
    }
}

} // verus!
