use std::collections::HashMap;

use futures::channel::mpsc::{Receiver, Sender};
use vstd::prelude::*;

use crate::codec::{selection, CodecNegotiation, EndpointType, RemoteStreamEndpoint};
use crate::peer::{Channel, Peer, PeerError, PeerId, StartedStream};
use crate::profile::ProfileDescriptor;
use crate::stream::{first_available, fresh_all, StreamEndpoint, Streams};

verus! {

broadcast use vstd::std_specs::hash::group_hash_axioms;

/// futures::channel::mpsc::Sender, the sending end of a listener's channel; opaque here.
#[verifier::external_type_specification]
#[verifier::external_body]
#[verifier::reject_recursive_types(T)]
pub struct ExSender<T>(Sender<T>);

/// futures::channel::mpsc::Receiver, the receiving end of a listener's channel; opaque here.
#[verifier::external_type_specification]
#[verifier::external_body]
#[verifier::reject_recursive_types(T)]
pub struct ExReceiver<T>(Receiver<T>);

/// The bound that futures::channel::mpsc::channel puts on a buffer size (its `MAX_BUFFER`).
pub const MAX_LISTENER_BUFFER: usize = usize::MAX >> 2usize;

/// The buffer that each listener's channel is opened with. With no buffer the sender still has
/// one slot of its own, so a listener holds at most one handle that it has not read yet.
pub const LISTENER_BUFFER: usize = 0;

/// What a listener has been through: the channel it belongs to, the handles offered to it and
/// the handles its channel took, in order. The receiving end yields the taken handles in that
/// order.
pub struct ListenerView {
    pub channel: int,
    pub offered: Seq<PeerHandle>,
    pub taken: Seq<PeerHandle>,
}

/// `v` after it was offered `h` and took it.
pub open spec fn took(v: ListenerView, h: PeerHandle) -> ListenerView {
    ListenerView { channel: v.channel, offered: v.offered.push(h), taken: v.taken.push(h) }
}

/// `v` after it was offered `h` and refused it.
pub open spec fn refused(v: ListenerView, h: PeerHandle) -> ListenerView {
    ListenerView { channel: v.channel, offered: v.offered.push(h), taken: v.taken }
}

/// The sending end of a listener's channel, with the record of what it was offered and took.
pub struct Listener {
    sender: Sender<PeerHandle>,
    channel: Ghost<int>,
    offered: Ghost<Seq<PeerHandle>>,
    taken: Ghost<Seq<PeerHandle>>,
}

impl View for Listener {
    type V = ListenerView;

    closed spec fn view(&self) -> ListenerView {
        ListenerView { channel: self.channel@, offered: self.offered@, taken: self.taken@ }
    }
}

/// Relies on futures::channel::mpsc::channel: it makes one channel and returns its sending and
/// its receiving end, which therefore share a channel. It panics on a buffer of `MAX_BUFFER`
/// or more, which `requires` leaves out.
#[verifier::external_body]
fn open_listener(buffer: usize) -> (r: (Listener, PeerConnections))
    requires
        buffer < MAX_LISTENER_BUFFER,
    ensures
        r.0@.channel == r.1.channel(),
        r.0@.offered == Seq::<PeerHandle>::empty(),
        r.0@.taken == Seq::<PeerHandle>::empty(),
{
    let (sender, stream) = futures::channel::mpsc::channel(buffer);
    let channel: Ghost<int> = Ghost(arbitrary());
    (
        Listener { sender, channel, offered: Ghost(Seq::empty()), taken: Ghost(Seq::empty()) },
        PeerConnections { stream, channel },
    )
}

/// Relies on futures::channel::mpsc::Sender::try_send: it returns `Ok` when it queued the
/// handle on the channel, and an error, leaving the channel as it was, when the receiver is gone
/// or the sender's slot is still taken. Which one happens depends on the receiver.
#[verifier::external_body]
fn try_send_handle(listener: &mut Listener, handle: PeerHandle) -> (r: bool)
    ensures
        final(listener)@ == if r {
            took(old(listener)@, handle)
        } else {
            refused(old(listener)@, handle)
        },
{
    listener.sender.try_send(handle).is_ok()
}

/// The listeners that stay after `h` is offered to each of `ls` in turn, where `accepted[i]`
/// says whether the `i`-th took it: those that took it, in their order, each with `h` recorded.
pub open spec fn kept_after(
    ls: Seq<ListenerView>,
    accepted: Seq<bool>,
    h: PeerHandle,
) -> Seq<ListenerView>
    decreases ls.len(),
{
    if ls.len() == 0 {
        Seq::empty()
    } else {
        let n = ls.len() - 1;
        let prefix = kept_after(ls.take(n), accepted, h);
        if accepted[n] {
            prefix.push(took(ls[n], h))
        } else {
            prefix
        }
    }
}

/// `after` is what fanning `h` out to `before` leaves, for some outcomes of the offers.
pub open spec fn fanned_out(before: Seq<ListenerView>, after: Seq<ListenerView>, h: PeerHandle) -> bool {
    exists|accepted: Seq<bool>|
        accepted.len() == before.len() && after == #[trigger] kept_after(before, accepted, h)
}

/// `kept_after` reads only the outcomes of the listeners it is given.
proof fn lemma_kept_after_outcomes(
    ls: Seq<ListenerView>,
    a: Seq<bool>,
    b: Seq<bool>,
    h: PeerHandle,
)
    requires
        forall|i: int| 0 <= i < ls.len() ==> a[i] == b[i],
    ensures
        kept_after(ls, a, h) == kept_after(ls, b, h),
    decreases ls.len(),
{
    if ls.len() > 0 {
        lemma_kept_after_outcomes(ls.take(ls.len() - 1), a, b, h);
    }
}

/// Every listener that takes a handle keeps its place among those that stay, whatever the other
/// listeners do: the `i`-th listener, when it takes `h`, stays with `h` at the end of its taken
/// handles, after the same number of listeners as took `h` before it.
pub proof fn lemma_fan_out_reaches_each_taker(
    ls: Seq<ListenerView>,
    accepted: Seq<bool>,
    h: PeerHandle,
    i: int,
)
    requires
        accepted.len() == ls.len(),
        0 <= i < ls.len(),
        accepted[i],
    ensures
        ({
            let kept = kept_after(ls, accepted, h);
            let before_i = kept_after(ls.take(i), accepted, h);
            &&& before_i.len() < kept.len()
            &&& kept[before_i.len() as int] == took(ls[i], h)
            &&& kept[before_i.len() as int].taken.last() == h
        }),
    decreases ls.len(),
{
    let n = ls.len() - 1;
    if i == n {
        assert(ls.take(n) == ls.take(i));
    } else {
        assert(ls.take(n).take(i) =~= ls.take(i));
        assert(ls.take(n)[i] == ls[i]);
        lemma_fan_out_reaches_each_taker(ls.take(n), accepted.take(n), h, i);
        lemma_kept_after_outcomes(ls.take(n), accepted.take(n), accepted, h);
        lemma_kept_after_outcomes(ls.take(i), accepted.take(n), accepted, h);
        lemma_kept_after_len(ls.take(n), accepted, h);
    }
}

/// Fanning out never adds listeners.
proof fn lemma_kept_after_len(ls: Seq<ListenerView>, accepted: Seq<bool>, h: PeerHandle)
    ensures
        kept_after(ls, accepted, h).len() <= ls.len(),
    decreases ls.len(),
{
    if ls.len() > 0 {
        lemma_kept_after_len(ls.take(ls.len() - 1), accepted, h);
    }
}

/// A weak handle to a connected peer: it resolves while the entry that it was issued for is
/// still in the registry, and never again once that entry has been detached.
#[derive(Clone, Copy, Debug, PartialEq, Eq, Structural)]
pub struct PeerHandle {
    pub id: PeerId,
    pub generation: u64,
}

impl PeerHandle {
    pub fn key(&self) -> (r: PeerId)
        ensures
            r == self.id,
    {
        self.id
    }
}

/// The registry's record of one connected peer: the generation that its handles carry, the
/// session, and the negotiation that is still to run for it when it was connected as initiator.
#[derive(Debug)]
pub struct PeerEntry {
    pub generation: u64,
    pub peer: Peer,
    pub negotiation: Option<CodecNegotiation>,
}

/// Why `connected` failed.
#[derive(Clone, Copy, Debug, PartialEq, Eq, Structural)]
pub enum ConnectError {
    /// The live session for the peer did not take the new channel.
    ChannelAttach(PeerError),
}

/// Why starting a stream for a newly connected peer failed.
#[derive(Clone, Copy, Debug, PartialEq, Eq, Structural)]
pub enum StartError {
    /// The handle no longer resolves.
    Disconnected,
    /// The peer has no negotiation left to run: it was not connected as initiator, or its
    /// negotiation has already run.
    NotPending,
    /// No remote endpoint supports any of the preferred configurations.
    NoCompatibleStream,
    /// The session could not start the chosen stream.
    Start(PeerError),
}

/// A stream of the handles of newly connected peers: the receiving end of a listener's channel.
pub struct PeerConnections {
    stream: Receiver<PeerHandle>,
    channel: Ghost<int>,
}

impl PeerConnections {
    /// The channel that this stream receives from.
    pub closed spec fn channel(&self) -> int {
        self.channel@
    }

    /// The receiving end, from which the handles are read.
    pub fn into_stream(self) -> Receiver<PeerHandle> {
        self.stream
    }
}

/// What each of `ls` has been through.
pub open spec fn views(ls: Seq<Listener>) -> Seq<ListenerView> {
    ls.map_values(|l: Listener| l@)
}

/// Tracks the connected peers: at most one live entry for each peer, the descriptors learned
/// through discovery, the template of local endpoints, the negotiation policy and the
/// listeners to tell of new connections.
pub struct ConnectedPeers {
    connected: HashMap<u64, PeerEntry>,
    descriptors: HashMap<u64, ProfileDescriptor>,
    streams: Streams,
    codec_negotiation: CodecNegotiation,
    next_generation: u64,
    connected_peer_senders: Vec<Listener>,
}

impl ConnectedPeers {
    /// The live entries, by peer identifier.
    pub closed spec fn entries(&self) -> Map<u64, PeerEntry> {
        self.connected@
    }

    /// The descriptors learned through discovery, by peer identifier.
    pub closed spec fn descriptors(&self) -> Map<u64, ProfileDescriptor> {
        self.descriptors@
    }

    /// The local endpoints that each new peer gets a fresh copy of.
    pub closed spec fn template(&self) -> Seq<StreamEndpoint> {
        self.streams@
    }

    pub closed spec fn negotiation(&self) -> CodecNegotiation {
        self.codec_negotiation
    }

    /// The generation that the next new entry gets; every handle issued so far has a lower one.
    pub closed spec fn next_generation(&self) -> u64 {
        self.next_generation
    }

    /// The listeners, in the order in which they are offered each new handle.
    pub closed spec fn listeners(&self) -> Seq<ListenerView> {
        views(self.connected_peer_senders@)
    }

    pub closed spec fn wf(&self) -> bool {
        &&& self.streams.wf()
        &&& forall|k: u64| #[trigger]
            self.connected@.contains_key(k) ==> {
                let e = self.connected@[k];
                &&& e.peer.id_view() == PeerId(k)
                &&& e.peer.wf()
                &&& e.generation < self.next_generation
            }
    }

    /// `h` resolves to a live entry.
    pub open spec fn resolves(&self, h: PeerHandle) -> bool {
        self.entries().contains_key(h.id.0) && self.entries()[h.id.0].generation == h.generation
    }

    /// `h` carries a generation that this registry has handed out.
    pub open spec fn issued(&self, h: PeerHandle) -> bool {
        h.generation < self.next_generation()
    }

    /// The descriptor learned for `id`, if any.
    pub open spec fn known_descriptor(&self, id: PeerId) -> Option<ProfileDescriptor> {
        if self.descriptors().contains_key(id.0) {
            Some(self.descriptors()[id.0])
        } else {
            None
        }
    }

    /// No issued handle that failed to resolve in `before` resolves in `self`, and no
    /// generation is handed out twice.
    pub open spec fn stays_detached(&self, before: &Self) -> bool {
        &&& before.next_generation() <= self.next_generation()
        &&& forall|h: PeerHandle|
            before.issued(h) && !before.resolves(h) ==> !#[trigger] self.resolves(h)
    }

    /// The descriptors, the endpoint template and the negotiation policy are as in `before`.
    pub open spec fn settings_kept(&self, before: &Self) -> bool {
        &&& self.descriptors() == before.descriptors()
        &&& self.template() == before.template()
        &&& self.negotiation() == before.negotiation()
    }

    /// What `connected(id, channel, initiator)` does, taking `before` to `after` and returning
    /// `r`.
    pub open spec fn connect_post(
        before: &Self,
        after: &Self,
        id: PeerId,
        channel: Channel,
        initiator: bool,
        r: Result<PeerHandle, ConnectError>,
    ) -> bool {
        &&& after.wf()
        &&& after.settings_kept(before)
        &&& after.stays_detached(before)
        &&& after.entries().remove(id.0) == before.entries().remove(id.0)
        &&& if before.entries().contains_key(id.0) {
            let old_entry = before.entries()[id.0];
            let new_entry = after.entries()[id.0];
            &&& after.next_generation() == before.next_generation()
            &&& if old_entry.peer.is_closed_view() {
                &&& r == Err::<PeerHandle, ConnectError>(
                    ConnectError::ChannelAttach(PeerError::Disconnected),
                )
                &&& after.entries() == before.entries()
                &&& after.listeners() == before.listeners()
            } else {
                &&& fanned_out(
                    before.listeners(),
                    after.listeners(),
                    PeerHandle { id, generation: old_entry.generation },
                )
                &&& r == Ok::<PeerHandle, ConnectError>(
                    PeerHandle { id, generation: old_entry.generation },
                )
                &&& after.entries().contains_key(id.0)
                &&& new_entry.generation == old_entry.generation
                &&& new_entry.negotiation == old_entry.negotiation
                &&& new_entry.peer.channels_view() == old_entry.peer.channels_view().push(channel)
                &&& new_entry.peer.id_view() == old_entry.peer.id_view()
                &&& new_entry.peer.streams_view() == old_entry.peer.streams_view()
                &&& new_entry.peer.descriptor_view() == old_entry.peer.descriptor_view()
                &&& new_entry.peer.started_view() == old_entry.peer.started_view()
                &&& !new_entry.peer.is_closed_view()
            }
        } else {
            let new_entry = after.entries()[id.0];
            &&& r == Ok::<PeerHandle, ConnectError>(
                PeerHandle { id, generation: before.next_generation() },
            )
            &&& after.next_generation() == before.next_generation() + 1
            &&& after.entries().contains_key(id.0)
            &&& new_entry.generation == before.next_generation()
            &&& new_entry.peer.id_view() == id
            &&& new_entry.peer.streams_view() == fresh_all(before.template())
            &&& new_entry.peer.descriptor_view() == before.known_descriptor(id)
            &&& new_entry.peer.channels_view() == seq![channel]
            &&& !new_entry.peer.is_closed_view()
            &&& new_entry.peer.started_view() is None
            &&& (new_entry.negotiation is Some <==> initiator)
            &&& new_entry.negotiation is Some ==> {
                &&& new_entry.negotiation->Some_0.preferences_view()
                    == before.negotiation().preferences_view()
                &&& new_entry.negotiation->Some_0.direction_view()
                    == before.negotiation().direction_view()
            }
            &&& fanned_out(
                before.listeners(),
                after.listeners(),
                PeerHandle { id, generation: before.next_generation() },
            )
        }
    }

    /// What `found(id, desc)` does, taking `before` to `after`.
    pub open spec fn found_post(before: &Self, after: &Self, id: PeerId, desc: ProfileDescriptor) -> bool {
        &&& after.wf()
        &&& after.descriptors() == before.descriptors().insert(id.0, desc)
        &&& after.template() == before.template()
        &&& after.negotiation() == before.negotiation()
        &&& after.next_generation() == before.next_generation()
        &&& after.listeners() == before.listeners()
        &&& after.entries().dom() == before.entries().dom()
        &&& after.entries().remove(id.0) == before.entries().remove(id.0)
        &&& before.entries().contains_key(id.0) ==> {
            let old_entry = before.entries()[id.0];
            let new_entry = after.entries()[id.0];
            &&& new_entry.generation == old_entry.generation
            &&& new_entry.negotiation == old_entry.negotiation
            &&& new_entry.peer.descriptor_view() == Some(desc)
            &&& new_entry.peer.same_but_descriptor(old_entry.peer)
        }
        &&& after.stays_detached(before)
    }

    /// What `transport_closed(h)` does, taking `before` to `after`.
    pub open spec fn closed_post(before: &Self, after: &Self, h: PeerHandle) -> bool {
        &&& after.wf()
        &&& after.settings_kept(before)
        &&& after.next_generation() == before.next_generation()
        &&& after.listeners() == before.listeners()
        &&& after.entries().dom() == before.entries().dom()
        &&& after.entries().remove(h.id.0) == before.entries().remove(h.id.0)
        &&& !before.resolves(h) ==> after.entries() == before.entries()
        &&& before.resolves(h) ==> {
            let old_entry = before.entries()[h.id.0];
            let new_entry = after.entries()[h.id.0];
            &&& new_entry.generation == old_entry.generation
            &&& new_entry.negotiation == old_entry.negotiation
            &&& new_entry.peer.is_closed_view()
            &&& new_entry.peer.id_view() == old_entry.peer.id_view()
            &&& new_entry.peer.streams_view() == old_entry.peer.streams_view()
            &&& new_entry.peer.descriptor_view() == old_entry.peer.descriptor_view()
            &&& new_entry.peer.channels_view() == old_entry.peer.channels_view()
            &&& new_entry.peer.started_view() == old_entry.peer.started_view()
        }
        &&& after.stays_detached(before)
    }

    /// What `detach(h)` does, taking `before` to `after` and returning `r`.
    pub open spec fn detach_post(before: &Self, after: &Self, h: PeerHandle, r: bool) -> bool {
        &&& after.wf()
        &&& r == before.resolves(h)
        &&& after.settings_kept(before)
        &&& after.next_generation() == before.next_generation()
        &&& after.listeners() == before.listeners()
        &&& r ==> after.entries() == before.entries().remove(h.id.0)
        &&& !r ==> after.entries() == before.entries()
        &&& !after.resolves(h)
        &&& after.stays_detached(before)
    }

    /// A registry with no peers, using `streams` as the endpoint template and
    /// `codec_negotiation` as the negotiation policy.
    pub fn new(streams: Streams, codec_negotiation: CodecNegotiation) -> (r: Self)
        requires
            streams.wf(),
        ensures
            r.wf(),
            r.entries() == Map::<u64, PeerEntry>::empty(),
            r.descriptors() == Map::<u64, ProfileDescriptor>::empty(),
            r.template() == streams@,
            r.negotiation() == codec_negotiation,
            r.next_generation() == 0,
            r.listeners() == Seq::<ListenerView>::empty(),
    {
        ConnectedPeers {
            connected: HashMap::new(),
            descriptors: HashMap::new(),
            streams,
            codec_negotiation,
            next_generation: 0,
            connected_peer_senders: Vec::new(),
        }
    }

    /// A handle to the live entry for `id`, if there is one.
    pub fn get_weak(&self, id: &PeerId) -> (r: Option<PeerHandle>)
        ensures
            match r {
                Some(h) => h.id == *id && self.resolves(h),
                None => !self.entries().contains_key(id.0),
            },
    {
        match self.connected.get(&id.0) {
            Some(entry) => Some(PeerHandle { id: *id, generation: entry.generation }),
            None => None,
        }
    }

    /// The session that `h` refers to, while `h` resolves.
    pub fn upgrade(&self, h: &PeerHandle) -> (r: Option<&Peer>)
        ensures
            match r {
                Some(p) => self.resolves(*h) && *p == self.entries()[h.id.0].peer,
                None => !self.resolves(*h),
            },
    {
        match self.connected.get(&h.id.0) {
            Some(entry) => {
                if entry.generation == h.generation {
                    Some(&entry.peer)
                } else {
                    None
                }
            },
            None => None,
        }
    }

    /// The live session for `id`, if there is one.
    pub fn get(&self, id: &PeerId) -> (r: Option<&Peer>)
        ensures
            match r {
                Some(p) => self.entries().contains_key(id.0) && *p == self.entries()[id.0].peer,
                None => !self.entries().contains_key(id.0),
            },
    {
        match self.connected.get(&id.0) {
            Some(entry) => Some(&entry.peer),
            None => None,
        }
    }

    pub fn is_connected(&self, id: &PeerId) -> (r: bool)
        ensures
            r == self.entries().contains_key(id.0),
    {
        self.connected.contains_key(&id.0)
    }

    /// Whether every generation has been handed out, so that no new entry can be made.
    pub fn generations_exhausted(&self) -> (r: bool)
        ensures
            r == (self.next_generation() == u64::MAX),
    {
        self.next_generation == u64::MAX
    }

    /// Whether the entry that `h` refers to still has its negotiation to run.
    pub fn pending_start(&self, h: &PeerHandle) -> (r: bool)
        ensures
            r == (self.resolves(*h) && self.entries()[h.id.0].negotiation is Some),
    {
        match self.connected.get(&h.id.0) {
            Some(entry) => entry.generation == h.generation && entry.negotiation.is_some(),
            None => false,
        }
    }

    /// Records the descriptor learned for `id`, and applies it to the live session for `id` if
    /// there is one.
    pub fn found(&mut self, id: PeerId, desc: ProfileDescriptor)
        requires
            old(self).wf(),
        ensures
            Self::found_post(&*old(self), &*final(self), id, desc),
    {
        self.descriptors.insert(id.0, desc);
        match self.connected.remove(&id.0) {
            Some(mut entry) => {
                entry.peer.set_descriptor(desc);
                self.connected.insert(id.0, entry);
                assert(self.connected@.dom() =~= old(self).connected@.dom());
                assert(self.connected@.remove(id.0) =~= old(self).connected@.remove(id.0));
            },
            None => {
                assert(self.connected@ =~= old(self).connected@);
            },
        }
    }

    /// Sets the direction that negotiations started from now on present as.
    pub fn set_preferred_direction(&mut self, direction: EndpointType)
        ensures
            final(self).negotiation().direction_view() == direction,
            final(self).negotiation().preferences_view() == old(
                self,
            ).negotiation().preferences_view(),
            final(self).wf() == old(self).wf(),
            final(self).entries() == old(self).entries(),
            final(self).descriptors() == old(self).descriptors(),
            final(self).template() == old(self).template(),
            final(self).next_generation() == old(self).next_generation(),
            final(self).listeners() == old(self).listeners(),
    {
        self.codec_negotiation.set_direction(direction);
    }

    pub fn preferred_direction(&self) -> (r: EndpointType)
        ensures
            r == self.negotiation().direction_view(),
    {
        self.codec_negotiation.direction()
    }

    /// Accepts `channel`, connected to the peer `id`; `initiator` says whether this side
    /// initiated the connection. A live entry for `id` takes the channel into its session,
    /// and its handle is returned. Otherwise a new entry is made, with a fresh copy of the
    /// endpoint template and the descriptor learned for `id`; when `initiator` holds, it keeps
    /// a copy of the current negotiation policy to run. The new entry's handle goes to every
    /// listener, and is returned.
    pub fn connected(&mut self, id: PeerId, channel: Channel, initiator: bool) -> (r: Result<
        PeerHandle,
        ConnectError,
    >)
        requires
            old(self).wf(),
            old(self).next_generation() < u64::MAX,
        ensures
            Self::connect_post(&*old(self), &*final(self), id, channel, initiator, r),
            !old(self).entries().contains_key(id.0) ==> r is Ok && final(self).resolves(r->Ok_0)
                && !final(self).entries()[id.0].peer.is_closed_view(),
    {
        let key = id.0;
        match self.connected.get(&key) {
            Some(entry) => {
                if entry.peer.is_closed() {
                    return Err(ConnectError::ChannelAttach(PeerError::Disconnected));
                }
            },
            None => {},
        }
        match self.connected.remove(&key) {
            Some(mut entry) => {
                let attached = entry.peer.receive_channel(channel);
                let generation = entry.generation;
                self.connected.insert(key, entry);
                assert(self.connected@.remove(key) =~= old(self).connected@.remove(key));
                match attached {
                    Ok(()) => {
                        let handle = PeerHandle { id, generation };
                        self.notify_connected(handle);
                        assert(fanned_out(old(self).listeners(), self.listeners(), handle));
                        Ok(handle)
                    },
                    Err(e) => Err(ConnectError::ChannelAttach(e)),
                }
            },
            None => {
                let generation = self.next_generation;
                let mut peer = Peer::create(id, channel, self.streams.as_new());
                match self.descriptors.get(&key) {
                    Some(desc) => peer.set_descriptor(*desc),
                    None => {},
                }
                let negotiation = if initiator {
                    Some(self.codec_negotiation.snapshot())
                } else {
                    None
                };
                self.connected.insert(key, PeerEntry { generation, peer, negotiation });
                self.next_generation = generation + 1;
                assert(self.connected@.remove(key) =~= old(self).connected@.remove(key));
                let handle = PeerHandle { id, generation };
                self.notify_connected(handle);
                assert(fanned_out(old(self).listeners(), self.listeners(), handle));
                Ok(handle)
            },
        }
    }

    /// Offers `handle` once to every listener, in order; a listener that does not take it is
    /// dropped, and the others keep their order. Returns whether each listener took it.
    fn notify_connected(&mut self, handle: PeerHandle) -> (accepted: Ghost<Seq<bool>>)
        ensures
            final(self).connected@ == old(self).connected@,
            final(self).descriptors@ == old(self).descriptors@,
            final(self).streams == old(self).streams,
            final(self).codec_negotiation == old(self).codec_negotiation,
            final(self).next_generation == old(self).next_generation,
            accepted@.len() == old(self).listeners().len(),
            final(self).listeners() == kept_after(old(self).listeners(), accepted@, handle),
    {
        let ghost before = self.listeners();
        let mut rest: Vec<Listener> = Vec::new();
        std::mem::swap(&mut rest, &mut self.connected_peer_senders);
        let mut kept: Vec<Listener> = Vec::new();
        let ghost mut outcomes: Seq<bool> = Seq::empty();
        assert(views(rest@) =~= before.skip(0));
        assert(before.take(0) =~= Seq::<ListenerView>::empty());
        while rest.len() > 0
            invariant
                self.connected@ == old(self).connected@,
                self.descriptors@ == old(self).descriptors@,
                self.streams == old(self).streams,
                self.codec_negotiation == old(self).codec_negotiation,
                self.next_generation == old(self).next_generation,
                before == old(self).listeners(),
                outcomes.len() + rest@.len() == before.len(),
                views(rest@) == before.skip(outcomes.len() as int),
                views(kept@) == kept_after(before.take(outcomes.len() as int), outcomes, handle),
            decreases rest@.len(),
        {
            let ghost k = outcomes.len() as int;
            let ghost rest_before = rest@;
            let mut listener = rest.remove(0);
            assert(listener@ == before[k]) by {
                assert(views(rest_before)[0] == before.skip(k)[0]);
            }
            let took_it = try_send_handle(&mut listener, handle);
            proof {
                let next = outcomes.push(took_it);
                lemma_kept_after_outcomes(before.take(k), outcomes, next, handle);
                assert(before.take(k + 1).take(k) =~= before.take(k));
                assert(before.take(k + 1)[k] == before[k]);
                outcomes = next;
                assert(views(rest@) =~= before.skip(k + 1)) by {
                    assert(views(rest_before).drop_first() =~= views(rest@));
                }
            }
            if took_it {
                kept.push(listener);
                assert(views(kept@) =~= kept_after(before.take(k + 1), outcomes, handle));
            }
        }
        assert(before.take(before.len() as int) =~= before);
        self.connected_peer_senders = kept;
        Ghost(outcomes)
    }

    /// A new listener: it is offered the handle of every peer connected from now on, and the
    /// returned stream receives from its channel. The listeners already there are left as they
    /// are.
    pub fn connected_stream(&mut self) -> (r: PeerConnections)
        ensures
            final(self).listeners() == old(self).listeners().push(
                ListenerView {
                    channel: r.channel(),
                    offered: Seq::empty(),
                    taken: Seq::empty(),
                },
            ),
            final(self).wf() == old(self).wf(),
            final(self).entries() == old(self).entries(),
            final(self).settings_kept(&*old(self)),
            final(self).next_generation() == old(self).next_generation(),
    {
        let ghost m: usize = usize::MAX;
        assert(m >= 4usize ==> 0usize < m >> 2usize) by (bit_vector);
        let (listener, stream) = open_listener(LISTENER_BUFFER);
        self.connected_peer_senders.push(listener);
        assert(views(self.connected_peer_senders@) =~= views(old(self).connected_peer_senders@).push(
            listener@,
        ));
        stream
    }

    /// Notes that the transport of the session that `h` refers to has closed. The entry stays
    /// until it is detached.
    pub fn transport_closed(&mut self, h: &PeerHandle)
        requires
            old(self).wf(),
        ensures
            Self::closed_post(&*old(self), &*final(self), *h),
    {
        let key = h.id.0;
        match self.connected.get(&key) {
            Some(entry) => {
                if entry.generation != h.generation {
                    return;
                }
            },
            None => {
                return;
            },
        }
        match self.connected.remove(&key) {
            Some(mut entry) => {
                entry.peer.close();
                self.connected.insert(key, entry);
                assert(self.connected@.dom() =~= old(self).connected@.dom());
                assert(self.connected@.remove(key) =~= old(self).connected@.remove(key));
            },
            None => {},
        }
    }

    /// Removes the entry that `h` refers to, if it is still the live one for its peer; an entry
    /// that has since been replaced by a reconnection is left alone. Returns whether an entry was
    /// removed.
    pub fn detach(&mut self, h: &PeerHandle) -> (r: bool)
        requires
            old(self).wf(),
        ensures
            Self::detach_post(&*old(self), &*final(self), *h, r),
    {
        let key = h.id.0;
        match self.connected.get(&key) {
            Some(entry) => {
                if entry.generation != h.generation {
                    return false;
                }
            },
            None => {
                return false;
            },
        }
        let _ = self.connected.remove(&key);
        true
    }

    /// Takes the outcome of an exchange of the negotiation of the entry that `h` refers to that
    /// runs outside the registry (discovering the remote endpoints, starting the stream with the
    /// remote device). A failure gives up on the session: the entry is detached, if it is still
    /// the live one for its peer. Returns whether an entry was detached.
    pub fn negotiation_ended(&mut self, h: &PeerHandle, succeeded: bool) -> (r: bool)
        requires
            old(self).wf(),
        ensures
            succeeded ==> !r && *final(self) == *old(self),
            !succeeded ==> Self::detach_post(&*old(self), &*final(self), *h, r),
    {
        if succeeded {
            false
        } else {
            self.detach(h)
        }
    }

    /// Runs the negotiation of the entry that `h` refers to, now that the remote endpoints are
    /// known: selects a pairing with the entry's copy of the negotiation policy and starts the
    /// stream on the session. On success the negotiation is spent. When no pairing exists or
    /// the session cannot start the stream, the entry is detached.
    pub fn start_streaming(
        &mut self,
        h: &PeerHandle,
        remotes: &Vec<RemoteStreamEndpoint>,
    ) -> (r: Result<StartedStream, StartError>)
        requires
            old(self).wf(),
        ensures
            final(self).wf(),
            final(self).settings_kept(&*old(self)),
            final(self).next_generation() == old(self).next_generation(),
            final(self).listeners() == old(self).listeners(),
            final(self).stays_detached(&*old(self)),
            final(self).entries().remove(h.id.0) == old(self).entries().remove(h.id.0),
            !old(self).resolves(*h) ==> r == Err::<StartedStream, StartError>(
                StartError::Disconnected,
            ) && final(self).entries() == old(self).entries(),
            old(self).resolves(*h) ==> {
                let before = old(self).entries()[h.id.0];
                match before.negotiation {
                    None => {
                        &&& r == Err::<StartedStream, StartError>(StartError::NotPending)
                        &&& final(self).entries() == old(self).entries()
                    },
                    Some(n) => match selection(n.preferences_view(), n.direction_view(), remotes@) {
                        None => {
                            &&& r == Err::<StartedStream, StartError>(
                                StartError::NoCompatibleStream,
                            )
                            &&& !final(self).entries().contains_key(h.id.0)
                        },
                        Some(pair) => {
                            let streams = before.peer.streams_view();
                            match first_available(streams, pair.0, n.direction_view()) {
                                _ if before.peer.is_closed_view() => {
                                    &&& r == Err::<StartedStream, StartError>(
                                        StartError::Start(PeerError::Disconnected),
                                    )
                                    &&& !final(self).entries().contains_key(h.id.0)
                                },
                                None => {
                                    &&& r == Err::<StartedStream, StartError>(
                                        StartError::Start(PeerError::NoLocalStream),
                                    )
                                    &&& !final(self).entries().contains_key(h.id.0)
                                },
                                Some(i) => {
                                    let s = StartedStream {
                                        local_id: streams[i].id,
                                        remote_id: pair.1,
                                        config: pair.0,
                                    };
                                    let after = final(self).entries()[h.id.0];
                                    &&& r == Ok::<StartedStream, StartError>(s)
                                    &&& final(self).entries().contains_key(h.id.0)
                                    &&& after.generation == before.generation
                                    &&& after.negotiation is None
                                    &&& after.peer.started_view() == Some(s)
                                    &&& after.peer.streams_view() == streams.update(
                                        i,
                                        StreamEndpoint { in_use: true, ..streams[i] },
                                    )
                                    &&& after.peer.id_view() == before.peer.id_view()
                                    &&& after.peer.descriptor_view()
                                        == before.peer.descriptor_view()
                                    &&& after.peer.channels_view() == before.peer.channels_view()
                                    &&& !after.peer.is_closed_view()
                                },
                            }
                        },
                    },
                }
            },
    {
        let key = h.id.0;
        match self.connected.get(&key) {
            Some(entry) => {
                if entry.generation != h.generation {
                    return Err(StartError::Disconnected);
                }
                if entry.negotiation.is_none() {
                    return Err(StartError::NotPending);
                }
            },
            None => {
                return Err(StartError::Disconnected);
            },
        }
        let removed = self.connected.remove(&key);
        assert(self.connected@ == old(self).connected@.remove(key));
        match removed {
            Some(mut entry) => {
                let negotiation = entry.negotiation.take();
                match negotiation {
                    Some(n) => {
                        match n.select(remotes) {
                            None => Err(StartError::NoCompatibleStream),
                            Some((config, remote_id)) => {
                                match entry.peer.stream_start(remote_id, config, n.direction()) {
                                    Err(e) => Err(StartError::Start(e)),
                                    Ok(s) => {
                                        self.connected.insert(key, entry);
                                        assert(self.connected@.remove(key) =~= old(
                                            self,
                                        ).connected@.remove(key));
                                        Ok(s)
                                    },
                                }
                            },
                        }
                    },
                    None => Err(StartError::NotPending),
                }
            },
            None => Err(StartError::Disconnected),
        }
    }
}

/// `v` is a listener of `ls` that took `h`, as it is after taking it.
pub open spec fn taker_of(ls: Seq<ListenerView>, accepted: Seq<bool>, h: PeerHandle, v: ListenerView) -> bool {
    exists|i: int| 0 <= i < ls.len() && accepted[i] && v == #[trigger] took(ls[i], h)
}

/// `v` is one of the listeners `ls` after it took `h`.
pub open spec fn came_from(ls: Seq<ListenerView>, h: PeerHandle, v: ListenerView) -> bool {
    exists|i: int| 0 <= i < ls.len() && v == #[trigger] took(ls[i], h)
}

/// Every listener that stays after a fan-out of `h` is a listener from before that took `h`:
/// `h` is the last handle it took, after the ones it had taken before.
pub proof fn lemma_kept_after_took(ls: Seq<ListenerView>, accepted: Seq<bool>, h: PeerHandle)
    ensures
        forall|j: int|
            0 <= j < kept_after(ls, accepted, h).len() ==> taker_of(
                ls,
                accepted,
                h,
                #[trigger] kept_after(ls, accepted, h)[j],
            ),
    decreases ls.len(),
{
    if ls.len() > 0 {
        let n = ls.len() - 1;
        let prefix = ls.take(n);
        lemma_kept_after_took(prefix, accepted, h);
        let kept = kept_after(ls, accepted, h);
        let kept_prefix = kept_after(prefix, accepted, h);
        assert forall|j: int| 0 <= j < kept.len() implies taker_of(ls, accepted, h, #[trigger] kept[j]) by {
            if j < kept_prefix.len() {
                assert(kept[j] == kept_prefix[j]);
                assert(taker_of(prefix, accepted, h, kept_prefix[j]));
                let i = choose|i: int|
                    0 <= i < prefix.len() && accepted[i] && kept_prefix[j] == #[trigger] took(prefix[i], h);
                assert(prefix[i] == ls[i]);
                assert(kept[j] == took(ls[i], h));
            } else {
                assert(kept[j] == took(ls[n], h));
            }
        }
    }
}

/// A successful connect hands its handle to the listeners: each listener that stays afterwards
/// was a listener before, and took the returned handle as the last of the handles it took. No
/// listener is added. (Which listeners stay is `kept_after` of the outcomes; see
/// `lemma_fan_out_reaches_each_taker`.)
pub proof fn lemma_connect_reaches_listeners(
    s0: ConnectedPeers,
    s1: ConnectedPeers,
    id: PeerId,
    channel: Channel,
    initiator: bool,
    r: Result<PeerHandle, ConnectError>,
)
    requires
        ConnectedPeers::connect_post(&s0, &s1, id, channel, initiator, r),
        r is Ok,
    ensures
        s1.listeners().len() <= s0.listeners().len(),
        forall|j: int|
            0 <= j < s1.listeners().len() ==> came_from(
                s0.listeners(),
                r->Ok_0,
                #[trigger] s1.listeners()[j],
            ),
{
    let h = r->Ok_0;
    assert(fanned_out(s0.listeners(), s1.listeners(), h));
    let accepted = choose|accepted: Seq<bool>|
        accepted.len() == s0.listeners().len() && s1.listeners() == #[trigger] kept_after(
            s0.listeners(),
            accepted,
            h,
        );
    lemma_kept_after_took(s0.listeners(), accepted, h);
    lemma_kept_after_len(s0.listeners(), accepted, h);
    assert forall|j: int| 0 <= j < s1.listeners().len() implies came_from(
        s0.listeners(),
        h,
        #[trigger] s1.listeners()[j],
    ) by {
        assert(taker_of(s0.listeners(), accepted, h, s1.listeners()[j]));
    }
}

/// Two connections under one identifier that had no live entry, one after the other and with
/// any initiator flags, share one entry: both calls succeed and return the same handle, which
/// resolves; the registry gains exactly that one entry, whose session holds both channels.
pub proof fn lemma_connects_share_entry(
    s0: ConnectedPeers,
    s1: ConnectedPeers,
    s2: ConnectedPeers,
    id: PeerId,
    first: Channel,
    second: Channel,
    first_initiator: bool,
    second_initiator: bool,
    r1: Result<PeerHandle, ConnectError>,
    r2: Result<PeerHandle, ConnectError>,
)
    requires
        s0.wf(),
        !s0.entries().contains_key(id.0),
        ConnectedPeers::connect_post(&s0, &s1, id, first, first_initiator, r1),
        ConnectedPeers::connect_post(&s1, &s2, id, second, second_initiator, r2),
    ensures
        r1 is Ok,
        r2 == r1,
        s2.resolves(r1->Ok_0),
        s2.entries().dom() == s0.entries().dom().insert(id.0),
        s2.entries()[id.0].peer.channels_view() == seq![first, second],
{
    assert(s1.entries().dom() =~= s0.entries().dom().insert(id.0)) by {
        assert(s1.entries().remove(id.0).dom() == s0.entries().remove(id.0).dom());
    }
    assert(s2.entries().dom() =~= s1.entries().dom()) by {
        assert(s2.entries().remove(id.0).dom() == s1.entries().remove(id.0).dom());
    }
    assert(seq![first].push(second) =~= seq![first, second]);
}

/// Once the transport of a session has closed and the entry has been detached, its handle no
/// longer resolves, and no later change of the registry makes it resolve again.
pub proof fn lemma_closed_transport_detaches(
    s0: ConnectedPeers,
    s1: ConnectedPeers,
    s2: ConnectedPeers,
    h: PeerHandle,
    removed: bool,
)
    requires
        s0.wf(),
        s0.resolves(h),
        ConnectedPeers::closed_post(&s0, &s1, h),
        ConnectedPeers::detach_post(&s1, &s2, h, removed),
    ensures
        removed,
        !s2.resolves(h),
        !s2.entries().contains_key(h.id.0),
        forall|later: ConnectedPeers| #[trigger] later.stays_detached(&s2) ==> !later.resolves(h),
{
    assert(s2.issued(h)) by {
        assert(s0.entries().contains_key(h.id.0));
    }
}

/// A session whose transport has closed takes no new channel while its entry remains.
pub proof fn lemma_closed_session_rejects_channel(
    s0: ConnectedPeers,
    s1: ConnectedPeers,
    s2: ConnectedPeers,
    h: PeerHandle,
    channel: Channel,
    initiator: bool,
    r: Result<PeerHandle, ConnectError>,
)
    requires
        s0.resolves(h),
        ConnectedPeers::closed_post(&s0, &s1, h),
        ConnectedPeers::connect_post(&s1, &s2, h.id, channel, initiator, r),
    ensures
        r == Err::<PeerHandle, ConnectError>(ConnectError::ChannelAttach(PeerError::Disconnected)),
        s2.entries() == s1.entries(),
{
}

/// `stays_detached` composes: a handle that stopped resolving stays so over any run of changes.
pub proof fn lemma_stays_detached_chain(s0: ConnectedPeers, s1: ConnectedPeers, s2: ConnectedPeers)
    requires
        s1.stays_detached(&s0),
        s2.stays_detached(&s1),
    ensures
        s2.stays_detached(&s0),
{
    assert forall|h: PeerHandle| s0.issued(h) && !s0.resolves(h) implies !#[trigger] s2.resolves(
        h,
    ) by {
        assert(s1.issued(h));
        assert(!s1.resolves(h));
    }
}

/// Connecting under the identifier of an entry that has been detached makes a new entry: the
/// new handle resolves, differs from every handle issued before, and the old handle stays dead.
pub proof fn lemma_reconnect_is_fresh(
    s0: ConnectedPeers,
    s1: ConnectedPeers,
    old_handle: PeerHandle,
    channel: Channel,
    initiator: bool,
    r: Result<PeerHandle, ConnectError>,
)
    requires
        s0.wf(),
        s0.issued(old_handle),
        !s0.entries().contains_key(old_handle.id.0),
        ConnectedPeers::connect_post(&s0, &s1, old_handle.id, channel, initiator, r),
    ensures
        r is Ok,
        r->Ok_0.id == old_handle.id,
        s1.resolves(r->Ok_0),
        !s1.resolves(old_handle),
        forall|h: PeerHandle| s0.issued(h) ==> h != r->Ok_0,
{
}

/// A descriptor found for a peer before it connects is on the session that connecting creates.
pub proof fn lemma_found_before_connect(
    s0: ConnectedPeers,
    s1: ConnectedPeers,
    s2: ConnectedPeers,
    id: PeerId,
    desc: ProfileDescriptor,
    channel: Channel,
    initiator: bool,
    r: Result<PeerHandle, ConnectError>,
)
    requires
        !s0.entries().contains_key(id.0),
        ConnectedPeers::found_post(&s0, &s1, id, desc),
        ConnectedPeers::connect_post(&s1, &s2, id, channel, initiator, r),
    ensures
        r is Ok,
        s2.resolves(r->Ok_0),
        s2.entries()[id.0].peer.descriptor_view() == Some(desc),
{
    assert(s1.descriptors().contains_key(id.0));
}

} // verus!
