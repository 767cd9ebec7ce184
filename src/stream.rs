use vstd::prelude::*;

use crate::codec::{CodecCapability, EndpointType};

verus! {

/// A local audio endpoint: its identifier, its direction, the codec it supports and whether a
/// stream has been started on it.
#[derive(Clone, Copy, Debug, PartialEq, Eq, Structural)]
pub struct StreamEndpoint {
    pub id: u8,
    pub direction: EndpointType,
    pub codec: CodecCapability,
    pub in_use: bool,
}

impl StreamEndpoint {
    /// The same endpoint in its initial state, with no stream started on it.
    pub open spec fn fresh(self) -> StreamEndpoint {
        StreamEndpoint { in_use: false, ..self }
    }
}

/// The endpoints of `s` in their initial state, in the same order.
pub open spec fn fresh_all(s: Seq<StreamEndpoint>) -> Seq<StreamEndpoint> {
    s.map_values(|e: StreamEndpoint| e.fresh())
}

/// No two endpoints share an identifier.
pub open spec fn unique_ids(s: Seq<StreamEndpoint>) -> bool {
    forall|i: int, j: int| 0 <= i < j < s.len() ==> #[trigger] s[i].id != #[trigger] s[j].id
}

/// The set of local stream endpoints. The registry keeps one as a template and hands each newly
/// connected peer a fresh copy of it.
#[derive(Debug)]
pub struct Streams {
    streams: Vec<StreamEndpoint>,
}

impl View for Streams {
    type V = Seq<StreamEndpoint>;

    closed spec fn view(&self) -> Seq<StreamEndpoint> {
        self.streams@
    }
}

impl Streams {
    pub open spec fn wf(&self) -> bool {
        unique_ids(self@)
    }

    /// An empty set of endpoints.
    pub fn new() -> (r: Self)
        ensures
            r@ == Seq::<StreamEndpoint>::empty(),
            r.wf(),
    {
        Streams { streams: Vec::new() }
    }

    pub fn len(&self) -> (r: usize)
        ensures
            r == self@.len(),
    {
        self.streams.len()
    }

    pub fn get(&self, index: usize) -> (r: StreamEndpoint)
        requires
            index < self@.len(),
        ensures
            r == self@[index as int],
    {
        self.streams[index]
    }

    /// The position of the endpoint with identifier `id`, if there is one.
    pub fn position(&self, id: u8) -> (r: Option<usize>)
        requires
            self.wf(),
        ensures
            match r {
                Some(i) => i < self@.len() && self@[i as int].id == id,
                None => forall|i: int| 0 <= i < self@.len() ==> #[trigger] self@[i].id != id,
            },
    {
        let mut i: usize = 0;
        while i < self.streams.len()
            invariant
                i <= self@.len(),
                forall|k: int| 0 <= k < i ==> #[trigger] self@[k].id != id,
            decreases self@.len() - i,
        {
            if self.streams[i].id == id {
                return Some(i);
            }
            i = i + 1;
        }
        None
    }

    /// Adds `stream`, replacing the endpoint that has the same identifier if there is one.
    pub fn insert(&mut self, stream: StreamEndpoint)
        requires
            old(self).wf(),
        ensures
            final(self).wf(),
            match old(self).position_spec(stream.id) {
                Some(i) => final(self)@ == old(self)@.update(i, stream),
                None => final(self)@ == old(self)@.push(stream),
            },
    {
        match self.position(stream.id) {
            Some(i) => {
                self.streams.set(i, stream);
                proof {
                    let s = self@;
                    assert forall|a: int, b: int| 0 <= a < b < s.len() implies #[trigger] s[a].id
                        != #[trigger] s[b].id by {
                        if a != i && b != i {
                            assert(s[a] == old(self)@[a] && s[b] == old(self)@[b]);
                        } else {
                            assert(old(self)@[a].id != old(self)@[b].id);
                        }
                    }
                    assert(old(self).position_spec(stream.id) == Some(i as int)) by {
                        lemma_position_unique(*old(self), stream.id, i as int);
                    }
                }
            },
            None => {
                self.streams.push(stream);
                proof {
                    let s = self@;
                    assert forall|a: int, b: int| 0 <= a < b < s.len() implies #[trigger] s[a].id
                        != #[trigger] s[b].id by {
                        if b == s.len() - 1 {
                            assert(old(self)@[a].id != stream.id);
                        } else {
                            assert(s[a] == old(self)@[a] && s[b] == old(self)@[b]);
                        }
                    }
                    assert(old(self).position_spec(stream.id) is None);
                }
            },
        }
    }

    /// The position of the endpoint with identifier `id`.
    pub open spec fn position_spec(&self, id: u8) -> Option<int> {
        if exists|i: int| 0 <= i < self@.len() && #[trigger] self@[i].id == id {
            Some(choose|i: int| 0 <= i < self@.len() && #[trigger] self@[i].id == id)
        } else {
            None
        }
    }

    /// A working copy for a newly connected peer: the same endpoints, each in its initial state.
    /// It is a value of its own, so what one peer does to its copy changes neither the template
    /// nor any other peer's copy.
    pub fn as_new(&self) -> (r: Self)
        requires
            self.wf(),
        ensures
            r@ == fresh_all(self@),
            r.wf(),
    {
        let mut streams: Vec<StreamEndpoint> = Vec::new();
        let mut i: usize = 0;
        while i < self.streams.len()
            invariant
                i <= self@.len(),
                streams@ == fresh_all(self@.subrange(0, i as int)),
            decreases self@.len() - i,
        {
            let e = self.streams[i];
            streams.push(StreamEndpoint { in_use: false, ..e });
            i = i + 1;
            assert(streams@ =~= fresh_all(self@.subrange(0, i as int)));
        }
        assert(self@.subrange(0, i as int) =~= self@);
        let r = Streams { streams };
        assert forall|a: int, b: int| 0 <= a < b < r@.len() implies #[trigger] r@[a].id
            != #[trigger] r@[b].id by {
            assert(self@[a].id != self@[b].id);
        }
        r
    }

    /// The position of the first endpoint of direction `direction` that supports the codec of
    /// `config` and has no stream started on it.
    pub fn find_available(&self, config: CodecCapability, direction: EndpointType) -> (r: Option<
        usize,
    >)
        ensures
            match r {
                Some(i) => i < self@.len() && available(self@[i as int], config, direction) && (
                forall|k: int| 0 <= k < i ==> !available(#[trigger] self@[k], config, direction)),
                None => forall|k: int|
                    0 <= k < self@.len() ==> !available(#[trigger] self@[k], config, direction),
            },
    {
        let mut i: usize = 0;
        while i < self.streams.len()
            invariant
                i <= self@.len(),
                forall|k: int| 0 <= k < i ==> !available(#[trigger] self@[k], config, direction),
            decreases self@.len() - i,
        {
            let e = self.streams[i];
            if e.direction == direction && e.codec.codec_type == config.codec_type && !e.in_use {
                return Some(i);
            }
            i = i + 1;
        }
        None
    }

    /// Marks the endpoint at `index` as carrying a stream.
    pub fn mark_in_use(&mut self, index: usize)
        requires
            old(self).wf(),
            index < old(self)@.len(),
        ensures
            final(self).wf(),
            final(self)@ == old(self)@.update(index as int, StreamEndpoint { in_use: true, ..old(self)@[index as int] }),
    {
        let e = self.streams[index];
        self.streams.set(index, StreamEndpoint { in_use: true, ..e });
        proof {
            let s = self@;
            assert forall|a: int, b: int| 0 <= a < b < s.len() implies #[trigger] s[a].id
                != #[trigger] s[b].id by {
                assert(old(self)@[a].id != old(self)@[b].id);
            }
        }
    }
}

/// An identifier that occurs at `i` of a well-formed set occurs nowhere else.
proof fn lemma_position_unique(s: Streams, id: u8, i: int)
    requires
        s.wf(),
        0 <= i < s@.len(),
        s@[i].id == id,
    ensures
        s.position_spec(id) == Some(i),
{
    let k = choose|k: int| 0 <= k < s@.len() && #[trigger] s@[k].id == id;
    if k != i {
        if k < i {
            assert(s@[k].id != s@[i].id);
        } else {
            assert(s@[i].id != s@[k].id);
        }
    }
}

/// The position of the first endpoint of `s` that can take a stream of configuration `config`
/// facing `direction`.
pub open spec fn first_available(
    s: Seq<StreamEndpoint>,
    config: CodecCapability,
    direction: EndpointType,
) -> Option<int> {
    if exists|i: int| 0 <= i < s.len() && available(#[trigger] s[i], config, direction) {
        Some(
            choose|i: int|
                0 <= i < s.len() && available(#[trigger] s[i], config, direction) && forall|k: int|
                    0 <= k < i ==> !available(#[trigger] s[k], config, direction),
        )
    } else {
        None
    }
}

/// `first_available` picks the lowest position that can take the stream.
pub proof fn lemma_first_available(
    s: Seq<StreamEndpoint>,
    config: CodecCapability,
    direction: EndpointType,
    i: int,
)
    requires
        0 <= i < s.len(),
        available(s[i], config, direction),
        forall|k: int| 0 <= k < i ==> !available(#[trigger] s[k], config, direction),
    ensures
        first_available(s, config, direction) == Some(i),
{
    let j = choose|j: int|
        0 <= j < s.len() && available(#[trigger] s[j], config, direction) && forall|k: int|
            0 <= k < j ==> !available(#[trigger] s[k], config, direction);
    if j < i {
        assert(!available(s[j], config, direction));
    }
    if i < j {
        assert(!available(s[i], config, direction));
    }
}

/// An endpoint can take a stream of configuration `config` when it faces `direction`, supports
/// the same codec and carries no stream yet.
pub open spec fn available(e: StreamEndpoint, config: CodecCapability, direction: EndpointType) -> bool {
    e.direction == direction && e.codec.codec_type == config.codec_type && !e.in_use
}

} // verus!
