use vstd::prelude::*;

verus! {

/// The direction of a stream endpoint: whether it produces or consumes audio.
#[derive(Clone, Copy, Debug, PartialEq, Eq, Structural)]
pub enum EndpointType {
    Source,
    Sink,
}

impl EndpointType {
    /// The direction that a peer's endpoint must have to pair with an endpoint of this one.
    pub open spec fn complement(self) -> EndpointType {
        match self {
            EndpointType::Source => EndpointType::Sink,
            EndpointType::Sink => EndpointType::Source,
        }
    }
}

/// A codec together with the parameter options that an endpoint supports for it: one bit of
/// `parameters` for each option (a sampling frequency, a channel mode, a block length, ...).
#[derive(Clone, Copy, Debug, PartialEq, Eq, Structural)]
pub struct CodecCapability {
    pub codec_type: u8,
    pub parameters: u32,
}

/// Two capabilities are compatible when they name the same codec and share a parameter option.
pub open spec fn compatible(local: CodecCapability, remote: CodecCapability) -> bool {
    local.codec_type == remote.codec_type && (local.parameters & remote.parameters) != 0
}

/// An endpoint that a remote peer advertised during capability discovery.
#[derive(Clone, Copy, Debug, PartialEq, Eq, Structural)]
pub struct RemoteStreamEndpoint {
    pub id: u8,
    pub direction: EndpointType,
    pub codec: CodecCapability,
}

/// A remote endpoint can carry the local configuration `config` presented in `direction` when it
/// faces the other way and its codec is compatible.
pub open spec fn endpoint_matches(
    config: CodecCapability,
    direction: EndpointType,
    remote: RemoteStreamEndpoint,
) -> bool {
    remote.direction == direction.complement() && compatible(config, remote.codec)
}

/// The first remote endpoint, in the order given, that matches `config`.
pub open spec fn first_match(
    config: CodecCapability,
    direction: EndpointType,
    remotes: Seq<RemoteStreamEndpoint>,
) -> Option<RemoteStreamEndpoint>
    decreases remotes.len(),
{
    if remotes.len() == 0 {
        None
    } else if endpoint_matches(config, direction, remotes[0]) {
        Some(remotes[0])
    } else {
        first_match(config, direction, remotes.drop_first())
    }
}

/// The pairing that negotiation selects: the most preferred local configuration that some remote
/// endpoint matches, with the first such remote endpoint's identifier.
pub open spec fn selection(
    preferences: Seq<CodecCapability>,
    direction: EndpointType,
    remotes: Seq<RemoteStreamEndpoint>,
) -> Option<(CodecCapability, u8)>
    decreases preferences.len(),
{
    if preferences.len() == 0 {
        None
    } else {
        match first_match(preferences[0], direction, remotes) {
            Some(r) => Some((preferences[0], r.id)),
            None => selection(preferences.drop_first(), direction, remotes),
        }
    }
}

/// `first_match` finds a matching endpoint exactly when one exists, and what it finds matches.
pub proof fn lemma_first_match(
    config: CodecCapability,
    direction: EndpointType,
    remotes: Seq<RemoteStreamEndpoint>,
)
    ensures
        (first_match(config, direction, remotes) is Some) <==> (exists|j: int|
            0 <= j < remotes.len() && endpoint_matches(config, direction, #[trigger] remotes[j])),
        first_match(config, direction, remotes) is Some ==> {
            let r = first_match(config, direction, remotes)->Some_0;
            endpoint_matches(config, direction, r) && remotes.contains(r)
        },
    decreases remotes.len(),
{
    if remotes.len() > 0 {
        let rest = remotes.drop_first();
        lemma_first_match(config, direction, rest);
        if exists|j: int| 0 <= j < rest.len() && endpoint_matches(config, direction, #[trigger] rest[j]) {
            let j = choose|j: int| 0 <= j < rest.len() && endpoint_matches(config, direction, #[trigger] rest[j]);
            assert(remotes[j + 1] == rest[j]);
        }
        if exists|j: int| 0 <= j < remotes.len() && endpoint_matches(config, direction, #[trigger] remotes[j]) {
            let j = choose|j: int| 0 <= j < remotes.len() && endpoint_matches(config, direction, #[trigger] remotes[j]);
            if j > 0 {
                assert(rest[j - 1] == remotes[j]);
            }
        }
        if first_match(config, direction, remotes) is Some && !endpoint_matches(config, direction, remotes[0]) {
            let r = first_match(config, direction, rest)->Some_0;
            let k = choose|k: int| 0 <= k < rest.len() && rest[k] == r;
            assert(remotes[k + 1] == r);
        }
        if endpoint_matches(config, direction, remotes[0]) {
            assert(remotes.contains(remotes[0]));
        }
    }
}

/// Negotiation prefers earlier configurations. With preferences `[a, b]`: whenever some remote
/// endpoint matches `a`, `a` is chosen, whatever the order of the remote endpoints; when none
/// matches `a` but one matches `b`, `b` is chosen; when none matches either, nothing is chosen.
/// The chosen identifier always names a remote endpoint that matches the chosen configuration.
pub proof fn lemma_preference_order(
    a: CodecCapability,
    b: CodecCapability,
    direction: EndpointType,
    remotes: Seq<RemoteStreamEndpoint>,
)
    ensures
        ({
            let s = selection(seq![a, b], direction, remotes);
            &&& (exists|j: int| 0 <= j < remotes.len() && endpoint_matches(a, direction, #[trigger] remotes[j]))
                ==> s is Some && s->Some_0.0 == a
            &&& (!exists|j: int| 0 <= j < remotes.len() && endpoint_matches(a, direction, #[trigger] remotes[j]))
                && (exists|j: int| 0 <= j < remotes.len() && endpoint_matches(b, direction, #[trigger] remotes[j]))
                ==> s is Some && s->Some_0.0 == b
            &&& (!exists|j: int| 0 <= j < remotes.len() && endpoint_matches(a, direction, #[trigger] remotes[j]))
                && (!exists|j: int| 0 <= j < remotes.len() && endpoint_matches(b, direction, #[trigger] remotes[j]))
                ==> s is None
            &&& s is Some ==> exists|j: int| 0 <= j < remotes.len() && remotes[j].id == s->Some_0.1
                && endpoint_matches(s->Some_0.0, direction, #[trigger] remotes[j])
        }),
{
    let prefs = seq![a, b];
    lemma_first_match(a, direction, remotes);
    lemma_first_match(b, direction, remotes);
    assert(prefs.drop_first() =~= seq![b]);
    assert(seq![b].drop_first() =~= Seq::<CodecCapability>::empty());
    let s = selection(prefs, direction, remotes);
    assert(selection(Seq::<CodecCapability>::empty(), direction, remotes) is None);
    assert(selection(seq![b], direction, remotes) == match first_match(b, direction, remotes) {
        Some(r) => Some((b, r.id)),
        None => None,
    });
    if first_match(a, direction, remotes) is Some {
        let r = first_match(a, direction, remotes)->Some_0;
        assert(s == Some((a, r.id)));
        let k = choose|k: int| 0 <= k < remotes.len() && remotes[k] == r;
        assert(remotes[k].id == s->Some_0.1 && endpoint_matches(a, direction, remotes[k]));
    } else if first_match(b, direction, remotes) is Some {
        let r = first_match(b, direction, remotes)->Some_0;
        assert(s == Some((b, r.id)));
        let k = choose|k: int| 0 <= k < remotes.len() && remotes[k] == r;
        assert(remotes[k].id == s->Some_0.1 && endpoint_matches(b, direction, remotes[k]));
    } else {
        assert(s is None);
    }
}

/// The local codec configurations in order of preference, and the direction that the local side
/// presents to a peer.
#[derive(Clone, Debug)]
pub struct CodecNegotiation {
    preferences: Vec<CodecCapability>,
    direction: EndpointType,
}

impl CodecNegotiation {
    pub closed spec fn preferences_view(&self) -> Seq<CodecCapability> {
        self.preferences@
    }

    pub closed spec fn direction_view(&self) -> EndpointType {
        self.direction
    }

    /// A negotiation over `preferences`, most preferred first, presenting as `direction`.
    pub fn build(preferences: Vec<CodecCapability>, direction: EndpointType) -> (r: Self)
        ensures
            r.preferences_view() == preferences@,
            r.direction_view() == direction,
    {
        CodecNegotiation { preferences, direction }
    }

    /// Changes the direction used by negotiations that start from now on.
    pub fn set_direction(&mut self, direction: EndpointType)
        ensures
            final(self).direction_view() == direction,
            final(self).preferences_view() == old(self).preferences_view(),
    {
        self.direction = direction;
    }

    pub fn direction(&self) -> (r: EndpointType)
        ensures
            r == self.direction_view(),
    {
        self.direction
    }

    /// A copy that later changes to `self` leave alone.
    pub fn snapshot(&self) -> (r: Self)
        ensures
            r.preferences_view() == self.preferences_view(),
            r.direction_view() == self.direction_view(),
    {
        let mut preferences: Vec<CodecCapability> = Vec::new();
        let mut i: usize = 0;
        while i < self.preferences.len()
            invariant
                i <= self.preferences@.len(),
                preferences@ == self.preferences@.subrange(0, i as int),
            decreases self.preferences@.len() - i,
        {
            preferences.push(self.preferences[i]);
            i = i + 1;
            assert(preferences@ =~= self.preferences@.subrange(0, i as int));
        }
        assert(preferences@ =~= self.preferences@);
        CodecNegotiation { preferences, direction: self.direction }
    }

    /// Selects the most preferred local configuration that a remote endpoint of the opposite
    /// direction supports, with the first such endpoint's identifier; `None` when no pairing
    /// exists.
    pub fn select(&self, remotes: &Vec<RemoteStreamEndpoint>) -> (r: Option<(CodecCapability, u8)>)
        ensures
            r == selection(self.preferences_view(), self.direction_view(), remotes@),
    {
        let prefs = Ghost(self.preferences@);
        let mut i: usize = 0;
        assert(prefs@.skip(0) =~= prefs@);
        while i < self.preferences.len()
            invariant
                prefs@ == self.preferences@,
                i <= prefs@.len(),
                selection(prefs@, self.direction, remotes@) == selection(
                    prefs@.skip(i as int),
                    self.direction,
                    remotes@,
                ),
            decreases prefs@.len() - i,
        {
            let config = self.preferences[i];
            assert(prefs@.skip(i as int)[0] == config);
            assert(prefs@.skip(i as int).drop_first() =~= prefs@.skip(i + 1));
            let found = Self::first_remote(config, self.direction, remotes);
            match found {
                Some(id) => {
                    return Some((config, id));
                },
                None => {},
            }
            i = i + 1;
        }
        assert(prefs@.skip(i as int) =~= Seq::<CodecCapability>::empty());
        None
    }

    /// The identifier of the first endpoint in `remotes` that matches `config`.
    fn first_remote(
        config: CodecCapability,
        direction: EndpointType,
        remotes: &Vec<RemoteStreamEndpoint>,
    ) -> (r: Option<u8>)
        ensures
            match first_match(config, direction, remotes@) {
                Some(e) => r == Some(e.id),
                None => r is None,
            },
    {
        let mut j: usize = 0;
        assert(remotes@.skip(0) =~= remotes@);
        while j < remotes.len()
            invariant
                j <= remotes@.len(),
                first_match(config, direction, remotes@) == first_match(
                    config,
                    direction,
                    remotes@.skip(j as int),
                ),
            decreases remotes@.len() - j,
        {
            let e = remotes[j];
            assert(remotes@.skip(j as int)[0] == e);
            assert(remotes@.skip(j as int).drop_first() =~= remotes@.skip(j + 1));
            let faces = match (e.direction, direction) {
                (EndpointType::Source, EndpointType::Sink) => true,
                (EndpointType::Sink, EndpointType::Source) => true,
                _ => false,
            };
            if faces && e.codec.codec_type == config.codec_type
                && (config.parameters & e.codec.parameters) != 0 {
                return Some(e.id);
            }
            j = j + 1;
        }
        assert(remotes@.skip(j as int) =~= Seq::<RemoteStreamEndpoint>::empty());
        None
    }
}

} // verus!
