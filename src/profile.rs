use std::collections::HashSet;

use vstd::prelude::*;

verus! {

/// Metadata that a remote device advertises about a profile it implements.
#[derive(Clone, Copy, Debug, PartialEq, Eq, Structural)]
pub struct ProfileDescriptor {
    pub profile_id: u16,
    pub major_version: u8,
    pub minor_version: u8,
}

/// Authentication and permission requirements for an advertised service.
#[derive(Clone, Copy, Debug, Default, PartialEq, Eq, Structural)]
pub struct SecurityRequirements {
    pub authentication_required: Option<bool>,
    pub secure_connections_required: Option<bool>,
}

/// The stricter of two optional requirements: a requirement of `true` on either side wins, a
/// requirement set on one side only is kept, and two requirements of `false` leave it unset.
pub open spec fn stricter(a: Option<bool>, b: Option<bool>) -> Option<bool> {
    if a == Some(true) || b == Some(true) {
        Some(true)
    } else if a is Some && b is None {
        a
    } else if a is None && b is Some {
        b
    } else {
        None
    }
}

fn combine_requirement(a: Option<bool>, b: Option<bool>) -> (r: Option<bool>)
    ensures
        r == stricter(a, b),
{
    match (a, b) {
        (Some(true), _) | (_, Some(true)) => Some(true),
        (Some(x), None) | (None, Some(x)) => Some(x),
        _ => None,
    }
}

/// Combines two sets of requirements into requirements as strict as either.
pub fn combine_security_requirements(
    reqs: &SecurityRequirements,
    other: &SecurityRequirements,
) -> (r: SecurityRequirements)
    ensures
        r.authentication_required == stricter(
            reqs.authentication_required,
            other.authentication_required,
        ),
        r.secure_connections_required == stricter(
            reqs.secure_connections_required,
            other.secure_connections_required,
        ),
{
    SecurityRequirements {
        authentication_required: combine_requirement(
            reqs.authentication_required,
            other.authentication_required,
        ),
        secure_connections_required: combine_requirement(
            reqs.secure_connections_required,
            other.secure_connections_required,
        ),
    }
}

/// Why a profile record was refused.
#[derive(Clone, Copy, Debug, PartialEq, Eq, Structural)]
pub enum ProfileError {
    /// No attribute carries the profile descriptor list.
    DescriptorListMissing,
    /// The profile descriptor list is not a sequence.
    DescriptorListMalformed,
    /// An element of the profile descriptor list is not a profile descriptor.
    DescriptorMalformed,
    /// The profile descriptor list holds no descriptor.
    DescriptorListEmpty,
    /// A piece of service information has no language.
    LanguageMissing,
    /// A service definition names no service class.
    ServiceClassMissing,
    /// The largest SDU that may be received is below the minimum.
    SduTooSmall(u16),
}

/// The attribute that holds the profile descriptor list of a service record.
pub const ATTR_BLUETOOTH_PROFILE_DESCRIPTOR_LIST: u16 = 0x0009;

/// The Bluetooth base UUID, with the 16-bit part zero.
pub const BASE_UUID: u128 = 0x0000_0000_0000_1000_8000_0080_5f9b_34fb;

/// The bits of a UUID outside its 16-bit part.
pub const SHORT_UUID_MASK: u128 = 0xffff_0000_ffff_ffff_ffff_ffff_ffff_ffff;

/// A 128-bit UUID.
#[derive(Clone, Copy, Debug, PartialEq, Eq, Structural)]
pub struct Uuid {
    pub value: u128,
}

/// The 16-bit form of a UUID that is derived from the base UUID.
pub open spec fn short_form(u: Uuid) -> Option<u16> {
    if u.value & SHORT_UUID_MASK == BASE_UUID {
        Some((u.value >> 96u128) as u16)
    } else {
        None
    }
}

impl Uuid {
    /// The UUID derived from the base UUID with the 16-bit value `short`.
    pub fn new16(short: u16) -> (r: Uuid)
        ensures
            short_form(r) == Some(short),
    {
        let r = Uuid { value: BASE_UUID | ((short as u128) << 96u128) };
        assert((BASE_UUID | ((short as u128) << 96u128)) & SHORT_UUID_MASK == BASE_UUID
            && (((BASE_UUID | ((short as u128) << 96u128)) >> 96u128) as u16) == short)
            by (bit_vector);
        r
    }

    /// The UUID derived from the base UUID with the 32-bit value `value`.
    pub fn new32(value: u32) -> (r: Uuid)
        ensures
            r.value == BASE_UUID | ((value as u128) << 96u128),
    {
        Uuid { value: BASE_UUID | ((value as u128) << 96u128) }
    }

    /// The 16-bit form, when this UUID is derived from the base UUID.
    pub fn to_short(&self) -> (r: Option<u16>)
        ensures
            r == short_form(*self),
    {
        if self.value & SHORT_UUID_MASK == BASE_UUID {
            Some((self.value >> 96u128) as u16)
        } else {
            None
        }
    }
}

/// An element of a service record.
#[derive(Debug)]
pub enum DataElement {
    Int8(i8),
    Int16(i16),
    Int32(i32),
    Int64(i64),
    Uint8(u8),
    Uint16(u16),
    Uint32(u32),
    Uint64(u64),
    Str(String),
    Url(String),
    Uuid(Uuid),
    Bool(bool),
    Sequence(Vec<Box<DataElement>>),
    Alternatives(Vec<Box<DataElement>>),
}

/// The service class and profile identifiers that a profile descriptor may name.
pub open spec fn known_profile(id: u16) -> bool {
    match id {
        0x1101 | 0x1103 | 0x1105 | 0x1106 | 0x1108 | 0x110A | 0x110B | 0x110C | 0x110D
        | 0x110E | 0x110F | 0x1112 | 0x1115 | 0x1116 | 0x1117 | 0x111E | 0x111F | 0x112D
        | 0x112E | 0x112F | 0x1130 | 0x1131 | 0x1132 | 0x1133 | 0x1134 | 0x113A | 0x113B
        | 0x1200 | 0x1201 | 0x1202 | 0x1203 | 0x1204 | 0x1303 | 0x1304 | 0x1305 | 0x1400
        | 0x1401 | 0x1402 => true,
        _ => false,
    }
}

/// Whether `id` is a service class or profile identifier that a profile descriptor may name.
pub fn is_known_profile(id: u16) -> (r: bool)
    ensures
        r == known_profile(id),
{
    match id {
        0x1101 | 0x1103 | 0x1105 | 0x1106 | 0x1108 | 0x110A | 0x110B | 0x110C | 0x110D
        | 0x110E | 0x110F | 0x1112 | 0x1115 | 0x1116 | 0x1117 | 0x111E | 0x111F | 0x112D
        | 0x112E | 0x112F | 0x1130 | 0x1131 | 0x1132 | 0x1133 | 0x1134 | 0x113A | 0x113B
        | 0x1200 | 0x1201 | 0x1202 | 0x1203 | 0x1204 | 0x1303 | 0x1304 | 0x1305 | 0x1400
        | 0x1401 | 0x1402 => true,
        _ => false,
    }
}

/// The profile descriptor that `elem` encodes: a sequence of the profile's UUID, which must be
/// derived from the base UUID and name a known profile, and a 16-bit version whose high byte is
/// the major version.
pub open spec fn descriptor_of(elem: DataElement) -> Option<ProfileDescriptor> {
    match elem {
        DataElement::Sequence(seq) => {
            if seq@.len() != 2 {
                None
            } else {
                match (*seq@[0], *seq@[1]) {
                    (DataElement::Uuid(u), DataElement::Uint16(v)) => match short_form(u) {
                        Some(id) if known_profile(id) => Some(
                            ProfileDescriptor {
                                profile_id: id,
                                major_version: (v >> 8u16) as u8,
                                minor_version: (v & 0xffu16) as u8,
                            },
                        ),
                        _ => None,
                    },
                    _ => None,
                }
            }
        },
        _ => None,
    }
}

/// Interprets `elem` as a profile descriptor; `None` when it does not have that shape.
pub fn elem_to_profile_descriptor(elem: &DataElement) -> (r: Option<ProfileDescriptor>)
    ensures
        r == descriptor_of(*elem),
{
    match elem {
        DataElement::Sequence(seq) => {
            if seq.len() != 2 {
                return None;
            }
            let profile_id = match &*seq[0] {
                DataElement::Uuid(uuid) => match uuid.to_short() {
                    Some(id) if is_known_profile(id) => id,
                    _ => return None,
                },
                _ => return None,
            };
            match &*seq[1] {
                DataElement::Uint16(v) => Some(
                    ProfileDescriptor {
                        profile_id,
                        major_version: (*v >> 8u16) as u8,
                        minor_version: (*v & 0xffu16) as u8,
                    },
                ),
                _ => None,
            }
        },
        _ => None,
    }
}

/// A generic attribute of a service record.
#[derive(Debug)]
pub struct Attribute {
    pub id: u16,
    pub element: DataElement,
}

/// The position of the first attribute with identifier `id`.
pub open spec fn first_attribute(attributes: Seq<Attribute>, id: u16) -> Option<int> {
    if exists|i: int| 0 <= i < attributes.len() && #[trigger] attributes[i].id == id {
        Some(
            choose|i: int|
                0 <= i < attributes.len() && #[trigger] attributes[i].id == id && forall|k: int|
                    0 <= k < i ==> #[trigger] attributes[k].id != id,
        )
    } else {
        None
    }
}

/// What `find_profile_descriptors` returns for `attributes`.
pub open spec fn descriptors_in(attributes: Seq<Attribute>) -> Result<
    Seq<ProfileDescriptor>,
    ProfileError,
> {
    match first_attribute(attributes, ATTR_BLUETOOTH_PROFILE_DESCRIPTOR_LIST) {
        None => Err(ProfileError::DescriptorListMissing),
        Some(i) => match attributes[i].element {
            DataElement::Sequence(elems) => {
                if exists|j: int| 0 <= j < elems@.len() && #[trigger] descriptor_of(*elems@[j]) is None {
                    Err(ProfileError::DescriptorMalformed)
                } else if elems@.len() == 0 {
                    Err(ProfileError::DescriptorListEmpty)
                } else {
                    Ok(elems@.map_values(|e: Box<DataElement>| descriptor_of(*e)->Some_0))
                }
            },
            _ => Err(ProfileError::DescriptorListMalformed),
        },
    }
}

/// Finds the profile descriptor list among `attributes` and converts each of its elements.
pub fn find_profile_descriptors(attributes: &Vec<Attribute>) -> (r: Result<
    Vec<ProfileDescriptor>,
    ProfileError,
>)
    ensures
        match r {
            Ok(v) => descriptors_in(attributes@) == Ok::<Seq<ProfileDescriptor>, ProfileError>(v@),
            Err(e) => descriptors_in(attributes@) == Err::<Seq<ProfileDescriptor>, ProfileError>(e),
        },
{
    let mut i: usize = 0;
    while i < attributes.len() && attributes[i].id != ATTR_BLUETOOTH_PROFILE_DESCRIPTOR_LIST
        invariant
            i <= attributes@.len(),
            forall|k: int| 0 <= k < i ==> #[trigger] attributes@[k].id
                != ATTR_BLUETOOTH_PROFILE_DESCRIPTOR_LIST,
        decreases attributes@.len() - i,
    {
        i = i + 1;
    }
    if i == attributes.len() {
        return Err(ProfileError::DescriptorListMissing);
    }
    proof {
        assert(attributes@[i as int].id == ATTR_BLUETOOTH_PROFILE_DESCRIPTOR_LIST);
        let j = choose|j: int|
            0 <= j < attributes@.len() && #[trigger] attributes@[j].id
                == ATTR_BLUETOOTH_PROFILE_DESCRIPTOR_LIST && forall|k: int|
                0 <= k < j ==> #[trigger] attributes@[k].id != ATTR_BLUETOOTH_PROFILE_DESCRIPTOR_LIST;
        assert(attributes@[i as int].id == ATTR_BLUETOOTH_PROFILE_DESCRIPTOR_LIST);
        if j < i {
            assert(attributes@[j].id != ATTR_BLUETOOTH_PROFILE_DESCRIPTOR_LIST);
        }
        if i < j {
            assert(attributes@[i as int].id != ATTR_BLUETOOTH_PROFILE_DESCRIPTOR_LIST);
        }
        assert(first_attribute(attributes@, ATTR_BLUETOOTH_PROFILE_DESCRIPTOR_LIST) == Some(
            i as int,
        ));
    }
    match &attributes[i].element {
        DataElement::Sequence(elems) => {
            let mut result: Vec<ProfileDescriptor> = Vec::new();
            let mut j: usize = 0;
            while j < elems.len()
                invariant
                    first_attribute(attributes@, ATTR_BLUETOOTH_PROFILE_DESCRIPTOR_LIST) == Some(
                        i as int,
                    ),
                    attributes@[i as int].element == DataElement::Sequence(*elems),
                    j <= elems@.len(),
                    result@.len() == j,
                    forall|k: int| 0 <= k < j ==> #[trigger] descriptor_of(*elems@[k]) == Some(
                        result@[k],
                    ),
                decreases elems@.len() - j,
            {
                match elem_to_profile_descriptor(&*elems[j]) {
                    Some(d) => result.push(d),
                    None => {
                        return Err(ProfileError::DescriptorMalformed);
                    },
                }
                j = j + 1;
            }
            if result.len() == 0 {
                return Err(ProfileError::DescriptorListEmpty);
            }
            assert(result@ =~= elems@.map_values(|e: Box<DataElement>| descriptor_of(*e)->Some_0));
            Ok(result)
        },
        _ => Err(ProfileError::DescriptorListMalformed),
    }
}

/// The protocols that a protocol descriptor can name.
#[derive(Clone, Copy, Debug, PartialEq, Eq, Structural)]
pub enum ProtocolIdentifier {
    Sdp,
    Rfcomm,
    Att,
    Obex,
    Bnep,
    Hidp,
    Avctp,
    Avdtp,
    L2Cap,
}

/// Information about a communications protocol.
#[derive(Debug)]
pub struct ProtocolDescriptor {
    pub protocol: ProtocolIdentifier,
    pub params: Vec<DataElement>,
}

/// The PSM of the first L2CAP descriptor in `protocol`: its single parameter, when that is a
/// 16-bit unsigned integer.
pub open spec fn psm_of(protocol: Seq<ProtocolDescriptor>) -> Option<u16>
    decreases protocol.len(),
{
    if protocol.len() == 0 {
        None
    } else if protocol[0].protocol == ProtocolIdentifier::L2Cap {
        if protocol[0].params@.len() != 1 {
            None
        } else {
            match protocol[0].params@[0] {
                DataElement::Uint16(psm) => Some(psm),
                _ => None,
            }
        }
    } else {
        psm_of(protocol.drop_first())
    }
}

/// The PSM that `protocol` names; `None` when it has no L2CAP descriptor or that descriptor
/// carries no PSM.
pub fn psm_from_protocol(protocol: &Vec<ProtocolDescriptor>) -> (r: Option<u16>)
    ensures
        r == psm_of(protocol@),
{
    let mut i: usize = 0;
    assert(protocol@.skip(0) =~= protocol@);
    while i < protocol.len()
        invariant
            i <= protocol@.len(),
            psm_of(protocol@) == psm_of(protocol@.skip(i as int)),
        decreases protocol@.len() - i,
    {
        let descriptor = &protocol[i];
        assert(protocol@.skip(i as int)[0] == *descriptor);
        if descriptor.protocol == ProtocolIdentifier::L2Cap {
            if descriptor.params.len() != 1 {
                return None;
            }
            match &descriptor.params[0] {
                DataElement::Uint16(psm) => {
                    return Some(*psm);
                },
                _ => {
                    return None;
                },
            }
        }
        assert(protocol@.skip(i as int).drop_first() =~= protocol@.skip(i + 1));
        i = i + 1;
    }
    None
}

/// Human-readable information about a service.
#[derive(Clone, Debug, PartialEq)]
pub struct Information {
    pub language: String,
    pub name: Option<String>,
    pub description: Option<String>,
    pub provider: Option<String>,
}

impl Information {
    /// Information in `language`, which must be given and not empty.
    pub fn from_fields(
        language: Option<String>,
        name: Option<String>,
        description: Option<String>,
        provider: Option<String>,
    ) -> (r: Result<Information, ProfileError>)
        ensures
            match language {
                Some(l) if l@.len() > 0 => r == Ok::<Information, ProfileError>(
                    Information { language: l, name, description, provider },
                ),
                _ => r == Err::<Information, ProfileError>(ProfileError::LanguageMissing),
            },
    {
        match language {
            Some(l) => {
                if l.as_str().is_empty() {
                    Err(ProfileError::LanguageMissing)
                } else {
                    Ok(Information { language: l, name, description, provider })
                }
            },
            None => Err(ProfileError::LanguageMissing),
        }
    }
}

/// The L2CAP modes that a channel can use.
#[derive(Clone, Copy, Debug, PartialEq, Eq, Structural)]
pub enum ChannelMode {
    Basic,
    EnhancedRetransmission,
}

/// The smallest SDU size that a service may ask to receive.
pub const MIN_RX_SDU_SIZE: u16 = 48;

/// Preferred L2CAP channel parameters for an advertised service. A maximum SDU size, when set,
/// is at least `MIN_RX_SDU_SIZE`.
#[derive(Clone, Copy, Debug, Default, PartialEq, Eq, Structural)]
pub struct ChannelParameters {
    pub channel_mode: Option<ChannelMode>,
    pub max_rx_sdu_size: Option<u16>,
    pub security_requirements: Option<SecurityRequirements>,
}

impl ChannelParameters {
    /// Parameters with the given fields; refused when the SDU size is below the minimum.
    pub fn from_fields(
        channel_mode: Option<ChannelMode>,
        max_rx_sdu_size: Option<u16>,
        security_requirements: Option<SecurityRequirements>,
    ) -> (r: Result<ChannelParameters, ProfileError>)
        ensures
            match max_rx_sdu_size {
                Some(size) if size < MIN_RX_SDU_SIZE => r == Err::<ChannelParameters, ProfileError>(
                    ProfileError::SduTooSmall(size),
                ),
                _ => r == Ok::<ChannelParameters, ProfileError>(
                    ChannelParameters { channel_mode, max_rx_sdu_size, security_requirements },
                ),
            },
    {
        match max_rx_sdu_size {
            Some(size) => {
                if size < MIN_RX_SDU_SIZE {
                    return Err(ProfileError::SduTooSmall(size));
                }
            },
            None => {},
        }
        Ok(ChannelParameters { channel_mode, max_rx_sdu_size, security_requirements })
    }
}

/// The mode that asks less of the link: basic mode on either side wins.
pub open spec fn leaner_mode(a: Option<ChannelMode>, b: Option<ChannelMode>) -> Option<ChannelMode> {
    if a == Some(ChannelMode::Basic) || b == Some(ChannelMode::Basic) {
        Some(ChannelMode::Basic)
    } else if a is Some && b is None {
        a
    } else if a is None && b is Some {
        b
    } else {
        None
    }
}

/// The smaller of two SDU sizes, or the one that is set.
pub open spec fn smaller_sdu(a: Option<u16>, b: Option<u16>) -> Option<u16> {
    match (a, b) {
        (Some(x), Some(y)) => Some(if x <= y { x } else { y }),
        (Some(x), None) => Some(x),
        (None, Some(y)) => Some(y),
        (None, None) => None,
    }
}

/// The requirements of both sides combined, or the side's that has them.
pub open spec fn joint_security(
    a: Option<SecurityRequirements>,
    b: Option<SecurityRequirements>,
) -> Option<SecurityRequirements> {
    match (a, b) {
        (Some(x), Some(y)) => Some(
            SecurityRequirements {
                authentication_required: stricter(
                    x.authentication_required,
                    y.authentication_required,
                ),
                secure_connections_required: stricter(
                    x.secure_connections_required,
                    y.secure_connections_required,
                ),
            },
        ),
        (Some(x), None) => Some(x),
        (None, Some(y)) => Some(y),
        (None, None) => None,
    }
}

/// Combines two sets of channel parameters into the set that asks least of the link: basic mode
/// over enhanced retransmission, the smaller SDU size, and security as strict as either.
pub fn combine_channel_parameters(
    params: &ChannelParameters,
    other: &ChannelParameters,
) -> (r: ChannelParameters)
    ensures
        r.channel_mode == leaner_mode(params.channel_mode, other.channel_mode),
        r.max_rx_sdu_size == smaller_sdu(params.max_rx_sdu_size, other.max_rx_sdu_size),
        r.security_requirements == joint_security(
            params.security_requirements,
            other.security_requirements,
        ),
{
    let channel_mode = match (params.channel_mode, other.channel_mode) {
        (Some(ChannelMode::Basic), _) | (_, Some(ChannelMode::Basic)) => Some(ChannelMode::Basic),
        (Some(x), None) | (None, Some(x)) => Some(x),
        _ => None,
    };
    let max_rx_sdu_size = match (params.max_rx_sdu_size, other.max_rx_sdu_size) {
        (Some(x), Some(y)) => Some(if x <= y { x } else { y }),
        (Some(x), None) | (None, Some(x)) => Some(x),
        _ => None,
    };
    let security_requirements = match (&params.security_requirements, &other.security_requirements) {
        (Some(a), Some(b)) => Some(combine_security_requirements(a, b)),
        (Some(a), None) | (None, Some(a)) => Some(*a),
        _ => None,
    };
    ChannelParameters { channel_mode, max_rx_sdu_size, security_requirements }
}

/// Definition of a service that is to be advertised.
#[derive(Debug, Default)]
pub struct ServiceDefinition {
    pub service_class_uuids: Vec<Uuid>,
    pub protocol_descriptor_list: Vec<ProtocolDescriptor>,
    pub additional_protocol_descriptor_lists: Vec<Vec<ProtocolDescriptor>>,
    pub profile_descriptors: Vec<ProfileDescriptor>,
    pub information: Vec<Information>,
    pub additional_attributes: Vec<Attribute>,
}

impl ServiceDefinition {
    /// The PSMs that the additional protocol descriptor lists name.
    pub open spec fn additional_psm_view(&self) -> Set<u16> {
        Set::new(
            |p: u16|
                exists|i: int|
                    0 <= i < self.additional_protocol_descriptor_lists@.len() && psm_of(
                        #[trigger] self.additional_protocol_descriptor_lists@[i]@,
                    ) == Some(p),
        )
    }

    /// The PSM of the primary protocol descriptor list.
    pub fn primary_psm(&self) -> (r: Option<u16>)
        ensures
            r == psm_of(self.protocol_descriptor_list@),
    {
        psm_from_protocol(&self.protocol_descriptor_list)
    }

    /// The PSMs of the additional protocol descriptor lists.
    pub fn additional_psms(&self) -> (r: HashSet<u16>)
        ensures
            r@ == self.additional_psm_view(),
    {
        let lists = &self.additional_protocol_descriptor_lists;
        let mut psms: HashSet<u16> = HashSet::new();
        let mut i: usize = 0;
        while i < lists.len()
            invariant
                i <= lists@.len(),
                psms@ == Set::new(
                    |p: u16|
                        exists|k: int| 0 <= k < i && psm_of(#[trigger] lists@[k]@) == Some(p),
                ),
            decreases lists@.len() - i,
        {
            let found = psm_from_protocol(&lists[i]);
            match found {
                Some(psm) => {
                    psms.insert(psm);
                },
                None => {},
            }
            proof {
                let next = Set::new(
                    |p: u16|
                        exists|k: int| 0 <= k < i + 1 && psm_of(#[trigger] lists@[k]@) == Some(p),
                );
                assert forall|p: u16| next.contains(p) <==> psms@.contains(p) by {
                    if next.contains(p) {
                        let k = choose|k: int| 0 <= k < i + 1 && psm_of(#[trigger] lists@[k]@) == Some(p);
                        if k < i {
                            assert(psms@.contains(p));
                        }
                    }
                    if psms@.contains(p) && found != Some(p) {
                        let k = choose|k: int| 0 <= k < i && psm_of(#[trigger] lists@[k]@) == Some(p);
                        assert(next.contains(p));
                    }
                }
                assert(psms@ =~= next);
            }
            i = i + 1;
        }
        assert(psms@ =~= self.additional_psm_view());
        psms
    }

    /// All the PSMs of the definition; empty when it names none.
    pub fn psm_set(&self) -> (r: HashSet<u16>)
        ensures
            r@ == match psm_of(self.protocol_descriptor_list@) {
                Some(p) => self.additional_psm_view().insert(p),
                None => self.additional_psm_view(),
            },
    {
        let mut psms = self.additional_psms();
        match self.primary_psm() {
            Some(psm) => {
                psms.insert(psm);
            },
            None => {},
        }
        psms
    }

    /// Checks that the definition can be advertised: it names a service class, and each piece
    /// of information has a language.
    pub fn validate(&self) -> (r: Result<(), ProfileError>)
        ensures
            self.service_class_uuids@.len() == 0 ==> r == Err::<(), ProfileError>(
                ProfileError::ServiceClassMissing,
            ),
            self.service_class_uuids@.len() > 0 ==> (r is Ok <==> forall|i: int|
                0 <= i < self.information@.len() ==> (#[trigger] self.information@[i]).language@.len()
                    > 0),
            r is Err && self.service_class_uuids@.len() > 0 ==> r == Err::<(), ProfileError>(
                ProfileError::LanguageMissing,
            ),
    {
        if self.service_class_uuids.len() == 0 {
            return Err(ProfileError::ServiceClassMissing);
        }
        let mut i: usize = 0;
        while i < self.information.len()
            invariant
                self.service_class_uuids@.len() > 0,
                i <= self.information@.len(),
                forall|k: int| 0 <= k < i ==> (#[trigger] self.information@[k]).language@.len() > 0,
            decreases self.information@.len() - i,
        {
            if self.information[i].language.as_str().is_empty() {
                return Err(ProfileError::LanguageMissing);
            }
            i = i + 1;
        }
        Ok(())
    }
}

} // verus!
