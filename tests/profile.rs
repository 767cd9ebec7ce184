use std::collections::HashSet;

use bt_a2dp::profile::{
    combine_channel_parameters, combine_security_requirements, elem_to_profile_descriptor,
    find_profile_descriptors, is_known_profile, psm_from_protocol, Attribute, ChannelMode, ChannelParameters,
    DataElement, Information, ProfileError, ProtocolDescriptor, ProtocolIdentifier,
    SecurityRequirements, ServiceDefinition, Uuid, ATTR_BLUETOOTH_PROFILE_DESCRIPTOR_LIST,
    MIN_RX_SDU_SIZE,
};

fn descriptor_element(short: u16, version: u16) -> DataElement {
    DataElement::Sequence(vec![
        Box::new(DataElement::Uuid(Uuid::new16(short))),
        Box::new(DataElement::Uint16(version)),
    ])
}

#[test]
fn test_combine_security_requirements() {
    let req1 = SecurityRequirements {
        authentication_required: None,
        secure_connections_required: None,
    };
    let req2 = SecurityRequirements {
        authentication_required: None,
        secure_connections_required: None,
    };
    let expected = SecurityRequirements {
        authentication_required: None,
        secure_connections_required: None,
    };
    assert_eq!(combine_security_requirements(&req1, &req2), expected);

    let req1 = SecurityRequirements {
        authentication_required: Some(true),
        secure_connections_required: None,
    };
    let req2 = SecurityRequirements {
        authentication_required: None,
        secure_connections_required: Some(true),
    };
    let expected = SecurityRequirements {
        authentication_required: Some(true),
        secure_connections_required: Some(true),
    };
    assert_eq!(combine_security_requirements(&req1, &req2), expected);

    let req1 = SecurityRequirements {
        authentication_required: Some(false),
        secure_connections_required: Some(true),
    };
    let req2 = SecurityRequirements {
        authentication_required: None,
        secure_connections_required: Some(true),
    };
    let expected = SecurityRequirements {
        authentication_required: Some(false),
        secure_connections_required: Some(true),
    };
    assert_eq!(combine_security_requirements(&req1, &req2), expected);

    let req1 = SecurityRequirements {
        authentication_required: Some(true),
        secure_connections_required: Some(false),
    };
    let req2 = SecurityRequirements {
        authentication_required: Some(false),
        secure_connections_required: Some(true),
    };
    let expected = SecurityRequirements {
        authentication_required: Some(true),
        secure_connections_required: Some(true),
    };
    assert_eq!(combine_security_requirements(&req1, &req2), expected);
}

#[test]
fn combine_security_requirements_two_false_leave_unset() {
    let req = SecurityRequirements {
        authentication_required: Some(false),
        secure_connections_required: Some(false),
    };
    let expected = SecurityRequirements {
        authentication_required: None,
        secure_connections_required: None,
    };
    assert_eq!(combine_security_requirements(&req, &req), expected);
}

#[test]
fn test_combine_channel_parameters() {
    let p1 = ChannelParameters::default();
    let p2 = ChannelParameters::default();
    let expected = ChannelParameters::default();
    assert_eq!(combine_channel_parameters(&p1, &p2), expected);

    let p1 = ChannelParameters {
        channel_mode: Some(ChannelMode::EnhancedRetransmission),
        max_rx_sdu_size: None,
        security_requirements: None,
    };
    let p2 = ChannelParameters {
        channel_mode: Some(ChannelMode::Basic),
        max_rx_sdu_size: Some(70),
        security_requirements: None,
    };
    let expected = ChannelParameters {
        channel_mode: Some(ChannelMode::Basic),
        max_rx_sdu_size: Some(70),
        security_requirements: None,
    };
    assert_eq!(combine_channel_parameters(&p1, &p2), expected);

    let empty_seq_reqs = SecurityRequirements {
        authentication_required: None,
        secure_connections_required: None,
    };
    let p1 = ChannelParameters {
        channel_mode: None,
        max_rx_sdu_size: Some(75),
        security_requirements: Some(empty_seq_reqs.clone()),
    };
    let p2 = ChannelParameters {
        channel_mode: Some(ChannelMode::EnhancedRetransmission),
        max_rx_sdu_size: None,
        security_requirements: None,
    };
    let expected = ChannelParameters {
        channel_mode: Some(ChannelMode::EnhancedRetransmission),
        max_rx_sdu_size: Some(75),
        security_requirements: Some(empty_seq_reqs),
    };
    assert_eq!(combine_channel_parameters(&p1, &p2), expected);

    let reqs1 = SecurityRequirements {
        authentication_required: Some(true),
        secure_connections_required: None,
    };
    let reqs2 = SecurityRequirements {
        authentication_required: Some(false),
        secure_connections_required: Some(false),
    };
    let combined_reqs = combine_security_requirements(&reqs1, &reqs2);
    let p1 = ChannelParameters {
        channel_mode: None,
        max_rx_sdu_size: Some(90),
        security_requirements: Some(reqs1),
    };
    let p2 = ChannelParameters {
        channel_mode: Some(ChannelMode::Basic),
        max_rx_sdu_size: Some(70),
        security_requirements: Some(reqs2),
    };
    let expected = ChannelParameters {
        channel_mode: Some(ChannelMode::Basic),
        max_rx_sdu_size: Some(70),
        security_requirements: Some(combined_reqs),
    };
    assert_eq!(combine_channel_parameters(&p1, &p2), expected);
}

#[test]
fn test_invalid_channel_parameters_fails_gracefully() {
    let too_small_sdu = Some(MIN_RX_SDU_SIZE - 1);
    let local = ChannelParameters::from_fields(None, too_small_sdu, None);
    assert!(local.is_err());
    assert_eq!(local, Err(ProfileError::SduTooSmall(MIN_RX_SDU_SIZE - 1)));
}

#[test]
fn test_channel_parameters_conversions() {
    let at_minimum = ChannelParameters::from_fields(
        Some(ChannelMode::EnhancedRetransmission),
        Some(MIN_RX_SDU_SIZE),
        None,
    );
    assert_eq!(
        at_minimum,
        Ok(ChannelParameters {
            channel_mode: Some(ChannelMode::EnhancedRetransmission),
            max_rx_sdu_size: Some(MIN_RX_SDU_SIZE),
            security_requirements: None,
        })
    );
    assert_eq!(ChannelParameters::from_fields(None, None, None), Ok(ChannelParameters::default()));
}

#[test]
fn test_find_descriptors_fails_with_no_descriptors() {
    assert!(find_profile_descriptors(&vec![]).is_err());

    let mut attributes = vec![Attribute { id: 0x3001, element: DataElement::Uint32(0xF00FC0DE) }];

    assert!(find_profile_descriptors(&attributes).is_err());
    assert_eq!(find_profile_descriptors(&attributes), Err(ProfileError::DescriptorListMissing));

    // Wrong element type
    attributes.push(Attribute {
        id: ATTR_BLUETOOTH_PROFILE_DESCRIPTOR_LIST,
        element: DataElement::Uint32(0xABADC0DE),
    });

    assert!(find_profile_descriptors(&attributes).is_err());
    assert_eq!(find_profile_descriptors(&attributes), Err(ProfileError::DescriptorListMalformed));

    // Empty sequence
    attributes[1].element = DataElement::Sequence(vec![]);

    assert!(find_profile_descriptors(&attributes).is_err());
    assert_eq!(find_profile_descriptors(&attributes), Err(ProfileError::DescriptorListEmpty));
}

#[test]
fn find_descriptors_rejects_a_malformed_entry() {
    let attributes = vec![Attribute {
        id: ATTR_BLUETOOTH_PROFILE_DESCRIPTOR_LIST,
        element: DataElement::Sequence(vec![
            Box::new(descriptor_element(0x1101, 0x0103)),
            Box::new(DataElement::Uint8(1)),
        ]),
    }];
    assert_eq!(find_profile_descriptors(&attributes), Err(ProfileError::DescriptorMalformed));
}

#[test]
fn test_find_descriptors_returns_descriptors() {
    let attributes = vec![Attribute {
        id: ATTR_BLUETOOTH_PROFILE_DESCRIPTOR_LIST,
        element: DataElement::Sequence(vec![
            Box::new(descriptor_element(0x1101, 0x0103)),
            Box::new(descriptor_element(0x113A, 0x0302)),
        ]),
    }];

    let result = find_profile_descriptors(&attributes);
    assert!(result.is_ok());
    let result = result.expect("result");
    assert_eq!(2, result.len());

    // 0x1101 is the 16-bit UUID of SerialPort
    assert_eq!(0x1101, result[0].profile_id);
    assert_eq!(1, result[0].major_version);
    assert_eq!(3, result[0].minor_version);
    assert_eq!(0x113A, result[1].profile_id);
    assert_eq!(3, result[1].major_version);
    assert_eq!(2, result[1].minor_version);
}

#[test]
fn test_psm_from_protocol() {
    let empty = vec![];
    assert_eq!(None, psm_from_protocol(&empty));

    let no_psm = vec![ProtocolDescriptor { protocol: ProtocolIdentifier::L2Cap, params: vec![] }];
    assert_eq!(None, psm_from_protocol(&no_psm));

    let psm = 10;
    let valid_psm = vec![ProtocolDescriptor {
        protocol: ProtocolIdentifier::L2Cap,
        params: vec![DataElement::Uint16(psm)],
    }];
    assert_eq!(Some(psm), psm_from_protocol(&valid_psm));

    let rfcomm = vec![
        ProtocolDescriptor {
            protocol: ProtocolIdentifier::L2Cap,
            params: vec![], // PSM omitted for RFCOMM.
        },
        ProtocolDescriptor {
            protocol: ProtocolIdentifier::Rfcomm,
            params: vec![DataElement::Uint8(10)], // Server channel
        },
    ];
    assert_eq!(None, psm_from_protocol(&rfcomm));
}

#[test]
fn psm_comes_from_the_first_l2cap_descriptor() {
    let protocol = vec![
        ProtocolDescriptor { protocol: ProtocolIdentifier::Avdtp, params: vec![DataElement::Uint16(3)] },
        ProtocolDescriptor { protocol: ProtocolIdentifier::L2Cap, params: vec![DataElement::Uint16(25)] },
    ];
    assert_eq!(Some(25), psm_from_protocol(&protocol));

    let wrong_type = vec![ProtocolDescriptor {
        protocol: ProtocolIdentifier::L2Cap,
        params: vec![DataElement::Uint32(25)],
    }];
    assert_eq!(None, psm_from_protocol(&wrong_type));
}

#[test]
fn test_elem_to_profile_descriptor_works() {
    let element = descriptor_element(0x1101, 0x0103);

    let descriptor = elem_to_profile_descriptor(&element).expect("descriptor should be returned");

    assert_eq!(0x1101, descriptor.profile_id);
    assert_eq!(1, descriptor.major_version);
    assert_eq!(3, descriptor.minor_version);
}

#[test]
fn test_elem_to_profile_descriptor_wrong_element_types() {
    let element = DataElement::Sequence(vec![
        Box::new(DataElement::Uint16(0x1101)),
        Box::new(DataElement::Uint16(0x0103)),
    ]);
    assert!(elem_to_profile_descriptor(&element).is_none());

    let element = DataElement::Sequence(vec![
        Box::new(DataElement::Uuid(Uuid::new16(0x1101))),
        Box::new(DataElement::Uint32(0x0103)),
    ]);
    assert!(elem_to_profile_descriptor(&element).is_none());

    let element = DataElement::Sequence(vec![Box::new(DataElement::Uint32(0x0103))]);
    assert!(elem_to_profile_descriptor(&element).is_none());

    let element = DataElement::Sequence(vec![]);
    assert!(elem_to_profile_descriptor(&element).is_none());

    let element = DataElement::Uint32(0xDEADC0DE);
    assert!(elem_to_profile_descriptor(&element).is_none());
}

#[test]
fn elem_to_profile_descriptor_needs_a_short_uuid() {
    let element = DataElement::Sequence(vec![
        Box::new(DataElement::Uuid(Uuid { value: 1 })),
        Box::new(DataElement::Uint16(0x0103)),
    ]);
    assert!(elem_to_profile_descriptor(&element).is_none());

    // A short UUID that names no profile.
    let element = descriptor_element(0x1234, 0x0103);
    assert!(elem_to_profile_descriptor(&element).is_none());
    assert!(!is_known_profile(0x1234));
    assert!(is_known_profile(0x110B));
    assert_eq!(Uuid::new16(0x110A).to_short(), Some(0x110A));
    assert_eq!(Uuid::new32(0x0001_110A).to_short(), None);
}

#[test]
fn test_invalid_information_fails_gracefully() {
    let empty_language = "".to_string();

    let no_lang = Information::from_fields(None, None, None, None);
    assert!(no_lang.is_err());

    let empty_lang = Information::from_fields(Some(empty_language), None, None, None);
    assert!(empty_lang.is_err());

    let valid = Information::from_fields(Some("en".to_string()), Some("foobar".to_string()), None, None)
        .expect("language given");
    assert_eq!(valid.language, "en");
    assert_eq!(valid.name, Some("foobar".to_string()));
}

#[test]
fn test_get_psm_from_service_definition() {
    let uuid = Uuid::new32(1234);
    let psm1 = 10;
    let psm2 = 12;
    let mut def = ServiceDefinition {
        service_class_uuids: vec![uuid],
        protocol_descriptor_list: vec![],
        additional_protocol_descriptor_lists: vec![],
        profile_descriptors: vec![],
        information: vec![],
        additional_attributes: vec![],
    };

    assert_eq!(def.primary_psm(), None);
    assert_eq!(def.additional_psms(), HashSet::new());
    assert_eq!(def.psm_set(), HashSet::new());

    def.protocol_descriptor_list = vec![ProtocolDescriptor {
        protocol: ProtocolIdentifier::L2Cap,
        params: vec![DataElement::Uint16(psm1)],
    }];

    let mut expected_psms = HashSet::new();
    expected_psms.insert(psm1);
    assert_eq!(def.primary_psm(), Some(psm1));
    assert_eq!(def.additional_psms(), HashSet::new());
    assert_eq!(def.psm_set(), expected_psms);

    def.additional_protocol_descriptor_lists = vec![
        vec![ProtocolDescriptor {
            protocol: ProtocolIdentifier::L2Cap,
            params: vec![DataElement::Uint16(psm2)],
        }],
        vec![ProtocolDescriptor {
            protocol: ProtocolIdentifier::Avdtp,
            params: vec![DataElement::Uint16(0x0103)],
        }],
    ];

    let mut expected_psms = HashSet::new();
    expected_psms.insert(psm2);
    assert_eq!(def.primary_psm(), Some(psm1));
    assert_eq!(def.additional_psms(), expected_psms);
    expected_psms.insert(psm1);
    assert_eq!(def.psm_set(), expected_psms);
}

#[test]
fn test_invalid_service_definition_fails_gracefully() {
    let no_uuids = ServiceDefinition::default();
    assert!(no_uuids.validate().is_err());
    assert_eq!(no_uuids.validate(), Err(ProfileError::ServiceClassMissing));

    let mut bad_info = ServiceDefinition::default();
    bad_info.service_class_uuids = vec![Uuid::new16(0x110A)];
    bad_info.information = vec![Information {
        language: "".to_string(),
        name: None,
        description: None,
        provider: None,
    }];
    assert_eq!(bad_info.validate(), Err(ProfileError::LanguageMissing));

    bad_info.information[0].language = "en".to_string();
    assert_eq!(bad_info.validate(), Ok(()));
}
