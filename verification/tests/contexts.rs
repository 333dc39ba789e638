use smb_negotiate::context::NegotiateContext;
use smb_negotiate::context_list::{read_list, write_list};
use smb_negotiate::error::NegotiateError;
use smb_negotiate::support::SupportedAlgorithms;

fn preauth() -> NegotiateContext {
    NegotiateContext::PreAuthIntegrityCapabilities {
        hash_algorithms: vec![0x0001],
        salt: vec![0xaa, 0xbb, 0xcc, 0xdd],
    }
}

fn preauth_bytes() -> Vec<u8> {
    vec![
        0x01, 0x00, 0x0a, 0x00, 0, 0, 0, 0, // type 1, length 10, reserved
        0x01, 0x00, 0x04, 0x00, // one algorithm, four bytes of salt
        0x01, 0x00, // SHA-512
        0xaa, 0xbb, 0xcc, 0xdd,
    ]
}

fn encryption() -> NegotiateContext {
    NegotiateContext::EncryptionCapabilities { ciphers: vec![0x0002, 0x0001] }
}

fn encryption_bytes() -> Vec<u8> {
    vec![0x02, 0x00, 0x06, 0x00, 0, 0, 0, 0, 0x02, 0x00, 0x02, 0x00, 0x01, 0x00]
}

fn compression() -> NegotiateContext {
    NegotiateContext::CompressionCapabilities {
        flags: 0x0000_0001,
        algorithms: vec![0x0001, 0x0002, 0x0003, 0x0000],
    }
}

fn compression_bytes() -> Vec<u8> {
    vec![
        0x03, 0x00, 0x10, 0x00, 0, 0, 0, 0, // type 3, length 16, reserved
        0x04, 0x00, 0x00, 0x00, // four algorithms, padding
        0x01, 0x00, 0x00, 0x00, // flags
        0x01, 0x00, 0x02, 0x00, 0x03, 0x00, 0x00, 0x00,
    ]
}

fn netname() -> NegotiateContext {
    NegotiateContext::NetnameNegotiateContextID { net_name: vec![0x0073, 0x0072, 0x0076] }
}

fn netname_bytes() -> Vec<u8> {
    vec![0x05, 0x00, 0x06, 0x00, 0, 0, 0, 0, 0x73, 0x00, 0x72, 0x00, 0x76, 0x00]
}

fn transport() -> NegotiateContext {
    NegotiateContext::TransportCapabilities { flags: 0x0000_0001 }
}

fn transport_bytes() -> Vec<u8> {
    vec![0x06, 0x00, 0x04, 0x00, 0, 0, 0, 0, 0x01, 0x00, 0x00, 0x00]
}

fn rdma() -> NegotiateContext {
    NegotiateContext::RDMATransformCapabilities { transform_ids: vec![0x0001, 0x0002] }
}

fn rdma_bytes() -> Vec<u8> {
    vec![
        0x07, 0x00, 0x0c, 0x00, 0, 0, 0, 0, // type 7, length 12, reserved
        0x02, 0x00, 0x00, 0x00, 0x00, 0x00, 0x00, 0x00, // two transforms, reserved
        0x01, 0x00, 0x02, 0x00,
    ]
}

fn signing() -> NegotiateContext {
    NegotiateContext::SigningCapabilities { algorithms: vec![0x0001, 0x0002, 0x0000] }
}

fn signing_bytes() -> Vec<u8> {
    vec![0x08, 0x00, 0x08, 0x00, 0, 0, 0, 0, 0x03, 0x00, 0x01, 0x00, 0x02, 0x00, 0x00, 0x00]
}

fn samples() -> Vec<(NegotiateContext, Vec<u8>)> {
    vec![
        (preauth(), preauth_bytes()),
        (encryption(), encryption_bytes()),
        (compression(), compression_bytes()),
        (netname(), netname_bytes()),
        (transport(), transport_bytes()),
        (rdma(), rdma_bytes()),
        (signing(), signing_bytes()),
    ]
}

fn unknown_record(code: u16, payload: &[u8]) -> Vec<u8> {
    let mut out = vec![code as u8, (code >> 8) as u8];
    out.push(payload.len() as u8);
    out.push((payload.len() >> 8) as u8);
    out.extend_from_slice(&[0, 0, 0, 0]);
    out.extend_from_slice(payload);
    out
}

#[test]
fn each_context_is_encoded_as_its_record() {
    for (context, bytes) in samples() {
        assert!(context.is_well_formed());
        assert_eq!(context.as_bytes(), bytes);
    }
}

#[test]
fn each_context_has_its_type_code_and_computed_length() {
    let codes = [1u16, 2, 3, 5, 6, 7, 8];
    for ((context, bytes), code) in samples().into_iter().zip(codes) {
        assert_eq!(context.type_code(), code);
        assert_eq!(context.payload_len() as usize, bytes.len() - 8);
    }
    let long = NegotiateContext::EncryptionCapabilities { ciphers: vec![7; 1000] };
    assert_eq!(long.payload_len(), 2002);
    assert_eq!(long.as_bytes().len(), 2010);
}

#[test]
fn each_record_is_decoded_as_its_context() {
    for (context, bytes) in samples() {
        assert_eq!(NegotiateContext::from_bytes(&bytes), Ok(context));
    }
}

#[test]
fn a_record_is_decoded_whatever_follows_it() {
    for (context, bytes) in samples() {
        let mut longer = bytes.clone();
        longer.extend_from_slice(&[0xde, 0xad, 0xbe, 0xef, 0x01]);
        assert_eq!(NegotiateContext::from_bytes(&longer), Ok(context));
    }
}

#[test]
fn an_encoded_context_is_read_back() {
    let contexts = vec![
        NegotiateContext::PreAuthIntegrityCapabilities { hash_algorithms: vec![], salt: vec![] },
        NegotiateContext::PreAuthIntegrityCapabilities {
            hash_algorithms: vec![1, 2, 0xffff],
            salt: (0..32).collect(),
        },
        NegotiateContext::EncryptionCapabilities { ciphers: vec![] },
        NegotiateContext::CompressionCapabilities { flags: 0xdead_beef, algorithms: vec![5] },
        NegotiateContext::NetnameNegotiateContextID { net_name: vec![] },
        NegotiateContext::NetnameNegotiateContextID { net_name: vec![0xd83d, 0xde00, 0x41] },
        NegotiateContext::TransportCapabilities { flags: 0xffff_ffff },
        NegotiateContext::RDMATransformCapabilities { transform_ids: vec![] },
        NegotiateContext::SigningCapabilities { algorithms: vec![0x1234; 300] },
    ];
    for context in contexts {
        assert!(context.is_well_formed());
        let bytes = context.as_bytes();
        assert_eq!(bytes.len(), 8 + context.payload_len() as usize);
        assert_eq!(NegotiateContext::from_bytes(&bytes), Ok(context));
    }
}

#[test]
fn a_record_of_an_unknown_type_is_refused_as_such() {
    for code in [0u16, 4, 9, 0x0100, 0xffff] {
        let bytes = unknown_record(code, &[1, 2, 3, 4, 5, 6]);
        assert_eq!(
            NegotiateContext::from_bytes(&bytes),
            Err(NegotiateError::UnrecognizedContextType)
        );
        assert_eq!(
            NegotiateContext::from_payload(code, &[1, 2, 3, 4]),
            Err(NegotiateError::UnrecognizedContextType)
        );
    }
}

#[test]
fn a_record_that_ends_early_is_truncated() {
    for (_, bytes) in samples() {
        for len in 0..bytes.len() {
            assert_eq!(
                NegotiateContext::from_bytes(&bytes[..len]),
                Err(NegotiateError::TruncatedBuffer)
            );
        }
    }
    // Also where the type is unknown: the record must lie within the input.
    let unknown = unknown_record(0x0009, &[1, 2, 3]);
    assert_eq!(
        NegotiateContext::from_bytes(&unknown[..10]),
        Err(NegotiateError::TruncatedBuffer)
    );
}

#[test]
fn a_payload_that_ends_before_its_fields_is_truncated() {
    // Two algorithms announced, one present.
    assert_eq!(
        NegotiateContext::from_payload(2, &[0x02, 0x00, 0x01, 0x00]),
        Err(NegotiateError::TruncatedBuffer)
    );
    // Salt of four bytes announced, three present.
    assert_eq!(
        NegotiateContext::from_payload(1, &[0x01, 0x00, 0x04, 0x00, 0x01, 0x00, 1, 2, 3]),
        Err(NegotiateError::TruncatedBuffer)
    );
    assert_eq!(NegotiateContext::from_payload(1, &[0, 0, 0]), Err(NegotiateError::TruncatedBuffer));
    assert_eq!(NegotiateContext::from_payload(3, &[0; 7]), Err(NegotiateError::TruncatedBuffer));
    assert_eq!(NegotiateContext::from_payload(6, &[0; 3]), Err(NegotiateError::TruncatedBuffer));
    assert_eq!(NegotiateContext::from_payload(7, &[1, 0, 0, 0, 0, 0, 0, 0, 9]), Err(
        NegotiateError::TruncatedBuffer
    ));
    assert_eq!(NegotiateContext::from_payload(8, &[1]), Err(NegotiateError::TruncatedBuffer));
    // Half a code unit.
    assert_eq!(
        NegotiateContext::from_payload(5, &[0x41, 0x00, 0x42]),
        Err(NegotiateError::TruncatedBuffer)
    );
}

#[test]
fn bytes_behind_the_last_field_of_a_payload_are_passed_over() {
    assert_eq!(
        NegotiateContext::from_payload(2, &[0x01, 0x00, 0x04, 0x00, 0xff, 0xff]),
        Ok(NegotiateContext::EncryptionCapabilities { ciphers: vec![4] })
    );
    assert_eq!(
        NegotiateContext::from_payload(6, &[1, 0, 0, 0, 9, 9]),
        Ok(NegotiateContext::TransportCapabilities { flags: 1 })
    );
}

#[test]
fn a_context_that_is_too_long_is_not_well_formed() {
    assert!(NegotiateContext::EncryptionCapabilities { ciphers: vec![0; 32766] }.is_well_formed());
    assert!(!NegotiateContext::EncryptionCapabilities { ciphers: vec![0; 32767] }.is_well_formed());
    assert!(NegotiateContext::NetnameNegotiateContextID { net_name: vec![0; 32767] }
        .is_well_formed());
    assert!(!NegotiateContext::NetnameNegotiateContextID { net_name: vec![0; 32768] }
        .is_well_formed());
    assert!(NegotiateContext::PreAuthIntegrityCapabilities {
        hash_algorithms: vec![0; 10],
        salt: vec![0; 65511]
    }
    .is_well_formed());
    assert!(!NegotiateContext::PreAuthIntegrityCapabilities {
        hash_algorithms: vec![0; 10],
        salt: vec![0; 65512]
    }
    .is_well_formed());
    assert!(NegotiateContext::CompressionCapabilities { flags: 0, algorithms: vec![0; 32763] }
        .is_well_formed());
    assert!(!NegotiateContext::CompressionCapabilities { flags: 0, algorithms: vec![0; 32764] }
        .is_well_formed());
    assert!(!NegotiateContext::RDMATransformCapabilities { transform_ids: vec![0; 32764] }
        .is_well_formed());
    assert!(!NegotiateContext::SigningCapabilities { algorithms: vec![0; 40000] }
        .is_well_formed());
}

#[test]
fn a_list_is_laid_out_with_padding_between_its_records() {
    let mut out = vec![0x55u8];
    write_list(&vec![preauth(), encryption(), transport()], &mut out);
    let mut expected = vec![0x55u8];
    expected.extend_from_slice(&preauth_bytes()); // 18 bytes
    expected.extend_from_slice(&[0; 6]);
    expected.extend_from_slice(&encryption_bytes()); // 14 bytes
    expected.extend_from_slice(&[0; 2]);
    expected.extend_from_slice(&transport_bytes()); // last: no padding
    assert_eq!(out, expected);
}

#[test]
fn a_record_on_a_boundary_is_followed_by_no_padding() {
    let mut out = Vec::new();
    write_list(&vec![compression(), signing(), netname()], &mut out);
    let mut expected = compression_bytes(); // 24 bytes
    expected.extend_from_slice(&signing_bytes()); // 16 bytes
    expected.extend_from_slice(&netname_bytes());
    assert_eq!(out, expected);
    assert_eq!(out.len(), 24 + 16 + 14);
    assert_eq!(
        read_list(&out, 0, 3),
        Ok((vec![compression(), signing(), netname()], out.len()))
    );
}

#[test]
fn a_record_right_behind_one_that_ends_on_a_boundary_is_read() {
    // A signing context of 16 bytes, directly followed by a transport
    // context of 12 bytes that ends the input.
    let mut bytes = signing_bytes();
    assert_eq!(bytes.len(), 16);
    bytes.extend_from_slice(&transport_bytes());
    assert_eq!(bytes.len(), 28);
    assert_eq!(read_list(&bytes, 0, 2), Ok((vec![signing(), transport()], 28)));
    // With eight zero bytes between the two, the second record is not where
    // the list goes on: the zero bytes are read as an unknown, empty record.
    let mut spaced = signing_bytes();
    spaced.extend_from_slice(&[0; 8]);
    spaced.extend_from_slice(&transport_bytes());
    assert_eq!(read_list(&spaced, 0, 2), Ok((vec![signing()], 24)));
}

#[test]
fn padding_is_between_none_and_seven_bytes() {
    for salt_len in 0..40usize {
        let first = NegotiateContext::PreAuthIntegrityCapabilities {
            hash_algorithms: vec![1],
            salt: vec![0x5a; salt_len],
        };
        let record_len = 8 + 6 + salt_len;
        let mut out = Vec::new();
        write_list(&vec![first.clone(), transport()], &mut out);
        let padding = out.len() - record_len - 12;
        assert!(padding < 8);
        assert_eq!((record_len + padding) % 8, 0);
        assert_eq!(padding == 0, record_len % 8 == 0);
        assert!(out[record_len..record_len + padding].iter().all(|b| *b == 0));
        assert_eq!(&out[record_len + padding..], &transport_bytes()[..]);
        assert_eq!(read_list(&out, 0, 2), Ok((vec![first, transport()], out.len())));
    }
}

#[test]
fn an_empty_list_and_a_single_record_have_no_padding() {
    let mut out = vec![1u8, 2];
    write_list(&vec![], &mut out);
    assert_eq!(out, vec![1, 2]);
    write_list(&vec![signing()], &mut out);
    let mut expected = vec![1u8, 2];
    expected.extend_from_slice(&signing_bytes());
    assert_eq!(out, expected);
}

#[test]
fn an_encoded_list_is_read_back() {
    let all: Vec<NegotiateContext> = samples().into_iter().map(|(c, _)| c).collect();
    for n in 0..=all.len() {
        let contexts: Vec<NegotiateContext> = all[..n].to_vec();
        // Behind sixteen bytes and before three others.
        let mut bytes = vec![0xeeu8; 16];
        write_list(&contexts, &mut bytes);
        let end = bytes.len();
        bytes.extend_from_slice(&[0x11, 0x22, 0x33]);
        assert_eq!(read_list(&bytes, 16, n as u16), Ok((contexts, end)));
    }
}

#[test]
fn a_list_stops_at_the_declared_count() {
    let mut bytes = Vec::new();
    write_list(&vec![preauth(), encryption(), transport()], &mut bytes);
    // The second record ends at 24 + 14.
    assert_eq!(read_list(&bytes, 0, 2), Ok((vec![preauth(), encryption()], 38)));
    assert_eq!(read_list(&bytes, 0, 1), Ok((vec![preauth()], 18)));
    assert_eq!(read_list(&bytes, 0, 0), Ok((vec![], 0)));
    assert_eq!(read_list(&bytes, 24, 1), Ok((vec![encryption()], 38)));
}

#[test]
fn unknown_records_in_a_list_are_passed_over() {
    let unknown_a = unknown_record(0x0009, &[1, 2, 3]); // 11 bytes, then 5 of padding
    let unknown_b = unknown_record(0x0100, &[0; 8]); // 16 bytes, no padding
    let mut bytes = Vec::new();
    bytes.extend_from_slice(&unknown_a);
    bytes.extend_from_slice(&[0; 5]);
    bytes.extend_from_slice(&preauth_bytes());
    bytes.extend_from_slice(&[0; 6]);
    bytes.extend_from_slice(&unknown_b);
    bytes.extend_from_slice(&unknown_a);
    bytes.extend_from_slice(&[0; 5]);
    bytes.extend_from_slice(&signing_bytes());
    bytes.extend_from_slice(&unknown_b);
    let end = bytes.len();
    bytes.extend_from_slice(&[0x77; 5]);
    assert_eq!(read_list(&bytes, 0, 6), Ok((vec![preauth(), signing()], end)));
    // Only unknown records: nothing is kept, and the cursor still moves.
    let mut only = unknown_a.clone();
    only.extend_from_slice(&[0; 5]);
    only.extend_from_slice(&unknown_b);
    assert_eq!(read_list(&only, 0, 2), Ok((vec![], 32)));
}

#[test]
fn a_list_that_ends_early_is_truncated() {
    let mut bytes = Vec::new();
    write_list(&vec![preauth(), encryption(), transport()], &mut bytes);
    assert_eq!(read_list(&bytes, 0, 4), Err(NegotiateError::TruncatedBuffer));
    assert_eq!(read_list(&bytes[..bytes.len() - 1], 0, 3), Err(NegotiateError::TruncatedBuffer));
    assert_eq!(read_list(&bytes[..20], 0, 2), Err(NegotiateError::TruncatedBuffer));
    assert_eq!(read_list(&bytes, bytes.len(), 1), Err(NegotiateError::TruncatedBuffer));
    assert_eq!(read_list(&bytes, bytes.len() + 100, 1), Err(NegotiateError::TruncatedBuffer));
    assert_eq!(read_list(&bytes, usize::MAX, 1), Err(NegotiateError::TruncatedBuffer));
    assert_eq!(read_list(&[], 0, 1), Err(NegotiateError::TruncatedBuffer));
    // A known record whose payload is too short for its fields fails the list.
    let mut broken = vec![0x02u8, 0x00, 0x02, 0x00, 0, 0, 0, 0, 0x05, 0x00];
    broken.extend_from_slice(&[0; 6]);
    broken.extend_from_slice(&transport_bytes());
    assert_eq!(read_list(&broken, 0, 2), Err(NegotiateError::TruncatedBuffer));
}

#[test]
fn the_server_answers_with_its_preferred_common_entry() {
    let server = SupportedAlgorithms::server_default();
    assert_eq!(
        preauth().response_with(&server),
        Ok(NegotiateContext::PreAuthIntegrityCapabilities {
            hash_algorithms: vec![0x0001],
            salt: vec![0xaa, 0xbb, 0xcc, 0xdd],
        })
    );
    // The client lists GCM first or last: the server's order decides.
    assert_eq!(
        encryption().response_with(&server),
        Ok(NegotiateContext::EncryptionCapabilities { ciphers: vec![0x0002] })
    );
    assert_eq!(
        NegotiateContext::EncryptionCapabilities { ciphers: vec![0x0003, 0x0001, 0x0004] }
            .response_with(&server),
        Ok(NegotiateContext::EncryptionCapabilities { ciphers: vec![0x0001] })
    );
    assert_eq!(
        compression().response_with(&server),
        Ok(NegotiateContext::CompressionCapabilities { flags: 1, algorithms: vec![0x0000] })
    );
    assert_eq!(netname().response_with(&server), Ok(netname()));
    assert_eq!(
        NegotiateContext::TransportCapabilities { flags: 0xffff_ffff }.response_with(&server),
        Ok(NegotiateContext::TransportCapabilities { flags: 1 })
    );
    assert_eq!(
        NegotiateContext::RDMATransformCapabilities { transform_ids: vec![2, 0] }
            .response_with(&server),
        Ok(NegotiateContext::RDMATransformCapabilities { transform_ids: vec![0] })
    );
    assert_eq!(
        signing().response_with(&server),
        Ok(NegotiateContext::SigningCapabilities { algorithms: vec![0x0002] })
    );
}

#[test]
fn a_context_without_a_common_entry_has_no_response() {
    let server = SupportedAlgorithms::server_default();
    let offers = vec![
        NegotiateContext::PreAuthIntegrityCapabilities { hash_algorithms: vec![2], salt: vec![1] },
        NegotiateContext::PreAuthIntegrityCapabilities { hash_algorithms: vec![], salt: vec![] },
        NegotiateContext::EncryptionCapabilities { ciphers: vec![5, 6] },
        NegotiateContext::CompressionCapabilities { flags: 0, algorithms: vec![1, 2, 3] },
        NegotiateContext::RDMATransformCapabilities { transform_ids: vec![1] },
        NegotiateContext::SigningCapabilities { algorithms: vec![] },
    ];
    for offer in offers {
        assert_eq!(offer.response_with(&server), Err(NegotiateError::NoCommonAlgorithm));
        assert_eq!(offer.response_from_existing(), None);
    }
}

#[test]
fn the_response_follows_the_table_of_the_caller() {
    let server = SupportedAlgorithms {
        hash_algorithms: vec![7, 1],
        ciphers: vec![4, 3, 2, 1],
        compression_algorithms: vec![3, 2],
        rdma_transforms: vec![],
        signing_algorithms: vec![0],
        transport_flags: 0,
    };
    assert_eq!(
        encryption().response_with(&server),
        Ok(NegotiateContext::EncryptionCapabilities { ciphers: vec![2] })
    );
    assert_eq!(
        compression().response_with(&server),
        Ok(NegotiateContext::CompressionCapabilities { flags: 1, algorithms: vec![3] })
    );
    assert_eq!(rdma().response_with(&server), Err(NegotiateError::NoCommonAlgorithm));
    assert_eq!(
        transport().response_with(&server),
        Ok(NegotiateContext::TransportCapabilities { flags: 0 })
    );
    assert_eq!(
        signing().response_with(&server),
        Ok(NegotiateContext::SigningCapabilities { algorithms: vec![0] })
    );
}

#[test]
fn the_default_table_answers_each_sample() {
    for (context, _) in samples() {
        let response = context.response_from_existing();
        if context == rdma() {
            assert_eq!(response, None);
        } else {
            let response = response.unwrap();
            assert_eq!(response.type_code(), context.type_code());
            assert!(response.is_well_formed());
        }
    }
}
