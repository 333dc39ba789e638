use smb_negotiate::context::NegotiateContext;
use smb_negotiate::context_list::read_list;
use smb_negotiate::dialect::SMBDialect;
use smb_negotiate::error::NegotiateError;
use smb_negotiate::file_time::{FileTime, UNIX_EPOCH_TICKS};
use smb_negotiate::flags::{Capabilities, SecurityMode};
use smb_negotiate::guid::Guid;
use smb_negotiate::request::SMBNegotiateRequestBody;
use smb_negotiate::response::SMBNegotiateResponseBody;
use smb_negotiate::support::SupportedAlgorithms;

fn client_guid() -> [u8; 16] {
    [0x10, 0x11, 0x12, 0x13, 0x14, 0x15, 0x16, 0x17, 0x18, 0x19, 0x1a, 0x1b, 0x1c, 0x1d, 0x1e, 0x1f]
}

fn server_guid() -> [u8; 16] {
    [0xa0, 0xa1, 0xa2, 0xa3, 0xa4, 0xa5, 0xa6, 0xa7, 0xa8, 0xa9, 0xaa, 0xab, 0xac, 0xad, 0xae, 0xaf]
}

/// The fixed part of a request and its dialect codes.
fn request_head(
    dialect_codes: &[u16],
    security_mode: u8,
    capabilities: u32,
    context_offset: u32,
    context_count: u16,
) -> Vec<u8> {
    let mut out = vec![0x24, 0x00];
    out.extend_from_slice(&(dialect_codes.len() as u16).to_le_bytes());
    out.push(security_mode);
    out.extend_from_slice(&[0, 0, 0]);
    out.extend_from_slice(&capabilities.to_le_bytes());
    out.extend_from_slice(&client_guid());
    out.extend_from_slice(&context_offset.to_le_bytes());
    out.extend_from_slice(&context_count.to_le_bytes());
    out.extend_from_slice(&[0, 0]);
    for code in dialect_codes {
        out.extend_from_slice(&code.to_le_bytes());
    }
    out
}

fn preauth() -> NegotiateContext {
    NegotiateContext::PreAuthIntegrityCapabilities {
        hash_algorithms: vec![0x0001],
        salt: vec![0xaa, 0xbb, 0xcc, 0xdd],
    }
}

fn encryption() -> NegotiateContext {
    NegotiateContext::EncryptionCapabilities { ciphers: vec![0x0001, 0x0002] }
}

/// A request that offers 2.0.2, 2.1 and 3.1.1 with two contexts, followed by
/// two bytes that do not belong to it.
fn request_with_contexts() -> Vec<u8> {
    let mut out = request_head(&[0x0202, 0x0210, 0x0311], 0x01, 0x0000_0045, 112, 2);
    assert_eq!(out.len(), 42);
    out.extend_from_slice(&[0; 6]);
    out.extend_from_slice(&preauth().as_bytes()); // 48..66
    out.extend_from_slice(&[0; 6]);
    out.extend_from_slice(&encryption().as_bytes()); // 72..86
    out.extend_from_slice(&[0xee, 0xff]);
    out
}

fn parsed(bytes: &[u8]) -> SMBNegotiateRequestBody {
    SMBNegotiateRequestBody::from_bytes(bytes).unwrap().0
}

#[test]
fn a_request_is_parsed_field_by_field() {
    let bytes = request_with_contexts();
    let (request, rest) = SMBNegotiateRequestBody::from_bytes(&bytes).unwrap();
    assert_eq!(request.security_mode(), SecurityMode::signing_enabled());
    assert_eq!(request.capabilities().bits(), 0x45);
    assert_eq!(request.client_uuid(), Guid::from_bytes(client_guid()));
    assert_eq!(
        request.dialects(),
        &vec![SMBDialect::V2_0_2, SMBDialect::V2_1_0, SMBDialect::V3_1_1]
    );
    assert_eq!(request.negotiate_contexts(), &vec![preauth(), encryption()]);
    assert_eq!(rest, &[0xee, 0xff]);
    assert!(request.is_well_formed());
    assert_eq!(SMBNegotiateRequestBody::parse(&bytes), Ok((request, 86)));
}

#[test]
fn a_parsed_request_equals_the_one_built_from_its_parts() {
    let built = SMBNegotiateRequestBody::new(
        SecurityMode::signing_enabled(),
        Capabilities::from_bits_truncate(0x45),
        Guid::from_bytes(client_guid()),
        vec![SMBDialect::V2_0_2, SMBDialect::V2_1_0, SMBDialect::V3_1_1],
        vec![preauth(), encryption()],
    );
    assert_eq!(parsed(&request_with_contexts()), built);
}

#[test]
fn a_buffer_shorter_than_37_bytes_yields_no_request() {
    let bytes = request_with_contexts();
    for len in 0..37 {
        assert_eq!(SMBNegotiateRequestBody::from_bytes(&bytes[..len]), None);
        assert_eq!(
            SMBNegotiateRequestBody::parse(&bytes[..len]),
            Err(NegotiateError::TruncatedBuffer)
        );
    }
    let zeros = [0u8; 36];
    assert_eq!(SMBNegotiateRequestBody::from_bytes(&zeros), None);
    assert!(SMBNegotiateRequestBody::from_bytes(&[0u8; 37]).is_some());
}

#[test]
fn a_request_without_dialects_is_parsed() {
    let (request, rest) = SMBNegotiateRequestBody::from_bytes(&[0u8; 37]).unwrap();
    assert_eq!(request.dialects(), &vec![]);
    assert_eq!(request.negotiate_contexts(), &vec![]);
    assert_eq!(request.security_mode(), SecurityMode::empty());
    assert_eq!(request.client_uuid(), Guid::from_bytes([0; 16]));
    assert_eq!(rest, &[0u8]);
}

#[test]
fn an_unknown_dialect_code_is_dropped_and_takes_two_bytes() {
    let mut with_unknown = request_head(&[0x0202, 0x9999, 0x0300], 0, 0, 0, 0);
    with_unknown.extend_from_slice(&[0x01, 0x02, 0x03]);
    let (request, rest) = SMBNegotiateRequestBody::from_bytes(&with_unknown).unwrap();
    assert_eq!(request.dialects(), &vec![SMBDialect::V2_0_2, SMBDialect::V3_0_0]);
    assert_eq!(rest, &[0x01, 0x02, 0x03]);
    assert_eq!(with_unknown.len() - rest.len(), 36 + 3 * 2);

    let mut without = request_head(&[0x0202, 0x0300], 0, 0, 0, 0);
    without.extend_from_slice(&[0x01, 0x02, 0x03]);
    let (plain, plain_rest) = SMBNegotiateRequestBody::from_bytes(&without).unwrap();
    assert_eq!(plain.dialects(), request.dialects());
    assert_eq!(without.len() - plain_rest.len(), 36 + 2 * 2);
}

#[test]
fn a_request_of_unknown_dialects_only_is_parsed_as_empty() {
    let mut bytes = request_head(&[0x9999, 0x0000, 0xffff], 0, 0, 0, 0);
    bytes.push(0x5a);
    let (request, rest) = SMBNegotiateRequestBody::from_bytes(&bytes).unwrap();
    assert_eq!(request.dialects(), &vec![]);
    assert_eq!(rest, &[0x5a]);
    assert_eq!(SMBNegotiateResponseBody::from_request(request, vec![]), None);
}

#[test]
fn unknown_bits_of_the_request_are_dropped() {
    let mut bytes = request_head(&[0x0210], 0xfe, 0xffff_ff80, 0, 0);
    bytes.push(0);
    let request = parsed(&bytes);
    assert_eq!(request.security_mode().bits(), 0x02);
    assert_eq!(request.capabilities().bits(), 0);
    let mut bytes = request_head(&[0x0210], 0xff, 0x1234_567f, 0, 0);
    bytes.push(0);
    let request = parsed(&bytes);
    assert_eq!(request.security_mode().bits(), 0x03);
    assert_eq!(request.capabilities().bits(), 0x7f);
}

#[test]
fn a_dialect_list_that_ends_early_is_truncated() {
    let bytes = request_head(&[0x0202, 0x0210, 0x0300, 0x0302], 0, 0, 0, 0);
    assert_eq!(bytes.len(), 44);
    assert!(SMBNegotiateRequestBody::from_bytes(&bytes).is_some());
    for len in 37..44 {
        assert_eq!(
            SMBNegotiateRequestBody::parse(&bytes[..len]),
            Err(NegotiateError::TruncatedBuffer)
        );
    }
    let mut huge_count = vec![0u8; 64];
    huge_count[2] = 0xff;
    huge_count[3] = 0xff;
    assert_eq!(SMBNegotiateRequestBody::from_bytes(&huge_count), None);
}

#[test]
fn contexts_are_read_only_for_the_newest_dialect() {
    // The same bytes, but 3.0.2 in place of 3.1.1: the contexts are not read.
    let mut bytes = request_with_contexts();
    bytes[40] = 0x02;
    bytes[41] = 0x03;
    let (request, rest) = SMBNegotiateRequestBody::from_bytes(&bytes).unwrap();
    assert_eq!(
        request.dialects(),
        &vec![SMBDialect::V2_0_2, SMBDialect::V2_1_0, SMBDialect::V3_0_2]
    );
    assert_eq!(request.negotiate_contexts(), &vec![]);
    assert_eq!(rest.len(), bytes.len() - 42);
}

#[test]
fn a_context_count_of_zero_ends_the_request_behind_the_dialects() {
    let mut bytes = request_head(&[0x0311], 0, 0, 0, 0);
    bytes.extend_from_slice(&[7, 8, 9]);
    let (request, rest) = SMBNegotiateRequestBody::from_bytes(&bytes).unwrap();
    assert_eq!(request.dialects(), &vec![SMBDialect::V3_1_1]);
    assert_eq!(request.negotiate_contexts(), &vec![]);
    assert_eq!(rest, &[7, 8, 9]);
}

#[test]
fn a_context_list_outside_the_buffer_is_truncated() {
    // An offset before the body.
    let mut bytes = request_head(&[0x0311], 0, 0, 63, 1);
    bytes.extend_from_slice(&[0; 40]);
    assert_eq!(SMBNegotiateRequestBody::parse(&bytes), Err(NegotiateError::TruncatedBuffer));
    // An offset behind the end.
    let mut bytes = request_head(&[0x0311], 0, 0, 64 + 1000, 1);
    bytes.extend_from_slice(&[0; 40]);
    assert_eq!(SMBNegotiateRequestBody::parse(&bytes), Err(NegotiateError::TruncatedBuffer));
    let mut bytes = request_head(&[0x0311], 0, 0, 0xffff_ffff, 1);
    bytes.extend_from_slice(&[0; 40]);
    assert_eq!(SMBNegotiateRequestBody::parse(&bytes), Err(NegotiateError::TruncatedBuffer));
    // More contexts announced than present.
    let mut bytes = request_with_contexts();
    bytes[32] = 3;
    assert_eq!(SMBNegotiateRequestBody::parse(&bytes), Err(NegotiateError::TruncatedBuffer));
    assert_eq!(SMBNegotiateRequestBody::from_bytes(&bytes), None);
    // The last context cut short.
    let bytes = request_with_contexts();
    assert_eq!(
        SMBNegotiateRequestBody::parse(&bytes[..85]),
        Err(NegotiateError::TruncatedBuffer)
    );
}

#[test]
fn an_unknown_context_of_a_request_is_passed_over() {
    let mut bytes = request_head(&[0x0311], 0, 0, 104, 3);
    assert_eq!(bytes.len(), 38);
    bytes.extend_from_slice(&[0; 2]);
    // An unknown record of 8 + 3 bytes at 40, then 5 bytes of padding.
    bytes.extend_from_slice(&[0x99, 0x00, 0x03, 0x00, 0, 0, 0, 0, 1, 2, 3]);
    bytes.extend_from_slice(&[0; 5]);
    bytes.extend_from_slice(&preauth().as_bytes()); // 56..74
    bytes.extend_from_slice(&[0; 6]);
    bytes.extend_from_slice(&[0x00, 0x01, 0x00, 0x00, 0, 0, 0, 0]); // unknown, empty
    bytes.extend_from_slice(&[0x42]);
    let (request, rest) = SMBNegotiateRequestBody::from_bytes(&bytes).unwrap();
    assert_eq!(request.negotiate_contexts(), &vec![preauth()]);
    assert_eq!(rest, &[0x42]);
}

#[test]
fn shuffling_the_offer_selects_the_same_dialect() {
    let orders: [[u16; 4]; 6] = [
        [0x0202, 0x0210, 0x0300, 0x9999],
        [0x0300, 0x0210, 0x9999, 0x0202],
        [0x9999, 0x0300, 0x0202, 0x0210],
        [0x0210, 0x9999, 0x0202, 0x0300],
        [0x0300, 0x0202, 0x0210, 0x9999],
        [0x0202, 0x0300, 0x9999, 0x0210],
    ];
    for order in orders {
        let mut bytes = request_head(&order, 0, 0, 0, 0);
        bytes.push(0);
        let response = SMBNegotiateResponseBody::from_request(parsed(&bytes), vec![]).unwrap();
        assert_eq!(response.dialect(), SMBDialect::V3_0_0);
    }
}

#[test]
fn the_newest_offer_is_answered_with_one_context_for_each() {
    let request = parsed(&request_with_contexts());
    let response = SMBNegotiateResponseBody::from_request(request, vec![1, 2, 3]).unwrap();
    assert_eq!(response.dialect(), SMBDialect::V3_1_1);
    assert_eq!(response.dialect().code(), 0x0311);
    assert_eq!(
        response.negotiate_contexts(),
        &vec![
            NegotiateContext::PreAuthIntegrityCapabilities {
                hash_algorithms: vec![0x0001],
                salt: vec![0xaa, 0xbb, 0xcc, 0xdd],
            },
            NegotiateContext::EncryptionCapabilities { ciphers: vec![0x0002] },
        ]
    );
    let server = SupportedAlgorithms::server_default();
    assert!(server.hash_algorithms.contains(&0x0001));
    assert!(server.ciphers.contains(&0x0002));
    assert_eq!(response.security_mode().bits(), 0x03);
    assert_eq!(response.capabilities().bits(), 0x45);
    assert_eq!(response.buffer(), &vec![1, 2, 3]);
    assert_eq!(response.max_transact_size(), 65535);
    assert_eq!(response.max_read_size(), 65535);
    assert_eq!(response.max_write_size(), 65535);
    assert_eq!(response.server_start_time(), FileTime::from_unix(0));
    assert!(response.system_time().ticks() > UNIX_EPOCH_TICKS);
    assert_eq!(response.guid().as_bytes()[6] & 0xf0, 0x40);
}

#[test]
fn an_older_offer_is_answered_without_contexts() {
    let request = SMBNegotiateRequestBody::new(
        SecurityMode::empty(),
        Capabilities::empty(),
        Guid::from_bytes(client_guid()),
        vec![SMBDialect::V2_1_0, SMBDialect::V3_0_2, SMBDialect::V2_0_2],
        vec![preauth(), encryption()],
    );
    let response = SMBNegotiateResponseBody::from_request(request, vec![]).unwrap();
    assert_eq!(response.dialect(), SMBDialect::V3_0_2);
    assert_eq!(response.negotiate_contexts(), &vec![]);
    assert_eq!(response.security_mode(), SecurityMode::signing_required());
}

#[test]
fn negotiation_fails_without_a_common_dialect() {
    let request = SMBNegotiateRequestBody::new(
        SecurityMode::empty(),
        Capabilities::empty(),
        Guid::from_bytes(client_guid()),
        vec![],
        vec![preauth()],
    );
    assert_eq!(
        SMBNegotiateResponseBody::respond(
            &request,
            vec![],
            Guid::from_bytes(server_guid()),
            FileTime::from_unix(0),
            &SupportedAlgorithms::server_default(),
        ),
        Err(NegotiateError::NoCommonDialect)
    );
    assert_eq!(SMBNegotiateResponseBody::from_request(request, vec![]), None);
}

#[test]
fn negotiation_fails_without_a_common_algorithm() {
    let unanswerable = NegotiateContext::EncryptionCapabilities { ciphers: vec![9] };
    let request = SMBNegotiateRequestBody::new(
        SecurityMode::empty(),
        Capabilities::empty(),
        Guid::from_bytes(client_guid()),
        vec![SMBDialect::V3_1_1],
        vec![preauth(), unanswerable.clone(), encryption()],
    );
    assert_eq!(
        SMBNegotiateResponseBody::respond(
            &request,
            vec![],
            Guid::from_bytes(server_guid()),
            FileTime::from_unix(0),
            &SupportedAlgorithms::server_default(),
        ),
        Err(NegotiateError::NoCommonAlgorithm)
    );
    assert_eq!(SMBNegotiateResponseBody::from_request(request, vec![]), None);
    // For an older dialect the same contexts play no part.
    let older = SMBNegotiateRequestBody::new(
        SecurityMode::empty(),
        Capabilities::empty(),
        Guid::from_bytes(client_guid()),
        vec![SMBDialect::V3_0_0],
        vec![unanswerable],
    );
    assert!(SMBNegotiateResponseBody::from_request(older, vec![]).is_some());
}

#[test]
fn a_response_is_encoded_byte_for_byte() {
    let request = parsed(&request_with_contexts());
    let response = SMBNegotiateResponseBody::respond(
        &request,
        vec![0x60, 0x61, 0x62],
        Guid::from_bytes(server_guid()),
        FileTime::from_ticks(0x0102_0304_0506_0708),
        &SupportedAlgorithms::server_default(),
    )
    .unwrap();
    let mut expected = vec![
        65, 0, // structure size
        0x03, 0, // security mode: enabled and required
        0x11, 0x03, // dialect
        2, 0, // context count
    ];
    expected.extend_from_slice(&server_guid());
    expected.extend_from_slice(&[0x45, 0, 0, 0]); // capabilities
    expected.extend_from_slice(&[0xff, 0xff, 0, 0]); // max transact size
    expected.extend_from_slice(&[0xff, 0xff, 0, 0]); // max read size
    expected.extend_from_slice(&[0xff, 0xff, 0, 0]); // max write size
    expected.extend_from_slice(&[0x08, 0x07, 0x06, 0x05, 0x04, 0x03, 0x02, 0x01]);
    expected.extend_from_slice(&116_444_736_000_000_000u64.to_le_bytes());
    expected.extend_from_slice(&[128, 0]); // security buffer offset
    expected.extend_from_slice(&[3, 0]); // security buffer length
    expected.extend_from_slice(&[136, 0, 0, 0]); // context offset: 128 + 3 + 5
    assert_eq!(expected.len(), 64);
    expected.extend_from_slice(&[0x60, 0x61, 0x62]);
    expected.extend_from_slice(&[0; 5]);
    expected.extend_from_slice(&[
        0x01, 0x00, 0x0a, 0x00, 0, 0, 0, 0, 0x01, 0x00, 0x04, 0x00, 0x01, 0x00, 0xaa, 0xbb, 0xcc,
        0xdd,
    ]);
    expected.extend_from_slice(&[0; 6]);
    expected.extend_from_slice(&[0x02, 0x00, 0x04, 0x00, 0, 0, 0, 0, 0x01, 0x00, 0x02, 0x00]);
    assert_eq!(response.as_bytes(), expected);
}

/// Checks every offset that an encoded response declares against the place
/// where the section stands.
fn check_offsets(response: &SMBNegotiateResponseBody) {
    assert!(response.is_well_formed());
    let bytes = response.as_bytes();
    let token = response.buffer();
    assert_eq!(&bytes[0..2], &[65, 0]);
    let context_count = u16::from_le_bytes([bytes[6], bytes[7]]);
    let security_offset = u16::from_le_bytes([bytes[56], bytes[57]]) as usize;
    let security_len = u16::from_le_bytes([bytes[58], bytes[59]]) as usize;
    let context_offset = u32::from_le_bytes([bytes[60], bytes[61], bytes[62], bytes[63]]) as usize;
    assert_eq!(security_len, token.len());
    if token.is_empty() {
        assert_eq!(security_offset, 0);
    } else {
        assert_eq!(security_offset, 128);
        assert_eq!(&bytes[security_offset - 64..security_offset - 64 + security_len], &token[..]);
    }
    let padding = (8 - (128 + token.len()) % 8) % 8;
    assert_eq!((token.len() + padding) % 8, 0);
    assert!(bytes[64 + token.len()..64 + token.len() + padding].iter().all(|b| *b == 0));
    if response.dialect() == SMBDialect::V3_1_1 {
        assert_eq!(context_offset, 128 + token.len() + padding);
        assert_eq!(context_offset % 8, 0);
        assert_eq!(context_count as usize, response.negotiate_contexts().len());
        assert_eq!(
            read_list(&bytes, context_offset - 64, context_count),
            Ok((response.negotiate_contexts().clone(), bytes.len()))
        );
    } else {
        assert_eq!(context_offset, 0);
        assert_eq!(context_count, 0);
        assert_eq!(bytes.len(), 64 + token.len() + padding);
    }
}

#[test]
fn declared_offsets_are_where_the_sections_start() {
    let tokens: Vec<Vec<u8>> = vec![
        vec![],
        vec![0x61],
        vec![1, 2, 3, 4, 5, 6, 7],
        vec![9; 8],
        vec![7; 9],
        (0..=255).collect(),
        vec![0x5a; 65535],
    ];
    let offers = vec![
        (vec![SMBDialect::V2_0_2, SMBDialect::V3_1_1], vec![preauth(), encryption()]),
        (vec![SMBDialect::V3_1_1], vec![]),
        (
            vec![SMBDialect::V3_1_1],
            vec![
                NegotiateContext::SigningCapabilities { algorithms: vec![2, 1, 0] },
                NegotiateContext::TransportCapabilities { flags: 1 },
                preauth(),
            ],
        ),
        (vec![SMBDialect::V2_0_2, SMBDialect::V3_0_2], vec![preauth()]),
        (vec![SMBDialect::V2_1_0], vec![]),
    ];
    for token in &tokens {
        for (dialects, contexts) in &offers {
            let request = SMBNegotiateRequestBody::new(
                SecurityMode::signing_enabled(),
                Capabilities::all(),
                Guid::from_bytes(client_guid()),
                dialects.clone(),
                contexts.clone(),
            );
            let response = SMBNegotiateResponseBody::from_request(request, token.clone()).unwrap();
            check_offsets(&response);
        }
    }
}

#[test]
fn a_response_without_token_and_contexts_is_64_bytes_long() {
    let response = SMBNegotiateResponseBody::from_parts(
        SecurityMode::signing_required(),
        SMBDialect::V2_1_0,
        Guid::from_bytes(server_guid()),
        Capabilities::empty(),
        1,
        2,
        3,
        FileTime::from_ticks(4),
        FileTime::from_ticks(5),
        vec![],
        vec![],
    );
    let bytes = response.as_bytes();
    assert_eq!(bytes.len(), 64);
    assert_eq!(&bytes[0..8], &[65, 0, 2, 0, 0x10, 0x02, 0, 0]);
    assert_eq!(&bytes[8..24], &server_guid());
    assert_eq!(&bytes[24..40], &[0, 0, 0, 0, 1, 0, 0, 0, 2, 0, 0, 0, 3, 0, 0, 0]);
    assert_eq!(&bytes[40..56], &[4, 0, 0, 0, 0, 0, 0, 0, 5, 0, 0, 0, 0, 0, 0, 0]);
    assert_eq!(&bytes[56..64], &[0; 8]);
    check_offsets(&response);
}

#[test]
fn a_new_response_has_a_fresh_identifier_and_the_current_time() {
    let first = SMBNegotiateResponseBody::new(
        SecurityMode::signing_enabled(),
        SMBDialect::V3_1_1,
        Capabilities::from_bits_truncate(0x07),
        100,
        200,
        300,
        FileTime::from_unix(1_600_000_000),
        vec![0xab, 0xcd],
    );
    let second = SMBNegotiateResponseBody::new(
        SecurityMode::signing_enabled(),
        SMBDialect::V3_1_1,
        Capabilities::from_bits_truncate(0x07),
        100,
        200,
        300,
        FileTime::from_unix(1_600_000_000),
        vec![0xab, 0xcd],
    );
    assert_ne!(first.guid(), second.guid());
    assert_eq!(first.security_mode(), SecurityMode::signing_enabled());
    assert_eq!(first.dialect(), SMBDialect::V3_1_1);
    assert_eq!(first.capabilities().bits(), 0x07);
    assert_eq!(first.server_start_time(), FileTime::from_unix(1_600_000_000));
    assert_eq!(first.buffer(), &vec![0xab, 0xcd]);
    assert_eq!(first.negotiate_contexts(), &vec![]);
    assert!(first.system_time().ticks() > FileTime::from_unix(1_600_000_000).ticks());
    assert!(second.system_time().ticks() >= first.system_time().ticks());
    check_offsets(&first);
    let bytes = first.as_bytes();
    assert_eq!(&bytes[28..40], &[100, 0, 0, 0, 200, 0, 0, 0, 0x2c, 0x01, 0, 0]);
    // The newest dialect without contexts: the list is empty and starts
    // behind the padding, at the end of the body.
    assert_eq!(&bytes[60..64], &[136, 0, 0, 0]);
    assert_eq!(bytes.len(), 72);
    assert_eq!(&bytes[64..72], &[0xab, 0xcd, 0, 0, 0, 0, 0, 0]);
}

#[test]
fn a_request_with_a_context_that_is_too_long_is_not_well_formed() {
    let request = SMBNegotiateRequestBody::new(
        SecurityMode::empty(),
        Capabilities::empty(),
        Guid::from_bytes(client_guid()),
        vec![SMBDialect::V3_1_1],
        vec![preauth(), NegotiateContext::SigningCapabilities { algorithms: vec![0; 40000] }],
    );
    assert!(!request.is_well_formed());
}

#[test]
fn a_response_built_from_its_parts_equals_the_negotiated_one() {
    let request = parsed(&request_with_contexts());
    let negotiated = SMBNegotiateResponseBody::respond(
        &request,
        vec![0x60],
        Guid::from_bytes(server_guid()),
        FileTime::from_ticks(77),
        &SupportedAlgorithms::server_default(),
    )
    .unwrap();
    let built = SMBNegotiateResponseBody::from_parts(
        SecurityMode::all(),
        SMBDialect::V3_1_1,
        Guid::from_bytes(server_guid()),
        Capabilities::from_bits_truncate(0x45),
        65535,
        65535,
        65535,
        FileTime::from_ticks(77),
        FileTime::from_unix(0),
        vec![0x60],
        vec![
            preauth(),
            NegotiateContext::EncryptionCapabilities { ciphers: vec![0x0002] },
        ],
    );
    assert_eq!(built, negotiated);
    assert_eq!(built.as_bytes(), negotiated.as_bytes());
    check_offsets(&built);
}

#[test]
fn a_response_that_does_not_fit_its_fields_is_not_well_formed() {
    let build = |dialect: SMBDialect, token: Vec<u8>, contexts: Vec<NegotiateContext>| {
        SMBNegotiateResponseBody::from_parts(
            SecurityMode::empty(),
            dialect,
            Guid::from_bytes(server_guid()),
            Capabilities::empty(),
            0,
            0,
            0,
            FileTime::from_ticks(0),
            FileTime::from_ticks(0),
            token,
            contexts,
        )
    };
    assert!(build(SMBDialect::V3_1_1, vec![0; 65535], vec![preauth()]).is_well_formed());
    assert!(!build(SMBDialect::V3_1_1, vec![0; 65536], vec![preauth()]).is_well_formed());
    assert!(!build(SMBDialect::V3_0_2, vec![], vec![preauth()]).is_well_formed());
    assert!(build(SMBDialect::V3_0_2, vec![], vec![]).is_well_formed());
    let too_long = NegotiateContext::SigningCapabilities { algorithms: vec![0; 40000] };
    assert!(!build(SMBDialect::V3_1_1, vec![], vec![preauth(), too_long]).is_well_formed());
    let long_token = SMBNegotiateResponseBody::new(
        SecurityMode::empty(),
        SMBDialect::V2_1_0,
        Capabilities::empty(),
        0,
        0,
        0,
        FileTime::from_unix(0),
        vec![0; 70000],
    );
    assert!(!long_token.is_well_formed());
}

#[test]
fn a_token_on_a_boundary_is_followed_by_no_padding() {
    for (len, expected_padding) in
        [(0usize, 0usize), (1, 7), (3, 5), (7, 1), (8, 0), (9, 7), (16, 0), (65535, 1), (65528, 0)]
    {
        let request = SMBNegotiateRequestBody::new(
            SecurityMode::empty(),
            Capabilities::empty(),
            Guid::from_bytes(client_guid()),
            vec![SMBDialect::V3_1_1],
            vec![encryption()],
        );
        let response = SMBNegotiateResponseBody::from_request(request, vec![0x33; len]).unwrap();
        let bytes = response.as_bytes();
        let context_offset =
            u32::from_le_bytes([bytes[60], bytes[61], bytes[62], bytes[63]]) as usize;
        assert_eq!(context_offset, 128 + len + expected_padding);
        assert_eq!(context_offset % 8, 0);
        // The one response context: an encryption context with one cipher.
        assert_eq!(bytes.len(), 64 + len + expected_padding + 12);
        assert_eq!(
            &bytes[context_offset - 64..],
            &[0x02, 0x00, 0x04, 0x00, 0, 0, 0, 0, 0x01, 0x00, 0x02, 0x00]
        );
        check_offsets(&response);
    }
}

#[test]
fn a_request_with_contexts_close_together_is_parsed() {
    // The signing context is 16 bytes long: the transport context stands
    // right behind it, and the request ends with it.
    let signing = NegotiateContext::SigningCapabilities { algorithms: vec![1, 2, 0] };
    let transport = NegotiateContext::TransportCapabilities { flags: 1 };
    let mut bytes = request_head(&[0x0311], 0, 0, 104, 2);
    assert_eq!(bytes.len(), 38);
    bytes.extend_from_slice(&[0; 2]);
    bytes.extend_from_slice(&signing.as_bytes()); // 40..56
    bytes.extend_from_slice(&transport.as_bytes()); // 56..68
    let (request, rest) = SMBNegotiateRequestBody::from_bytes(&bytes).unwrap();
    assert_eq!(request.negotiate_contexts(), &vec![signing, transport]);
    assert_eq!(rest, &[] as &[u8]);
}
