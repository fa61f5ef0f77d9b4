use sign_core::error::ParserError;
use sign_core::nft::NFTTransferOperation;

fn sample_input() -> Vec<u8> {
    vec![
        // Type ID
        0x00, 0x00, 0x00, 0x0d, // number of address indices:
        0x00, 0x00, 0x00, 0x02, // address index 0:
        0x00, 0x00, 0x00, 0x07, // address index 1:
        0x00, 0x00, 0x00, 0x03, // assetID:
        0x00, 0x00, 0x00, 0x0b, // groupID:
        0x00, 0x00, 0x30, 0x39, // length of payload:
        0x00, 0x00, 0x00, 0x03, // payload:
        0x43, 0x11, 0x00, // locktime:
        0x00, 0x00, 0x00, 0x00, 0x00, 0x00, 0xd4, 0x31, // threshold:
        0x00, 0x00, 0x00, 0x01, // number of addresses:
        0x00, 0x00, 0x00, 0x02, // addrs[0]:
        0x51, 0x02, 0x5c, 0x61, 0xfb, 0xcf, 0xc0, 0x78, 0xf6, 0x93, 0x34, 0xf8, 0x34, 0xbe, 0x6d,
        0xd2, 0x6d, 0x55, 0xa9, 0x55, // addrs[1]:
        0xc3, 0x34, 0x41, 0x28, 0xe0, 0x60, 0x12, 0x8e, 0xde, 0x35, 0x23, 0xa2, 0x4a, 0x46, 0x1c,
        0x89, 0x43, 0xab, 0x08, 0x59,
    ]
}

#[test]
fn parse_nft_transfer_operation() {
    let raw_input = sample_input();

    let nft_transfer_operation = NFTTransferOperation::from_bytes(&raw_input).unwrap().1;

    let address_bytes: &[[u8; 4]] = &[7_u32.to_be_bytes(), 3_u32.to_be_bytes()];

    assert_eq!(nft_transfer_operation.address_indices, address_bytes);
}

#[test]
fn nft_transfer_output_fields() {
    let raw_input = sample_input();
    let (rem, op) = NFTTransferOperation::from_bytes(&raw_input).unwrap();
    assert_eq!(rem.len(), 0);
    let out = op.nft_transfer_output;
    assert_eq!(out.asset_id, 0x0b);
    assert_eq!(out.group_id, 12345);
    assert_eq!(out.payload, &[0x43, 0x11, 0x00]);
    assert_eq!(out.locktime, 54321);
    assert_eq!(out.threshold, 1);
    assert_eq!(out.addresses.len(), 2);
    assert_eq!(
        out.addresses[0],
        [
            0x51, 0x02, 0x5c, 0x61, 0xfb, 0xcf, 0xc0, 0x78, 0xf6, 0x93, 0x34, 0xf8, 0x34, 0xbe,
            0x6d, 0xd2, 0x6d, 0x55, 0xa9, 0x55
        ]
    );
    assert_eq!(
        out.addresses[1],
        [
            0xc3, 0x34, 0x41, 0x28, 0xe0, 0x60, 0x12, 0x8e, 0xde, 0x35, 0x23, 0xa2, 0x4a, 0x46,
            0x1c, 0x89, 0x43, 0xab, 0x08, 0x59
        ]
    );
}

#[test]
fn nft_transfer_altered_tag_is_structural_error() {
    let mut raw_input = sample_input();
    raw_input[0] = 0x01;
    let r = NFTTransferOperation::from_bytes(&raw_input);
    assert_eq!(r.unwrap_err(), ParserError::UnexpectedType);
}

#[test]
fn nft_transfer_short_read_is_buffer_end() {
    let raw_input = sample_input();
    // cut inside the declared address list
    let r = NFTTransferOperation::from_bytes(&raw_input[..raw_input.len() - 5]);
    assert_eq!(r.unwrap_err(), ParserError::UnexpectedBufferEnd);
}

#[test]
fn nft_transfer_from_bytes_into_atomic() {
    let raw_input = sample_input();
    let mut out = None;
    let rem = NFTTransferOperation::from_bytes_into(&raw_input, &mut out).unwrap();
    assert_eq!(rem.len(), 0);
    assert!(out.is_some());

    let mut bad = raw_input.clone();
    bad[0] = 0x01;
    let mut out2 = None;
    assert!(NFTTransferOperation::from_bytes_into(&bad, &mut out2).is_err());
    assert!(out2.is_none());
}
