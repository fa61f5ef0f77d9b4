use sign_core::error::{ApduError, APDU_CODE_SUCCESS};
use sign_core::eth_tx::{EthTransaction, TxVersion};
use sign_core::rlp::get_tx_rlp_len;
use sign_core::session::{cleanup_globals, HandleStatus, NftInfo, Sign};
use sign_core::sig::convert_der_to_rs;
use sign_core::ui::SignUI;

#[test]
fn rlp_decoder() {
    let data = hex::decode("02f878018402a8af41843b9aca00850d8c7b50e68303d090944a2962ac08962819a8a17661970e3c0db765565e8817addd0864728ae780c080a01e514f7fc78197c66589083cc8fd06376bae627a4080f5fb58d52d90c0df340da049b048717f215e622c93722ff5b1e38e1d1a4ab9e26a39183969a34a5f8dea75").unwrap();

    let (read, to_read) = get_tx_rlp_len(&data).expect("unable to minimally parse tx data");

    assert_eq!(read, 3);
    assert_eq!(to_read, 0x78);
}

fn sample_tx() -> Vec<u8> {
    hex::decode("02f878018402a8af41843b9aca00850d8c7b50e68303d090944a2962ac08962819a8a17661970e3c0db765565e8817addd0864728ae780c080a01e514f7fc78197c66589083cc8fd06376bae627a4080f5fb58d52d90c0df340da049b048717f215e622c93722ff5b1e38e1d1a4ab9e26a39183969a34a5f8dea75").unwrap()
}

fn sample_path() -> Vec<u8> {
    vec![
        0x05, // five components
        0x80, 0x00, 0x00, 0x2c, 0x80, 0x00, 0x00, 0x3c, 0x80, 0x00, 0x00, 0x00, 0x00, 0x00, 0x00,
        0x00, 0x00, 0x00, 0x00, 0x00,
    ]
}

fn init_payload(tx_bytes: &[u8]) -> Vec<u8> {
    let mut p = sample_path();
    p.extend_from_slice(tx_bytes);
    p
}

#[test]
fn header_recomputation_is_stable() {
    // P6-style vector: the header pair must not change as bytes are appended
    let data = sample_tx();
    let (read, to_read) = get_tx_rlp_len(&data[..5]).unwrap();
    let (read2, to_read2) = get_tx_rlp_len(&data).unwrap();
    let mut longer = data.clone();
    longer.extend_from_slice(&[0xde, 0xad, 0xbe, 0xef]);
    let (read3, to_read3) = get_tx_rlp_len(&longer).unwrap();
    assert_eq!((read, to_read), (read2, to_read2));
    assert_eq!((read, to_read), (read3, to_read3));
}

#[test]
fn single_packet_session() {
    let tx = sample_tx();
    let mut s = Sign::new();
    let status = s.handle(0x00, &init_payload(&tx)).unwrap();
    assert_eq!(status, HandleStatus::Ready);
    let (prefix, view) = s.start_sign().unwrap();
    assert_eq!(prefix, tx);
    assert_eq!(view.version, TxVersion::Eip1559);
    assert_eq!(view.chain_id_low_byte(), 0x01);
    assert_eq!(view.consumed, tx.len());
}

#[test]
fn chunked_reassembly_matches_single_packet() {
    let tx = sample_tx();
    let mut one = Sign::new();
    assert_eq!(one.handle(0x00, &init_payload(&tx)).unwrap(), HandleStatus::Ready);
    let (prefix_one, _) = one.start_sign().unwrap();

    // the same bytes split at arbitrary boundaries
    let mut many = Sign::new();
    assert_eq!(
        many.handle(0x00, &init_payload(&tx[..7])).unwrap(),
        HandleStatus::Collecting
    );
    assert_eq!(many.handle(0x80, &tx[7..50]).unwrap(), HandleStatus::Collecting);
    assert_eq!(many.handle(0x80, &tx[50..122]).unwrap(), HandleStatus::Collecting);
    assert_eq!(many.handle(0x80, &tx[122..]).unwrap(), HandleStatus::Ready);
    let (prefix_many, _) = many.start_sign().unwrap();

    assert_eq!(prefix_one, prefix_many);
}

#[test]
fn continuation_excess_bytes_are_discarded() {
    let tx = sample_tx();
    let mut s = Sign::new();
    assert_eq!(
        s.handle(0x00, &init_payload(&tx[..10])).unwrap(),
        HandleStatus::Collecting
    );
    // hand more bytes than are missing: the excess is silently dropped
    let mut overfull = tx[10..].to_vec();
    overfull.extend_from_slice(&[0xaa, 0xbb, 0xcc]);
    assert_eq!(s.handle(0x80, &overfull).unwrap(), HandleStatus::Ready);
    let (prefix, _) = s.start_sign().unwrap();
    assert_eq!(prefix, tx);
}

#[test]
fn second_init_rejected_session_untouched() {
    let tx = sample_tx();
    let mut s = Sign::new();
    assert_eq!(
        s.handle(0x00, &init_payload(&tx[..7])).unwrap(),
        HandleStatus::Collecting
    );
    // a second init while the session is live fails and alters nothing
    let err = s.handle(0x00, &init_payload(&tx)).unwrap_err();
    assert_eq!(err, ApduError::ConditionsNotSatisfied);
    // the first session still completes as if nothing happened
    assert_eq!(s.handle(0x80, &tx[7..]).unwrap(), HandleStatus::Ready);
    let (prefix, _) = s.start_sign().unwrap();
    assert_eq!(prefix, tx);
}

#[test]
fn continuation_without_session_rejected() {
    let tx = sample_tx();
    let mut s = Sign::new();
    let err = s.handle(0x80, &tx).unwrap_err();
    assert_eq!(err, ApduError::ConditionsNotSatisfied);
}

#[test]
fn unknown_packet_kind_rejected() {
    let mut s = Sign::new();
    let err = s.handle(0x40, &sample_tx()).unwrap_err();
    assert_eq!(err, ApduError::InvalidP1P2);
}

#[test]
fn malformed_path_rejected() {
    let mut s = Sign::new();
    // declared depth of 200 components cannot be backed by the payload
    let err = s.handle(0x00, &[200, 1, 2, 3]).unwrap_err();
    assert_eq!(err, ApduError::DataInvalid);
    // the session stays idle, so a proper init still succeeds
    assert_eq!(
        s.handle(0x00, &init_payload(&sample_tx())).unwrap(),
        HandleStatus::Ready
    );
}

#[test]
fn trailing_data_tolerated_by_parser() {
    let tx = sample_tx();
    let view = EthTransaction::from_bytes(&tx).unwrap();
    let mut with_trailing = tx.clone();
    with_trailing.extend_from_slice(&[0x01, 0x02, 0x03, 0x04]);
    let view2 = EthTransaction::from_bytes(&with_trailing).unwrap();
    assert_eq!(view, view2);
    assert_eq!(&with_trailing[..view2.consumed], &tx[..]);
}

fn sample_der() -> Vec<u8> {
    let mut der = vec![0x30, 68, 0x02, 32];
    der.extend_from_slice(&[0x11; 32]);
    der.push(0x02);
    der.push(32);
    der.extend_from_slice(&[0x22; 31]);
    der.push(0x02); // S ends in an even byte: parity 0
    der
}

#[test]
fn der_conversion_pads_and_strips() {
    // short R, S with a sign-disambiguation byte to strip
    let mut der = vec![0x30, 39, 0x02, 2, 0x03, 0xe8, 0x02, 33, 0x00];
    der.extend_from_slice(&[0xff; 32]);
    let (r, s) = convert_der_to_rs(&der).unwrap();
    let mut expect_r = vec![0u8; 30];
    expect_r.extend_from_slice(&[0x03, 0xe8]);
    assert_eq!(r, expect_r);
    assert_eq!(s, vec![0xff; 32]);
}

#[test]
fn der_conversion_rejects_malformed() {
    assert_eq!(
        convert_der_to_rs(&[0x31, 4, 0x02, 1, 1, 0x02]).unwrap_err(),
        ApduError::ExecutionError
    );
    let mut der = sample_der();
    der[0] = 0x2f;
    assert_eq!(convert_der_to_rs(&der).unwrap_err(), ApduError::ExecutionError);
}

#[test]
fn accept_builds_eip155_response() {
    let tx = sample_tx();
    let mut s = Sign::new();
    assert_eq!(s.handle(0x00, &init_payload(&tx)).unwrap(), HandleStatus::Ready);
    let (prefix, view) = s.start_sign().unwrap();
    assert_eq!(prefix.len(), tx.len());
    let ui = SignUI { hash: vec![0u8; 32], tx: view };
    let der = sample_der();
    let (out, code) = ui.accept(&mut s, Some(&der));
    assert_eq!(code, APDU_CODE_SUCCESS);
    assert_eq!(out.len(), 65);
    // chain id low byte 1, S parity 0: v = 0 + 2 * 1 + 35
    assert_eq!(out[0], 37);
    assert_eq!(&out[1..33], &[0x11; 32]);
    assert_eq!(&out[33..64], &[0x22; 31]);
    assert_eq!(out[64], 0x02);
    // cleanup ran: a new init succeeds
    assert_eq!(s.handle(0x00, &init_payload(&tx)).unwrap(), HandleStatus::Ready);
}

#[test]
fn accept_without_session_is_conditions_not_satisfied() {
    let tx = sample_tx();
    let view = EthTransaction::from_bytes(&tx).unwrap();
    let ui = SignUI { hash: vec![0u8; 32], tx: view };
    let mut s = Sign::new();
    let (out, code) = ui.accept(&mut s, Some(&sample_der()));
    assert_eq!(out.len(), 0);
    assert_eq!(code, ApduError::ConditionsNotSatisfied.code());
}

#[test]
fn accept_with_failed_signing_tears_down() {
    let tx = sample_tx();
    let mut s = Sign::new();
    assert_eq!(s.handle(0x00, &init_payload(&tx)).unwrap(), HandleStatus::Ready);
    let (_, view) = s.start_sign().unwrap();
    let ui = SignUI { hash: vec![0u8; 32], tx: view };
    let (out, code) = ui.accept(&mut s, None);
    assert_eq!(out.len(), 0);
    assert_eq!(code, ApduError::ExecutionError.code());
    // cleanup was total: a new session can start
    assert_eq!(s.handle(0x00, &init_payload(&tx)).unwrap(), HandleStatus::Ready);
}

#[test]
fn reject_is_idempotent() {
    let tx = sample_tx();
    let mut s = Sign::new();
    assert_eq!(s.handle(0x00, &init_payload(&tx)).unwrap(), HandleStatus::Ready);
    let (_, view) = s.start_sign().unwrap();
    let ui = SignUI { hash: vec![0u8; 32], tx: view };
    let (out, code) = ui.reject(&mut s);
    assert_eq!(out.len(), 0);
    assert_eq!(code, ApduError::CommandNotAllowed.code());
    // a second reject on the torn-down session behaves identically
    let (out2, code2) = ui.reject(&mut s);
    assert_eq!(out2.len(), 0);
    assert_eq!(code2, ApduError::CommandNotAllowed.code());
    // and nothing is left claimed
    assert_eq!(s.handle(0x00, &init_payload(&tx)).unwrap(), HandleStatus::Ready);
}

#[test]
fn cleanup_after_collecting_frees_everything() {
    let tx = sample_tx();
    let mut s = Sign::new();
    assert_eq!(
        s.handle(0x00, &init_payload(&tx[..9])).unwrap(),
        HandleStatus::Collecting
    );
    cleanup_globals(&mut s).unwrap();
    assert!(s.get_derivation_info().is_err());
    assert_eq!(s.handle(0x00, &init_payload(&tx)).unwrap(), HandleStatus::Ready);
}

#[test]
fn render_items_and_pagination() {
    let tx = sample_tx();
    let mut s = Sign::new();
    assert_eq!(s.handle(0x00, &init_payload(&tx)).unwrap(), HandleStatus::Ready);
    let (_, view) = s.start_sign().unwrap();
    let ui = SignUI { hash: vec![0u8; 32], tx: view };
    assert_eq!(ui.num_items(), 2);

    let (title, message, pages) = ui.render_item(&s, 0, 0).unwrap();
    assert_eq!(title, b"Type".to_vec());
    assert_eq!(message, b"EIP-1559".to_vec());
    assert_eq!(pages, 1);

    let hex_str = hex::encode(&tx);
    let (title1, page0, pages1) = ui.render_item(&s, 1, 0).unwrap();
    assert_eq!(title1, b"Data".to_vec());
    assert_eq!(pages1, 2);
    assert_eq!(page0, hex_str.as_bytes()[..128].to_vec());
    let (_, page1, _) = ui.render_item(&s, 1, 1).unwrap();
    assert_eq!(page1, hex_str.as_bytes()[128..].to_vec());

    assert!(ui.render_item(&s, 2, 0).is_err());
    assert!(ui.render_item(&s, 1, 2).is_err());
}

#[test]
fn derivation_info_follows_session() {
    let tx = sample_tx();
    let mut s = Sign::new();
    assert!(s.get_derivation_info().is_err());
    assert_eq!(s.handle(0x00, &init_payload(&tx)).unwrap(), HandleStatus::Ready);
    let p = s.get_derivation_info().unwrap();
    assert_eq!(
        p.components,
        vec![0x8000002c, 0x8000003c, 0x80000000, 0, 0]
    );
}

#[test]
fn nft_info_take_and_cleanup() {
    let mut s = Sign::new();
    assert!(s.take_nft_info().is_none());
    s.set_nft_info(NftInfo { contents: vec![1, 2, 3] });
    let taken = s.take_nft_info().unwrap();
    assert_eq!(taken.contents, vec![1, 2, 3]);
    assert!(s.take_nft_info().is_none());
    // cleanup clears metadata that was never taken
    s.set_nft_info(NftInfo { contents: vec![9] });
    cleanup_globals(&mut s).unwrap();
    assert!(s.take_nft_info().is_none());
}

#[test]
fn error_status_codes() {
    assert_eq!(ApduError::ExecutionError.code(), 0x6400);
    assert_eq!(ApduError::WrongLength.code(), 0x6700);
    assert_eq!(ApduError::DataInvalid.code(), 0x6A80);
    assert_eq!(ApduError::ConditionsNotSatisfied.code(), 0x6985);
    assert_eq!(ApduError::CommandNotAllowed.code(), 0x6986);
    assert_eq!(ApduError::InvalidP1P2.code(), 0x6B00);
    assert_eq!(APDU_CODE_SUCCESS, 0x9000);
}
