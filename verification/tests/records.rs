use ethereum_bridge::storage::{details_of_record, DetailsError, EthBridgeTransferDetails};
use ethereum_bridge::types::{BridgeTransferId, EthAddress};
use ethereum_bridge::uint::U256;

fn sample() -> EthBridgeTransferDetails {
    EthBridgeTransferDetails {
        amount: U256::from_u64(1000),
        originator: EthAddress([0x11; 20]),
        recipient: [0x22; 32],
        hash_lock: [0x33; 32],
        time_lock: U256::from_u64(100),
        state: 1,
    }
}

fn written(details: &EthBridgeTransferDetails) -> Vec<u8> {
    let mut out = Vec::new();
    details.encode(&mut out);
    out
}

fn sample_payload() -> Vec<u8> {
    let mut payload = vec![0x82, 0x03, 0xe8, 0x94];
    payload.extend_from_slice(&[0x11; 20]);
    payload.push(0xa0);
    payload.extend_from_slice(&[0x22; 32]);
    payload.push(0xa0);
    payload.extend_from_slice(&[0x33; 32]);
    payload.push(100);
    payload.push(1);
    payload
}

#[test]
fn record_is_written_as_a_list_of_its_fields() {
    let payload = sample_payload();
    assert_eq!(payload.len(), 92);
    let mut expected = vec![0xf8, 92];
    expected.extend_from_slice(&payload);
    assert_eq!(written(&sample()), expected);
}

#[test]
fn writing_appends() {
    let mut out = vec![9, 9];
    sample().encode(&mut out);
    assert_eq!(&out[..4], &[9, 9, 0xf8, 92]);
    assert_eq!(out.len(), 2 + 94);
}

#[test]
fn zero_is_written_as_an_empty_string() {
    let mut details = sample();
    details.amount = U256::from_u64(0);
    details.time_lock = U256::from_u64(0);
    details.state = 0;
    let out = written(&details);
    assert_eq!(&out[..3], &[0xf8, 90, 0x80]);
    assert_eq!(&out[90..], &[0x80, 0x80]);
    assert_eq!(EthBridgeTransferDetails::decode(&out), Ok(details));
}

#[test]
fn record_reads_back() {
    let details = sample();
    assert_eq!(EthBridgeTransferDetails::decode(&written(&details)), Ok(details));
}

#[test]
fn largest_record_reads_back() {
    let details = EthBridgeTransferDetails {
        amount: U256([0xff; 32]),
        originator: EthAddress([0xff; 20]),
        recipient: [0; 32],
        hash_lock: [0xff; 32],
        time_lock: U256([0x80; 32]),
        state: 0xff,
    };
    let out = written(&details);
    assert_eq!(out.len(), 2 + 155);
    assert_eq!(EthBridgeTransferDetails::decode(&out), Ok(details));
}

#[test]
fn what_follows_a_record_is_ignored() {
    let details = sample();
    let mut out = written(&details);
    out.extend_from_slice(&[1, 2, 3]);
    assert_eq!(EthBridgeTransferDetails::decode(&out), Ok(details));
}

#[test]
fn nothing_is_no_record() {
    assert_eq!(
        EthBridgeTransferDetails::decode(&[]),
        Err(DetailsError::Rlp(alloy_rlp::Error::InputTooShort))
    );
}

#[test]
fn string_is_no_record() {
    assert_eq!(
        EthBridgeTransferDetails::decode(&[0x83, 1, 2, 3]),
        Err(DetailsError::UnexpectedString)
    );
    assert_eq!(
        EthBridgeTransferDetails::decode(&[0x05]),
        Err(DetailsError::UnexpectedString)
    );
}

#[test]
fn list_that_is_longer_than_its_fields_is_no_record() {
    let mut buf = vec![0xf8, 93];
    buf.extend_from_slice(&sample_payload());
    buf.push(7);
    assert_eq!(
        EthBridgeTransferDetails::decode(&buf),
        Err(DetailsError::ListLengthMismatch { expected: 93, got: 92 })
    );
}

#[test]
fn list_that_is_shorter_than_its_fields_is_no_record() {
    let mut buf = vec![0xf8, 91];
    buf.extend_from_slice(&sample_payload());
    assert_eq!(
        EthBridgeTransferDetails::decode(&buf),
        Err(DetailsError::ListLengthMismatch { expected: 91, got: 92 })
    );
}

#[test]
fn header_with_a_short_length_in_the_long_form_is_refused() {
    assert_eq!(
        EthBridgeTransferDetails::decode(&[0xf8, 3, 1, 2, 3]),
        Err(DetailsError::Rlp(alloy_rlp::Error::NonCanonicalSize))
    );
}

#[test]
fn amount_with_a_leading_zero_is_refused() {
    let mut buf = vec![0xf8, 92];
    buf.extend_from_slice(&sample_payload());
    buf[3] = 0;
    assert_eq!(
        EthBridgeTransferDetails::decode(&buf),
        Err(DetailsError::Rlp(alloy_rlp::Error::LeadingZero))
    );
}

#[test]
fn amount_of_more_than_32_bytes_is_refused() {
    let mut payload = vec![0xa1];
    payload.extend_from_slice(&[1; 33]);
    payload.extend_from_slice(&sample_payload()[3..]);
    let mut buf = vec![0xf8, payload.len() as u8];
    buf.extend_from_slice(&payload);
    assert_eq!(
        EthBridgeTransferDetails::decode(&buf),
        Err(DetailsError::Rlp(alloy_rlp::Error::Overflow))
    );
}

#[test]
fn originator_of_another_length_is_refused() {
    let mut payload = vec![0x82, 0x03, 0xe8, 0x93];
    payload.extend_from_slice(&[0x11; 19]);
    payload.extend_from_slice(&sample_payload()[24..]);
    let mut buf = vec![0xf8, payload.len() as u8];
    buf.extend_from_slice(&payload);
    assert_eq!(
        EthBridgeTransferDetails::decode(&buf),
        Err(DetailsError::Rlp(alloy_rlp::Error::UnexpectedLength))
    );
}

#[test]
fn state_of_two_bytes_is_refused() {
    let mut payload = sample_payload();
    payload.pop();
    payload.extend_from_slice(&[0x82, 1, 0]);
    let mut buf = vec![0xf8, payload.len() as u8];
    buf.extend_from_slice(&payload);
    assert_eq!(
        EthBridgeTransferDetails::decode(&buf),
        Err(DetailsError::Rlp(alloy_rlp::Error::Overflow))
    );
}

#[test]
fn no_storage_word_holds_a_record() {
    assert!(EthBridgeTransferDetails::decode(&[0; 32]).is_err());
    assert!(EthBridgeTransferDetails::decode(&[0xff; 32]).is_err());
    let mut word = [0u8; 32];
    word.copy_from_slice(&written(&sample())[..32]);
    assert_eq!(
        EthBridgeTransferDetails::decode(&word),
        Err(DetailsError::Rlp(alloy_rlp::Error::InputTooShort))
    );
}

#[test]
fn details_show_the_record() {
    let details = details_of_record(BridgeTransferId([7; 32]), &sample());
    assert_eq!(details.bridge_transfer_id.0, [7; 32]);
    assert_eq!(details.initiator_address.0, EthAddress([0x11; 20]));
    assert_eq!(details.recipient_address.0, vec![0x22; 32]);
    assert_eq!(details.hash_lock.0, [0x33; 32]);
    assert_eq!(details.time_lock.0, 100);
    assert_eq!(details.amount.0, 1000);
}

#[test]
fn large_numbers_are_cut_to_64_bits() {
    let mut record = sample();
    let mut word = [0u8; 32];
    word[23] = 1;
    word[31] = 5;
    record.amount = U256(word);
    record.time_lock = U256([0xff; 32]);
    let details = details_of_record(BridgeTransferId([7; 32]), &record);
    assert_eq!(details.amount.0, 5);
    assert_eq!(details.time_lock.0, u64::MAX);
}

#[test]
fn words_and_integers() {
    let mut expected = [0u8; 32];
    expected[30] = 0x03;
    expected[31] = 0xe8;
    assert_eq!(U256::from_u64(1000).0, expected);
    assert_eq!(U256::from_u64(u64::MAX).to_u64(), Some(u64::MAX));
    assert_eq!(U256::from_u64(1000).wrapping_to_u64(), 1000);
    let mut large = [0u8; 32];
    large[23] = 1;
    assert_eq!(U256(large).to_u64(), None);
    assert_eq!(U256(large).wrapping_to_u64(), 0);
}
