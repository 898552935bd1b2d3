use alloy_primitives::{Address, B256};
use ethereum_bridge::events::{
    convert_log_to_event, decode_log_data, initiated_event, EventSignatures, Log, LogError, Token,
    ValueType,
};
use ethereum_bridge::monitoring::{channel_event, event_filter, poll_next, watched_address, Poll};
use ethereum_bridge::types::{
    Amount, BridgeContractCounterpartyError, BridgeContractInitiatorError,
    BridgeContractInitiatorEvent, BridgeTransferDetails, BridgeTransferId, EthAddress, EthHash,
    HashLock, InitiatorAddress, RecipientAddress, TimeLock,
};
use ethereum_bridge::uint::U256;
use ethereum_bridge::{AbstractBlockainEvent, EthInitiatorError, MoveCounterpartyError};

fn signatures() -> EventSignatures {
    EventSignatures { initiated: [1; 32], completed: [2; 32], refunded: [3; 32] }
}

fn tokens() -> Vec<Token> {
    vec![
        Token::FixedBytes(vec![10; 32]),
        Token::Address([11; 20]),
        Token::Address([12; 20]),
        Token::FixedBytes(vec![13; 32]),
        Token::Uint(U256::from_u64(100)),
        Token::Uint(U256::from_u64(1000)),
    ]
}

fn initiated_data() -> Vec<u8> {
    let mut data = vec![0x11; 32];
    data.extend_from_slice(&[0; 12]);
    data.extend_from_slice(&[0x22; 20]);
    data.extend_from_slice(&[0; 12]);
    data.extend_from_slice(&[0x33; 20]);
    data.extend_from_slice(&[0x44; 32]);
    data.extend_from_slice(&U256::from_u64(100).0);
    data.extend_from_slice(&U256::from_u64(1000).0);
    data
}

fn initiated() -> BridgeContractInitiatorEvent<EthAddress, EthHash> {
    BridgeContractInitiatorEvent::Initiated(BridgeTransferDetails {
        bridge_transfer_id: BridgeTransferId([0x11; 32]),
        initiator_address: InitiatorAddress(EthAddress([0x22; 20])),
        recipient_address: RecipientAddress(vec![0x33; 20]),
        hash_lock: HashLock([0x44; 32]),
        time_lock: TimeLock(100),
        amount: Amount(1000),
    })
}

fn word(text: &str) -> [u8; 32] {
    let mut bytes = [0u8; 32];
    for i in 0..32 {
        bytes[i] = u8::from_str_radix(&text[2 * i..2 * i + 2], 16).unwrap();
    }
    bytes
}

#[test]
fn completed_log_names_its_transfer() {
    let log = Log { topics: vec![[2; 32], [9; 32]], data: vec![1, 2, 3] };
    assert!(matches!(
        convert_log_to_event::<EthHash>(&signatures(), &log),
        Ok(BridgeContractInitiatorEvent::Completed(BridgeTransferId(id))) if id == [9; 32]
    ));
}

#[test]
fn refunded_log_names_its_transfer() {
    let log = Log { topics: vec![[3; 32], [9; 32], [8; 32]], data: vec![] };
    assert!(matches!(
        convert_log_to_event::<EthHash>(&signatures(), &log),
        Ok(BridgeContractInitiatorEvent::Refunded(BridgeTransferId(id))) if id == [9; 32]
    ));
}

#[derive(Debug, PartialEq)]
struct Reversed([u8; 32]);

impl From<[u8; 32]> for Reversed {
    fn from(mut bytes: [u8; 32]) -> Self {
        bytes.reverse();
        Reversed(bytes)
    }
}

#[test]
fn hashes_are_made_by_their_type() {
    let mut id = [0; 32];
    id[0] = 9;
    let mut reversed = [0; 32];
    reversed[31] = 9;
    let log = Log { topics: vec![[2; 32], id], data: vec![] };
    assert_eq!(
        convert_log_to_event::<Reversed>(&signatures(), &log).unwrap(),
        BridgeContractInitiatorEvent::Completed(BridgeTransferId(Reversed(reversed)))
    );
    assert_eq!(
        convert_log_to_event::<EthHash>(&signatures(), &log).unwrap(),
        BridgeContractInitiatorEvent::Completed(BridgeTransferId(id))
    );
    let mut data = initiated_data();
    data[0] = 7;
    data[127] = 8;
    let log = Log { topics: vec![[1; 32]], data };
    let mut id = [0x11; 32];
    id[31] = 7;
    let mut lock = [0x44; 32];
    lock[0] = 8;
    assert!(matches!(
        convert_log_to_event::<Reversed>(&signatures(), &log),
        Ok(BridgeContractInitiatorEvent::Initiated(details))
            if details.bridge_transfer_id.0 == Reversed(id)
                && details.hash_lock.0 == Reversed(lock)
    ));
}

#[test]
fn earlier_signature_goes_first() {
    let same = EventSignatures { initiated: [1; 32], completed: [2; 32], refunded: [2; 32] };
    let log = Log { topics: vec![[2; 32], [9; 32]], data: vec![] };
    assert!(matches!(
        convert_log_to_event::<EthHash>(&same, &log),
        Ok(BridgeContractInitiatorEvent::Completed(_))
    ));
}

#[test]
fn initiated_log_describes_its_transfer() {
    let log = Log { topics: vec![[1; 32]], data: initiated_data() };
    assert_eq!(convert_log_to_event::<EthHash>(&signatures(), &log).unwrap(), initiated());
    let named = Log { topics: vec![[1; 32], [9; 32]], data: initiated_data() };
    assert_eq!(convert_log_to_event::<EthHash>(&signatures(), &named).unwrap(), initiated());
}

#[test]
fn padding_and_trailing_data_do_not_matter() {
    let mut data = initiated_data();
    for i in 0..12 {
        data[32 + i] = 0xff;
        data[64 + i] = 0xff;
    }
    data.extend_from_slice(&[7; 40]);
    let log = Log { topics: vec![[1; 32]], data };
    assert_eq!(convert_log_to_event::<EthHash>(&signatures(), &log).unwrap(), initiated());
}

#[test]
fn initiated_log_with_too_little_data_is_refused() {
    for len in [0, 1, 32, 191] {
        let mut data = initiated_data();
        data.truncate(len);
        let log = Log { topics: vec![[1; 32], [9; 32]], data };
        assert!(matches!(
            convert_log_to_event::<EthHash>(&signatures(), &log),
            Err(LogError::UnableToParse(_))
        ));
    }
}

#[test]
fn initiated_log_with_too_large_a_number_is_refused() {
    let mut data = initiated_data();
    data[160] = 1;
    let log = Log { topics: vec![[1; 32]], data: data.clone() };
    assert!(matches!(
        convert_log_to_event::<EthHash>(&signatures(), &log),
        Err(LogError::NumberTooLarge(5))
    ));
    data[128 + 23] = 1;
    let log = Log { topics: vec![[1; 32]], data };
    assert!(matches!(
        convert_log_to_event::<EthHash>(&signatures(), &log),
        Err(LogError::NumberTooLarge(4))
    ));
}

#[test]
fn largest_numbers_are_kept() {
    let mut data = initiated_data();
    for i in 24..32 {
        data[128 + i] = 0xff;
        data[160 + i] = 0xff;
    }
    let log = Log { topics: vec![[1; 32]], data };
    assert!(matches!(
        convert_log_to_event::<EthHash>(&signatures(), &log),
        Ok(BridgeContractInitiatorEvent::Initiated(details))
            if details.time_lock == TimeLock(u64::MAX) && details.amount == Amount(u64::MAX)
    ));
}

#[test]
fn initiated_signature_goes_before_the_others() {
    let same = EventSignatures { initiated: [2; 32], completed: [2; 32], refunded: [2; 32] };
    let log = Log { topics: vec![[2; 32], [9; 32]], data: initiated_data() };
    assert_eq!(convert_log_to_event::<EthHash>(&same, &log).unwrap(), initiated());
}

#[test]
fn log_without_topics_is_refused() {
    let log = Log { topics: vec![], data: vec![] };
    assert!(matches!(
        convert_log_to_event::<EthHash>(&signatures(), &log),
        Err(LogError::MissingEventType)
    ));
}

#[test]
fn log_with_an_unknown_topic_is_refused() {
    let log = Log { topics: vec![[4; 32], [9; 32]], data: vec![] };
    assert!(matches!(
        convert_log_to_event::<EthHash>(&signatures(), &log),
        Err(LogError::UnexpectedEventType)
    ));
}

#[test]
fn log_without_a_transfer_is_refused() {
    for topic in [[2; 32], [3; 32]] {
        let log = Log { topics: vec![topic], data: vec![] };
        assert!(matches!(
            convert_log_to_event::<EthHash>(&signatures(), &log),
            Err(LogError::MissingTransferId)
        ));
    }
}

#[test]
fn data_comes_apart_into_values_of_the_given_types() {
    let params = [
        ValueType::FixedBytes(32),
        ValueType::Address,
        ValueType::Address,
        ValueType::FixedBytes(32),
        ValueType::Uint(256),
        ValueType::Uint(256),
    ];
    assert_eq!(
        decode_log_data("BridgeTransferInitiated", &initiated_data(), &params).unwrap(),
        vec![
            Token::FixedBytes(vec![0x11; 32]),
            Token::Address([0x22; 20]),
            Token::Address([0x33; 20]),
            Token::FixedBytes(vec![0x44; 32]),
            Token::Uint(U256::from_u64(100)),
            Token::Uint(U256::from_u64(1000)),
        ]
    );
}

#[test]
fn values_start_32_bytes_apart() {
    let data: Vec<u8> = (0..100).collect();
    let number: [u8; 32] = data[0..32].try_into().unwrap();
    let address: [u8; 20] = data[44..64].try_into().unwrap();
    assert_eq!(
        decode_log_data(
            "Mixed",
            &data,
            &[ValueType::Uint(8), ValueType::Address, ValueType::FixedBytes(4)]
        )
        .unwrap(),
        vec![
            Token::Uint(U256(number)),
            Token::Address(address),
            Token::FixedBytes(vec![64, 65, 66, 67]),
        ]
    );
    assert_eq!(
        decode_log_data("Wide", &data, &[ValueType::FixedBytes(40)]).unwrap(),
        vec![Token::FixedBytes(data[0..40].to_vec())]
    );
}

#[test]
fn data_that_is_too_short_is_not_taken_apart() {
    let params = [ValueType::Address, ValueType::FixedBytes(4)];
    assert!(decode_log_data("Short", &[0; 36], &params).is_ok());
    for len in [0, 31, 32, 35] {
        assert!(matches!(
            decode_log_data("Short", &vec![0; len], &params),
            Err(LogError::UnableToParse(_))
        ));
    }
}

#[test]
fn no_types_give_no_values() {
    assert_eq!(decode_log_data("Empty", &[], &[]).unwrap(), vec![]);
    assert_eq!(decode_log_data("Empty", &[1, 2], &[]).unwrap(), vec![]);
    let none = [ValueType::FixedBytes(0)];
    assert_eq!(decode_log_data("Empty", &[], &none).unwrap(), vec![Token::FixedBytes(vec![])]);
    let two = [ValueType::FixedBytes(0), ValueType::FixedBytes(0)];
    assert!(decode_log_data("Empty", &[], &two).is_err());
    assert!(decode_log_data("Empty", &[0; 32], &two).is_ok());
}

#[test]
fn six_values_describe_a_transfer() {
    let event = initiated_event::<EthHash>(&tokens()).unwrap();
    assert_eq!(
        event,
        BridgeContractInitiatorEvent::Initiated(BridgeTransferDetails {
            bridge_transfer_id: BridgeTransferId([10; 32]),
            initiator_address: InitiatorAddress(EthAddress([11; 20])),
            recipient_address: RecipientAddress(vec![12; 20]),
            hash_lock: HashLock([13; 32]),
            time_lock: TimeLock(100),
            amount: Amount(1000),
        })
    );
}

#[test]
fn value_of_another_type_is_reported() {
    for i in 0..6 {
        let mut values = tokens();
        values[i] = Token::Other;
        assert!(matches!(
            initiated_event::<EthHash>(&values),
            Err(LogError::UnexpectedToken(at)) if at == i
        ));
    }
}

#[test]
fn missing_value_is_reported() {
    for i in 0..6 {
        let mut values = tokens();
        values.truncate(i);
        assert!(matches!(
            initiated_event::<EthHash>(&values),
            Err(LogError::UnexpectedToken(at)) if at == i
        ));
    }
}

#[test]
fn first_unusable_value_is_reported() {
    let mut values = tokens();
    values[2] = Token::Other;
    values[5] = Token::Uint(U256([1; 32]));
    assert!(matches!(initiated_event::<EthHash>(&values), Err(LogError::UnexpectedToken(2))));
    values[0] = Token::FixedBytes(vec![10; 31]);
    assert!(matches!(initiated_event::<EthHash>(&values), Err(LogError::UnexpectedToken(0))));
}

#[test]
fn number_that_does_not_fit_is_reported() {
    let mut large = [0u8; 32];
    large[23] = 1;
    for i in 4..6 {
        let mut values = tokens();
        values[i] = Token::Uint(U256(large));
        assert!(matches!(
            initiated_event::<EthHash>(&values),
            Err(LogError::NumberTooLarge(at)) if at == i
        ));
        values[i] = Token::Uint(U256::from_u64(u64::MAX));
        assert!(initiated_event::<EthHash>(&values).is_ok());
    }
}

#[test]
fn filter_watches_completed_transfers_of_one_contract() {
    let filter = event_filter();
    assert_eq!(
        filter.address.iter().copied().collect::<Vec<Address>>(),
        vec!["0xf39Fd6e51aad88F6F4ce6aB8827279cffFb92266".parse::<Address>().unwrap()]
    );
    assert_eq!(Address::from(watched_address()), *filter.address.iter().next().unwrap());
    let completed =
        B256::from(word("05ddc886acde01b77731bfad1dcfb6abf529f05c28ea66556fe87429bb2789ea"));
    let initiated =
        B256::from(word("f9737d853478bc1a8675bfc6670f0d2a5390f65d84444416e3e7ad66d573ec92"));
    assert!(filter.topics[0].matches(&completed));
    assert!(!filter.topics[0].matches(&initiated));
    assert_eq!(filter.topics[0].iter().count(), 1);
    assert!(filter.topics[1].is_empty());
    assert!(filter.topics[2].is_empty());
    assert!(filter.topics[3].is_empty());
    assert_eq!(
        filter.block_option.get_from_block(),
        Some(&alloy_eips::BlockNumberOrTag::Latest)
    );
    assert_eq!(filter.block_option.get_to_block(), None);
}

#[test]
fn what_a_log_reports_goes_through_the_channel_and_out() {
    let log = Log { topics: vec![[2; 32], [9; 32]], data: vec![] };
    let sent = channel_event::<EthHash>(&signatures(), &log).unwrap();
    assert_eq!(
        sent,
        AbstractBlockainEvent::InitiatorContractEvent(Ok(BridgeContractInitiatorEvent::Completed(
            BridgeTransferId([9; 32])
        )))
    );
    assert_eq!(
        poll_next(Poll::Ready(Some(sent))),
        Poll::Ready(Some(BridgeContractInitiatorEvent::Completed(BridgeTransferId([9; 32]))))
    );
    let unknown = Log { topics: vec![[4; 32]], data: vec![] };
    assert!(matches!(
        channel_event::<EthHash>(&signatures(), &unknown),
        Err(LogError::UnexpectedEventType)
    ));
}

#[test]
fn every_event_of_the_initiator_comes_out_unchanged() {
    let initiated = initiated_event::<EthHash>(&tokens()).unwrap();
    let refunded = BridgeContractInitiatorEvent::Refunded(BridgeTransferId([5; 32]));
    for event in [initiated, refunded] {
        let sent = AbstractBlockainEvent::InitiatorContractEvent(Ok(event.clone()));
        assert_eq!(poll_next(Poll::Ready(Some(sent.clone()))), Poll::Ready(Some(event)));
    }
}

#[test]
fn everything_else_stays_inside() {
    let nothing: Poll<Option<BridgeContractInitiatorEvent<EthAddress, EthHash>>> = Poll::Pending;
    assert_eq!(poll_next(Poll::Pending), nothing);
    assert_eq!(poll_next(Poll::Ready(None)), nothing);
    assert_eq!(poll_next(Poll::Ready(Some(AbstractBlockainEvent::Noop))), nothing);
    assert_eq!(
        poll_next(Poll::Ready(Some(AbstractBlockainEvent::InitiatorContractEvent(Err(
            BridgeContractInitiatorError::GetDetailsError
        ))))),
        nothing
    );
    assert_eq!(
        poll_next(Poll::Ready(Some(AbstractBlockainEvent::CounterpartyContractEvent(Err(
            BridgeContractCounterpartyError::LockTransferError
        ))))),
        nothing
    );
}

#[test]
fn queue_is_handed_out_in_order() {
    let log = Log { topics: vec![[1; 32]], data: initiated_data() };
    let first = channel_event::<EthHash>(&signatures(), &log).unwrap();
    let refunded = BridgeContractInitiatorEvent::Refunded(BridgeTransferId([5; 32]));
    let queue = vec![
        AbstractBlockainEvent::Noop,
        first,
        AbstractBlockainEvent::InitiatorContractEvent(Err(
            BridgeContractInitiatorError::GetDetailsError,
        )),
        AbstractBlockainEvent::CounterpartyContractEvent(Err(
            BridgeContractCounterpartyError::LockTransferError,
        )),
        AbstractBlockainEvent::InitiatorContractEvent(Ok(refunded.clone())),
    ];
    let mut handed_out = vec![];
    for item in queue {
        if let Poll::Ready(Some(event)) = poll_next(Poll::Ready(Some(item))) {
            handed_out.push(event);
        }
    }
    assert_eq!(handed_out, vec![initiated(), refunded]);
}

#[test]
fn log_errors_in_words() {
    assert_eq!(LogError::MissingEventType.message(), "Expected event type in topics");
    assert_eq!(LogError::UnexpectedEventType.message(), "Unexpected event type");
    assert_eq!(LogError::MissingTransferId.message(), "Expected hash in topics");
    assert_eq!(
        LogError::UnableToParse(ethabi::Error::InvalidData).message(),
        "Unable to parse log data"
    );
    assert_eq!(LogError::UnexpectedToken(2).message(), "Unexpected value in log data");
    assert_eq!(LogError::NumberTooLarge(4).message(), "Integer overflow when casting to u64");
}

#[test]
fn errors_in_words() {
    assert_eq!(MoveCounterpartyError::TransferNotFound.message(), "Transfer not found");
    assert_eq!(
        MoveCounterpartyError::InvalidHashLockPreImage.message(),
        "Invalid hash lock pre image (secret)"
    );
    assert_eq!(
        EthInitiatorError::InitiateTransferError.message(),
        "Failed to initiate bridge transfer"
    );
    assert_eq!(EthInitiatorError::TransferNotFound.message(), "Transfer not found");
    assert_eq!(
        EthInitiatorError::InvalidHashLockPreImage.message(),
        "Invalid hash lock pre image (secret)"
    );
}
