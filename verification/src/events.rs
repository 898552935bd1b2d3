//! From the logs of the initiating contract to the events of the bridge.
use vstd::prelude::*;

use crate::types::{
    Amount, BridgeContractInitiatorEvent, BridgeTransferDetails, BridgeTransferId, EthAddress,
    EthHash, HashLock, InitiatorAddress, RecipientAddress, TimeLock,
};
use crate::types::vec_to_array;
use crate::uint;
use crate::uint::same_bytes;
use crate::uint::U256;

verus! {

/// A log entry: what it is found by, and what it holds.
#[derive(Clone, Debug, PartialEq, Eq)]
pub struct Log {
    pub topics: Vec<[u8; 32]>,
    pub data: Vec<u8>,
}

/// The first topics by which the events of the contract are told apart.
#[derive(Clone, Copy, Debug, PartialEq, Eq)]
pub struct EventSignatures {
    pub initiated: [u8; 32],
    pub completed: [u8; 32],
    pub refunded: [u8; 32],
}

/// The type of a value in the data of a log.
#[derive(Clone, Copy, Debug, PartialEq, Eq)]
pub enum ValueType {
    Address,
    /// So many bytes.
    FixedBytes(usize),
    /// A number of so many bits.
    Uint(usize),
}

/// A value from the data of a log.
#[derive(Clone, Debug, PartialEq, Eq)]
pub enum Token {
    Address([u8; 20]),
    FixedBytes(Vec<u8>),
    Uint(U256),
    /// A value of any other type.
    Other,
}

/// Why a log is no event.
#[derive(Debug)]
pub enum LogError {
    /// The log has no topics.
    MissingEventType,
    /// The first topic is none of the known ones.
    UnexpectedEventType,
    /// The log names no transfer.
    MissingTransferId,
    /// The data of the log could not be taken apart.
    UnableToParse(ethabi::Error),
    /// The value in this place is missing, or is of another type.
    UnexpectedToken(usize),
    /// The number in this place does not fit in 64 bits.
    NumberTooLarge(usize),
}

impl LogError {
    /// The error in words.
    pub open spec fn words(self) -> Seq<char> {
        match self {
            LogError::MissingEventType => "Expected event type in topics"@,
            LogError::UnexpectedEventType => "Unexpected event type"@,
            LogError::MissingTransferId => "Expected hash in topics"@,
            LogError::UnableToParse(_) => "Unable to parse log data"@,
            LogError::UnexpectedToken(_) => "Unexpected value in log data"@,
            LogError::NumberTooLarge(_) => "Integer overflow when casting to u64"@,
        }
    }

    /// The error in words.
    pub fn message(&self) -> (text: String)
        ensures
            text@ == self.words(),
            *self is MissingEventType ==> text@ == "Expected event type in topics"@,
            *self is UnexpectedEventType ==> text@ == "Unexpected event type"@,
            *self is MissingTransferId ==> text@ == "Expected hash in topics"@,
            *self is UnableToParse ==> text@ == "Unable to parse log data"@,
            *self is UnexpectedToken ==> text@ == "Unexpected value in log data"@,
            *self is NumberTooLarge ==> text@ == "Integer overflow when casting to u64"@,
    {
        match self {
            LogError::MissingEventType => "Expected event type in topics".to_owned(),
            LogError::UnexpectedEventType => "Unexpected event type".to_owned(),
            LogError::MissingTransferId => "Expected hash in topics".to_owned(),
            LogError::UnableToParse(_) => "Unable to parse log data".to_owned(),
            LogError::UnexpectedToken(_) => "Unexpected value in log data".to_owned(),
            LogError::NumberTooLarge(_) => "Integer overflow when casting to u64".to_owned(),
        }
    }
}

/// The error that `ethabi` reports; nothing in this crate looks inside it.
#[verifier::external_type_specification]
#[verifier::external_body]
pub struct ExEthabiError(ethabi::Error);

/// How many bytes a value of this type is read from.
pub open spec fn value_len(kind: ValueType) -> int {
    match kind {
        ValueType::FixedBytes(size) => size as int,
        _ => 32,
    }
}

/// `data` is long enough for values of the types `params`, which start 32 bytes apart.
pub open spec fn fits(params: Seq<ValueType>, data: Seq<u8>) -> bool {
    forall|i: int|
        0 <= i < params.len() ==> 32 * i + value_len(#[trigger] params[i]) <= data.len()
}

/// `token` is the value of type `kind` that starts at `at`: bytes stand at the front of their
/// 32 bytes, an address at the back, and a number takes them all.
pub open spec fn holds_value(kind: ValueType, data: Seq<u8>, at: int, token: Token) -> bool {
    match kind {
        ValueType::Address => token matches Token::Address(bytes) && bytes@ == data.subrange(
            at + 12,
            at + 32,
        ),
        ValueType::FixedBytes(size) => token matches Token::FixedBytes(bytes) && bytes@
            == data.subrange(at, at + size),
        ValueType::Uint(_) => token matches Token::Uint(number) && number.0@ == data.subrange(
            at,
            at + 32,
        ),
    }
}

/// `tokens` are the values of the types `params` that `data` holds, in order.
pub open spec fn holds_values(
    params: Seq<ValueType>,
    data: Seq<u8>,
    tokens: Seq<Token>,
) -> bool {
    &&& tokens.len() == params.len()
    &&& forall|i: int|
        0 <= i < params.len() ==> holds_value(params[i], data, 32 * i, #[trigger] tokens[i])
}

/// No size in `params` is so large that a place in `data` plus the size leaves `usize`.
pub open spec fn sizes_in_reach(params: Seq<ValueType>) -> bool {
    forall|i: int| 0 <= i < params.len() ==> value_len(#[trigger] params[i]) <= usize::MAX / 4
}

/// Calls `ethabi::decode`: it succeeds exactly where `data` is long enough for values of the
/// given types, and gives those, one for each type. What padding holds, and what follows the
/// last value, does not matter.
#[verifier::external_body]
fn abi_decode(params: &[ValueType], data: &[u8]) -> (r: Result<Vec<Token>, ethabi::Error>)
    requires
        sizes_in_reach(params@),
    ensures
        match r {
            Ok(tokens) => fits(params@, data@) && holds_values(params@, data@, tokens@),
            Err(_) => !fits(params@, data@),
        },
{
    let kinds = params.iter().map(|param| match param {
        ValueType::Address => ethabi::ParamType::Address,
        ValueType::FixedBytes(size) => ethabi::ParamType::FixedBytes(*size),
        ValueType::Uint(bits) => ethabi::ParamType::Uint(*bits),
    }).collect::<Vec<_>>();
    let tokens = ethabi::decode(&kinds, data)?;
    Ok(tokens.into_iter().map(|token| match token {
        ethabi::Token::Address(address) => Token::Address(address.0),
        ethabi::Token::FixedBytes(bytes) => Token::FixedBytes(bytes),
        ethabi::Token::Uint(number) => Token::Uint(U256(number.into())),
        _ => Token::Other,
    }).collect())
}

/// Takes the data of a log apart into values of the given types, none of which is indexed.
///
/// The values depend on the data and the types alone, not on the name of the event.
pub fn decode_log_data(_name: &str, data: &[u8], params: &[ValueType]) -> (r: Result<
    Vec<Token>,
    LogError,
>)
    requires
        sizes_in_reach(params@),
    ensures
        match r {
            Ok(tokens) => fits(params@, data@) && holds_values(params@, data@, tokens@),
            Err(LogError::UnableToParse(_)) => !fits(params@, data@),
            Err(_) => false,
        },
{
    match abi_decode(params, data) {
        Ok(tokens) => Ok(tokens),
        Err(e) => Err(LogError::UnableToParse(e)),
    }
}

/// Specifies the conversion of a value into its own type, `impl From<T> for T`: it gives the
/// value back unchanged.
pub assume_specification<Value>[ <Value as core::convert::From<Value>>::from ](value: Value) -> (r:
    Value)
    ensures
        r == value,
;

/// `hash` is what `From` makes of the 32 bytes `bytes`.
pub open spec fn is_hash_of<H: From<[u8; 32]>>(bytes: Seq<u8>, hash: H) -> bool {
    exists|array: [u8; 32]|
        array@ == bytes && #[trigger] call_ensures(<H as From<[u8; 32]>>::from, (array,), hash)
}

/// What `From` makes of 32 bytes depends on the bytes alone.
pub open spec fn hashes_are_settled<H: From<[u8; 32]>>() -> bool {
    forall|bytes: Seq<u8>, first: H, second: H|
        #[trigger] is_hash_of(bytes, first) && #[trigger] is_hash_of(bytes, second) ==> first
            == second
}

/// A hash that is held as its bytes is those bytes, so it is settled by them.
pub proof fn law_plain_hashes_are_their_bytes()
    ensures
        forall|bytes: Seq<u8>, hash: EthHash| #[trigger]
            is_hash_of(bytes, hash) ==> hash@ == bytes,
        hashes_are_settled::<EthHash>(),
{
    assert forall|bytes: Seq<u8>, first: EthHash, second: EthHash| #[trigger]
        is_hash_of(bytes, first) && #[trigger] is_hash_of(bytes, second) implies first
        == second by {
        assert(first =~= second);
    }
}

/// The value in place `i` is there and has the type that stands there.
pub open spec fn has_type(tokens: Seq<Token>, i: int) -> bool {
    &&& 0 <= i < tokens.len()
    &&& if i == 0 || i == 3 {
        tokens[i] matches Token::FixedBytes(bytes) && bytes@.len() == 32
    } else if i == 1 || i == 2 {
        tokens[i] is Address
    } else {
        tokens[i] is Uint
    }
}

/// The value in place `i` can be used: it has the right type and, if it is a number, fits in
/// 64 bits.
pub open spec fn is_usable(tokens: Seq<Token>, i: int) -> bool {
    &&& has_type(tokens, i)
    &&& tokens[i] matches Token::Uint(n) ==> n@ <= u64::MAX
}

/// `details` is the transfer that six usable values describe.
pub open spec fn shows_tokens<H: From<[u8; 32]>>(
    details: BridgeTransferDetails<EthAddress, H>,
    tokens: Seq<Token>,
) -> bool {
    &&& is_hash_of(tokens[0]->FixedBytes_0@, details.bridge_transfer_id.0)
    &&& details.initiator_address.0.0 == tokens[1]->Address_0
    &&& details.recipient_address.0@ == tokens[2]->Address_0@
    &&& is_hash_of(tokens[3]->FixedBytes_0@, details.hash_lock.0)
    &&& details.time_lock.0 as nat == tokens[4]->Uint_0@
    &&& details.amount.0 as nat == tokens[5]->Uint_0@
}

/// The 32 bytes in place `i`.
fn hash_token(tokens: &Vec<Token>, i: usize) -> (r: Result<[u8; 32], LogError>)
    requires
        i == 0 || i == 3,
    ensures
        match r {
            Ok(bytes) => is_usable(tokens@, i as int) && bytes@ == tokens@[i as int]->FixedBytes_0@,
            Err(LogError::UnexpectedToken(at)) => at == i && !has_type(tokens@, i as int),
            Err(_) => false,
        },
{
    if i >= tokens.len() {
        return Err(LogError::UnexpectedToken(i));
    }
    match &tokens[i] {
        Token::FixedBytes(bytes) => match vec_to_array(vstd::slice::slice_to_vec(bytes.as_slice())) {
            Ok(array) => Ok(array),
            Err(_) => Err(LogError::UnexpectedToken(i)),
        },
        _ => Err(LogError::UnexpectedToken(i)),
    }
}

/// The address in place `i`.
fn address_token(tokens: &Vec<Token>, i: usize) -> (r: Result<[u8; 20], LogError>)
    requires
        i == 1 || i == 2,
    ensures
        match r {
            Ok(bytes) => is_usable(tokens@, i as int) && bytes == tokens@[i as int]->Address_0,
            Err(LogError::UnexpectedToken(at)) => at == i && !has_type(tokens@, i as int),
            Err(_) => false,
        },
{
    if i >= tokens.len() {
        return Err(LogError::UnexpectedToken(i));
    }
    match &tokens[i] {
        Token::Address(bytes) => Ok(*bytes),
        _ => Err(LogError::UnexpectedToken(i)),
    }
}

/// The number in place `i`.
fn number_token(tokens: &Vec<Token>, i: usize) -> (r: Result<u64, LogError>)
    requires
        i == 4 || i == 5,
    ensures
        match r {
            Ok(n) => is_usable(tokens@, i as int) && n as nat == tokens@[i as int]->Uint_0@,
            Err(LogError::UnexpectedToken(at)) => at == i && !has_type(tokens@, i as int),
            Err(LogError::NumberTooLarge(at)) => at == i && has_type(tokens@, i as int)
                && !is_usable(tokens@, i as int),
            Err(_) => false,
        },
{
    if i >= tokens.len() {
        return Err(LogError::UnexpectedToken(i));
    }
    match &tokens[i] {
        Token::Uint(n) => match n.to_u64() {
            Some(value) => Ok(value),
            None => Err(LogError::NumberTooLarge(i)),
        },
        _ => Err(LogError::UnexpectedToken(i)),
    }
}

/// The event that a transfer has been initiated, from the six values in the data of its log.
///
/// The values are looked at in order, and the first that cannot be used is reported.
pub fn initiated_event<H: From<[u8; 32]>>(tokens: &Vec<Token>) -> (r: Result<
    BridgeContractInitiatorEvent<EthAddress, H>,
    LogError,
>)
    ensures
        match r {
            Ok(event) => {
                &&& forall|i: int| 0 <= i < 6 ==> #[trigger] is_usable(tokens@, i)
                &&& event matches BridgeContractInitiatorEvent::Initiated(details)
                &&& shows_tokens(details, tokens@)
            },
            Err(LogError::UnexpectedToken(at)) => {
                &&& at < 6
                &&& forall|i: int| 0 <= i < at ==> #[trigger] is_usable(tokens@, i)
                &&& !has_type(tokens@, at as int)
            },
            Err(LogError::NumberTooLarge(at)) => {
                &&& at < 6
                &&& forall|i: int| 0 <= i < at ==> #[trigger] is_usable(tokens@, i)
                &&& has_type(tokens@, at as int)
                &&& !is_usable(tokens@, at as int)
            },
            Err(_) => false,
        },
{
    let id: [u8; 32] = match hash_token(tokens, 0) {
        Ok(bytes) => bytes,
        Err(e) => return Err(e),
    };
    let initiator: [u8; 20] = match address_token(tokens, 1) {
        Ok(bytes) => bytes,
        Err(e) => return Err(e),
    };
    let recipient: [u8; 20] = match address_token(tokens, 2) {
        Ok(bytes) => bytes,
        Err(e) => return Err(e),
    };
    let lock: [u8; 32] = match hash_token(tokens, 3) {
        Ok(bytes) => bytes,
        Err(e) => return Err(e),
    };
    let time_lock: u64 = match number_token(tokens, 4) {
        Ok(n) => n,
        Err(e) => return Err(e),
    };
    let amount: u64 = match number_token(tokens, 5) {
        Ok(n) => n,
        Err(e) => return Err(e),
    };
    let details: BridgeTransferDetails<EthAddress, H> = BridgeTransferDetails {
        bridge_transfer_id: BridgeTransferId(H::from(id)),
        initiator_address: InitiatorAddress(EthAddress(initiator)),
        recipient_address: RecipientAddress(vstd::slice::slice_to_vec(recipient.as_slice())),
        hash_lock: HashLock(H::from(lock)),
        time_lock: TimeLock(time_lock),
        amount: Amount(amount),
    };
    Ok(BridgeContractInitiatorEvent::Initiated(details))
}

/// The transfer that the second topic of a log names.
fn transfer_id<H: From<[u8; 32]>>(log: &Log) -> (r: Result<BridgeTransferId<H>, LogError>)
    ensures
        match r {
            Ok(id) => {
                &&& log.topics@.len() >= 2
                &&& is_hash_of(log.topics@[1]@, id.0)
                &&& call_ensures(<H as From<[u8; 32]>>::from, (log.topics@[1],), id.0)
            },
            Err(LogError::MissingTransferId) => log.topics@.len() < 2,
            Err(_) => false,
        },
{
    if log.topics.len() < 2 {
        Err(LogError::MissingTransferId)
    } else {
        Ok(BridgeTransferId(H::from(log.topics[1])))
    }
}

/// The first topic of `log` is `signature`.
pub open spec fn is_kind(log: Log, signature: [u8; 32]) -> bool {
    log.topics@.len() > 0 && log.topics@[0]@ == signature@
}

/// `details` is the transfer that the data of an initiated log describes.
pub open spec fn shows_data<H: From<[u8; 32]>>(
    details: BridgeTransferDetails<EthAddress, H>,
    data: Seq<u8>,
) -> bool {
    &&& data.len() >= 192
    &&& is_hash_of(data.subrange(0, 32), details.bridge_transfer_id.0)
    &&& details.initiator_address.0.0@ == data.subrange(44, 64)
    &&& details.recipient_address.0@ == data.subrange(76, 96)
    &&& is_hash_of(data.subrange(96, 128), details.hash_lock.0)
    &&& details.time_lock.0 as nat == time_lock_number(data)
    &&& details.amount.0 as nat == amount_number(data)
}

/// The number that stands for the time lock in the data of an initiated log.
pub open spec fn time_lock_number(data: Seq<u8>) -> nat {
    uint::be_nat(data.subrange(128, 160))
}

/// The number that stands for the amount in the data of an initiated log.
pub open spec fn amount_number(data: Seq<u8>) -> nat {
    uint::be_nat(data.subrange(160, 192))
}

/// `log` reports `event`. The first topic tells which event it is: a signature that comes
/// earlier in `signatures` goes before a later one. The data describes an initiated transfer;
/// the second topic names a completed or a refunded one.
pub open spec fn is_event_of<H: From<[u8; 32]>>(
    signatures: EventSignatures,
    log: Log,
    event: BridgeContractInitiatorEvent<EthAddress, H>,
) -> bool {
    if is_kind(log, signatures.initiated) {
        &&& event matches BridgeContractInitiatorEvent::Initiated(details)
        &&& shows_data(details, log.data@)
    } else if is_kind(log, signatures.completed) {
        &&& log.topics@.len() >= 2
        &&& event matches BridgeContractInitiatorEvent::Completed(id)
        &&& is_hash_of(log.topics@[1]@, id.0)
    } else {
        &&& is_kind(log, signatures.refunded)
        &&& log.topics@.len() >= 2
        &&& event matches BridgeContractInitiatorEvent::Refunded(id)
        &&& is_hash_of(log.topics@[1]@, id.0)
    }
}

/// `log` reports no event, for the reason `error`.
pub open spec fn is_refused(signatures: EventSignatures, log: Log, error: LogError) -> bool {
    if log.topics@.len() == 0 {
        error is MissingEventType
    } else if is_kind(log, signatures.initiated) {
        if log.data@.len() < 192 {
            error is UnableToParse
        } else if time_lock_number(log.data@) > u64::MAX {
            error == LogError::NumberTooLarge(4)
        } else {
            amount_number(log.data@) > u64::MAX && error == LogError::NumberTooLarge(5)
        }
    } else if is_kind(log, signatures.completed) || is_kind(log, signatures.refunded) {
        log.topics@.len() < 2 && error is MissingTransferId
    } else {
        error is UnexpectedEventType
    }
}

/// `log` has all that it takes to report an event.
pub open spec fn reports_event(signatures: EventSignatures, log: Log) -> bool {
    if is_kind(log, signatures.initiated) {
        &&& log.data@.len() >= 192
        &&& time_lock_number(log.data@) <= u64::MAX
        &&& amount_number(log.data@) <= u64::MAX
    } else {
        &&& log.topics@.len() >= 2
        &&& is_kind(log, signatures.completed) || is_kind(log, signatures.refunded)
    }
}

/// The types of the values in the data of an initiated log.
pub open spec fn initiated_types() -> Seq<ValueType> {
    seq![
        ValueType::FixedBytes(32),
        ValueType::Address,
        ValueType::Address,
        ValueType::FixedBytes(32),
        ValueType::Uint(256),
        ValueType::Uint(256),
    ]
}

/// The data of an initiated log is long enough from 192 bytes on.
proof fn lemma_initiated_fits(data: Seq<u8>)
    ensures
        fits(initiated_types(), data) <==> data.len() >= 192,
{
    let kinds: Seq<ValueType> = initiated_types();
    if fits(kinds, data) {
        assert(32 * 5 + value_len(kinds[5]) <= data.len());
    }
}

/// The six values that the data of an initiated log holds have the types that stand there, and
/// say what the data says.
proof fn lemma_initiated_values(data: Seq<u8>, tokens: Seq<Token>)
    requires
        data.len() >= 192,
        holds_values(initiated_types(), data, tokens),
    ensures
        forall|i: int| 0 <= i < 6 ==> has_type(tokens, i),
        tokens[0]->FixedBytes_0@ == data.subrange(0, 32),
        tokens[1]->Address_0@ == data.subrange(44, 64),
        tokens[2]->Address_0@ == data.subrange(76, 96),
        tokens[3]->FixedBytes_0@ == data.subrange(96, 128),
        tokens[4]->Uint_0@ == time_lock_number(data),
        tokens[5]->Uint_0@ == amount_number(data),
{
    let kinds: Seq<ValueType> = initiated_types();
    assert(holds_value(kinds[0], data, 0, tokens[0]));
    assert(holds_value(kinds[1], data, 32, tokens[1]));
    assert(holds_value(kinds[2], data, 64, tokens[2]));
    assert(holds_value(kinds[3], data, 96, tokens[3]));
    assert(holds_value(kinds[4], data, 128, tokens[4]));
    assert(holds_value(kinds[5], data, 160, tokens[5]));
    assert(tokens[0]->FixedBytes_0@.len() == 32);
    assert(tokens[3]->FixedBytes_0@.len() == 32);
}

/// The event that a log reports. The first topic tells which one it is.
///
/// An initiated transfer is taken from the data: the transfer, the initiator, the recipient,
/// the hash lock, the time lock and the amount. A completed or a refunded transfer is named by
/// the second topic. Hashes come out as `From` makes them of their bytes.
pub fn convert_log_to_event<H: From<[u8; 32]>>(
    signatures: &EventSignatures,
    log: &Log,
) -> (r: Result<BridgeContractInitiatorEvent<EthAddress, H>, LogError>)
    ensures
        r is Ok <==> reports_event(*signatures, *log),
        match r {
            Ok(event) => is_event_of(*signatures, *log, event),
            Err(error) => is_refused(*signatures, *log, error),
        },
        r matches Ok(event) ==> {
            &&& log.topics@.len() >= 1
            &&& if log.topics@[0]@ == signatures.initiated@ {
                &&& log.data@.len() >= 192
                &&& event matches BridgeContractInitiatorEvent::Initiated(details)
                &&& exists|bytes: [u8; 32]|
                    bytes@ == log.data@.subrange(0, 32) && #[trigger] call_ensures(
                        <H as From<[u8; 32]>>::from,
                        (bytes,),
                        details.bridge_transfer_id.0,
                    )
                &&& details.initiator_address.0.0@ == log.data@.subrange(44, 64)
                &&& details.recipient_address.0@ == log.data@.subrange(76, 96)
                &&& exists|bytes: [u8; 32]|
                    bytes@ == log.data@.subrange(96, 128) && #[trigger] call_ensures(
                        <H as From<[u8; 32]>>::from,
                        (bytes,),
                        details.hash_lock.0,
                    )
                &&& details.time_lock.0 as nat == uint::be_nat(log.data@.subrange(128, 160))
                &&& details.amount.0 as nat == uint::be_nat(log.data@.subrange(160, 192))
            } else {
                &&& log.topics@.len() >= 2
                &&& if log.topics@[0]@ == signatures.completed@ {
                    &&& event matches BridgeContractInitiatorEvent::Completed(id)
                    &&& call_ensures(<H as From<[u8; 32]>>::from, (log.topics@[1],), id.0)
                } else {
                    &&& log.topics@[0]@ == signatures.refunded@
                    &&& event matches BridgeContractInitiatorEvent::Refunded(id)
                    &&& call_ensures(<H as From<[u8; 32]>>::from, (log.topics@[1],), id.0)
                }
            }
        },
{
    if log.topics.len() == 0 {
        return Err(LogError::MissingEventType);
    }
    let topic: [u8; 32] = log.topics[0];
    if same_bytes(&topic, &signatures.initiated) {
        let params: [ValueType; 6] = [
            ValueType::FixedBytes(32),  // bridge_transfer_id
            ValueType::Address,  // initiator_address
            ValueType::Address,  // recipient_address
            ValueType::FixedBytes(32),  // hash_lock
            ValueType::Uint(256),  // time_lock
            ValueType::Uint(256),  // amount
        ];
        assert(params@ =~= initiated_types());
        proof {
            lemma_initiated_fits(log.data@);
        }
        match decode_log_data(
            "BridgeTransferInitiated",
            log.data.as_slice(),
            params.as_slice(),
        ) {
            Ok(tokens) => {
                proof {
                    lemma_initiated_values(log.data@, tokens@);
                    assert(is_usable(tokens@, 4) <==> time_lock_number(log.data@) <= u64::MAX);
                    assert(is_usable(tokens@, 5) <==> amount_number(log.data@) <= u64::MAX);
                }
                initiated_event(&tokens)
            },
            Err(e) => Err(e),
        }
    } else if same_bytes(&topic, &signatures.completed) {
        match transfer_id(log) {
            Ok(id) => Ok(BridgeContractInitiatorEvent::Completed(id)),
            Err(e) => Err(e),
        }
    } else if same_bytes(&topic, &signatures.refunded) {
        match transfer_id(log) {
            Ok(id) => Ok(BridgeContractInitiatorEvent::Refunded(id)),
            Err(e) => Err(e),
        }
    } else {
        Err(LogError::UnexpectedEventType)
    }
}

/// A log either has all that it takes to report an event or is refused, and never both; and
/// only a log that has it reports one.
pub proof fn law_event_or_refusal<H: From<[u8; 32]>>(
    signatures: EventSignatures,
    log: Log,
    event: BridgeContractInitiatorEvent<EthAddress, H>,
)
    ensures
        (exists|error: LogError| is_refused(signatures, log, error)) <==> !reports_event(
            signatures,
            log,
        ),
        is_event_of(signatures, log, event) ==> reports_event(signatures, log),
{
    if log.topics@.len() == 0 {
        assert(is_refused(signatures, log, LogError::MissingEventType));
    } else if is_kind(log, signatures.initiated) {
        if log.data@.len() < 192 {
            assert(is_refused(signatures, log, LogError::UnableToParse(arbitrary())));
        } else if time_lock_number(log.data@) > u64::MAX {
            assert(is_refused(signatures, log, LogError::NumberTooLarge(4)));
        } else if amount_number(log.data@) > u64::MAX {
            assert(is_refused(signatures, log, LogError::NumberTooLarge(5)));
        }
    } else if is_kind(log, signatures.completed) || is_kind(log, signatures.refunded) {
        if log.topics@.len() < 2 {
            assert(is_refused(signatures, log, LogError::MissingTransferId));
        }
    } else {
        assert(is_refused(signatures, log, LogError::UnexpectedEventType));
    }
}

/// Two events say the same.
pub open spec fn same_event<H>(
    first: BridgeContractInitiatorEvent<EthAddress, H>,
    second: BridgeContractInitiatorEvent<EthAddress, H>,
) -> bool {
    match first {
        BridgeContractInitiatorEvent::Initiated(a) => {
            &&& second matches BridgeContractInitiatorEvent::Initiated(b)
            &&& a.bridge_transfer_id == b.bridge_transfer_id
            &&& a.initiator_address == b.initiator_address
            &&& a.recipient_address.0@ == b.recipient_address.0@
            &&& a.hash_lock == b.hash_lock
            &&& a.time_lock == b.time_lock
            &&& a.amount == b.amount
        },
        _ => first == second,
    }
}

/// A log reports at most one event, where the bytes of a hash settle it.
pub proof fn law_one_event_per_log<H: From<[u8; 32]>>(
    signatures: EventSignatures,
    log: Log,
    first: BridgeContractInitiatorEvent<EthAddress, H>,
    second: BridgeContractInitiatorEvent<EthAddress, H>,
)
    requires
        hashes_are_settled::<H>(),
        is_event_of(signatures, log, first),
        is_event_of(signatures, log, second),
    ensures
        same_event(first, second),
{
    if is_kind(log, signatures.initiated) {
        let a: BridgeTransferDetails<EthAddress, H> = first->Initiated_0;
        let b: BridgeTransferDetails<EthAddress, H> = second->Initiated_0;
        assert(a.initiator_address.0.0 =~= b.initiator_address.0.0);
    }
}

/// An initiated log with data enough and numbers that fit gives the event that its data
/// describes: byte `k` of the id, the initiator, the recipient and the hash lock is byte `k`, `44 +
/// k`, `76 + k` and `96 + k` of the data, and the time lock and the amount are the two last numbers.
pub proof fn law_initiated_event_is_in_the_data(
    signatures: EventSignatures,
    log: Log,
    r: Result<BridgeContractInitiatorEvent<EthAddress, EthHash>, LogError>,
)
    requires
        call_ensures(convert_log_to_event::<EthHash>, (&signatures, &log), r),
        log.topics@.len() >= 1,
        log.topics@[0]@ == signatures.initiated@,
        log.data@.len() >= 192,
        uint::be_nat(log.data@.subrange(128, 160)) <= u64::MAX,
        uint::be_nat(log.data@.subrange(160, 192)) <= u64::MAX,
    ensures
        r matches Ok(BridgeContractInitiatorEvent::Initiated(details)) && {
            &&& forall|k: int|
                0 <= k < 32 ==> #[trigger] details.bridge_transfer_id.0@[k] == log.data@[k]
            &&& forall|k: int|
                0 <= k < 20 ==> #[trigger] details.initiator_address.0.0@[k] == log.data@[44 + k]
            &&& details.recipient_address.0@.len() == 20
            &&& forall|k: int|
                0 <= k < 20 ==> #[trigger] details.recipient_address.0@[k] == log.data@[76 + k]
            &&& forall|k: int| 0 <= k < 32 ==> #[trigger] details.hash_lock.0@[k] == log.data@[96 + k]
            &&& details.time_lock.0 as nat == uint::be_nat(log.data@.subrange(128, 160))
            &&& details.amount.0 as nat == uint::be_nat(log.data@.subrange(160, 192))
        },
{
}

/// A completed and a refunded log with a second topic give the event that says so, and name the
/// transfer by the bytes of that topic, in their order.
pub proof fn law_named_transfer_is_the_second_topic(
    signatures: EventSignatures,
    log: Log,
    r: Result<BridgeContractInitiatorEvent<EthAddress, EthHash>, LogError>,
)
    requires
        call_ensures(convert_log_to_event::<EthHash>, (&signatures, &log), r),
        log.topics@.len() >= 2,
        log.topics@[0]@ != signatures.initiated@,
    ensures
        log.topics@[0]@ == signatures.completed@ ==> (r matches Ok(
            BridgeContractInitiatorEvent::Completed(id),
        ) && forall|k: int| 0 <= k < 32 ==> #[trigger] id.0@[k] == log.topics@[1]@[k]),
        log.topics@[0]@ != signatures.completed@ && log.topics@[0]@ == signatures.refunded@ ==> (
        r matches Ok(BridgeContractInitiatorEvent::Refunded(id)) && forall|k: int|
            0 <= k < 32 ==> #[trigger] id.0@[k] == log.topics@[1]@[k]),
{
}

/// A completed and a refunded log with the same second topic name the same transfer.
pub proof fn law_completed_and_refunded_name_alike(
    signatures: EventSignatures,
    completed: Log,
    refunded: Log,
    first: Result<BridgeContractInitiatorEvent<EthAddress, EthHash>, LogError>,
    second: Result<BridgeContractInitiatorEvent<EthAddress, EthHash>, LogError>,
)
    requires
        call_ensures(convert_log_to_event::<EthHash>, (&signatures, &completed), first),
        call_ensures(convert_log_to_event::<EthHash>, (&signatures, &refunded), second),
        first is Ok,
        second is Ok,
        first->Ok_0 is Completed,
        second->Ok_0 is Refunded,
        completed.topics@[1]@ == refunded.topics@[1]@,
    ensures
        first->Ok_0->Completed_0.0@ == second->Ok_0->Refunded_0.0@,
{
}

/// When a log gives an event, and what it is refused for where it gives none.
pub proof fn law_outcome_of_a_log<H: From<[u8; 32]>>(
    signatures: EventSignatures,
    log: Log,
    r: Result<BridgeContractInitiatorEvent<EthAddress, H>, LogError>,
)
    requires
        call_ensures(convert_log_to_event::<H>, (&signatures, &log), r),
    ensures
        ({
            let data: Seq<u8> = log.data@;
            if log.topics@.len() == 0 {
                r matches Err(LogError::MissingEventType)
            } else if log.topics@[0]@ == signatures.initiated@ {
                if data.len() < 192 {
                    r matches Err(LogError::UnableToParse(_))
                } else if uint::be_nat(data.subrange(128, 160)) > u64::MAX {
                    r matches Err(LogError::NumberTooLarge(at)) && at == 4
                } else if uint::be_nat(data.subrange(160, 192)) > u64::MAX {
                    r matches Err(LogError::NumberTooLarge(at)) && at == 5
                } else {
                    r matches Ok(BridgeContractInitiatorEvent::Initiated(_))
                }
            } else if log.topics@[0]@ == signatures.completed@ {
                if log.topics@.len() < 2 {
                    r matches Err(LogError::MissingTransferId)
                } else {
                    r matches Ok(BridgeContractInitiatorEvent::Completed(_))
                }
            } else if log.topics@[0]@ == signatures.refunded@ {
                if log.topics@.len() < 2 {
                    r matches Err(LogError::MissingTransferId)
                } else {
                    r matches Ok(BridgeContractInitiatorEvent::Refunded(_))
                }
            } else {
                r matches Err(LogError::UnexpectedEventType)
            }
        }),
{
}

/// What does not describe a transfer does not matter: two initiated logs whose first 192 bytes
/// agree outside the padding in front of the addresses give the same event.
pub proof fn law_padding_does_not_matter(
    signatures: EventSignatures,
    log1: Log,
    log2: Log,
    r1: Result<BridgeContractInitiatorEvent<EthAddress, EthHash>, LogError>,
    r2: Result<BridgeContractInitiatorEvent<EthAddress, EthHash>, LogError>,
)
    requires
        call_ensures(convert_log_to_event::<EthHash>, (&signatures, &log1), r1),
        call_ensures(convert_log_to_event::<EthHash>, (&signatures, &log2), r2),
        log1.topics@.len() >= 1,
        log2.topics@.len() >= 1,
        log1.topics@[0]@ == signatures.initiated@,
        log2.topics@[0]@ == signatures.initiated@,
        log1.data@.len() >= 192,
        log2.data@.len() >= 192,
        forall|k: int|
            0 <= k < 192 && !(32 <= k < 44) && !(64 <= k < 76) ==> #[trigger] log1.data@[k]
                == log2.data@[k],
    ensures
        r1 is Ok <==> r2 is Ok,
        r1 is Ok ==> {
            &&& r1->Ok_0 is Initiated && r2->Ok_0 is Initiated
            &&& r1->Ok_0->Initiated_0.bridge_transfer_id.0@
                == r2->Ok_0->Initiated_0.bridge_transfer_id.0@
            &&& r1->Ok_0->Initiated_0.initiator_address.0.0@
                == r2->Ok_0->Initiated_0.initiator_address.0.0@
            &&& r1->Ok_0->Initiated_0.recipient_address.0@
                == r2->Ok_0->Initiated_0.recipient_address.0@
            &&& r1->Ok_0->Initiated_0.hash_lock.0@ == r2->Ok_0->Initiated_0.hash_lock.0@
            &&& r1->Ok_0->Initiated_0.time_lock == r2->Ok_0->Initiated_0.time_lock
            &&& r1->Ok_0->Initiated_0.amount == r2->Ok_0->Initiated_0.amount
        },
{
    assert(log1.data@.subrange(0, 32) =~= log2.data@.subrange(0, 32));
    assert(log1.data@.subrange(44, 64) =~= log2.data@.subrange(44, 64));
    assert(log1.data@.subrange(76, 96) =~= log2.data@.subrange(76, 96));
    assert(log1.data@.subrange(96, 128) =~= log2.data@.subrange(96, 128));
    assert(log1.data@.subrange(128, 160) =~= log2.data@.subrange(128, 160));
    assert(log1.data@.subrange(160, 192) =~= log2.data@.subrange(160, 192));
}

/// Six values give the event that they describe, each in its own place and byte for byte, exactly
/// where each has the type that stands in its place and both numbers fit.
pub proof fn law_six_values_make_the_event(
    tokens: Vec<Token>,
    r: Result<BridgeContractInitiatorEvent<EthAddress, EthHash>, LogError>,
)
    requires
        call_ensures(initiated_event::<EthHash>, (&tokens,), r),
    ensures
        r is Ok <==> {
            &&& tokens@.len() >= 6
            &&& tokens@[0] matches Token::FixedBytes(id) && id@.len() == 32
            &&& tokens@[1] is Address
            &&& tokens@[2] is Address
            &&& tokens@[3] matches Token::FixedBytes(lock) && lock@.len() == 32
            &&& tokens@[4] matches Token::Uint(time) && uint::be_nat(time.0@) <= u64::MAX
            &&& tokens@[5] matches Token::Uint(amount) && uint::be_nat(amount.0@) <= u64::MAX
        },
        r matches Ok(event) ==> {
            &&& event matches BridgeContractInitiatorEvent::Initiated(details)
            &&& details.bridge_transfer_id.0@ == tokens@[0]->FixedBytes_0@
            &&& details.initiator_address.0.0@ == tokens@[1]->Address_0@
            &&& details.recipient_address.0@ == tokens@[2]->Address_0@
            &&& details.hash_lock.0@ == tokens@[3]->FixedBytes_0@
            &&& details.time_lock.0 as nat == uint::be_nat(tokens@[4]->Uint_0.0@)
            &&& details.amount.0 as nat == uint::be_nat(tokens@[5]->Uint_0.0@)
        },
{
    if r is Ok {
        assert(is_usable(tokens@, 0));
        assert(is_usable(tokens@, 1));
        assert(is_usable(tokens@, 2));
        assert(is_usable(tokens@, 3));
        assert(is_usable(tokens@, 4));
        assert(is_usable(tokens@, 5));
    }
}

/// The value that six values are refused for: the first that is missing, that has another type,
/// or that is a number beyond 64 bits.
pub proof fn law_first_unusable_value_is_reported<H: From<[u8; 32]>>(
    tokens: Vec<Token>,
    r: Result<BridgeContractInitiatorEvent<EthAddress, H>, LogError>,
    i: int,
)
    requires
        call_ensures(initiated_event::<H>, (&tokens,), r),
        0 <= i < 6,
        forall|j: int|
            0 <= j < i ==> j < tokens@.len() && match #[trigger] tokens@[j] {
                Token::FixedBytes(bytes) => (j == 0 || j == 3) && bytes@.len() == 32,
                Token::Address(_) => j == 1 || j == 2,
                Token::Uint(number) => j >= 4 && uint::be_nat(number.0@) <= u64::MAX,
                Token::Other => false,
            },
    ensures
        tokens@.len() <= i ==> r == Err::<BridgeContractInitiatorEvent<EthAddress, H>, LogError>(
            LogError::UnexpectedToken(i as usize),
        ),
        i < tokens@.len() && match tokens@[i] {
            Token::FixedBytes(bytes) => !(i == 0 || i == 3) || bytes@.len() != 32,
            Token::Address(_) => !(i == 1 || i == 2),
            Token::Uint(_) => i < 4,
            Token::Other => true,
        } ==> r == Err::<BridgeContractInitiatorEvent<EthAddress, H>, LogError>(
            LogError::UnexpectedToken(i as usize),
        ),
        i < tokens@.len() && i >= 4 && tokens@[i] is Uint && uint::be_nat(tokens@[i]->Uint_0.0@)
            > u64::MAX ==> r == Err::<BridgeContractInitiatorEvent<EthAddress, H>, LogError>(
            LogError::NumberTooLarge(i as usize),
        ),
{
    assert forall|j: int| 0 <= j < i implies #[trigger] is_usable(tokens@, j) by {
        assert(match tokens@[j] {
            Token::FixedBytes(bytes) => (j == 0 || j == 3) && bytes@.len() == 32,
            Token::Address(_) => j == 1 || j == 2,
            Token::Uint(number) => j >= 4 && uint::be_nat(number.0@) <= u64::MAX,
            Token::Other => false,
        });
    }
    match r {
        Ok(_) => {
            assert(is_usable(tokens@, i));
        },
        Err(LogError::UnexpectedToken(at)) => {
            if at < i {
                assert(is_usable(tokens@, at as int));
            } else if at > i {
                assert(is_usable(tokens@, i));
            }
        },
        Err(LogError::NumberTooLarge(at)) => {
            if at < i {
                assert(is_usable(tokens@, at as int));
            } else if at > i {
                assert(is_usable(tokens@, i));
            }
        },
        Err(_) => {},
    }
}

/// Values stand 32 bytes apart in the data, in the order of their types: byte `k` of value `i` is
/// byte `32 * i + k`, and for an address byte `32 * i + 12 + k`.
pub proof fn law_values_stand_in_their_places(
    name: &str,
    data: &[u8],
    params: &[ValueType],
    r: Result<Vec<Token>, LogError>,
    i: int,
    k: int,
)
    requires
        call_ensures(decode_log_data, (name, data, params), r),
        r is Ok,
        0 <= i < params@.len(),
        0 <= k,
    ensures
        r->Ok_0@.len() == params@.len(),
        match params@[i] {
            ValueType::Address => r->Ok_0@[i] matches Token::Address(bytes) && (k < 20 ==> bytes@[k]
                == data@[32 * i + 12 + k]),
            ValueType::FixedBytes(size) => r->Ok_0@[i] matches Token::FixedBytes(bytes)
                && bytes@.len() == size && (k < size ==> bytes@[k] == data@[32 * i + k]),
            ValueType::Uint(_) => r->Ok_0@[i] matches Token::Uint(number) && (k < 32
                ==> number.0@[k] == data@[32 * i + k]),
        },
{
    let tokens: Seq<Token> = r->Ok_0@;
    assert(holds_value(params@[i], data@, 32 * i, tokens[i]));
    assert(32 * i + value_len(params@[i]) <= data@.len());
}

/// Data comes apart exactly where it reaches to the end of every value.
pub proof fn law_data_has_to_reach(
    name: &str,
    data: &[u8],
    params: &[ValueType],
    r: Result<Vec<Token>, LogError>,
)
    requires
        call_ensures(decode_log_data, (name, data, params), r),
    ensures
        r is Ok <==> forall|i: int|
            0 <= i < params@.len() ==> 32 * i + (match #[trigger] params@[i] {
                ValueType::FixedBytes(size) => size as int,
                _ => 32,
            }) <= data@.len(),
        r is Err ==> r->Err_0 is UnableToParse,
{
}

/// The 32 bytes that a value is written in: bytes with zeros behind them, an address with zeros
/// before it, a number as it is.
pub open spec fn word_of(token: Token) -> Seq<u8> {
    match token {
        Token::Address(bytes) => Seq::new(12, |i: int| 0u8) + bytes@,
        Token::FixedBytes(bytes) => bytes@ + Seq::new((32 - bytes@.len()) as nat, |i: int| 0u8),
        Token::Uint(number) => number.0@,
        Token::Other => Seq::new(32, |i: int| 0u8),
    }
}

/// Values written one after the other.
pub open spec fn abi_encode(tokens: Seq<Token>) -> Seq<u8> {
    Seq::new(32 * tokens.len(), |j: int| word_of(tokens[j / 32])[j % 32])
}

/// `token` is a value of the type `kind`.
pub open spec fn is_value_of(token: Token, kind: ValueType) -> bool {
    match kind {
        ValueType::Address => token is Address,
        ValueType::FixedBytes(size) => size <= 32 && (token matches Token::FixedBytes(bytes)
            && bytes@.len() == size),
        ValueType::Uint(_) => token is Uint,
    }
}

/// Two values are the same.
pub open spec fn same_token(first: Token, second: Token) -> bool {
    match first {
        Token::FixedBytes(a) => second matches Token::FixedBytes(b) && a@ == b@,
        _ => first == second,
    }
}

/// What is written of one value stands in its place.
proof fn lemma_word_in_place(tokens: Seq<Token>, kind: ValueType, data: Seq<u8>, i: int)
    requires
        0 <= i < tokens.len(),
        is_value_of(tokens[i], kind),
        abi_encode(tokens).is_prefix_of(data),
    ensures
        32 * i + value_len(kind) <= data.len(),
        holds_value(kind, data, 32 * i, tokens[i]),
{
    let written: Seq<u8> = abi_encode(tokens);
    let word: Seq<u8> = word_of(tokens[i]);
    let at: int = 32 * i;
    assert(written.len() <= data.len());
    assert forall|k: int| 0 <= k < 32 implies #[trigger] data.subrange(at, at + 32)[k] == word[k] by {
        let j: int = at + k;
        assert(j / 32 == i && j % 32 == k);
        assert(data.subrange(0, written.len() as int)[j] == written[j]);
    }
    assert(word.len() == 32);
    assert(data.subrange(at, at + 32) =~= word);
    match tokens[i] {
        Token::Address(bytes) => {
            assert(data.subrange(at + 12, at + 32) =~= word.subrange(12, 32));
            assert(word.subrange(12, 32) =~= bytes@);
        },
        Token::FixedBytes(bytes) => {
            let n: int = bytes@.len() as int;
            assert(data.subrange(at, at + n) =~= word.subrange(0, n));
            assert(word.subrange(0, n) =~= bytes@);
        },
        _ => {},
    }
}

/// Values that are written one after the other come apart into the same values, in order,
/// whatever follows them.
pub proof fn law_values_read_back(
    params: Seq<ValueType>,
    tokens: Seq<Token>,
    data: Seq<u8>,
    read: Seq<Token>,
)
    requires
        tokens.len() == params.len(),
        forall|i: int| 0 <= i < params.len() ==> is_value_of(#[trigger] tokens[i], params[i]),
        abi_encode(tokens).is_prefix_of(data),
    ensures
        fits(params, data),
        holds_values(params, data, tokens),
        holds_values(params, data, read) ==> read.len() == tokens.len() && forall|i: int|
            0 <= i < tokens.len() ==> same_token(#[trigger] read[i], tokens[i]),
{
    assert forall|i: int| 0 <= i < params.len() implies 32 * i + value_len(#[trigger] params[i])
        <= data.len() && holds_value(params[i], data, 32 * i, tokens[i]) by {
        assert(is_value_of(tokens[i], params[i]));
        lemma_word_in_place(tokens, params[i], data, i);
    }
    assert(holds_values(params, data, tokens)) by {
        assert forall|i: int| 0 <= i < params.len() implies holds_value(
            params[i],
            data,
            32 * i,
            #[trigger] tokens[i],
        ) by {
            assert(32 * i + value_len(params[i]) <= data.len());
        }
    }
    if holds_values(params, data, read) {
        assert forall|i: int| 0 <= i < tokens.len() implies same_token(
            #[trigger] read[i],
            tokens[i],
        ) by {
            assert(holds_value(params[i], data, 32 * i, read[i]));
            assert(holds_value(params[i], data, 32 * i, tokens[i]));
            match (read[i], tokens[i]) {
                (Token::Address(a), Token::Address(b)) => {
                    assert(a =~= b);
                },
                (Token::Uint(a), Token::Uint(b)) => {
                    assert(a.0 =~= b.0);
                },
                _ => {},
            }
        }
    }
}

/// A log of an initiated transfer reports the transfer that is written in its data, and no other.
pub proof fn law_initiated_reads_back<H: From<[u8; 32]>>(
    signatures: EventSignatures,
    log: Log,
    tokens: Seq<Token>,
    details: BridgeTransferDetails<EthAddress, H>,
)
    requires
        is_kind(log, signatures.initiated),
        tokens.len() == 6,
        forall|i: int| 0 <= i < 6 ==> #[trigger] is_usable(tokens, i),
        abi_encode(tokens).is_prefix_of(log.data@),
    ensures
        reports_event(signatures, log),
        is_event_of(signatures, log, BridgeContractInitiatorEvent::Initiated(details))
            <==> shows_tokens(details, tokens),
{
    let kinds: Seq<ValueType> = initiated_types();
    assert forall|i: int| 0 <= i < 6 implies is_value_of(#[trigger] tokens[i], kinds[i]) by {
        assert(is_usable(tokens, i));
    }
    assert(is_usable(tokens, 4));
    assert(is_usable(tokens, 5));
    law_values_read_back(kinds, tokens, log.data@, tokens);
    lemma_initiated_fits(log.data@);
    lemma_initiated_values(log.data@, tokens);
    if shows_data(details, log.data@) {
        assert(details.initiator_address.0.0 =~= tokens[1]->Address_0);
    }
}

} // verus!
