//! Watching the initiating contract: which logs are asked for, and which events come out.
use vstd::prelude::*;

use crate::config;
use crate::events::{convert_log_to_event, EventSignatures, Log, LogError};
use crate::events;
use crate::hexadecimal;
use crate::types::{AbstractBlockainEvent, BridgeContractInitiatorEvent, EthAddress, EthHash};

verus! {

/// A log filter of `alloy_rpc_types`: a collection of addresses and topics.
#[verifier::external_type_specification]
#[verifier::external_body]
pub struct ExFilter(alloy_rpc_types::Filter);

/// The addresses that a filter lets through; all of them, where the set is empty.
pub uninterp spec fn filter_addresses(filter: alloy_rpc_types::Filter) -> Set<Seq<u8>>;

/// The topics that a filter lets through, for each of the four places; all of them, where the
/// set is empty.
pub uninterp spec fn filter_topics(filter: alloy_rpc_types::Filter) -> Seq<Set<Seq<u8>>>;

/// Whether a filter starts at the latest block.
pub uninterp spec fn filter_starts_at_latest(filter: alloy_rpc_types::Filter) -> bool;

/// Whether the last block of a filter is set (its `to_block`).
pub uninterp spec fn filter_has_end(filter: alloy_rpc_types::Filter) -> bool;

/// The topic that `Filter::event` makes of the signature of an event.
pub uninterp spec fn event_topic(signature: Seq<char>) -> Seq<u8>;

/// Calls `Filter::new`: the filter is empty.
#[verifier::external_body]
fn new_filter() -> (filter: alloy_rpc_types::Filter)
    ensures
        filter_addresses(filter) == Set::<Seq<u8>>::empty(),
        filter_topics(filter) == Seq::new(4, |i: int| Set::<Seq<u8>>::empty()),
        !filter_starts_at_latest(filter),
        !filter_has_end(filter),
{
    alloy_rpc_types::Filter::new()
}

/// Calls `Filter::address` for one address: it takes the place of all addresses before it.
#[verifier::external_body]
fn with_address(filter: alloy_rpc_types::Filter, address: &[u8; 20]) -> (r: alloy_rpc_types::Filter)
    ensures
        filter_addresses(r) == Set::<Seq<u8>>::empty().insert(address@),
        filter_topics(r) == filter_topics(filter),
        filter_starts_at_latest(r) == filter_starts_at_latest(filter),
        filter_has_end(r) == filter_has_end(filter),
{
    filter.address(alloy_primitives::Address::from(*address))
}

/// Calls `Filter::event`: the hash of the signature, named `event_topic`, takes the place of
/// all topics that stood first before it.
#[verifier::external_body]
fn with_event(filter: alloy_rpc_types::Filter, signature: &str) -> (r: alloy_rpc_types::Filter)
    ensures
        filter_addresses(r) == filter_addresses(filter),
        filter_topics(r) == filter_topics(filter).update(
            0,
            Set::<Seq<u8>>::empty().insert(event_topic(signature@)),
        ),
        filter_starts_at_latest(r) == filter_starts_at_latest(filter),
        filter_has_end(r) == filter_has_end(filter),
{
    filter.event(signature)
}

/// Calls `Filter::from_block` for the latest block; the last block stays as it was.
#[verifier::external_body]
fn from_latest(filter: alloy_rpc_types::Filter) -> (r: alloy_rpc_types::Filter)
    ensures
        filter_addresses(r) == filter_addresses(filter),
        filter_topics(r) == filter_topics(filter),
        filter_starts_at_latest(r),
        filter_has_end(r) == filter_has_end(filter),
{
    filter.from_block(alloy_eips::BlockNumberOrTag::Latest)
}

/// The contract that is watched.
pub fn watched_address() -> (address: [u8; 20])
    ensures
        address@ == config::default_address(),
        hexadecimal::hex_bytes("0xf39Fd6e51aad88F6F4ce6aB8827279cffFb92266"@, 20) == Some(address@),
{
    proof {
        config::law_default_addresses();
    }
    let address: [u8; 20] = [
        0xf3, 0x9f, 0xd6, 0xe5, 0x1a, 0xad, 0x88, 0xf6, 0xf4, 0xce, 0x6a, 0xb8, 0x82, 0x72, 0x79,
        0xcf, 0xff, 0xb9, 0x22, 0x66,
    ];
    assert(address@ =~= config::default_address());
    address
}

/// The logs that are asked for: those of the watched contract from the latest block on, without
/// a last block.
///
/// Of two events that are given to a filter one after the other the second stays, so the
/// initiated transfers are not among them: only the completed ones are.
pub fn event_filter() -> (filter: alloy_rpc_types::Filter)
    ensures
        filter_addresses(filter) == Set::<Seq<u8>>::empty().insert(config::default_address()),
        hexadecimal::hex_bytes("0xf39Fd6e51aad88F6F4ce6aB8827279cffFb92266"@, 20) matches Some(bytes)
            && filter_addresses(filter) == Set::<Seq<u8>>::empty().insert(bytes),
        filter_topics(filter) == Seq::new(4, |i: int| Set::<Seq<u8>>::empty()).update(
            0,
            Set::<Seq<u8>>::empty().insert(
                event_topic("BridgeTransferCompleted(bytes32,bytes32)"@),
            ),
        ),
        filter_starts_at_latest(filter),
        !filter_has_end(filter),
{
    let filter: alloy_rpc_types::Filter = with_address(new_filter(), &watched_address());
    let filter: alloy_rpc_types::Filter = with_event(
        filter,
        "BridgeTransferInitiated(bytes32,address,bytes32,uint256)",
    );
    let filter: alloy_rpc_types::Filter = with_event(
        filter,
        "BridgeTransferCompleted(bytes32,bytes32)",
    );
    let filter: alloy_rpc_types::Filter = from_latest(filter);
    assert(filter_topics(filter) =~= Seq::new(4, |i: int| Set::<Seq<u8>>::empty()).update(
        0,
        Set::<Seq<u8>>::empty().insert(event_topic("BridgeTransferCompleted(bytes32,bytes32)"@)),
    ));
    filter
}

/// What is sent to the listeners for a log.
pub fn channel_event<H: From<[u8; 32]>>(signatures: &EventSignatures, log: &Log) -> (r: Result<
    AbstractBlockainEvent<EthAddress, H>,
    LogError,
>)
    ensures
        r is Ok <==> events::reports_event(*signatures, *log),
        match r {
            Ok(sent) => {
                &&& sent matches AbstractBlockainEvent::InitiatorContractEvent(Ok(event))
                &&& events::is_event_of(*signatures, *log, event)
            },
            Err(error) => events::is_refused(*signatures, *log, error),
        },
{
    match convert_log_to_event(signatures, log) {
        Ok(event) => Ok(AbstractBlockainEvent::InitiatorContractEvent(Ok(event))),
        Err(e) => Err(e),
    }
}

/// What is sent for a log is the event that the log is converted to, as an event of the
/// initiating contract; and a log that gives no event is not sent.
pub proof fn law_channel_carries_the_event(
    signatures: EventSignatures,
    log: Log,
    r: Result<BridgeContractInitiatorEvent<EthAddress, EthHash>, LogError>,
    sent: Result<AbstractBlockainEvent<EthAddress, EthHash>, LogError>,
)
    requires
        call_ensures(convert_log_to_event::<EthHash>, (&signatures, &log), r),
        call_ensures(channel_event::<EthHash>, (&signatures, &log), sent),
    ensures
        r is Ok <==> sent is Ok,
        r matches Ok(event) ==> sent->Ok_0 matches AbstractBlockainEvent::InitiatorContractEvent(
            Ok(carried),
        ) && match event {
            BridgeContractInitiatorEvent::Initiated(details) => {
                &&& carried matches BridgeContractInitiatorEvent::Initiated(twin)
                &&& twin.bridge_transfer_id.0@ == details.bridge_transfer_id.0@
                &&& twin.initiator_address.0.0@ == details.initiator_address.0.0@
                &&& twin.recipient_address.0@ == details.recipient_address.0@
                &&& twin.hash_lock.0@ == details.hash_lock.0@
                &&& twin.time_lock == details.time_lock
                &&& twin.amount == details.amount
            },
            BridgeContractInitiatorEvent::Completed(id) => carried matches
                BridgeContractInitiatorEvent::Completed(twin) && twin.0@ == id.0@,
            BridgeContractInitiatorEvent::Refunded(id) => carried matches
                BridgeContractInitiatorEvent::Refunded(twin) && twin.0@ == id.0@,
        },
        r matches Err(error) ==> match error {
            LogError::MissingEventType => sent->Err_0 is MissingEventType,
            LogError::UnexpectedEventType => sent->Err_0 is UnexpectedEventType,
            LogError::MissingTransferId => sent->Err_0 is MissingTransferId,
            LogError::UnableToParse(_) => sent->Err_0 is UnableToParse,
            LogError::UnexpectedToken(_) => false,
            LogError::NumberTooLarge(at) => sent->Err_0 == LogError::NumberTooLarge(at),
        },
{
    events::law_plain_hashes_are_their_bytes();
}

/// What a stream says when it is asked for its next item.
#[derive(Clone, Copy, Debug, PartialEq, Eq)]
pub enum Poll<T> {
    Ready(T),
    Pending,
}

/// What the monitor says, given what the channel said: the event of the initiating contract,
/// where there is one, and that there is nothing yet in every other case.
pub open spec fn next_event<A, H>(polled: Poll<Option<AbstractBlockainEvent<A, H>>>) -> Poll<
    Option<BridgeContractInitiatorEvent<A, H>>,
> {
    match polled {
        Poll::Ready(Some(AbstractBlockainEvent::InitiatorContractEvent(Ok(event)))) => Poll::Ready(
            Some(event),
        ),
        _ => Poll::Pending,
    }
}

/// Passes on what the channel said. Only the events of the initiating contract come through.
pub fn poll_next<A, H>(polled: Poll<Option<AbstractBlockainEvent<A, H>>>) -> (r: Poll<
    Option<BridgeContractInitiatorEvent<A, H>>,
>)
    ensures
        r == next_event(polled),
        match polled {
            Poll::Ready(Some(AbstractBlockainEvent::InitiatorContractEvent(Ok(event)))) => r
                == Poll::Ready(Some(event)),
            _ => r is Pending,
        },
{
    match polled {
        Poll::Ready(Some(AbstractBlockainEvent::InitiatorContractEvent(contract_result))) => {
            match contract_result {
                Ok(contract_event) => match contract_event {
                    BridgeContractInitiatorEvent::Initiated(details) => Poll::Ready(
                        Some(BridgeContractInitiatorEvent::Initiated(details)),
                    ),
                    BridgeContractInitiatorEvent::Completed(id) => Poll::Ready(
                        Some(BridgeContractInitiatorEvent::Completed(id)),
                    ),
                    BridgeContractInitiatorEvent::Refunded(id) => Poll::Ready(
                        Some(BridgeContractInitiatorEvent::Refunded(id)),
                    ),
                },
                Err(_) => Poll::Pending,
            }
        },
        _ => Poll::Pending,
    }
}

/// Polling hands on exactly the events of the initiating contract, as they are, and says that
/// there is nothing yet in every other case.
pub proof fn law_polling_hands_events_on<A, H>(
    polled: Poll<Option<AbstractBlockainEvent<A, H>>>,
    event: BridgeContractInitiatorEvent<A, H>,
    r: Poll<Option<BridgeContractInitiatorEvent<A, H>>>,
)
    requires
        call_ensures(poll_next::<A, H>, (polled,), r),
    ensures
        r == Poll::Ready(Some(event)) <==> polled == Poll::Ready(
            Some(AbstractBlockainEvent::<A, H>::InitiatorContractEvent(Ok(event))),
        ),
        r != Poll::<Option<BridgeContractInitiatorEvent<A, H>>>::Ready(None),
{
}

/// The monitor never ends: where the channel is closed, it keeps saying that there is nothing
/// yet.
pub proof fn law_monitor_never_ends<A, H>(polled: Poll<Option<AbstractBlockainEvent<A, H>>>)
    ensures
        next_event(polled) != Poll::<Option<BridgeContractInitiatorEvent<A, H>>>::Ready(None),
        polled is Pending ==> next_event(polled) is Pending,
        polled == Poll::<Option<AbstractBlockainEvent<A, H>>>::Ready(None) ==> next_event(
            polled,
        ) is Pending,
{
}

/// What comes out of the monitor went into the channel as an event of the initiating
/// contract, and what went in as one comes out unchanged.
pub proof fn law_events_pass_unchanged<A, H>(
    polled: Poll<Option<AbstractBlockainEvent<A, H>>>,
    event: BridgeContractInitiatorEvent<A, H>,
)
    ensures
        next_event(polled) == Poll::Ready(Some(event)) <==> polled == Poll::Ready(
            Some(AbstractBlockainEvent::<A, H>::InitiatorContractEvent(Ok(event))),
        ),
{
}

/// The events that a monitor hands out when it is polled once for each of `items`, which come
/// out of the channel in this order.
pub open spec fn handed_out<A, H>(items: Seq<AbstractBlockainEvent<A, H>>) -> Seq<
    BridgeContractInitiatorEvent<A, H>,
>
    decreases items.len(),
{
    if items.len() == 0 {
        Seq::empty()
    } else {
        let before: Seq<BridgeContractInitiatorEvent<A, H>> = handed_out(items.drop_last());
        match next_event(Poll::Ready(Some(items.last()))) {
            Poll::Ready(Some(event)) => before.push(event),
            _ => before,
        }
    }
}

/// `item` is an event of the initiating contract.
pub open spec fn is_initiator_event<A, H>(item: AbstractBlockainEvent<A, H>) -> bool {
    item matches AbstractBlockainEvent::InitiatorContractEvent(result) && result is Ok
}

/// The event of the initiating contract that `item` is.
pub open spec fn initiator_event<A, H>(
    item: AbstractBlockainEvent<A, H>,
) -> BridgeContractInitiatorEvent<A, H> {
    item->InitiatorContractEvent_0->Ok_0
}

/// Polled once for each item in the channel, the monitor hands out exactly the events of the
/// initiating contract among them, in the order in which they went in.
pub proof fn law_queue_is_handed_out_in_order<A, H>(items: Seq<AbstractBlockainEvent<A, H>>)
    ensures
        handed_out(items) == items.filter(
            |item: AbstractBlockainEvent<A, H>| is_initiator_event(item),
        ).map_values(|item: AbstractBlockainEvent<A, H>| initiator_event(item)),
    decreases items.len(),
{
    let wanted = |item: AbstractBlockainEvent<A, H>| is_initiator_event(item);
    let inside = |item: AbstractBlockainEvent<A, H>| initiator_event(item);
    reveal(Seq::filter);
    if items.len() > 0 {
        law_queue_is_handed_out_in_order(items.drop_last());
        let kept: Seq<AbstractBlockainEvent<A, H>> = items.drop_last().filter(wanted);
        assert(kept.push(items.last()).map_values(inside) =~= kept.map_values(inside).push(
            inside(items.last()),
        ));
    }
    assert(handed_out(items) =~= items.filter(wanted).map_values(inside));
}

} // verus!
