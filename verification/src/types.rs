//! The values that a bridge transfer is made of, and the events and errors of the two
//! contracts that carry one out.
use vstd::prelude::*;

verus! {

/// An Ethereum account or contract address.
#[derive(Clone, Copy, Debug, PartialEq, Eq)]
pub struct EthAddress(pub [u8; 20]);

/// The hashes of the Ethereum side of the bridge.
pub type EthHash = [u8; 32];

/// Names one transfer.
#[derive(Clone, Copy, Debug, PartialEq, Eq)]
pub struct BridgeTransferId<H>(pub H);

/// The account that starts a transfer.
#[derive(Clone, Copy, Debug, PartialEq, Eq)]
pub struct InitiatorAddress<A>(pub A);

/// The account on the other chain that is paid.
#[derive(Clone, Debug, PartialEq, Eq)]
pub struct RecipientAddress(pub Vec<u8>);

/// The hash that the secret of a transfer has to match.
#[derive(Clone, Copy, Debug, PartialEq, Eq)]
pub struct HashLock<H>(pub H);

/// The secret of a transfer.
#[derive(Clone, Debug, PartialEq, Eq)]
pub struct HashLockPreImage(pub Vec<u8>);

/// How long a transfer stays locked.
#[derive(Clone, Copy, Debug, PartialEq, Eq)]
pub struct TimeLock(pub u64);

/// How much a transfer moves.
#[derive(Clone, Copy, Debug, PartialEq, Eq)]
pub struct Amount(pub u64);

/// A transfer as the initiating contract holds it.
#[derive(Clone, Debug, PartialEq, Eq)]
pub struct BridgeTransferDetails<A, H> {
    pub bridge_transfer_id: BridgeTransferId<H>,
    pub initiator_address: InitiatorAddress<A>,
    pub recipient_address: RecipientAddress,
    pub hash_lock: HashLock<H>,
    pub time_lock: TimeLock,
    pub amount: Amount,
}

/// A transfer that the counterparty contract has locked.
#[derive(Clone, Debug, PartialEq, Eq)]
pub struct LockDetails<H> {
    pub bridge_transfer_id: BridgeTransferId<H>,
    pub initiator_address: InitiatorAddress<Vec<u8>>,
    pub recipient_address: RecipientAddress,
    pub hash_lock: HashLock<H>,
    pub time_lock: TimeLock,
    pub amount: Amount,
}

/// A transfer that the counterparty contract has completed.
#[derive(Clone, Debug, PartialEq, Eq)]
pub struct CompletedDetails<H> {
    pub bridge_transfer_id: BridgeTransferId<H>,
    pub recipient_address: RecipientAddress,
    pub hash_lock: HashLock<H>,
    pub secret: HashLockPreImage,
    pub amount: Amount,
}

/// What the initiating contract reports.
#[derive(Clone, Debug, PartialEq, Eq)]
pub enum BridgeContractInitiatorEvent<A, H> {
    Initiated(BridgeTransferDetails<A, H>),
    Completed(BridgeTransferId<H>),
    Refunded(BridgeTransferId<H>),
}

/// What can go wrong at the initiating contract.
#[derive(Clone, Debug, PartialEq, Eq)]
pub enum BridgeContractInitiatorError {
    InitiateTransferError,
    CompleteTransferError,
    RefundTransferError,
    GetDetailsError,
}

/// What a request to the initiating contract is answered.
pub type BridgeContractInitiatorResult<T> = Result<T, BridgeContractInitiatorError>;

/// What the counterparty contract reports.
#[derive(Clone, Debug, PartialEq, Eq)]
pub enum BridgeContractCounterpartyEvent<H> {
    Locked(LockDetails<H>),
    Completed(CompletedDetails<H>),
}

/// What can go wrong at the counterparty contract.
#[derive(Clone, Debug, PartialEq, Eq)]
pub enum BridgeContractCounterpartyError {
    LockTransferError,
    CompleteTransferError,
    AbortTransferError,
    GetDetailsError,
}

/// An event of the initiating contract, or the error met in its place.
pub type SCIResult<A, H> = Result<BridgeContractInitiatorEvent<A, H>, BridgeContractInitiatorError>;

/// An event of the counterparty contract, or the error met in its place.
pub type SCCResult<H> = Result<BridgeContractCounterpartyEvent<H>, BridgeContractCounterpartyError>;

/// What the Move module on the counterparty chain reports.
#[derive(Clone, Debug, PartialEq, Eq)]
pub enum MoveCounterpartyEvent<H> {
    LockedBridgeTransfer(LockDetails<H>),
    CompletedBridgeTransfer(CompletedDetails<H>),
}

/// What can go wrong at the Move module on the counterparty chain.
#[derive(Clone, Debug, PartialEq, Eq)]
pub enum MoveCounterpartyError {
    TransferNotFound,
    InvalidHashLockPreImage,
}

/// What the Ethereum initiator reports.
#[derive(Clone, Debug, PartialEq, Eq)]
pub enum EthInitiatorEvent<A, H> {
    InitiatedBridgeTransfer(BridgeTransferDetails<A, H>),
    CompletedBridgeTransfer(BridgeTransferId<H>, HashLockPreImage),
}

/// What can go wrong at the Ethereum initiator.
#[derive(Clone, Debug, PartialEq, Eq)]
pub enum EthInitiatorError {
    InitiateTransferError,
    TransferNotFound,
    InvalidHashLockPreImage,
}

/// What travels over the channel that a monitor listens to.
#[derive(Debug, PartialEq, Eq)]
pub enum AbstractBlockainEvent<A, H> {
    InitiatorContractEvent(SCIResult<A, H>),
    CounterpartyContractEvent(SCCResult<H>),
    Noop,
}

impl<A: Clone, H: Clone> Clone for AbstractBlockainEvent<A, H> {
    fn clone(&self) -> (copy: Self)
        ensures
            match *self {
                AbstractBlockainEvent::InitiatorContractEvent(Ok(event)) =>
                    copy matches AbstractBlockainEvent::InitiatorContractEvent(Ok(twin)) && cloned(
                        event,
                        twin,
                    ),
                AbstractBlockainEvent::InitiatorContractEvent(Err(error)) =>
                    copy matches AbstractBlockainEvent::InitiatorContractEvent(Err(twin)) && cloned(
                        error,
                        twin,
                    ),
                AbstractBlockainEvent::CounterpartyContractEvent(Ok(event)) =>
                    copy matches AbstractBlockainEvent::CounterpartyContractEvent(Ok(twin))
                        && cloned(event, twin),
                AbstractBlockainEvent::CounterpartyContractEvent(Err(error)) =>
                    copy matches AbstractBlockainEvent::CounterpartyContractEvent(Err(twin))
                        && cloned(error, twin),
                AbstractBlockainEvent::Noop => copy is Noop,
            },
    {
        match self {
            AbstractBlockainEvent::InitiatorContractEvent(Ok(event)) =>
                AbstractBlockainEvent::InitiatorContractEvent(Ok(event.clone())),
            AbstractBlockainEvent::InitiatorContractEvent(Err(error)) =>
                AbstractBlockainEvent::InitiatorContractEvent(Err(error.clone())),
            AbstractBlockainEvent::CounterpartyContractEvent(Ok(event)) =>
                AbstractBlockainEvent::CounterpartyContractEvent(Ok(event.clone())),
            AbstractBlockainEvent::CounterpartyContractEvent(Err(error)) =>
                AbstractBlockainEvent::CounterpartyContractEvent(Err(error.clone())),
            AbstractBlockainEvent::Noop => AbstractBlockainEvent::Noop,
        }
    }
}

impl MoveCounterpartyError {
    /// The error in words.
    pub open spec fn words(self) -> Seq<char> {
        match self {
            MoveCounterpartyError::TransferNotFound => "Transfer not found"@,
            MoveCounterpartyError::InvalidHashLockPreImage =>
                "Invalid hash lock pre image (secret)"@,
        }
    }

    /// The error in words.
    pub fn message(&self) -> (text: String)
        ensures
            text@ == self.words(),
            *self is TransferNotFound ==> text@ == "Transfer not found"@,
            *self is InvalidHashLockPreImage ==> text@ == "Invalid hash lock pre image (secret)"@,
    {
        match self {
            MoveCounterpartyError::TransferNotFound => "Transfer not found".to_owned(),
            MoveCounterpartyError::InvalidHashLockPreImage =>
                "Invalid hash lock pre image (secret)".to_owned(),
        }
    }
}

impl EthInitiatorError {
    /// The error in words.
    pub open spec fn words(self) -> Seq<char> {
        match self {
            EthInitiatorError::InitiateTransferError => "Failed to initiate bridge transfer"@,
            EthInitiatorError::TransferNotFound => "Transfer not found"@,
            EthInitiatorError::InvalidHashLockPreImage => "Invalid hash lock pre image (secret)"@,
        }
    }

    /// The error in words.
    pub fn message(&self) -> (text: String)
        ensures
            text@ == self.words(),
            *self is InitiateTransferError ==> text@ == "Failed to initiate bridge transfer"@,
            *self is TransferNotFound ==> text@ == "Transfer not found"@,
            *self is InvalidHashLockPreImage ==> text@ == "Invalid hash lock pre image (secret)"@,
    {
        match self {
            EthInitiatorError::InitiateTransferError =>
                "Failed to initiate bridge transfer".to_owned(),
            EthInitiatorError::TransferNotFound => "Transfer not found".to_owned(),
            EthInitiatorError::InvalidHashLockPreImage =>
                "Invalid hash lock pre image (secret)".to_owned(),
        }
    }
}

/// Turns a vector of exactly 32 bytes into an array, and refuses every other vector.
pub fn vec_to_array(vec: Vec<u8>) -> (r: Result<[u8; 32], &'static str>)
    ensures
        match r {
            Ok(array) => vec@.len() == 32 && array@ == vec@,
            Err(text) => vec@.len() != 32 && text@ == "Vec<u8> does not have exactly 32 elements"@,
        },
{
    if vec.len() == 32 {
        let mut array: [u8; 32] = [0; 32];
        let mut i: usize = 0;
        while i < 32
            invariant
                i <= 32,
                vec@.len() == 32,
                forall|j: int| 0 <= j < i ==> array@[j] == vec@[j],
            decreases 32 - i,
        {
            array[i] = vec[i];
            i += 1;
        }
        assert(array@ =~= vec@);
        Ok(array)
    } else {
        Err("Vec<u8> does not have exactly 32 elements")
    }
}

/// Exactly the vectors of 32 bytes become arrays, and an array holds the bytes in their order.
pub proof fn law_arrays_hold_32_bytes(vec: Vec<u8>, r: Result<[u8; 32], &'static str>)
    requires
        call_ensures(vec_to_array, (vec,), r),
    ensures
        r is Ok <==> vec@.len() == 32,
        r matches Ok(array) ==> forall|k: int| 0 <= k < 32 ==> #[trigger] array@[k] == vec@[k],
        r matches Err(text) ==> text@ == "Vec<u8> does not have exactly 32 elements"@,
{
}

} // verus!
