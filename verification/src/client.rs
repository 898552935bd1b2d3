//! The client of the initiating contract: what it sends, and what it makes of the answers.
use vstd::prelude::*;

use crate::config::{BuildError, Config, ConnectionPlan};
use crate::hexadecimal;
use crate::rlp;
use crate::storage;
use crate::storage::{DetailsError, EthBridgeTransferDetails};
use crate::types::{
    Amount, BridgeContractInitiatorResult, BridgeTransferDetails, BridgeTransferId, EthAddress,
    EthHash, HashLock, HashLockPreImage, InitiatorAddress, RecipientAddress, TimeLock,
};
use crate::types::vec_to_array;
use crate::uint;
use crate::uint::U256;

verus! {

/// A reason of a node to turn a transaction down that the sender looks out for.
#[derive(Clone, Copy, Debug, PartialEq, Eq)]
pub enum ErrorRule {
    /// The transaction offers too little for its gas.
    UnderPriced,
    /// The account cannot pay for the transaction.
    InsufficentFunds,
}

/// A call of the initiating contract.
#[derive(Clone, Copy, Debug, PartialEq, Eq)]
pub enum ContractCall {
    InitiateBridgeTransfer {
        amount: U256,
        recipient: [u8; 32],
        hash_lock: [u8; 32],
        time_lock: U256,
    },
    CompleteBridgeTransfer { bridge_transfer_id: [u8; 32], pre_image: [u8; 32] },
    RefundBridgeTransfer { bridge_transfer_id: [u8; 32] },
}

/// A transaction to be sent.
#[derive(Clone, Debug, PartialEq, Eq)]
pub struct TransactionRequest {
    /// The contract that is called.
    pub to: EthAddress,
    pub call: ContractCall,
    pub error_rules: Vec<ErrorRule>,
    pub num_tx_send_retries: u32,
    pub gas_limit: u128,
}

/// A storage slot to be read.
#[derive(Clone, Copy, Debug, PartialEq, Eq)]
pub struct StorageQuery {
    /// The contract whose storage is read.
    pub address: EthAddress,
    pub slot: U256,
}

/// What the client knows besides its connections.
#[derive(Debug, PartialEq, Eq)]
pub struct EthClient {
    pub chain_id: String,
    pub initiator_address: EthAddress,
    pub counterparty_address: EthAddress,
    pub send_transaction_error_rules: Vec<ErrorRule>,
    pub gas_limit: u64,
    pub num_tx_send_retries: u32,
}

/// The slot of the mapping that the contract keeps its transfers in.
pub open spec fn transfers_slot() -> nat {
    0
}

impl EthClient {
    /// Builds the client once it is connected.
    ///
    /// Requests go to the contract at `counterparty_address`, which stands for both
    /// contracts; the address in the configuration has only been checked.
    pub fn build_with_config(plan: ConnectionPlan, counterparty_address: &str) -> (r: Result<
        Self,
        BuildError,
    >)
        ensures
            match r {
                Ok(client) => {
                    &&& hexadecimal::hex_bytes(counterparty_address@, 20) == Some(
                        client.initiator_address.0@,
                    )
                    &&& hexadecimal::hex_bytes(counterparty_address@, 20) == Some(
                        client.counterparty_address.0@,
                    )
                    &&& client.chain_id == plan.chain_id
                    &&& client.send_transaction_error_rules@ == seq![
                        ErrorRule::UnderPriced,
                        ErrorRule::InsufficentFunds,
                    ]
                    &&& client.gas_limit == plan.gas_limit
                    &&& client.num_tx_send_retries == plan.num_tx_send_retries
                },
                Err(BuildError::InvalidCounterpartyAddress(_)) => hexadecimal::hex_bytes(
                    counterparty_address@,
                    20,
                ) is None,
                Err(_) => false,
            },
    {
        match hexadecimal::parse_address(counterparty_address) {
            Ok(bytes) => Ok(
                Self::build_with_provider(
                    plan.initiator_address,
                    EthAddress(bytes),
                    EthAddress(bytes),
                    plan.gas_limit,
                    plan.num_tx_send_retries,
                    plan.chain_id,
                ),
            ),
            Err(e) => Err(BuildError::InvalidCounterpartyAddress(e)),
        }
    }

    /// Builds the client from its parts.
    pub fn build_with_provider(
        _signer_address: EthAddress,
        initiator_address: EthAddress,
        counterparty_address: EthAddress,
        gas_limit: u64,
        num_tx_send_retries: u32,
        chain_id: String,
    ) -> (client: Self)
        ensures
            client.chain_id == chain_id,
            client.initiator_address == initiator_address,
            client.counterparty_address == counterparty_address,
            client.send_transaction_error_rules@ == seq![
                ErrorRule::UnderPriced,
                ErrorRule::InsufficentFunds,
            ],
            client.gas_limit == gas_limit,
            client.num_tx_send_retries == num_tx_send_retries,
    {
        let mut rules: Vec<ErrorRule> = Vec::new();
        rules.push(ErrorRule::UnderPriced);
        rules.push(ErrorRule::InsufficentFunds);
        assert(rules@ =~= seq![ErrorRule::UnderPriced, ErrorRule::InsufficentFunds]);
        EthClient {
            chain_id,
            initiator_address,
            counterparty_address,
            send_transaction_error_rules: rules,
            gas_limit,
            num_tx_send_retries,
        }
    }

    /// `request` goes to the initiating contract, with the settings of the client.
    pub open spec fn sends(self, request: TransactionRequest) -> bool {
        &&& request.to == self.initiator_address
        &&& request.error_rules@ == self.send_transaction_error_rules@
        &&& request.num_tx_send_retries == self.num_tx_send_retries
        &&& request.gas_limit == self.gas_limit
    }

    /// A transaction that makes `call`.
    fn request(&self, call: ContractCall) -> (request: TransactionRequest)
        ensures
            self.sends(request),
            request.to == self.initiator_address,
            request.error_rules@ == self.send_transaction_error_rules@,
            request.num_tx_send_retries == self.num_tx_send_retries,
            request.gas_limit as nat == self.gas_limit as nat,
            request.call == call,
    {
        let rules: Vec<ErrorRule> = self.send_transaction_error_rules.clone();
        assert(rules@ =~= self.send_transaction_error_rules@);
        TransactionRequest {
            to: self.initiator_address,
            call,
            error_rules: rules,
            num_tx_send_retries: self.num_tx_send_retries,
            gas_limit: self.gas_limit as u128,
        }
    }

    /// The transaction that starts a transfer. The recipient has to be 32 bytes long.
    pub fn initiate_bridge_transfer(
        &self,
        _initiator_address: InitiatorAddress<EthAddress>,
        recipient_address: RecipientAddress,
        hash_lock: HashLock<EthHash>,
        time_lock: TimeLock,
        amount: Amount,
    ) -> (request: TransactionRequest)
        requires
            recipient_address.0@.len() == 32,
        ensures
            self.sends(request),
            request.to == self.initiator_address,
            request.error_rules@ == self.send_transaction_error_rules@,
            request.num_tx_send_retries == self.num_tx_send_retries,
            request.gas_limit as nat == self.gas_limit as nat,
            request.call matches ContractCall::InitiateBridgeTransfer {
                amount: amount_word,
                recipient,
                hash_lock: lock,
                time_lock: time_word,
            } && {
                &&& amount_word@ == amount.0 as nat
                &&& uint::be_nat(amount_word.0@) == amount.0 as nat
                &&& recipient@ == recipient_address.0@
                &&& lock == hash_lock.0
                &&& time_word@ == time_lock.0 as nat
                &&& uint::be_nat(time_word.0@) == time_lock.0 as nat
            },
    {
        let recipient: [u8; 32] = match vec_to_array(recipient_address.0) {
            Ok(bytes) => bytes,
            Err(_) => vstd::pervasive::unreached(),
        };
        self.request(
            ContractCall::InitiateBridgeTransfer {
                amount: U256::from_u64(amount.0),
                recipient,
                hash_lock: hash_lock.0,
                time_lock: U256::from_u64(time_lock.0),
            },
        )
    }

    /// The transaction that completes a transfer. The secret has to be 32 bytes long.
    pub fn complete_bridge_transfer(
        &self,
        bridge_transfer_id: BridgeTransferId<EthHash>,
        pre_image: HashLockPreImage,
    ) -> (request: TransactionRequest)
        requires
            pre_image.0@.len() == 32,
        ensures
            self.sends(request),
            request.to == self.initiator_address,
            request.error_rules@ == self.send_transaction_error_rules@,
            request.num_tx_send_retries == self.num_tx_send_retries,
            request.gas_limit as nat == self.gas_limit as nat,
            request.call matches ContractCall::CompleteBridgeTransfer {
                bridge_transfer_id: id,
                pre_image: secret,
            } && id == bridge_transfer_id.0 && secret@ == pre_image.0@,
    {
        let secret: [u8; 32] = match vec_to_array(pre_image.0) {
            Ok(bytes) => bytes,
            Err(_) => vstd::pervasive::unreached(),
        };
        self.request(
            ContractCall::CompleteBridgeTransfer {
                bridge_transfer_id: bridge_transfer_id.0,
                pre_image: secret,
            },
        )
    }

    /// The transaction that takes a transfer back.
    pub fn refund_bridge_transfer(&self, bridge_transfer_id: BridgeTransferId<EthHash>) -> (request:
        TransactionRequest)
        ensures
            self.sends(request),
            request.to == self.initiator_address,
            request.error_rules@ == self.send_transaction_error_rules@,
            request.num_tx_send_retries == self.num_tx_send_retries,
            request.gas_limit as nat == self.gas_limit as nat,
            request.call == (ContractCall::RefundBridgeTransfer {
                bridge_transfer_id: bridge_transfer_id.0,
            }),
    {
        self.request(
            ContractCall::RefundBridgeTransfer { bridge_transfer_id: bridge_transfer_id.0 },
        )
    }

    /// What the caller of one of the three requests is answered once the transaction has been
    /// sent, or could not be: that all is well.
    pub fn answer_sent<E>(sent: Result<(), E>) -> (r: BridgeContractInitiatorResult<()>)
        ensures
            r == BridgeContractInitiatorResult::Ok(()),
    {
        Ok(())
    }

    /// Where the contract keeps the transfer.
    pub fn bridge_transfer_query(&self, bridge_transfer_id: BridgeTransferId<EthHash>) -> (query:
        StorageQuery)
        ensures
            query.address == self.initiator_address,
            query.slot.0@ == storage::keccak256(
                storage::slot_key(bridge_transfer_id.0@, transfers_slot()),
            ),
            query.slot.0@ == storage::keccak256(
                seq![0xE2u8, 0xA0u8] + bridge_transfer_id.0@ + seq![0x80u8],
            ),
    {
        let mapping_slot: U256 = U256::from_u64(0);
        proof {
            storage::law_slot_key_bytes(bridge_transfer_id.0@, mapping_slot);
        }
        StorageQuery {
            address: self.initiator_address,
            slot: self.calculate_storage_slot(bridge_transfer_id.0, mapping_slot),
        }
    }

    /// The storage slot of the entry `key` of the mapping in slot `mapping_slot`.
    pub fn calculate_storage_slot(&self, key: [u8; 32], mapping_slot: U256) -> (slot: U256)
        ensures
            slot.0@ == storage::keccak256(storage::slot_key(key@, mapping_slot@)),
            uint::be_nat(mapping_slot.0@) == 0 ==> slot.0@ == storage::keccak256(
                seq![0xE2u8, 0xA0u8] + key@ + seq![0x80u8],
            ),
            0 < uint::be_nat(mapping_slot.0@) < 0x80 ==> slot.0@ == storage::keccak256(
                seq![0xE2u8, 0xA0u8] + key@ + seq![uint::be_nat(mapping_slot.0@) as u8],
            ),
    {
        proof {
            storage::law_slot_key_bytes(key@, mapping_slot);
        }
        let mut payload: Vec<u8> = Vec::new();
        rlp::write_bytes32(&key, &mut payload);
        rlp::write_u256(&mapping_slot.0, &mut payload);
        assert(payload@ =~= rlp::rlp_string(key@) + rlp::rlp_uint(mapping_slot@));
        let mut buffer: Vec<u8> = Vec::new();
        rlp::write_header(true, payload.len(), &mut buffer);
        buffer.append(&mut payload);
        assert(buffer@ =~= storage::slot_key(key@, mapping_slot@));
        U256(storage::keccak(buffer.as_slice()))
    }

    /// The transfer, given the bytes found at its storage slot.
    ///
    /// The bytes have to start with a record; whatever else they hold is refused.
    pub fn get_bridge_transfer_details(
        &self,
        bridge_transfer_id: BridgeTransferId<EthHash>,
        storage: &[u8],
    ) -> (r: Result<Option<BridgeTransferDetails<EthAddress, EthHash>>, DetailsError>)
        ensures
            forall|record: EthBridgeTransferDetails|
                #[trigger] record.rlp().is_prefix_of(storage@) ==> {
                    &&& r matches Ok(Some(details))
                    &&& storage::shows_record(details, bridge_transfer_id, record)
                    &&& details.bridge_transfer_id == bridge_transfer_id
                    &&& details.initiator_address.0 == record.originator
                    &&& details.recipient_address.0@ == record.recipient@
                    &&& details.hash_lock.0 == record.hash_lock
                    &&& details.time_lock.0 as nat == uint::be_nat(record.time_lock.0@)
                        % 0x1_0000_0000_0000_0000
                    &&& details.amount.0 as nat == uint::be_nat(record.amount.0@)
                        % 0x1_0000_0000_0000_0000
                },
            r is Ok ==> exists|record: EthBridgeTransferDetails|
                #[trigger] record.rlp().is_prefix_of(storage@),
            r matches Err(DetailsError::UnexpectedString) <==> exists|len: nat, rest: Seq<u8>|
                rlp::opens_item(storage@, false, len, rest),
            forall|expected: usize, got: usize|
                r matches Err(DetailsError::ListLengthMismatch { expected: e, got: g }) && e
                    == expected && g == got <==> #[trigger] storage::has_other_length(
                    storage@,
                    expected,
                    got,
                ),
    {
        match EthBridgeTransferDetails::decode(storage) {
            Ok(record) => {
                assert(record.rlp().is_prefix_of(storage@));
                Ok(Some(storage::details_of_record(bridge_transfer_id, &record)))
            },
            Err(e) => Err(e),
        }
    }
}

/// A client is had exactly where the text spells an address; both of its contracts are at that
/// address, and what the configuration sets reaches the requests unchanged.
pub proof fn law_configuration_reaches_the_requests(
    config: Config,
    plan: ConnectionPlan,
    counterparty_address: &str,
    built: Result<EthClient, BuildError>,
    id: BridgeTransferId<EthHash>,
    request: TransactionRequest,
)
    requires
        call_ensures(
            Config::connection_plan,
            (config,),
            Ok::<ConnectionPlan, BuildError>(plan),
        ),
        call_ensures(EthClient::build_with_config, (plan, counterparty_address), built),
    ensures
        built is Ok <==> hexadecimal::hex_bytes(counterparty_address@, 20) is Some,
        built matches Err(e) ==> e is InvalidCounterpartyAddress,
        built matches Ok(client) ==> {
            &&& hexadecimal::hex_bytes(counterparty_address@, 20) == Some(
                client.initiator_address.0@,
            )
            &&& client.counterparty_address.0@ == client.initiator_address.0@
            &&& client.chain_id@ == config.chain_id@
        },
        built matches Ok(client) && call_ensures(
            EthClient::refund_bridge_transfer,
            (&client, id),
            request,
        ) ==> {
            &&& hexadecimal::hex_bytes(counterparty_address@, 20) == Some(request.to.0@)
            &&& request.gas_limit as nat == config.gas_limit as nat
            &&& request.num_tx_send_retries == config.num_tx_send_retries
            &&& request.error_rules@ == seq![ErrorRule::UnderPriced, ErrorRule::InsufficentFunds]
        },
{
}

/// A client that is built from its parts holds each in its own place, and looks out for
/// underpriced transactions and for missing funds.
pub proof fn law_parts_of_a_client(
    signer: EthAddress,
    initiator: EthAddress,
    counterparty: EthAddress,
    gas_limit: u64,
    retries: u32,
    chain_id: String,
    client: EthClient,
)
    requires
        call_ensures(
            EthClient::build_with_provider,
            (signer, initiator, counterparty, gas_limit, retries, chain_id),
            client,
        ),
    ensures
        client.initiator_address.0@ == initiator.0@,
        client.counterparty_address.0@ == counterparty.0@,
        client.gas_limit == gas_limit,
        client.num_tx_send_retries == retries,
        client.chain_id@ == chain_id@,
        client.send_transaction_error_rules@.len() == 2,
        client.send_transaction_error_rules@[0] is UnderPriced,
        client.send_transaction_error_rules@[1] is InsufficentFunds,
{
}

/// Whether a transaction could be sent or not, the caller is told that all is well.
pub proof fn law_every_request_is_answered<E>(
    sent: Result<(), E>,
    r: BridgeContractInitiatorResult<()>,
)
    requires
        call_ensures(EthClient::answer_sent::<E>, (sent,), r),
    ensures
        r is Ok,
{
}

/// The three requests of a client go to its initiating contract, with its gas limit, its retries
/// and its error rules, whatever is asked of the contract.
pub proof fn law_requests_keep_the_settings(
    client: EthClient,
    initiator: InitiatorAddress<EthAddress>,
    recipient: RecipientAddress,
    hash_lock: HashLock<EthHash>,
    time_lock: TimeLock,
    amount: Amount,
    id: BridgeTransferId<EthHash>,
    pre_image: HashLockPreImage,
    initiate: TransactionRequest,
    complete: TransactionRequest,
    refund: TransactionRequest,
)
    requires
        call_ensures(
            EthClient::initiate_bridge_transfer,
            (&client, initiator, recipient, hash_lock, time_lock, amount),
            initiate,
        ),
        call_ensures(EthClient::complete_bridge_transfer, (&client, id, pre_image), complete),
        call_ensures(EthClient::refund_bridge_transfer, (&client, id), refund),
    ensures
        initiate.to.0@ == client.initiator_address.0@,
        complete.to.0@ == client.initiator_address.0@,
        refund.to.0@ == client.initiator_address.0@,
        initiate.gas_limit as nat == client.gas_limit as nat,
        complete.gas_limit as nat == client.gas_limit as nat,
        refund.gas_limit as nat == client.gas_limit as nat,
        initiate.num_tx_send_retries == client.num_tx_send_retries,
        complete.num_tx_send_retries == client.num_tx_send_retries,
        refund.num_tx_send_retries == client.num_tx_send_retries,
        initiate.error_rules@ == client.send_transaction_error_rules@,
        complete.error_rules@ == client.send_transaction_error_rules@,
        refund.error_rules@ == client.send_transaction_error_rules@,
{
}

/// The request that starts a transfer asks for just that, and carries the recipient and the hash
/// lock byte for byte, and the two numbers digit by digit to the base 256.
pub proof fn law_initiate_carries_the_transfer(
    client: EthClient,
    initiator: InitiatorAddress<EthAddress>,
    recipient: RecipientAddress,
    hash_lock: HashLock<EthHash>,
    time_lock: TimeLock,
    amount: Amount,
    request: TransactionRequest,
)
    requires
        recipient.0@.len() == 32,
        call_ensures(
            EthClient::initiate_bridge_transfer,
            (&client, initiator, recipient, hash_lock, time_lock, amount),
            request,
        ),
    ensures
        request.call matches ContractCall::InitiateBridgeTransfer {
            amount: amount_word,
            recipient: to,
            hash_lock: lock,
            time_lock: time_word,
        } && {
            &&& forall|k: int| 0 <= k < 32 ==> #[trigger] to@[k] == recipient.0@[k]
            &&& forall|k: int| 0 <= k < 32 ==> #[trigger] lock@[k] == hash_lock.0@[k]
            &&& forall|k: int|
                0 <= k < 32 ==> #[trigger] amount_word.0@[k] as int == (amount.0 as int
                    / vstd::arithmetic::power::pow(256, (31 - k) as nat)) % 256
            &&& forall|k: int|
                0 <= k < 32 ==> #[trigger] time_word.0@[k] as int == (time_lock.0 as int
                    / vstd::arithmetic::power::pow(256, (31 - k) as nat)) % 256
        },
{
    let amount_word: U256 = request.call->InitiateBridgeTransfer_amount;
    let time_word: U256 = request.call->InitiateBridgeTransfer_time_lock;
    assert forall|k: int| 0 <= k < 32 implies #[trigger] amount_word.0@[k] as int == (amount.0 as int
        / vstd::arithmetic::power::pow(256, (31 - k) as nat)) % 256 by {
        uint::law_big_endian_digits(amount_word.0@, (31 - k) as nat);
    }
    assert forall|k: int| 0 <= k < 32 implies #[trigger] time_word.0@[k] as int == (
    time_lock.0 as int / vstd::arithmetic::power::pow(256, (31 - k) as nat)) % 256 by {
        uint::law_big_endian_digits(time_word.0@, (31 - k) as nat);
    }
}

/// The requests that complete a transfer and take one back name it byte for byte; the first
/// carries the secret byte for byte.
pub proof fn law_later_requests_name_the_transfer(
    client: EthClient,
    id: BridgeTransferId<EthHash>,
    pre_image: HashLockPreImage,
    complete: TransactionRequest,
    refund: TransactionRequest,
)
    requires
        pre_image.0@.len() == 32,
        call_ensures(EthClient::complete_bridge_transfer, (&client, id, pre_image), complete),
        call_ensures(EthClient::refund_bridge_transfer, (&client, id), refund),
    ensures
        complete.call matches ContractCall::CompleteBridgeTransfer {
            bridge_transfer_id: named,
            pre_image: secret,
        } && forall|k: int|
            0 <= k < 32 ==> #[trigger] named@[k] == id.0@[k] && #[trigger] secret@[k]
                == pre_image.0@[k],
        refund.call matches ContractCall::RefundBridgeTransfer { bridge_transfer_id: named }
            && forall|k: int| 0 <= k < 32 ==> #[trigger] named@[k] == id.0@[k],
{
}

/// A transfer is kept by the initiating contract, in the slot that is the hash of 35 bytes:
/// `0xe2`, `0xa0`, the 32 bytes of its id in their order, and `0x80`.
pub proof fn law_slot_of_a_transfer(
    client: EthClient,
    id: BridgeTransferId<EthHash>,
    query: StorageQuery,
    hashed: Seq<u8>,
)
    requires
        call_ensures(EthClient::bridge_transfer_query, (&client, id), query),
        hashed.len() == 35,
        hashed[0] == 0xE2,
        hashed[1] == 0xA0,
        forall|k: int| 0 <= k < 32 ==> #[trigger] hashed[2 + k] == id.0@[k],
        hashed[34] == 0x80,
    ensures
        query.address.0@ == client.initiator_address.0@,
        query.slot.0@ == storage::keccak256(hashed),
{
    let spelled: Seq<u8> = seq![0xE2u8, 0xA0u8] + id.0@ + seq![0x80u8];
    assert forall|j: int| 0 <= j < 35 implies hashed[j] == spelled[j] by {
        if 2 <= j < 34 {
            assert(hashed[2 + (j - 2)] == id.0@[j - 2]);
        }
    }
    assert(hashed =~= spelled);
}

/// The slot of an entry of any mapping is the hash of the header of a list, `0xa0`, the 32 bytes
/// of the key in their order, and the number of the mapping.
pub proof fn law_slot_of_an_entry(client: EthClient, key: [u8; 32], mapping_slot: U256, slot: U256)
    requires
        call_ensures(EthClient::calculate_storage_slot, (&client, key, mapping_slot), slot),
    ensures
        ({
            let n: nat = uint::be_nat(mapping_slot.0@);
            let number: Seq<u8> = rlp::rlp_uint(n);
            &&& n == 0 ==> slot.0@ == storage::keccak256(
                seq![0xE2u8, 0xA0u8] + key@ + seq![0x80u8],
            )
            &&& 0 < n < 0x80 ==> slot.0@ == storage::keccak256(
                seq![0xE2u8, 0xA0u8] + key@ + seq![n as u8],
            )
            &&& number.len() < 23 ==> slot.0@ == storage::keccak256(
                seq![(0xE1 + number.len()) as u8, 0xA0u8] + key@ + number,
            )
            &&& number.len() >= 23 ==> slot.0@ == storage::keccak256(
                seq![0xF8u8, (33 + number.len()) as u8, 0xA0u8] + key@ + number,
            )
        }),
{
    storage::law_slot_key_bytes(key@, mapping_slot);
}

/// Where a record stands at the front of the stored bytes, the details that are handed back hold
/// its fields, byte for byte and in the same order, under the id that was asked for.
pub proof fn law_stored_record_is_shown(
    client: EthClient,
    id: BridgeTransferId<EthHash>,
    storage: &[u8],
    record: EthBridgeTransferDetails,
    tail: Seq<u8>,
    r: Result<Option<BridgeTransferDetails<EthAddress, EthHash>>, DetailsError>,
)
    requires
        storage@ == record.rlp() + tail,
        call_ensures(EthClient::get_bridge_transfer_details, (&client, id, storage), r),
    ensures
        r matches Ok(Some(details)) && {
            &&& forall|k: int|
                0 <= k < 32 ==> #[trigger] details.bridge_transfer_id.0@[k] == id.0@[k]
            &&& forall|k: int|
                0 <= k < 20 ==> #[trigger] details.initiator_address.0.0@[k]
                    == record.originator.0@[k]
            &&& details.recipient_address.0@.len() == 32
            &&& forall|k: int|
                0 <= k < 32 ==> #[trigger] details.recipient_address.0@[k] == record.recipient@[k]
            &&& forall|k: int|
                0 <= k < 32 ==> #[trigger] details.hash_lock.0@[k] == record.hash_lock@[k]
            &&& details.time_lock.0 as nat == uint::be_nat(record.time_lock.0@)
                % 0x1_0000_0000_0000_0000
            &&& details.amount.0 as nat == uint::be_nat(record.amount.0@)
                % 0x1_0000_0000_0000_0000
        },
{
    assert(storage@.take(record.rlp().len() as int) =~= record.rlp());
    assert(record.rlp().is_prefix_of(storage@));
}

/// Stored bytes give a transfer exactly where they are read as a record.
#[verifier::spinoff_prover]
pub proof fn law_details_come_from_reading(
    client: EthClient,
    id: BridgeTransferId<EthHash>,
    storage: &[u8],
    read: Result<EthBridgeTransferDetails, DetailsError>,
    r: Result<Option<BridgeTransferDetails<EthAddress, EthHash>>, DetailsError>,
)
    requires
        call_ensures(EthBridgeTransferDetails::decode, (storage,), read),
        call_ensures(EthClient::get_bridge_transfer_details, (&client, id, storage), r),
    ensures
        read is Ok <==> r is Ok,
        r is Ok ==> r->Ok_0 is Some,
{
    if read is Ok {
        assert(read->Ok_0.rlp().is_prefix_of(storage@));
    }
    if r is Ok {
        let record: EthBridgeTransferDetails = choose|record: EthBridgeTransferDetails|
            #[trigger] record.rlp().is_prefix_of(storage@);
        assert(read == Ok::<EthBridgeTransferDetails, DetailsError>(record));
    }
}

/// One storage word never holds a transfer: what is read from it is refused.
pub proof fn law_one_word_is_refused(
    client: EthClient,
    id: BridgeTransferId<EthHash>,
    storage: &[u8],
    r: Result<Option<BridgeTransferDetails<EthAddress, EthHash>>, DetailsError>,
)
    requires
        storage@.len() == 32,
        call_ensures(EthClient::get_bridge_transfer_details, (&client, id, storage), r),
    ensures
        r is Err,
{
    assert forall|record: EthBridgeTransferDetails| !#[trigger] record.rlp().is_prefix_of(
        storage@,
    ) by {
        storage::law_no_record_in_one_word(storage@, record);
    }
}

} // verus!
