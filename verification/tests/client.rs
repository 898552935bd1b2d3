use ethereum_bridge::client::{ContractCall, ErrorRule, StorageQuery};
use ethereum_bridge::config::{BuildError, ConnectionPlan};
use ethereum_bridge::storage::{DetailsError, EthBridgeTransferDetails};
use ethereum_bridge::types::{
    Amount, BridgeTransferId, EthAddress, HashLock, HashLockPreImage, InitiatorAddress,
    RecipientAddress, TimeLock,
};
use ethereum_bridge::uint::U256;
use ethereum_bridge::{vec_to_array, Config, EthClient};

fn word(text: &str) -> [u8; 32] {
    let mut bytes = [0u8; 32];
    for i in 0..32 {
        bytes[i] = u8::from_str_radix(&text[2 * i..2 * i + 2], 16).unwrap();
    }
    bytes
}

fn plan() -> ConnectionPlan {
    ConnectionPlan {
        signer_key: [1; 32],
        initiator_address: EthAddress([0xaa; 20]),
        rpc_url: "http://localhost:8545".to_string(),
        ws_url: "ws://localhost:8545".to_string(),
        chain_id: "31337".to_string(),
        gas_limit: 10_000_000_000,
        num_tx_send_retries: 5,
    }
}

fn client() -> EthClient {
    EthClient::build_with_config(plan(), "0x70997970c51812dc3a010c7d01b50e0d17dc79c8").unwrap()
}

fn counterparty() -> EthAddress {
    EthAddress([
        0x70, 0x99, 0x79, 0x70, 0xc5, 0x18, 0x12, 0xdc, 0x3a, 0x01, 0x0c, 0x7d, 0x01, 0xb5, 0x0e,
        0x0d, 0x17, 0xdc, 0x79, 0xc8,
    ])
}

#[test]
fn default_configuration() {
    let config = Config::default();
    assert_eq!(config.rpc_url.as_deref(), Some("http://localhost:8545"));
    assert_eq!(config.ws_url.as_deref(), Some("ws://localhost:8545"));
    assert_eq!(config.chain_id, "31337");
    assert_eq!(config.initiator_address, "0xf39Fd6e51aad88F6F4ce6aB8827279cffFb92266");
    assert_eq!(config.counterparty_address, "0xf39Fd6e51aad88F6F4ce6aB8827279cffFb92266");
    assert_eq!(config.recipient_address, "0xf39Fd6e51aad88F6F4ce6aB8827279cffFb92266");
    assert_eq!(config.gas_limit, 10_000_000_000);
    assert_eq!(config.num_tx_send_retries, 5);
}

#[test]
fn default_key_is_lower_case_hexadecimal() {
    let text = Config::default_for_private_key();
    assert_eq!(text.len(), 66);
    assert!(text.starts_with("0x"));
    assert!(text[2..].bytes().all(|b| matches!(b, b'0'..=b'9' | b'a'..=b'f')));
    assert_ne!(text, Config::default_for_private_key());
}

#[test]
fn key_as_text() {
    let mut key = [0; 32];
    key[0] = 0xAB;
    key[31] = 0x0F;
    let expected = "0xab0000000000000000000000000000000000000000000000000000000000000f";
    assert_eq!(Config::key_text(&key), expected);
    let mut config = Config::default();
    config.signer_private_key = Config::key_text(&key);
    assert_eq!(config.connection_plan().unwrap().signer_key, key);
}

#[test]
fn default_configuration_connects() {
    let config = Config::default();
    let text = config.signer_private_key.clone();
    let plan = config.connection_plan().unwrap();
    assert_eq!(plan.signer_key, word(&text[2..]));
    assert_eq!(
        plan.initiator_address,
        EthAddress([
            0xf3, 0x9f, 0xd6, 0xe5, 0x1a, 0xad, 0x88, 0xf6, 0xf4, 0xce, 0x6a, 0xb8, 0x82, 0x72,
            0x79, 0xcf, 0xff, 0xb9, 0x22, 0x66,
        ])
    );
    assert_eq!(plan.rpc_url, "http://localhost:8545");
    assert_eq!(plan.ws_url, "ws://localhost:8545");
    assert_eq!(plan.chain_id, "31337");
    assert_eq!(plan.gas_limit, 10_000_000_000);
    assert_eq!(plan.num_tx_send_retries, 5);
}

#[test]
fn key_is_read_with_or_without_prefix_and_in_either_case() {
    let digits = "ac0974bec39a17e36ba4a6b4d238ff944bacb478cbed5efcae784d7bf4f2ff80";
    for text in [
        digits.to_string(),
        format!("0x{}", digits),
        format!("0X{}", digits.to_uppercase()),
    ] {
        let mut config = Config::default();
        config.signer_private_key = text;
        assert_eq!(config.connection_plan().unwrap().signer_key, word(digits));
    }
}

#[test]
fn bad_keys_are_refused() {
    for text in [
        "",
        "0x",
        "0xzz0974bec39a17e36ba4a6b4d238ff944bacb478cbed5efcae784d7bf4f2ff80",
        "ac0974bec39a17e36ba4a6b4d238ff944bacb478cbed5efcae784d7bf4f2ff",
        "0000000000000000000000000000000000000000000000000000000000000000",
        "fffffffffffffffffffffffffffffffebaaedce6af48a03bbfd25e8cd0364141",
        "ffffffffffffffffffffffffffffffffffffffffffffffffffffffffffffffff",
    ] {
        let mut config = Config::default();
        config.signer_private_key = text.to_string();
        config.initiator_address = String::new();
        config.rpc_url = None;
        config.ws_url = None;
        assert!(matches!(config.connection_plan(), Err(BuildError::InvalidSignerKey(_))));
    }
}

#[test]
fn smallest_and_largest_keys_are_accepted() {
    for text in [
        "0000000000000000000000000000000000000000000000000000000000000001",
        "fffffffffffffffffffffffffffffffebaaedce6af48a03bbfd25e8cd0364140",
    ] {
        let mut config = Config::default();
        config.signer_private_key = text.to_string();
        assert_eq!(config.connection_plan().unwrap().signer_key, word(text));
    }
}

#[test]
fn bad_initiator_address_is_refused_before_the_urls() {
    let mut config = Config::default();
    config.initiator_address = "0xf39Fd6e51aad88F6F4ce6aB8827279cffFb922".to_string();
    config.rpc_url = None;
    config.ws_url = None;
    assert!(matches!(
        config.connection_plan(),
        Err(BuildError::InvalidInitiatorAddress(_))
    ));
}

#[test]
fn missing_urls_are_refused() {
    let mut config = Config::default();
    config.rpc_url = None;
    config.ws_url = None;
    assert!(matches!(config.connection_plan(), Err(BuildError::RpcUrlNotSet)));
    let mut config = Config::default();
    config.ws_url = None;
    assert!(matches!(config.connection_plan(), Err(BuildError::WsUrlNotSet)));
}

#[test]
fn build_errors_in_words() {
    let mut config = Config::default();
    config.rpc_url = None;
    config.ws_url = None;
    let error = config.connection_plan().err().unwrap();
    assert_eq!(error.message(), Some("rpc_url not set".to_string()));
    let mut config = Config::default();
    config.ws_url = None;
    let error = config.connection_plan().err().unwrap();
    assert_eq!(error.message(), Some("ws_url not set".to_string()));
    let error = EthClient::build_with_config(plan(), "").err().unwrap();
    assert_eq!(error.message(), None);
}

#[test]
fn client_takes_both_contracts_from_the_counterparty_address() {
    let client = client();
    assert_eq!(client.initiator_address, counterparty());
    assert_eq!(client.counterparty_address, counterparty());
    assert_eq!(client.chain_id, "31337");
    assert_eq!(
        client.send_transaction_error_rules,
        vec![ErrorRule::UnderPriced, ErrorRule::InsufficentFunds]
    );
    assert_eq!(client.gas_limit, 10_000_000_000);
    assert_eq!(client.num_tx_send_retries, 5);
}

#[test]
fn bad_counterparty_address_is_refused() {
    assert!(matches!(
        EthClient::build_with_config(plan(), "0x70997970"),
        Err(BuildError::InvalidCounterpartyAddress(_))
    ));
}

#[test]
fn client_is_built_from_its_parts() {
    let client = EthClient::build_with_provider(
        EthAddress([1; 20]),
        EthAddress([2; 20]),
        EthAddress([3; 20]),
        7,
        8,
        "1".to_string(),
    );
    assert_eq!(client.initiator_address, EthAddress([2; 20]));
    assert_eq!(client.counterparty_address, EthAddress([3; 20]));
    assert_eq!(client.gas_limit, 7);
    assert_eq!(client.num_tx_send_retries, 8);
    assert_eq!(client.chain_id, "1");
}

#[test]
fn initiate_request_carries_the_transfer() {
    let hash_lock: [u8; 32] = keccak_hash::keccak("secret").0;
    let request = client().initiate_bridge_transfer(
        InitiatorAddress(EthAddress([9; 20])),
        RecipientAddress(vec![4; 32]),
        HashLock(hash_lock),
        TimeLock(100),
        Amount(1000),
    );
    assert_eq!(request.to, counterparty());
    assert_eq!(request.gas_limit, 10_000_000_000u128);
    assert_eq!(request.num_tx_send_retries, 5);
    assert_eq!(
        request.error_rules,
        vec![ErrorRule::UnderPriced, ErrorRule::InsufficentFunds]
    );
    let mut amount = [0u8; 32];
    amount[30] = 0x03;
    amount[31] = 0xe8;
    let mut time_lock = [0u8; 32];
    time_lock[31] = 100;
    assert_eq!(
        request.call,
        ContractCall::InitiateBridgeTransfer {
            amount: U256(amount),
            recipient: [4; 32],
            hash_lock: word("65462b0520ef7d3df61b9992ed3bea0c56ead753be7c8b3614e0ce01e4cac41b"),
            time_lock: U256(time_lock),
        }
    );
}

#[test]
fn complete_request_carries_the_secret() {
    let request = client()
        .complete_bridge_transfer(BridgeTransferId([5; 32]), HashLockPreImage(vec![6; 32]));
    assert_eq!(request.to, counterparty());
    assert_eq!(
        request.call,
        ContractCall::CompleteBridgeTransfer { bridge_transfer_id: [5; 32], pre_image: [6; 32] }
    );
}

#[test]
fn refund_request_names_the_transfer() {
    let request = client().refund_bridge_transfer(BridgeTransferId([5; 32]));
    assert_eq!(request.to, counterparty());
    assert_eq!(
        request.call,
        ContractCall::RefundBridgeTransfer { bridge_transfer_id: [5; 32] }
    );
}

#[test]
fn every_sent_transaction_is_answered_alike() {
    assert_eq!(EthClient::answer_sent::<String>(Ok(())), Ok(()));
    assert_eq!(EthClient::answer_sent(Err("under priced".to_string())), Ok(()));
}

#[test]
fn slot_of_a_transfer() {
    assert_eq!(
        client().bridge_transfer_query(BridgeTransferId([7; 32])),
        StorageQuery {
            address: counterparty(),
            slot: U256(word(
                "9e90cac8fed9f877db56c050446e20de1a5235d8e5defe15f47889e6f01643f7"
            )),
        }
    );
    assert_eq!(
        client().bridge_transfer_query(BridgeTransferId([0; 32])).slot.0,
        word("f319ecc530bf679aa82751dc616fe1518d70c3d3a4d10c89005f29db05979b31")
    );
}

#[test]
fn slot_in_another_mapping() {
    let mut key = [0u8; 32];
    for i in 0..32 {
        key[i] = i as u8;
    }
    assert_eq!(
        client().calculate_storage_slot(key, U256::from_u64(0x400)).0,
        word("12bb82bd5febee288b93f4c0c1a04d99e99867302abff0d33e8e793662b672d0")
    );
}

#[test]
fn details_come_from_a_stored_record() {
    let record = EthBridgeTransferDetails {
        amount: U256::from_u64(42),
        originator: EthAddress([1; 20]),
        recipient: [2; 32],
        hash_lock: [3; 32],
        time_lock: U256::from_u64(1000),
        state: 1,
    };
    let mut storage = Vec::new();
    record.encode(&mut storage);
    let details = client()
        .get_bridge_transfer_details(BridgeTransferId([8; 32]), &storage)
        .unwrap()
        .unwrap();
    assert_eq!(details.bridge_transfer_id, BridgeTransferId([8; 32]));
    assert_eq!(details.initiator_address, InitiatorAddress(EthAddress([1; 20])));
    assert_eq!(details.recipient_address, RecipientAddress(vec![2; 32]));
    assert_eq!(details.hash_lock, HashLock([3; 32]));
    assert_eq!(details.time_lock, TimeLock(1000));
    assert_eq!(details.amount, Amount(42));
}

#[test]
fn storage_words_hold_no_details() {
    assert_eq!(
        client().get_bridge_transfer_details(BridgeTransferId([8; 32]), &[0; 32]),
        Err(DetailsError::UnexpectedString)
    );
    assert!(client()
        .get_bridge_transfer_details(BridgeTransferId([8; 32]), &[0xc0; 32])
        .is_err());
}

#[test]
fn arrays_of_32_bytes() {
    assert_eq!(vec_to_array(vec![3; 32]), Ok([3; 32]));
    assert_eq!(vec_to_array(vec![3; 31]), Err("Vec<u8> does not have exactly 32 elements"));
    assert_eq!(vec_to_array(vec![3; 33]), Err("Vec<u8> does not have exactly 32 elements"));
    assert_eq!(vec_to_array(vec![]), Err("Vec<u8> does not have exactly 32 elements"));
}
