//! What the bridge client is told, and what it needs before it can connect.
use vstd::prelude::*;

use crate::hexadecimal;
use crate::types::EthAddress;
use crate::uint;

verus! {

/// The contract that starts transfers, where nothing else is configured.
pub const INITIATOR_ADDRESS: &'static str = "0xf39Fd6e51aad88F6F4ce6aB8827279cffFb92266";

/// The contract on the other side, where nothing else is configured: a stand-in.
pub const COUNTERPARTY_ADDRESS: &'static str = "0xf39Fd6e51aad88F6F4ce6aB8827279cffFb92266";

/// The account that is paid, where nothing else is configured.
pub const RECIPIENT_ADDRESS: &'static str = "0xf39Fd6e51aad88F6F4ce6aB8827279cffFb92266";

/// The gas that a transaction may take, where nothing else is configured.
pub const DEFAULT_GAS_LIMIT: u64 = 10_000_000_000;

/// How often a transaction is sent again, where nothing else is configured.
pub const MAX_RETRIES: u32 = 5;

/// Configuration for the Ethereum bridge client.
#[derive(Clone, Debug)]
pub struct Config {
    pub rpc_url: Option<String>,
    pub ws_url: Option<String>,
    pub chain_id: String,
    pub signer_private_key: String,
    pub initiator_address: String,
    pub counterparty_address: String,
    pub recipient_address: String,
    pub gas_limit: u64,
    pub num_tx_send_retries: u32,
}

/// Why a client cannot be built.
#[derive(Debug)]
pub enum BuildError {
    /// The private key of the signer is none.
    InvalidSignerKey(alloy::signers::local::LocalSignerError),
    /// The address of the initiating contract is none.
    InvalidInitiatorAddress(alloy_primitives::hex::FromHexError),
    /// There is no address to send requests to.
    RpcUrlNotSet,
    /// There is no address to listen at.
    WsUrlNotSet,
    /// The address of the counterparty contract is none.
    InvalidCounterpartyAddress(alloy_primitives::hex::FromHexError),
}

impl BuildError {
    /// The error in words, where nothing was set. What is set and will not do is put in words by
    /// the error that it carries.
    pub fn message(&self) -> (text: Option<String>)
        ensures
            match *self {
                BuildError::RpcUrlNotSet => text matches Some(t) && t@ == "rpc_url not set"@,
                BuildError::WsUrlNotSet => text matches Some(t) && t@ == "ws_url not set"@,
                _ => text is None,
            },
    {
        match self {
            BuildError::RpcUrlNotSet => Some("rpc_url not set".to_owned()),
            BuildError::WsUrlNotSet => Some("ws_url not set".to_owned()),
            _ => None,
        }
    }
}

/// What a client connects with, and what it is built from once it is connected.
pub struct ConnectionPlan {
    /// The key that signs transactions.
    pub signer_key: [u8; 32],
    pub initiator_address: EthAddress,
    pub rpc_url: String,
    pub ws_url: String,
    pub chain_id: String,
    pub gas_limit: u64,
    pub num_tx_send_retries: u32,
}

/// `config` is one that `Config::default` can give: all is fixed but the private key.
pub open spec fn is_default(config: Config) -> bool {
    &&& config.rpc_url matches Some(url)
    &&& url@ == "http://localhost:8545"@
    &&& config.ws_url matches Some(url)
    &&& url@ == "ws://localhost:8545"@
    &&& config.chain_id@ == "31337"@
    &&& is_key_text(config.signer_private_key@)
    &&& config.initiator_address@ == INITIATOR_ADDRESS@
    &&& config.counterparty_address@ == COUNTERPARTY_ADDRESS@
    &&& config.recipient_address@ == RECIPIENT_ADDRESS@
    &&& config.gas_limit == DEFAULT_GAS_LIMIT
    &&& config.num_tx_send_retries == MAX_RETRIES
}

/// `text` is a private key in lower-case hexadecimal, behind a `0x`.
pub open spec fn is_key_text(text: Seq<char>) -> bool {
    exists|key: Seq<u8>| hexadecimal::is_private_key(key) && text == #[trigger] hexadecimal::hex_text(key)
}

impl Default for Config {
    fn default() -> (config: Self)
        ensures
            is_default(config),
            config.rpc_url matches Some(url) && url@ == "http://localhost:8545"@,
            config.ws_url matches Some(url) && url@ == "ws://localhost:8545"@,
            config.chain_id@ == "31337"@,
            hexadecimal::private_key(config.signer_private_key@) is Some,
            config.initiator_address@ == "0xf39Fd6e51aad88F6F4ce6aB8827279cffFb92266"@,
            config.counterparty_address@ == "0xf39Fd6e51aad88F6F4ce6aB8827279cffFb92266"@,
            config.recipient_address@ == "0xf39Fd6e51aad88F6F4ce6aB8827279cffFb92266"@,
            config.gas_limit == 10_000_000_000,
            config.num_tx_send_retries == 5,
    {
        Config {
            rpc_url: Some("http://localhost:8545".to_owned()),
            ws_url: Some("ws://localhost:8545".to_owned()),
            chain_id: "31337".to_owned(),
            signer_private_key: Self::default_for_private_key(),
            initiator_address: INITIATOR_ADDRESS.to_owned(),
            counterparty_address: COUNTERPARTY_ADDRESS.to_owned(),
            recipient_address: RECIPIENT_ADDRESS.to_owned(),
            gas_limit: DEFAULT_GAS_LIMIT,
            num_tx_send_retries: MAX_RETRIES,
        }
    }
}

impl Config {
    /// A new private key, as text.
    pub fn default_for_private_key() -> (text: String)
        ensures
            is_key_text(text@),
            text@.len() == 66,
            hexadecimal::private_key(text@) matches Some(key) && text@ == hexadecimal::hex_text(
                key,
            ),
    {
        let key: [u8; 32] = hexadecimal::random_private_key();
        proof {
            hexadecimal::law_hex_reads_back(key@);
        }
        Self::key_text(&key)
    }

    /// A private key as text: its 32 bytes in lower-case hexadecimal, behind a `0x`.
    pub fn key_text(key: &[u8; 32]) -> (text: String)
        ensures
            text@ == hexadecimal::hex_text(key@),
    {
        hexadecimal::b256_text(key)
    }

    /// Reads off the configuration what is needed to connect.
    ///
    /// The private key is looked at first, then the address of the initiating contract, then
    /// the two URLs; the first that will not do is reported.
    pub fn connection_plan(self) -> (r: Result<ConnectionPlan, BuildError>)
        ensures
            match r {
                Ok(plan) => {
                    &&& hexadecimal::private_key(self.signer_private_key@) == Some(plan.signer_key@)
                    &&& hexadecimal::hex_bytes(self.initiator_address@, 20) == Some(
                        plan.initiator_address.0@,
                    )
                    &&& self.rpc_url == Some(plan.rpc_url)
                    &&& self.ws_url == Some(plan.ws_url)
                    &&& plan.chain_id == self.chain_id
                    &&& plan.gas_limit == self.gas_limit
                    &&& plan.num_tx_send_retries == self.num_tx_send_retries
                },
                Err(BuildError::InvalidSignerKey(_)) => hexadecimal::private_key(
                    self.signer_private_key@,
                ) is None,
                Err(BuildError::InvalidInitiatorAddress(_)) => {
                    &&& hexadecimal::private_key(self.signer_private_key@) is Some
                    &&& hexadecimal::hex_bytes(self.initiator_address@, 20) is None
                },
                Err(BuildError::RpcUrlNotSet) => {
                    &&& hexadecimal::private_key(self.signer_private_key@) is Some
                    &&& hexadecimal::hex_bytes(self.initiator_address@, 20) is Some
                    &&& self.rpc_url is None
                },
                Err(BuildError::WsUrlNotSet) => {
                    &&& hexadecimal::private_key(self.signer_private_key@) is Some
                    &&& hexadecimal::hex_bytes(self.initiator_address@, 20) is Some
                    &&& self.rpc_url is Some
                    &&& self.ws_url is None
                },
                Err(BuildError::InvalidCounterpartyAddress(_)) => false,
            },
    {
        let signer_key: [u8; 32] = match hexadecimal::parse_private_key(self.signer_private_key.as_str()) {
            Ok(key) => key,
            Err(e) => return Err(BuildError::InvalidSignerKey(e)),
        };
        let initiator_address: EthAddress = match hexadecimal::parse_address(
            self.initiator_address.as_str(),
        ) {
            Ok(bytes) => EthAddress(bytes),
            Err(e) => return Err(BuildError::InvalidInitiatorAddress(e)),
        };
        let rpc_url: String = match self.rpc_url {
            Some(url) => url,
            None => return Err(BuildError::RpcUrlNotSet),
        };
        let ws_url: String = match self.ws_url {
            Some(url) => url,
            None => return Err(BuildError::WsUrlNotSet),
        };
        Ok(
            ConnectionPlan {
                signer_key,
                initiator_address,
                rpc_url,
                ws_url,
                chain_id: self.chain_id,
                gas_limit: self.gas_limit,
                num_tx_send_retries: self.num_tx_send_retries,
            },
        )
    }
}

/// The address that the defaults spell, as bytes.
pub open spec fn default_address() -> Seq<u8> {
    seq![
        0xf3u8, 0x9f, 0xd6, 0xe5, 0x1a, 0xad, 0x88, 0xf6, 0xf4, 0xce, 0x6a, 0xb8, 0x82, 0x72, 0x79,
        0xcf, 0xff, 0xb9, 0x22, 0x66,
    ]
}

/// The text of the default addresses spells one address.
pub proof fn law_default_addresses()
    ensures
        hexadecimal::hex_bytes(INITIATOR_ADDRESS@, 20) == Some(default_address()),
        hexadecimal::hex_bytes(COUNTERPARTY_ADDRESS@, 20) == Some(default_address()),
        hexadecimal::hex_bytes(RECIPIENT_ADDRESS@, 20) == Some(default_address()),
{
    reveal_strlit("0xf39Fd6e51aad88F6F4ce6aB8827279cffFb92266");
    let text: Seq<char> = INITIATOR_ADDRESS@;
    let digits: Seq<char> = hexadecimal::without_prefix(text);
    assert(digits =~= text.skip(2));
    assert(hexadecimal::spells_bytes(digits, 20));
    assert(hexadecimal::hex_bytes(text, 20).unwrap() =~= default_address());
}

/// The text of a key, character by character: `0x`, and then two hexadecimal digits for each
/// byte, none of them in upper case. Read as a private key it gives the bytes back.
pub proof fn law_key_text_digits(key: [u8; 32], text: String, i: int)
    requires
        call_ensures(Config::key_text, (&key,), text),
        0 <= i < 32,
    ensures
        text@.len() == 66,
        text@[0] == '0' && text@[1] == 'x',
        16 * hexadecimal::hex_value(text@[2 + 2 * i]) + hexadecimal::hex_value(text@[3 + 2 * i])
            == key@[i],
        0 <= hexadecimal::hex_value(text@[2 + 2 * i]) < 16,
        0 <= hexadecimal::hex_value(text@[3 + 2 * i]) < 16,
        !('A' <= text@[2 + 2 * i] <= 'F') && !('A' <= text@[3 + 2 * i] <= 'F'),
        hexadecimal::hex_bytes(text@, 32) == Some(key@),
{
    hexadecimal::law_hex_reads_back(key@);
    assert((2 * i) / 2 == i && (2 * i) % 2 == 0);
    assert((2 * i + 1) / 2 == i && (2 * i + 1) % 2 == 1);
}

/// A plan for a configuration is had exactly where the key, the address and both URLs will do, and
/// it holds what they say and leaves the rest as it is.
pub proof fn law_plan_follows_the_configuration(
    config: Config,
    r: Result<ConnectionPlan, BuildError>,
)
    requires
        call_ensures(Config::connection_plan, (config,), r),
    ensures
        r is Ok <==> {
            &&& hexadecimal::private_key(config.signer_private_key@) is Some
            &&& hexadecimal::hex_bytes(config.initiator_address@, 20) is Some
            &&& config.rpc_url is Some
            &&& config.ws_url is Some
        },
        r matches Ok(plan) ==> {
            &&& hexadecimal::hex_bytes(config.signer_private_key@, 32) == Some(plan.signer_key@)
            &&& 0 < uint::be_nat(plan.signer_key@)
            &&& hexadecimal::hex_bytes(config.initiator_address@, 20) == Some(
                plan.initiator_address.0@,
            )
            &&& plan.rpc_url@ == config.rpc_url->Some_0@
            &&& plan.ws_url@ == config.ws_url->Some_0@
            &&& plan.chain_id@ == config.chain_id@
            &&& plan.gas_limit == config.gas_limit
            &&& plan.num_tx_send_retries == config.num_tx_send_retries
        },
{
}

/// What a configuration is refused for: the key, where that will not do, whatever else is wrong;
/// then the address; then the URL for requests; and the URL to listen at last.
pub proof fn law_first_fault_is_reported(config: Config, r: Result<ConnectionPlan, BuildError>)
    requires
        call_ensures(Config::connection_plan, (config,), r),
    ensures
        ({
            let key_will_do: bool = hexadecimal::private_key(config.signer_private_key@) is Some;
            let address_will_do: bool = hexadecimal::hex_bytes(config.initiator_address@, 20) is Some;
            &&& !key_will_do <==> r is Err && r->Err_0 is InvalidSignerKey
            &&& key_will_do && !address_will_do <==> r is Err && r->Err_0 is InvalidInitiatorAddress
            &&& key_will_do && address_will_do && config.rpc_url is None <==> r is Err
                && r->Err_0 is RpcUrlNotSet
            &&& key_will_do && address_will_do && config.rpc_url is Some && config.ws_url is None
                <==> r is Err && r->Err_0 is WsUrlNotSet
        }),
{
}

/// A default configuration has all that is needed to connect: its key is a private key, its
/// address is an address, and both URLs are set.
pub proof fn law_default_config_connects(config: Config)
    requires
        is_default(config),
    ensures
        hexadecimal::private_key(config.signer_private_key@) is Some,
        hexadecimal::hex_bytes(config.initiator_address@, 20) is Some,
        config.rpc_url is Some,
        config.ws_url is Some,
{
    let key: Seq<u8> = choose|key: Seq<u8>|
        hexadecimal::is_private_key(key) && config.signer_private_key@ == #[trigger] hexadecimal::hex_text(key);
    hexadecimal::law_hex_reads_back(key);
    law_default_addresses();
}

} // verus!
