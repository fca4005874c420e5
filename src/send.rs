//! The settlement backends: from a coin and a destination to the request that the
//! Lightning node or the EVM provider is sent, and from a transaction back to its link.
use crate::amount::base_units;
use crate::amount::base_units_u128;
use crate::amount::btc_to_sat;
use crate::amount::eth_to_wei;
use crate::dispatch::Faucet;
use crate::erc20_abi::transfer_call;
use crate::erc20_abi::transfer_call_data;
use crate::errors::Error;
use crate::lightning_structs::SendCoinsRequest;
use crate::structs::hex_encode;
use crate::structs::hex_text;
use crate::structs::provider_for;
use crate::structs::AssetKind;
use crate::structs::Coin;
use crate::structs::Config;
use crate::structs::Macaroon;
use crate::structs::Network;
use crate::text::equals;
use crate::text::has_prefix;
use crate::text::starts_with;
use ethers::types::Address;
use vstd::prelude::*;

verus! {

/// A character that is a hexadecimal digit of either case.
pub open spec fn is_hex_char(c: char) -> bool {
    ('0' <= c && c <= '9') || ('a' <= c && c <= 'f') || ('A' <= c && c <= 'F')
}

/// The value of a hexadecimal digit.
pub open spec fn hex_char_value(c: char) -> int {
    if '0' <= c && c <= '9' {
        c as int - '0' as int
    } else if 'a' <= c && c <= 'f' {
        c as int - 'a' as int + 10
    } else {
        c as int - 'A' as int + 10
    }
}

/// A character skipped between hexadecimal digits.
pub open spec fn is_blank(c: char) -> bool {
    c == ' ' || c == '\r' || c == '\n' || c == '\t'
}

/// `s` with every blank removed.
pub open spec fn without_blanks(s: Seq<char>) -> Seq<char>
    decreases s.len(),
{
    if s.len() == 0 {
        s
    } else if is_blank(s.last()) {
        without_blanks(s.drop_last())
    } else {
        without_blanks(s.drop_last()).push(s.last())
    }
}

/// The digits of an address string: a leading `0x` dropped, blanks removed.
pub open spec fn address_digits(s: Seq<char>) -> Seq<char> {
    if has_prefix(s, "0x"@) {
        without_blanks(s.subrange(2, s.len() as int))
    } else {
        without_blanks(s)
    }
}

/// The twenty bytes an address string denotes: exactly forty hexadecimal digits,
/// read two per byte, high half first.
pub open spec fn parsed_address(s: Seq<char>) -> Option<Seq<u8>> {
    let h = address_digits(s);
    if h.len() == 40 && forall|i: int| 0 <= i < 40 ==> is_hex_char(#[trigger] h[i]) {
        Some(
            Seq::new(
                20,
                |i: int| (hex_char_value(h[2 * i]) * 16 + hex_char_value(h[2 * i + 1])) as u8,
            ),
        )
    } else {
        None
    }
}

/// Relies on `ethers::types::Address::from_str` (fixed-hash's `FromStr` over
/// rustc-hex): a leading `0x` is dropped, spaces, tabs and line breaks are skipped,
/// and exactly forty hexadecimal digits of either case must remain, which give the
/// twenty bytes two digits each, high half first; anything else is an error.
#[verifier::external_body]
fn parse_address(s: &str) -> (r: Option<[u8; 20]>)
    ensures
        match r {
            Some(b) => parsed_address(s@) == Some(b@),
            None => parsed_address(s@) is None,
        },
{
    <Address as std::str::FromStr>::from_str(s).ok().map(|a| a.0)
}

/// How an EVM provider endpoint is reached.
#[derive(Clone, Copy, Debug, PartialEq, Eq, Structural)]
pub enum ProviderKind {
    Http,
    Ws,
}

/// The scheme of a provider URL: `http...` or `ws...`.
pub open spec fn provider_kind_of(url: Seq<char>) -> Option<ProviderKind> {
    if has_prefix(url, "http"@) {
        Some(ProviderKind::Http)
    } else if has_prefix(url, "ws"@) {
        Some(ProviderKind::Ws)
    } else {
        None
    }
}

/// The endpoint of a network's provider, or why there is none.
pub open spec fn endpoint_for(config: Config, network: Network) -> Result<(ProviderKind, String), Error> {
    match provider_for(config, network) {
        None => Err(Error::NoProvider(network)),
        Some(url) => match provider_kind_of(url@) {
            None => Err(Error::InvalidProviderUrl(url)),
            Some(k) => Ok((k, url)),
        },
    }
}

/// A request to a Lightning node's on-chain send endpoint.
#[derive(Clone, Debug)]
pub struct LndRequest {
    /// The endpoint's full URL.
    pub url: String,
    /// The hex-encoded macaroon for the `Grpc-Metadata-macaroon` header.
    pub macaroon: String,
    pub body: SendCoinsRequest,
}

/// A transaction to sign and submit to an EVM provider.
#[derive(Clone, Debug)]
pub struct EvmTransfer {
    pub network: Network,
    pub provider: ProviderKind,
    pub provider_url: String,
    /// The recipient of the transaction: the destination, or the token contract.
    pub to: [u8; 20],
    /// The native value sent, in wei.
    pub value: u128,
    /// The call data; empty for a plain value transfer.
    pub data: Vec<u8>,
}

/// The request a backend is to carry out.
#[derive(Clone, Debug)]
pub enum Submission {
    Lightning(LndRequest),
    Evm(EvmTransfer),
}

/// What `lnd_send` returns: the node and credential of BTC or LTC, its send endpoint,
/// and a body sending the coin's amount in satoshis to `address` with defaults for
/// the rest.
pub open spec fn lnd_plan(
    config: Config,
    macaroon: Macaroon,
    coin: Coin,
    address: Seq<char>,
    r: Result<LndRequest, Error>,
) -> bool {
    if coin.name@ != "BTC"@ && coin.name@ != "LTC"@ {
        r == Err::<LndRequest, Error>(Error::UnsupportedLndCoin(coin.name))
    } else if base_units(coin.amount, coin.decimals as nat) > i64::MAX {
        r == Err::<LndRequest, Error>(Error::AmountOutOfRange)
    } else {
        match r {
            Ok(q) => {
                &&& q.url@ == (if coin.name@ == "BTC"@ {
                    config.btc_url@
                } else {
                    config.ltc_url@
                }) + "/v1/transactions"@
                &&& q.macaroon@ == (if coin.name@ == "BTC"@ {
                    macaroon.btc@
                } else {
                    macaroon.ltc@
                })
                &&& q.body.addr@ == address
                &&& q.body.amount == base_units(coin.amount, coin.decimals as nat)
                &&& q.body.target_conf == 0
                &&& q.body.sat_per_vbyte == 0
                &&& q.body.sat_per_byte == 0
                &&& !q.body.send_all
                &&& q.body.label@.len() == 0
                &&& q.body.min_confs == 0
                &&& !q.body.spend_unconfirmed
            },
            Err(_) => false,
        }
    }
}

/// Native EVM assets are counted in wei: 18 decimal places, whatever the coin's
/// configured `decimals`.
pub const WEI_DECIMALS: u32 = 18;

/// What `eth_send_transaction` returns: a plain transfer of the coin's amount in wei
/// (18 decimal places) to the parsed destination through the network's provider.
pub open spec fn eth_plan(config: Config, coin: Coin, to_address: Seq<char>, r: Result<
    EvmTransfer,
    Error,
>) -> bool {
    match parsed_address(to_address) {
        None => r == Err::<EvmTransfer, Error>(Error::InvalidAddress),
        Some(to) => match endpoint_for(config, coin.network) {
            Err(e) => r == Err::<EvmTransfer, Error>(e),
            Ok((kind, url)) => match base_units_u128(coin.amount, WEI_DECIMALS as nat) {
                None => r == Err::<EvmTransfer, Error>(Error::AmountOutOfRange),
                Some(value) => match r {
                    Ok(t) => {
                        &&& t.network == coin.network
                        &&& t.provider == kind
                        &&& t.provider_url == url
                        &&& t.to@ == to
                        &&& t.value == value
                        &&& t.data@.len() == 0
                    },
                    Err(_) => false,
                },
            },
        },
    }
}

/// What `erc20_send_transaction` returns: a call of the token contract's `transfer`
/// with the parsed destination and the amount in the token's base units.
pub open spec fn erc20_plan(config: Config, coin: Coin, to_address: Seq<char>, r: Result<
    EvmTransfer,
    Error,
>) -> bool {
    match (parsed_address(coin.contract@), parsed_address(to_address)) {
        (None, _) => r == Err::<EvmTransfer, Error>(Error::InvalidAddress),
        (_, None) => r == Err::<EvmTransfer, Error>(Error::InvalidAddress),
        (Some(contract), Some(to)) => match endpoint_for(config, coin.network) {
            Err(e) => r == Err::<EvmTransfer, Error>(e),
            Ok((kind, url)) => match base_units_u128(coin.amount, coin.decimals as nat) {
                None => r == Err::<EvmTransfer, Error>(Error::AmountOutOfRange),
                Some(amount) => match r {
                    Ok(t) => {
                        &&& t.network == coin.network
                        &&& t.provider == kind
                        &&& t.provider_url == url
                        &&& t.to@ == contract
                        &&& t.value == 0
                        &&& t.data@ == transfer_call(to, amount as nat)
                    },
                    Err(_) => false,
                },
            },
        },
    }
}

/// The backend a coin goes to: Lightning coins to their node, a network's native
/// asset to a plain transfer, anything else to its token contract.
pub open spec fn submission_plan(
    config: Config,
    macaroon: Macaroon,
    coin: Coin,
    address: Seq<char>,
    r: Result<Submission, Error>,
) -> bool {
    if coin.network == Network::Lightning {
        match r {
            Ok(Submission::Lightning(q)) => lnd_plan(config, macaroon, coin, address, Ok(q)),
            Ok(Submission::Evm(_)) => false,
            Err(e) => lnd_plan(config, macaroon, coin, address, Err(e)),
        }
    } else if coin.asset == AssetKind::Native {
        match r {
            Ok(Submission::Evm(t)) => eth_plan(config, coin, address, Ok(t)),
            Ok(Submission::Lightning(_)) => false,
            Err(e) => eth_plan(config, coin, address, Err(e)),
        }
    } else {
        match r {
            Ok(Submission::Evm(t)) => erc20_plan(config, coin, address, Ok(t)),
            Ok(Submission::Lightning(_)) => false,
            Err(e) => erc20_plan(config, coin, address, Err(e)),
        }
    }
}

/// The explorer page prefix of a transaction; a Lightning coin other than BTC and LTC
/// has none, and its link is the bare transaction id.
pub open spec fn explorer_prefix(network: Network, coin: Seq<char>) -> Seq<char> {
    match network {
        Network::Lightning => if coin == "BTC"@ {
            "https://www.blockchain.com/btc-testnet/tx/"@
        } else if coin == "LTC"@ {
            "https://blockexplorer.one/litecoin/testnet/tx/"@
        } else {
            Seq::empty()
        },
        Network::Ethereum => "https://goerli.etherscan.io/tx/"@,
        Network::Arbitrum => "https://goerli-rollup-explorer.arbitrum.io/tx/"@,
    }
}

/// The block explorer link of a transaction.
pub fn explorer_url(network: Network, coin: &str, txid: &str) -> (r: String)
    ensures
        r@ == explorer_prefix(network, coin@) + txid@,
{
    let mut r = match network {
        Network::Lightning => {
            if equals(coin, "BTC") {
                String::from_str("https://www.blockchain.com/btc-testnet/tx/")
            } else if equals(coin, "LTC") {
                String::from_str("https://blockexplorer.one/litecoin/testnet/tx/")
            } else {
                String::new()
            }
        },
        Network::Ethereum => String::from_str("https://goerli.etherscan.io/tx/"),
        Network::Arbitrum => String::from_str("https://goerli-rollup-explorer.arbitrum.io/tx/"),
    };
    r.append(txid);
    r
}

/// A transaction hash as `0x` and lower-case hexadecimal.
pub fn format_tx_hash(hash: &[u8; 32]) -> (r: String)
    ensures
        r@ == "0x"@ + hex_text(hash@),
{
    let digits = hex_encode(hash.as_slice());
    String::from_str("0x").concat(digits.as_str())
}

impl Faucet {
    /// The endpoint of the provider configured for `network`.
    pub fn endpoint(&self, network: Network) -> (r: Result<(ProviderKind, String), Error>)
        ensures
            r == endpoint_for(self.config, network),
    {
        match self.config.provider(network) {
            None => Err(Error::NoProvider(network)),
            Some(url) => {
                if starts_with(url.as_str(), "http") {
                    Ok((ProviderKind::Http, url))
                } else if starts_with(url.as_str(), "ws") {
                    Ok((ProviderKind::Ws, url))
                } else {
                    Err(Error::InvalidProviderUrl(url))
                }
            },
        }
    }

    /// The on-chain send request for a Lightning coin.
    pub fn lnd_send(&self, coin: &Coin, address: &str) -> (r: Result<LndRequest, Error>)
        ensures
            lnd_plan(self.config, self.macaroon, *coin, address@, r),
    {
        let is_btc = equals(coin.name.as_str(), "BTC");
        if !is_btc && !equals(coin.name.as_str(), "LTC") {
            return Err(Error::UnsupportedLndCoin(coin.name.clone()));
        }
        proof {
            crate::amount::lemma_base_units_nonneg(coin.amount, coin.decimals as nat);
        }
        let sats = match btc_to_sat(coin.amount, coin.decimals) {
            Some(s) => s,
            None => {
                return Err(Error::AmountOutOfRange);
            },
        };
        if sats > i64::MAX as u64 {
            return Err(Error::AmountOutOfRange);
        }
        let (mut url, macaroon) = if is_btc {
            (self.config.btc_url.clone(), self.macaroon.btc.clone())
        } else {
            (self.config.ltc_url.clone(), self.macaroon.ltc.clone())
        };
        url.append("/v1/transactions");
        Ok(LndRequest { url, macaroon, body: SendCoinsRequest::new(address, sats as i64) })
    }

    /// The plain value transfer of a network's native asset, its amount in wei.
    pub fn eth_send_transaction(&self, coin: &Coin, to_address: &str) -> (r: Result<
        EvmTransfer,
        Error,
    >)
        ensures
            eth_plan(self.config, *coin, to_address@, r),
    {
        let to = match parse_address(to_address) {
            Some(a) => a,
            None => {
                return Err(Error::InvalidAddress);
            },
        };
        let (provider, provider_url) = match self.endpoint(coin.network) {
            Ok(e) => e,
            Err(e) => {
                return Err(e);
            },
        };
        let value = match eth_to_wei(coin.amount, WEI_DECIMALS) {
            Some(v) => v,
            None => {
                return Err(Error::AmountOutOfRange);
            },
        };
        Ok(EvmTransfer { network: coin.network, provider, provider_url, to, value, data: Vec::new() })
    }

    /// The call of a token contract's `transfer`.
    pub fn erc20_send_transaction(&self, coin: &Coin, to_address: &str) -> (r: Result<
        EvmTransfer,
        Error,
    >)
        ensures
            erc20_plan(self.config, *coin, to_address@, r),
    {
        let contract = match parse_address(coin.contract.as_str()) {
            Some(a) => a,
            None => {
                return Err(Error::InvalidAddress);
            },
        };
        let to = match parse_address(to_address) {
            Some(a) => a,
            None => {
                return Err(Error::InvalidAddress);
            },
        };
        let (provider, provider_url) = match self.endpoint(coin.network) {
            Ok(e) => e,
            Err(e) => {
                return Err(e);
            },
        };
        let amount = match eth_to_wei(coin.amount, coin.decimals) {
            Some(v) => v,
            None => {
                return Err(Error::AmountOutOfRange);
            },
        };
        let data = transfer_call_data(&to, amount);
        Ok(EvmTransfer { network: coin.network, provider, provider_url, to: contract, value: 0, data })
    }

    /// The request of the backend that `coin` is configured for.
    pub fn submission(&self, coin: &Coin, address: &str) -> (r: Result<Submission, Error>)
        ensures
            submission_plan(self.config, self.macaroon, *coin, address@, r),
    {
        match coin.network {
            Network::Lightning => match self.lnd_send(coin, address) {
                Ok(q) => Ok(Submission::Lightning(q)),
                Err(e) => Err(e),
            },
            _ => {
                let planned = match coin.asset {
                    AssetKind::Native => self.eth_send_transaction(coin, address),
                    AssetKind::Token => self.erc20_send_transaction(coin, address),
                };
                match planned {
                    Ok(t) => Ok(Submission::Evm(t)),
                    Err(e) => Err(e),
                }
            },
        }
    }
}

} // verus!
