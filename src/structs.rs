//! Configuration and credentials, as the dispatcher reads them.
use crate::amount::Amount;
use crate::text::digit_char;
use crate::text::equals;
use vstd::prelude::*;

verus! {

/// The settlement network of a coin.
#[derive(Clone, Copy, Debug, PartialEq, Eq, Hash, Structural)]
pub enum Network {
    Lightning,
    Ethereum,
    Arbitrum,
}

/// The lower-case name of a network, as provider endpoints are keyed.
pub open spec fn network_name(n: Network) -> Seq<char> {
    match n {
        Network::Lightning => "lightning"@,
        Network::Ethereum => "ethereum"@,
        Network::Arbitrum => "arbitrum"@,
    }
}

impl Network {
    /// The lower-case name of the network.
    pub fn name(&self) -> (r: &'static str)
        ensures
            r@ == network_name(*self),
    {
        match self {
            Network::Lightning => "lightning",
            Network::Ethereum => "ethereum",
            Network::Arbitrum => "arbitrum",
        }
    }
}

/// Whether a coin is its chain's native asset or a token contract on it.
#[derive(Clone, Copy, Debug, PartialEq, Eq, Hash, Structural)]
pub enum AssetKind {
    Native,
    Token,
}

/// The configuration of one coin; its name is the key it is stored under.
#[derive(Clone, Debug)]
pub struct ConfigCoin {
    /// The amount handed out per request.
    pub amount: Amount,
    pub network: Network,
    pub asset: AssetKind,
    /// The token contract's address; empty for a native asset.
    pub contract: String,
    pub decimals: u32,
}

/// A coin as a request handles it.
#[derive(Clone, Debug)]
pub struct Coin {
    pub name: String,
    pub amount: Amount,
    pub network: Network,
    pub asset: AssetKind,
    pub contract: String,
    pub decimals: u32,
}

/// The configuration the dispatcher reads, loaded once at startup.
#[derive(Clone, Debug)]
pub struct Config {
    /// The Bitcoin Lightning node's REST base URL.
    pub btc_url: String,
    /// The Litecoin Lightning node's REST base URL.
    pub ltc_url: String,
    /// The cooldown between two disbursements of a coin to a user, in hours.
    pub limit: u64,
    /// EVM provider endpoints, keyed by network name, each key once (`wf`).
    pub providers: Vec<(String, String)>,
    /// The coins, keyed by upper-case name, each key once (`wf`).
    pub coins: Vec<(String, ConfigCoin)>,
}

/// `i` is the first position of the coin named `name`.
pub open spec fn is_first_coin(coins: Seq<(String, ConfigCoin)>, name: Seq<char>, i: int) -> bool {
    &&& 0 <= i < coins.len()
    &&& coins[i].0@ == name
    &&& forall|j: int| 0 <= j < i ==> (#[trigger] coins[j]).0@ != name
}

/// The coin named `name`, built from the first entry under that name.
pub open spec fn coin_named(config: Config, name: Seq<char>) -> Option<Coin> {
    if exists|i: int| is_first_coin(config.coins@, name, i) {
        let i = choose|i: int| is_first_coin(config.coins@, name, i);
        let entry = config.coins@[i];
        Some(
            Coin {
                name: entry.0,
                amount: entry.1.amount,
                network: entry.1.network,
                asset: entry.1.asset,
                contract: entry.1.contract,
                decimals: entry.1.decimals,
            },
        )
    } else {
        None
    }
}

/// `i` is the first position of a provider under `key`.
pub open spec fn is_first_provider(providers: Seq<(String, String)>, key: Seq<char>, i: int) -> bool {
    &&& 0 <= i < providers.len()
    &&& providers[i].0@ == key
    &&& forall|j: int| 0 <= j < i ==> (#[trigger] providers[j]).0@ != key
}

/// The provider endpoint of a network: the first one under its name.
pub open spec fn provider_for(config: Config, network: Network) -> Option<String> {
    if exists|i: int| is_first_provider(config.providers@, network_name(network), i) {
        let i = choose|i: int| is_first_provider(config.providers@, network_name(network), i);
        Some(config.providers@[i].1)
    } else {
        None
    }
}

/// No two entries share a key.
pub open spec fn keys_unique<V>(entries: Seq<(String, V)>) -> bool {
    forall|i: int, j: int|
        0 <= i < j < entries.len() ==> (#[trigger] entries[i]).0@ != (#[trigger] entries[j]).0@
}

/// Whether no two entries share a key.
fn no_repeated_key<V>(entries: &Vec<(String, V)>) -> (r: bool)
    ensures
        r == keys_unique(entries@),
{
    let mut j: usize = 0;
    while j < entries.len()
        invariant
            j <= entries.len(),
            forall|a: int, b: int|
                0 <= a < b < j ==> (#[trigger] entries@[a]).0@ != (#[trigger] entries@[b]).0@,
        decreases entries.len() - j,
    {
        let mut i: usize = 0;
        while i < j
            invariant
                i <= j < entries.len(),
                forall|a: int| 0 <= a < i ==> (#[trigger] entries@[a]).0@ != entries@[j as int].0@,
            decreases j - i,
        {
            if equals(entries[i].0.as_str(), entries[j].0.as_str()) {
                assert(!keys_unique(entries@)) by {
                    assert(entries@[i as int].0@ == entries@[j as int].0@);
                }
                return false;
            }
            i = i + 1;
        }
        j = j + 1;
    }
    true
}

impl Config {
    /// Each coin and each provider is configured once.
    pub open spec fn wf(&self) -> bool {
        &&& keys_unique(self.coins@)
        &&& keys_unique(self.providers@)
    }

    /// Whether each coin and each provider is configured once.
    pub fn keys_are_unique(&self) -> (r: bool)
        ensures
            r == self.wf(),
    {
        no_repeated_key(&self.coins) && no_repeated_key(&self.providers)
    }

    /// The coin named `name`, if the configuration has one.
    pub fn coin(&self, name: &str) -> (r: Option<Coin>)
        ensures
            r == coin_named(*self, name@),
    {
        let mut i: usize = 0;
        while i < self.coins.len()
            invariant
                i <= self.coins.len(),
                forall|j: int| 0 <= j < i ==> (#[trigger] self.coins@[j]).0@ != name@,
            decreases self.coins.len() - i,
        {
            if equals(self.coins[i].0.as_str(), name) {
                proof {
                    assert(is_first_coin(self.coins@, name@, i as int));
                    assert forall|k: int| is_first_coin(self.coins@, name@, k) implies k == i by {
                        if k > i {
                            assert(self.coins@[i as int].0@ == name@);
                        }
                    }
                }
                let entry = &self.coins[i].1;
                return Some(
                    Coin {
                        name: self.coins[i].0.clone(),
                        amount: entry.amount,
                        network: entry.network,
                        asset: entry.asset,
                        contract: entry.contract.clone(),
                        decimals: entry.decimals,
                    },
                );
            }
            i = i + 1;
        }
        None
    }

    /// The provider endpoint configured for `network`, if any.
    pub fn provider(&self, network: Network) -> (r: Option<String>)
        ensures
            r == provider_for(*self, network),
    {
        let key = network.name();
        let mut i: usize = 0;
        while i < self.providers.len()
            invariant
                i <= self.providers.len(),
                key@ == network_name(network),
                forall|j: int| 0 <= j < i ==> (#[trigger] self.providers@[j]).0@ != key@,
            decreases self.providers.len() - i,
        {
            if equals(self.providers[i].0.as_str(), key) {
                proof {
                    assert(is_first_provider(self.providers@, key@, i as int));
                    assert forall|k: int| is_first_provider(self.providers@, key@, k) implies k
                        == i by {
                        if k > i {
                            assert(self.providers@[i as int].0@ == key@);
                        }
                    }
                }
                return Some(self.providers[i].1.clone());
            }
            i = i + 1;
        }
        None
    }
}

/// The lower-case hexadecimal digit of a value below 16.
pub open spec fn hex_digit(v: nat) -> char {
    if v < 10 {
        digit_char(v)
    } else if v == 10 {
        'a'
    } else if v == 11 {
        'b'
    } else if v == 12 {
        'c'
    } else if v == 13 {
        'd'
    } else if v == 14 {
        'e'
    } else {
        'f'
    }
}

/// Bytes as lower-case hexadecimal, two digits per byte, high half first.
pub open spec fn hex_text(b: Seq<u8>) -> Seq<char>
    decreases b.len(),
{
    if b.len() == 0 {
        Seq::empty()
    } else {
        hex_text(b.drop_last()) + seq![hex_digit(b.last() as nat / 16), hex_digit(b.last() as nat % 16)]
    }
}

/// Relies on `hex::encode`: two lower-case hexadecimal digits per byte, high half first.
#[verifier::external_body]
pub(crate) fn hex_encode(b: &[u8]) -> (r: String)
    ensures
        r@ == hex_text(b@),
{
    hex::encode(b)
}

/// The Lightning nodes' credentials, hex-encoded for the request header.
#[derive(Clone, Debug, Default)]
pub struct Macaroon {
    pub btc: String,
    pub ltc: String,
}

impl Macaroon {
    /// The credentials from the raw macaroon files' contents.
    pub fn from_bytes(btc: &[u8], ltc: &[u8]) -> (r: Macaroon)
        ensures
            r.btc@ == hex_text(btc@),
            r.ltc@ == hex_text(ltc@),
    {
        Macaroon { btc: hex_encode(btc), ltc: hex_encode(ltc) }
    }
}

} // verus!
