use faucet::amount::Amount;
use faucet::dispatch::Faucet;
use faucet::erc20_abi::transfer;
use faucet::erc20_abi::transfer_call_data;
use faucet::erc20_abi::ParamType;
use faucet::errors::classify_evm_failure;
use faucet::errors::classify_lnd_failure;
use faucet::errors::lnd_outcome;
use faucet::errors::user_message;
use faucet::errors::Error;
use faucet::errors::ErrorKind;
use faucet::errors::EvmStage;
use faucet::lightning_structs::SendCoinsRequest;
use faucet::send::explorer_url;
use faucet::send::format_tx_hash;
use faucet::send::ProviderKind;
use faucet::structs::AssetKind;
use faucet::structs::Coin;
use faucet::structs::Config;
use faucet::structs::Macaroon;
use faucet::structs::Network;

fn faucet_with_providers(providers: Vec<(String, String)>) -> Faucet {
    let config = Config {
        btc_url: String::from("https://btc"),
        ltc_url: String::from("https://ltc"),
        limit: 1,
        providers,
        coins: Vec::new(),
    };
    Faucet::new(config, Macaroon { btc: String::from("aa"), ltc: String::from("bb") }).unwrap()
}

fn coin(name: &str, network: Network, asset: AssetKind, contract: &str) -> Coin {
    Coin {
        name: String::from(name),
        amount: Amount { units: 5, scale: 4 },
        network,
        asset,
        contract: String::from(contract),
        decimals: 8,
    }
}

#[test]
fn lnd_failure_table() {
    assert_eq!(classify_lnd_failure("address not valid for this network"), Error::InvalidAddress);
    assert_eq!(classify_lnd_failure("invalid address"), Error::InvalidAddress);
    assert_eq!(classify_lnd_failure("insufficient funds available"), Error::NoFunds);
    assert_eq!(classify_lnd_failure("boom"), Error::Lnd(String::from("boom")));
}

#[test]
fn lnd_unparsed_body_is_classified_and_kept() {
    assert_eq!(lnd_outcome("boom", None), Err(Error::Lnd(String::from("boom"))));
    assert_eq!(lnd_outcome("bad address", None), Err(Error::InvalidAddress));
}

#[test]
fn lnd_success_gives_txid() {
    assert_eq!(lnd_outcome("{\"txid\":\"t1\"}", Some(String::from("t1"))), Ok(String::from("t1")));
}

#[test]
fn evm_failure_table() {
    assert_eq!(
        classify_evm_failure(EvmStage::Estimate, "insufficient funds for gas * price + value"),
        Error::NoFunds
    );
    assert_eq!(
        classify_evm_failure(EvmStage::Submit, "replacement transaction underpriced"),
        Error::PendingTransaction(String::from("replacement transaction underpriced"))
    );
    assert_eq!(
        classify_evm_failure(EvmStage::Submit, "nonce too low"),
        Error::Generic(String::from("nonce too low"))
    );
    assert_eq!(
        classify_evm_failure(EvmStage::Estimate, "execution reverted"),
        Error::Generic(String::from("execution reverted"))
    );
    assert_eq!(
        classify_evm_failure(EvmStage::Connect, "connection refused"),
        Error::ProviderUnavailable(String::from("connection refused"))
    );
}

#[test]
fn user_messages_per_kind() {
    assert_eq!(user_message(ErrorKind::InvalidAddress), "Invalid address!");
    assert_eq!(user_message(ErrorKind::InsufficientFunds), "Faucet out of funds!");
    assert_eq!(
        user_message(ErrorKind::PendingTransaction),
        "Another transaction is still pending, retry in some minutes!"
    );
    assert_eq!(user_message(ErrorKind::ProviderUnavailable), "Transaction failed, retry later!");
    assert_eq!(user_message(ErrorKind::EncodingError), "Transaction failed, retry later!");
    assert_eq!(user_message(ErrorKind::Generic), "Transaction failed, retry later!");
}

#[test]
fn error_kinds_and_descriptions() {
    assert_eq!(Error::AmountOutOfRange.kind(), ErrorKind::EncodingError);
    assert_eq!(Error::NoProvider(Network::Arbitrum).kind(), ErrorKind::ProviderUnavailable);
    assert_eq!(Error::Lnd(String::from("x")).kind(), ErrorKind::Generic);
    assert_eq!(Error::NoProvider(Network::Arbitrum).describe(), "No provider for network arbitrum");
    assert_eq!(
        Error::UnsupportedLndCoin(String::from("DOGE")).describe(),
        "Coin DOGE is not supported by LND"
    );
}

#[test]
fn unsupported_lightning_coin() {
    let f = faucet_with_providers(Vec::new());
    let c = coin("DOGE", Network::Lightning, AssetKind::Native, "");
    assert_eq!(f.lnd_send(&c, "addr").unwrap_err(), Error::UnsupportedLndCoin(String::from("DOGE")));
}

#[test]
fn lightning_amount_out_of_range() {
    let f = faucet_with_providers(Vec::new());
    let mut c = coin("LTC", Network::Lightning, AssetKind::Native, "");
    c.amount = Amount { units: 1_000_000_000_000, scale: 0 };
    assert_eq!(f.lnd_send(&c, "addr").unwrap_err(), Error::AmountOutOfRange);
}

#[test]
fn ltc_request_uses_ltc_node() {
    let f = faucet_with_providers(Vec::new());
    let c = coin("LTC", Network::Lightning, AssetKind::Native, "");
    let q = f.lnd_send(&c, "tltc1q").unwrap();
    assert_eq!(q.url, "https://ltc/v1/transactions");
    assert_eq!(q.macaroon, "bb");
    assert_eq!(q.body, SendCoinsRequest::new("tltc1q", 50_000));
}

#[test]
fn missing_and_malformed_providers() {
    let dest = "0x1111111111111111111111111111111111111111";
    let f = faucet_with_providers(Vec::new());
    let c = coin("ETH", Network::Ethereum, AssetKind::Native, "");
    assert_eq!(f.eth_send_transaction(&c, dest).unwrap_err(), Error::NoProvider(Network::Ethereum));
    let f = faucet_with_providers(vec![(String::from("ethereum"), String::from("ftp://x"))]);
    assert_eq!(
        f.eth_send_transaction(&c, dest).unwrap_err(),
        Error::InvalidProviderUrl(String::from("ftp://x"))
    );
    let f = faucet_with_providers(vec![(String::from("ethereum"), String::from("ws://x"))]);
    assert_eq!(f.eth_send_transaction(&c, dest).unwrap().provider, ProviderKind::Ws);
}

#[test]
fn addresses_are_parsed_as_the_chain_library_does() {
    let f = faucet_with_providers(vec![(String::from("ethereum"), String::from("http://x"))]);
    let c = coin("ETH", Network::Ethereum, AssetKind::Native, "");
    let t = f.eth_send_transaction(&c, "ABCDEFabcdef0123456789abcdefABCDEF012345").unwrap();
    assert_eq!(t.to[0], 0xab);
    assert_eq!(t.to[19], 0x45);
    assert_eq!(f.eth_send_transaction(&c, "0x12").unwrap_err(), Error::InvalidAddress);
    assert_eq!(
        f.eth_send_transaction(&c, "0xzz11111111111111111111111111111111111111").unwrap_err(),
        Error::InvalidAddress
    );
    let token = coin("USDC", Network::Ethereum, AssetKind::Token, "not-an-address");
    assert_eq!(
        f.erc20_send_transaction(&token, "0x1111111111111111111111111111111111111111").unwrap_err(),
        Error::InvalidAddress
    );
}

#[test]
fn transfer_function_and_call_data() {
    let f = transfer();
    assert_eq!(f.signature(), "transfer(address,uint256)");
    assert_eq!(f.inputs[1].kind, ParamType::Uint(256));
    let data = transfer_call_data(&[0x11u8; 20], 258);
    let mut expected = vec![0xa9u8, 0x05, 0x9c, 0xbb];
    expected.extend_from_slice(&[0u8; 12]);
    expected.extend_from_slice(&[0x11u8; 20]);
    expected.extend_from_slice(&[0u8; 30]);
    expected.extend_from_slice(&[0x01, 0x02]);
    assert_eq!(data, expected);
}

#[test]
fn explorer_links_per_network() {
    assert_eq!(
        explorer_url(Network::Lightning, "LTC", "t"),
        "https://blockexplorer.one/litecoin/testnet/tx/t"
    );
    assert_eq!(
        explorer_url(Network::Arbitrum, "AETH", "0x1"),
        "https://goerli-rollup-explorer.arbitrum.io/tx/0x1"
    );
    assert_eq!(explorer_url(Network::Lightning, "DOGE", "t"), "t");
}

#[test]
fn tx_hash_and_macaroon_are_hex() {
    let mut hash = [0u8; 32];
    hash[0] = 0xde;
    hash[31] = 0x0f;
    let text = format_tx_hash(&hash);
    assert_eq!(text.len(), 66);
    assert!(text.starts_with("0xde00"));
    assert!(text.ends_with("000f"));
    let m = Macaroon::from_bytes(&[0xde, 0xad], &[0x01]);
    assert_eq!(m.btc, "dead");
    assert_eq!(m.ltc, "01");
}

#[test]
fn network_names() {
    assert_eq!(Network::Lightning.name(), "lightning");
    assert_eq!(Network::Ethereum.name(), "ethereum");
    assert_eq!(Network::Arbitrum.name(), "arbitrum");
}
