use faucet::amount::Amount;
use faucet::dispatch::normalize_coin_code;
use faucet::dispatch::parse_request;
use faucet::dispatch::wait_message;
use faucet::dispatch::Faucet;
use faucet::dispatch::Step;
use faucet::errors::lnd_outcome;
use faucet::errors::Error;
use faucet::ledger::CooldownEntry;
use faucet::send::Submission;
use faucet::structs::AssetKind;
use faucet::structs::Config;
use faucet::structs::ConfigCoin;
use faucet::structs::Macaroon;
use faucet::structs::Network;

const DEST: &str = "0x1111111111111111111111111111111111111111";

fn config() -> Config {
    Config {
        btc_url: String::from("https://btc-node:8080"),
        ltc_url: String::from("https://ltc-node:8080"),
        limit: 24,
        providers: vec![
            (String::from("ethereum"), String::from("https://rpc.example")),
            (String::from("arbitrum"), String::from("wss://arb.example")),
        ],
        coins: vec![
            (
                String::from("BTC"),
                ConfigCoin {
                    amount: Amount { units: 5, scale: 4 },
                    network: Network::Lightning,
                    asset: AssetKind::Native,
                    contract: String::new(),
                    decimals: 8,
                },
            ),
            (
                String::from("ETH"),
                ConfigCoin {
                    amount: Amount { units: 1, scale: 2 },
                    network: Network::Ethereum,
                    asset: AssetKind::Native,
                    contract: String::new(),
                    decimals: 18,
                },
            ),
            (
                String::from("USDC"),
                ConfigCoin {
                    amount: Amount { units: 10, scale: 0 },
                    network: Network::Arbitrum,
                    asset: AssetKind::Token,
                    contract: String::from("0x2222222222222222222222222222222222222222"),
                    decimals: 6,
                },
            ),
        ],
    }
}

fn faucet() -> Faucet {
    let macaroon = Macaroon { btc: String::from("beef"), ltc: String::from("cafe") };
    Faucet::new(config(), macaroon).unwrap()
}

fn reply(step: Step) -> String {
    match step {
        Step::Reply(text) => text,
        Step::Refused(text, _) => panic!("unexpected refusal {}", text),
        Step::Submit(_) => panic!("expected a reply"),
    }
}

#[test]
fn btc_request_is_sent_and_linked() {
    let mut f = faucet();
    let step = f.begin(1, "BTC", "tb1qexample", 1_000_000);
    let dispatch = match step {
        Step::Submit(d) => d,
        _ => panic!("expected a submission"),
    };
    match &dispatch.submission {
        Submission::Lightning(q) => {
            assert_eq!(q.body.amount, 50_000);
            assert_eq!(q.body.addr, "tb1qexample");
            assert_eq!(q.url, "https://btc-node:8080/v1/transactions");
            assert_eq!(q.macaroon, "beef");
        }
        Submission::Evm(_) => panic!("expected a Lightning request"),
    }
    let text = f.finish(&dispatch, &Ok(String::from("abc123")));
    assert_eq!(text, "Sent 0.0005 BTC! https://www.blockchain.com/btc-testnet/tx/abc123");
    assert_eq!(
        f.ledger.entry(1, &String::from("BTC")),
        Some(CooldownEntry { last_success_at: Some(1_000_000), reserved: false })
    );
}

#[test]
fn repeat_within_window_gets_wait_message() {
    let mut f = faucet();
    let dispatch = match f.begin(1, "BTC", "tb1qexample", 1_000_000) {
        Step::Submit(d) => d,
        _ => panic!("expected a submission"),
    };
    f.finish(&dispatch, &Ok(String::from("abc123")));
    let text = reply(f.begin(1, "BTC", "tb1qexample", 1_000_000 + 5_400));
    assert_eq!(text, "Please wait another 22h30m before requesting new BTC!");
}

#[test]
fn unknown_coin_is_not_supported() {
    let mut f = faucet();
    let text = reply(f.begin(1, " x y z ", DEST, 1_000));
    assert_eq!(text, "Coin not supported!");
    assert_eq!(f.ledger.entry(1, &String::from("XYZ")), None);
}

#[test]
fn insufficient_funds_releases_the_reservation() {
    let mut f = faucet();
    let dispatch = match f.begin(1, "btc", "tb1qexample", 1_000) {
        Step::Submit(d) => d,
        _ => panic!("expected a submission"),
    };
    let outcome = lnd_outcome("insufficient funds in wallet", None);
    assert_eq!(outcome, Err(Error::NoFunds));
    let text = f.finish(&dispatch, &outcome);
    assert_eq!(text, "Faucet out of funds!");
    assert_eq!(
        f.ledger.entry(1, &String::from("BTC")),
        Some(CooldownEntry { last_success_at: None, reserved: false })
    );
    assert!(matches!(f.begin(1, "BTC", "tb1qexample", 1_001), Step::Submit(_)));
}

#[test]
fn concurrent_request_is_busy() {
    let mut f = faucet();
    assert!(matches!(f.begin(1, "BTC", "tb1qexample", 1_000), Step::Submit(_)));
    let text = reply(f.begin(1, "BTC", "tb1qexample", 1_000));
    assert_eq!(text, "Please wait another 24h0m before requesting new BTC!");
}

#[test]
fn invalid_evm_address_is_refused_and_released() {
    let mut f = faucet();
    match f.begin(1, "eth", "0x1234", 1_000) {
        Step::Refused(text, error) => {
            assert_eq!(text, "Invalid address!");
            assert_eq!(error, Error::InvalidAddress);
        }
        _ => panic!("expected a refusal"),
    }
    assert_eq!(
        f.ledger.entry(1, &String::from("ETH")),
        Some(CooldownEntry { last_success_at: None, reserved: false })
    );
}

#[test]
fn native_and_token_coins_are_routed_by_configuration() {
    let mut f = faucet();
    match f.begin(1, "ETH", DEST, 1_000) {
        Step::Submit(d) => match d.submission {
            Submission::Evm(t) => {
                assert_eq!(t.to, [0x11u8; 20]);
                assert_eq!(t.value, 10_000_000_000_000_000);
                assert!(t.data.is_empty());
                assert_eq!(t.provider_url, "https://rpc.example");
            }
            Submission::Lightning(_) => panic!("expected an EVM transfer"),
        },
        _ => panic!("expected a submission"),
    }
    match f.begin(1, "usdc", DEST, 1_000) {
        Step::Submit(d) => match d.submission {
            Submission::Evm(t) => {
                assert_eq!(t.to, [0x22u8; 20]);
                assert_eq!(t.value, 0);
                assert_eq!(t.data.len(), 68);
                assert_eq!(&t.data[..4], &[0xa9, 0x05, 0x9c, 0xbb]);
                assert_eq!(t.provider_url, "wss://arb.example");
            }
            Submission::Lightning(_) => panic!("expected an EVM transfer"),
        },
        _ => panic!("expected a submission"),
    }
}

#[test]
fn evm_success_links_the_network_explorer() {
    let mut f = faucet();
    let dispatch = match f.begin(3, "ETH", DEST, 1_000) {
        Step::Submit(d) => d,
        _ => panic!("expected a submission"),
    };
    let text = f.finish(&dispatch, &Ok(String::from("0xabc")));
    assert_eq!(text, "Sent 0.01 ETH! https://goerli.etherscan.io/tx/0xabc");
}

#[test]
fn coin_code_is_normalized() {
    assert_eq!(normalize_coin_code(" b t c "), "BTC");
    assert_eq!(normalize_coin_code("Usdc"), "USDC");
}

#[test]
fn wait_message_truncates_to_minutes() {
    assert_eq!(wait_message(81_000, "BTC"), "Please wait another 22h30m before requesting new BTC!");
    assert_eq!(wait_message(59, "LTC"), "Please wait another 0h0m before requesting new LTC!");
    assert_eq!(wait_message(3_661, "ETH"), "Please wait another 1h1m before requesting new ETH!");
}

#[test]
fn cooldown_that_does_not_fit_is_refused() {
    let mut c = config();
    c.limit = u64::MAX;
    assert!(Faucet::new(c, Macaroon::default()).is_none());
}

#[test]
fn chat_message_splits_at_its_only_dash() {
    assert_eq!(
        parse_request("btc - tb1q abc"),
        Some((String::from("btc "), String::from("tb1qabc")))
    );
    assert_eq!(parse_request("no dash here"), None);
    assert_eq!(parse_request("a-b-c"), None);
    assert_eq!(parse_request("-"), Some((String::new(), String::new())));
}

#[test]
fn native_transfer_is_counted_in_wei_whatever_the_decimals() {
    let mut c = config();
    c.coins[1].1.decimals = 6;
    c.coins[1].1.amount = Amount { units: 1, scale: 0 };
    let mut f = Faucet::new(c, Macaroon::default()).unwrap();
    match f.begin(1, "ETH", DEST, 1_000) {
        Step::Submit(d) => match d.submission {
            Submission::Evm(t) => assert_eq!(t.value, 1_000_000_000_000_000_000),
            Submission::Lightning(_) => panic!("expected an EVM transfer"),
        },
        _ => panic!("expected a submission"),
    }
}

#[test]
fn repeated_configuration_keys_are_refused() {
    let mut c = config();
    let copy = c.coins[0].clone();
    c.coins.push(copy);
    assert!(Faucet::new(c, Macaroon::default()).is_none());
    let mut c = config();
    c.providers.push((String::from("ethereum"), String::from("https://other")));
    assert!(Faucet::new(c, Macaroon::default()).is_none());
}

#[test]
fn finished_dispatch_no_longer_holds_its_slot() {
    let mut f = faucet();
    let dispatch = match f.begin(1, "BTC", "tb1qexample", 1_000) {
        Step::Submit(d) => d,
        _ => panic!("expected a submission"),
    };
    assert!(f.holds_reservation(&dispatch));
    f.finish(&dispatch, &Ok(String::from("t")));
    assert!(!f.holds_reservation(&dispatch));
}
