//! A chat-triggered testnet faucet: cooldown ledger, amount conversion, backend
//! request planning, error classification and the request dispatcher.
pub mod amount;
pub mod text;
pub mod ledger;
pub mod errors;
pub mod structs;
pub mod lightning_structs;
pub mod erc20_abi;
pub mod send;
pub mod dispatch;
