//! The request and response bodies of the Lightning node's on-chain send endpoint.
use vstd::prelude::*;

verus! {

/// The body of a `POST /v1/transactions` request.
#[derive(Clone, Debug, PartialEq, Eq)]
pub struct SendCoinsRequest {
    /// The address to send coins to.
    pub addr: String,
    /// The amount in satoshis to send.
    pub amount: i64,
    /// The target number of blocks that this transaction should be confirmed by.
    pub target_conf: i32,
    /// A manual fee rate in sat/vbyte for crafting the transaction.
    pub sat_per_vbyte: u64,
    /// Superseded by `sat_per_vbyte`; kept for the node's older field.
    pub sat_per_byte: i64,
    /// Send all the coins of the internal wallet, ignoring `amount`.
    pub send_all: bool,
    /// An optional label for the transaction, limited to 500 characters.
    pub label: String,
    /// The minimum number of confirmations each output used must have.
    pub min_confs: i32,
    /// Whether unconfirmed outputs may be used as inputs.
    pub spend_unconfirmed: bool,
}

impl SendCoinsRequest {
    /// A request sending `amount` satoshis to `addr`, every other field at its default:
    /// zero, false or empty, which leaves the fee and confirmation target to the node.
    pub fn new(addr: &str, amount: i64) -> (r: SendCoinsRequest)
        ensures
            r.addr@ == addr@,
            r.amount == amount,
            r.target_conf == 0,
            r.sat_per_vbyte == 0,
            r.sat_per_byte == 0,
            !r.send_all,
            r.label@.len() == 0,
            r.min_confs == 0,
            !r.spend_unconfirmed,
    {
        SendCoinsRequest {
            addr: String::from_str(addr),
            amount,
            target_conf: 0,
            sat_per_vbyte: 0,
            sat_per_byte: 0,
            send_all: false,
            label: String::new(),
            min_confs: 0,
            spend_unconfirmed: false,
        }
    }
}

/// The body of a successful `POST /v1/transactions` response.
#[derive(Clone, Debug, PartialEq, Eq)]
pub struct SendCoinsResponse {
    /// The transaction ID of the transaction.
    pub txid: String,
}

} // verus!
