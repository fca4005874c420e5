//! The closed error taxonomy, the classification of backend failures into it, and the
//! sentence shown to the user for each kind.
use crate::structs::Network;
use crate::text::contains;
use crate::text::has_substring;
use vstd::prelude::*;

verus! {

/// The kinds of failure a disbursement can end in.
#[derive(Clone, Copy, Debug, PartialEq, Eq)]
pub enum ErrorKind {
    InvalidAddress,
    InsufficientFunds,
    PendingTransaction,
    ProviderUnavailable,
    EncodingError,
    Generic,
}

/// A failed disbursement, with the underlying detail kept for the logs.
#[derive(Clone, Debug, PartialEq, Eq)]
pub enum Error {
    /// The destination or contract address is malformed or not valid for the network.
    InvalidAddress,
    /// The faucet's wallet cannot pay.
    NoFunds,
    /// An earlier transaction of the faucet is still pending.
    PendingTransaction(String),
    /// The configured provider endpoint has an unknown scheme.
    InvalidProviderUrl(String),
    /// The provider could not be reached.
    ProviderUnavailable(String),
    /// No provider endpoint is configured for the network.
    NoProvider(Network),
    /// The configured amount does not fit the backend's integer type.
    AmountOutOfRange,
    /// The coin has no Lightning node.
    UnsupportedLndCoin(String),
    /// The Lightning node refused the request; the raw response body.
    Lnd(String),
    /// Any other failure.
    Generic(String),
}

/// The kind of an error.
pub open spec fn kind_of(e: Error) -> ErrorKind {
    match e {
        Error::InvalidAddress => ErrorKind::InvalidAddress,
        Error::NoFunds => ErrorKind::InsufficientFunds,
        Error::PendingTransaction(_) => ErrorKind::PendingTransaction,
        Error::InvalidProviderUrl(_) => ErrorKind::ProviderUnavailable,
        Error::ProviderUnavailable(_) => ErrorKind::ProviderUnavailable,
        Error::NoProvider(_) => ErrorKind::ProviderUnavailable,
        Error::AmountOutOfRange => ErrorKind::EncodingError,
        Error::UnsupportedLndCoin(_) => ErrorKind::Generic,
        Error::Lnd(_) => ErrorKind::Generic,
        Error::Generic(_) => ErrorKind::Generic,
    }
}

/// The sentence the user is shown for each kind of failure.
pub open spec fn user_message_of(kind: ErrorKind) -> Seq<char> {
    match kind {
        ErrorKind::InvalidAddress => "Invalid address!"@,
        ErrorKind::InsufficientFunds => "Faucet out of funds!"@,
        ErrorKind::PendingTransaction => "Another transaction is still pending, retry in some minutes!"@,
        _ => "Transaction failed, retry later!"@,
    }
}

/// The kind of failure a Lightning response body that is not a success shows.
pub open spec fn lnd_failure_kind(body: Seq<char>) -> ErrorKind {
    if has_substring(body, "not valid for this network"@) || has_substring(body, "address"@) {
        ErrorKind::InvalidAddress
    } else if has_substring(body, "insufficient"@) {
        ErrorKind::InsufficientFunds
    } else {
        ErrorKind::Generic
    }
}

/// Where an EVM transfer failed.
#[derive(Clone, Copy, Debug, PartialEq, Eq)]
pub enum EvmStage {
    /// Reaching the provider.
    Connect,
    /// Estimating the gas of the transfer.
    Estimate,
    /// Signing and submitting the transaction.
    Submit,
}

/// The kind of failure an EVM provider's message shows at each stage.
pub open spec fn evm_failure_kind(stage: EvmStage, message: Seq<char>) -> ErrorKind {
    match stage {
        EvmStage::Connect => ErrorKind::ProviderUnavailable,
        EvmStage::Estimate => if has_substring(message, "insufficient"@) {
            ErrorKind::InsufficientFunds
        } else {
            ErrorKind::Generic
        },
        EvmStage::Submit => if has_substring(message, "replacement transaction underpriced"@) {
            ErrorKind::PendingTransaction
        } else {
            ErrorKind::Generic
        },
    }
}

impl Error {
    /// The kind of this error.
    pub fn kind(&self) -> (r: ErrorKind)
        ensures
            r == kind_of(*self),
    {
        match self {
            Error::InvalidAddress => ErrorKind::InvalidAddress,
            Error::NoFunds => ErrorKind::InsufficientFunds,
            Error::PendingTransaction(_) => ErrorKind::PendingTransaction,
            Error::InvalidProviderUrl(_) => ErrorKind::ProviderUnavailable,
            Error::ProviderUnavailable(_) => ErrorKind::ProviderUnavailable,
            Error::NoProvider(_) => ErrorKind::ProviderUnavailable,
            Error::AmountOutOfRange => ErrorKind::EncodingError,
            Error::UnsupportedLndCoin(_) => ErrorKind::Generic,
            Error::Lnd(_) => ErrorKind::Generic,
            Error::Generic(_) => ErrorKind::Generic,
        }
    }

    /// The full description of this error, for the operator's log.
    pub fn describe(&self) -> (r: String)
        ensures
            match self {
                Error::InvalidAddress => r@ == "Invalid address"@,
                Error::NoFunds => r@ == "Insufficient funds"@,
                Error::PendingTransaction(d) => r@ == "Pending transaction: "@ + d@,
                Error::InvalidProviderUrl(d) => r@ == "Invalid provider url: "@ + d@,
                Error::ProviderUnavailable(d) => r@ == "Provider unavailable: "@ + d@,
                Error::NoProvider(n) => r@ == "No provider for network "@ + crate::structs::network_name(*n),
                Error::AmountOutOfRange => r@ == "Amount out of range"@,
                Error::UnsupportedLndCoin(c) => r@ == "Coin "@ + c@ + " is not supported by LND"@,
                Error::Lnd(d) => r@ == "Lnd error: "@ + d@,
                Error::Generic(d) => r@ == "Error: "@ + d@,
            },
    {
        match self {
            Error::InvalidAddress => String::from_str("Invalid address"),
            Error::NoFunds => String::from_str("Insufficient funds"),
            Error::PendingTransaction(d) => String::from_str("Pending transaction: ").concat(
                d.as_str(),
            ),
            Error::InvalidProviderUrl(d) => String::from_str("Invalid provider url: ").concat(
                d.as_str(),
            ),
            Error::ProviderUnavailable(d) => String::from_str("Provider unavailable: ").concat(
                d.as_str(),
            ),
            Error::NoProvider(n) => String::from_str("No provider for network ").concat(n.name()),
            Error::AmountOutOfRange => String::from_str("Amount out of range"),
            Error::UnsupportedLndCoin(c) => {
                let mut r = String::from_str("Coin ");
                r.append(c.as_str());
                r.append(" is not supported by LND");
                r
            },
            Error::Lnd(d) => String::from_str("Lnd error: ").concat(d.as_str()),
            Error::Generic(d) => String::from_str("Error: ").concat(d.as_str()),
        }
    }
}

/// The sentence the user is shown for a failure of the given kind.
pub fn user_message(kind: ErrorKind) -> (r: String)
    ensures
        r@ == user_message_of(kind),
{
    match kind {
        ErrorKind::InvalidAddress => String::from_str("Invalid address!"),
        ErrorKind::InsufficientFunds => String::from_str("Faucet out of funds!"),
        ErrorKind::PendingTransaction => String::from_str(
            "Another transaction is still pending, retry in some minutes!",
        ),
        _ => String::from_str("Transaction failed, retry later!"),
    }
}

/// Classifies a Lightning response body that did not parse as a success: a mention of
/// the network or of an address means an invalid address, "insufficient" means the
/// wallet is out of funds, anything else is kept whole as the error's detail.
pub fn classify_lnd_failure(body: &str) -> (r: Error)
    ensures
        kind_of(r) == lnd_failure_kind(body@),
        match r {
            Error::InvalidAddress => true,
            Error::NoFunds => true,
            Error::Lnd(d) => d@ == body@,
            _ => false,
        },
{
    if contains(body, "not valid for this network") || contains(body, "address") {
        Error::InvalidAddress
    } else if contains(body, "insufficient") {
        Error::NoFunds
    } else {
        Error::Lnd(String::from_str(body))
    }
}

/// The result of a Lightning send: the transaction id where the response parsed as a
/// success (`txid`), the classified body otherwise.
pub fn lnd_outcome(body: &str, txid: Option<String>) -> (r: Result<String, Error>)
    ensures
        match txid {
            Some(t) => r == Ok::<String, Error>(t),
            None => match r {
                Ok(_) => false,
                Err(e) => {
                    &&& kind_of(e) == lnd_failure_kind(body@)
                    &&& match e {
                        Error::InvalidAddress => true,
                        Error::NoFunds => true,
                        Error::Lnd(d) => d@ == body@,
                        _ => false,
                    }
                },
            },
        },
{
    match txid {
        Some(t) => Ok(t),
        None => Err(classify_lnd_failure(body)),
    }
}

/// Classifies an EVM provider failure from its stage and message: an unreachable
/// provider is unavailable; a gas estimation mentioning "insufficient" means the
/// wallet is out of funds; a submission refused as an underpriced replacement means
/// an earlier transaction is pending; anything else is generic. The message is kept.
pub fn classify_evm_failure(stage: EvmStage, message: &str) -> (r: Error)
    ensures
        kind_of(r) == evm_failure_kind(stage, message@),
        match r {
            Error::NoFunds => true,
            Error::ProviderUnavailable(d) => d@ == message@,
            Error::PendingTransaction(d) => d@ == message@,
            Error::Generic(d) => d@ == message@,
            _ => false,
        },
{
    match stage {
        EvmStage::Connect => Error::ProviderUnavailable(String::from_str(message)),
        EvmStage::Estimate => {
            if contains(message, "insufficient") {
                Error::NoFunds
            } else {
                Error::Generic(String::from_str(message))
            }
        },
        EvmStage::Submit => {
            if contains(message, "replacement transaction underpriced") {
                Error::PendingTransaction(String::from_str(message))
            } else {
                Error::Generic(String::from_str(message))
            }
        },
    }
}

} // verus!
