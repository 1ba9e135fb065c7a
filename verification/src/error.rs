use vstd::prelude::*;

use crate::amount::Amount;
use crate::ids::{AccountId, AssetId, Digest, TicketId, TxId};

verus! {

/// Every way in which a ledger operation, a signature check or an amount
/// computation can be refused.
#[allow(inconsistent_fields)]
#[derive(Debug, Clone, PartialEq, Eq)]
pub enum VertexError {
    AmountOverflow,
    AmountUnderflow,
    AmountOutOfRange { value: u128, max: u128 },
    ZeroAmount,
    InvalidPublicKey,
    InvalidSignature,
    Serialization(String),
    IdentityMismatch(AccountId),
    AccountNotFound(AccountId),
    AccountAlreadyExists(AccountId),
    TicketNotFound(TicketId),
    TicketAlreadyExists(TicketId),
    TicketSettled(TicketId),
    UnauthorizedTicketSigner { expected: AccountId, received: AccountId },
    UnauthorizedReleaseSigner { expected: AccountId, received: AccountId },
    NonceMismatch { account: AccountId, expected: u64, received: u64 },
    NonceOverflow,
    DuplicateTransaction(TxId),
    InsufficientFunds { account: AccountId, available: Amount, required: Amount },
    AssetMismatch { expected: AssetId, received: AssetId },
    RouteDigestMismatch { ticket_id: TicketId, expected: Digest, received: Digest },
    Policy(String),
    Conservation { asset: AssetId, expected: Amount, observed: Amount },
}

/// The result type of every fallible operation of the library.
pub type VertexResult<T> = Result<T, VertexError>;

/// The policy rules whose violation is reported as `VertexError::Policy` with a message.
#[derive(Copy, Clone, Debug, PartialEq, Eq)]
pub enum PolicyRule {
    /// A basis-point value above one hundred percent.
    BasisPointsAboveFull,
    /// A ticket or release addressed to another network.
    WrongNetwork,
    /// Route charges larger than the ticket amount.
    ChargesExceedAmount,
    /// Route charges above the policy's basis-point ceiling.
    ChargesExceedCeiling,
}

/// The message that `VertexError::Policy` carries for each rule.
pub open spec fn policy_message(rule: PolicyRule) -> Seq<char> {
    match rule {
        PolicyRule::BasisPointsAboveFull => "basis points exceed 100%"@,
        PolicyRule::WrongNetwork => "wrong network"@,
        PolicyRule::ChargesExceedAmount => "route charges exceed ticket amount"@,
        PolicyRule::ChargesExceedCeiling => "route charges exceed policy ceiling"@,
    }
}

/// Why an operation is refused: a plain error, or a policy rule (whose error
/// carries a message).
#[derive(Clone, Debug, PartialEq, Eq)]
pub enum Refusal {
    Error(VertexError),
    Policy(PolicyRule),
}

/// Whether the error `e` is the one that reports `refusal`.
pub open spec fn reports(e: VertexError, refusal: Refusal) -> bool {
    match refusal {
        Refusal::Error(x) => e == x,
        Refusal::Policy(rule) => e matches VertexError::Policy(m) && m@ == policy_message(rule),
    }
}

/// The result of an operation that succeeds with `value` unless `refusal` says otherwise.
pub open spec fn outcome<T>(r: VertexResult<T>, refusal: Option<Refusal>) -> bool {
    match refusal {
        None => r is Ok,
        Some(x) => r matches Err(e) && reports(e, x),
    }
}

/// Builds the error for a policy rule.
pub fn policy_error(rule: PolicyRule) -> (e: VertexError)
    ensures
        reports(e, Refusal::Policy(rule)),
{
    match rule {
        PolicyRule::BasisPointsAboveFull => VertexError::Policy(
            String::from_str("basis points exceed 100%"),
        ),
        PolicyRule::WrongNetwork => VertexError::Policy(String::from_str("wrong network")),
        PolicyRule::ChargesExceedAmount => VertexError::Policy(
            String::from_str("route charges exceed ticket amount"),
        ),
        PolicyRule::ChargesExceedCeiling => VertexError::Policy(
            String::from_str("route charges exceed policy ceiling"),
        ),
    }
}

} // verus!
