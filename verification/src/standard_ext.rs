//! Message types of the extended token standard the ledger speaks, and
//! the comparison rule for textual account identifiers.  The calls that
//! carry these messages to the ledger are network I/O and live in the
//! boundary layer; the data model and its rules live here.

use vstd::prelude::*;

use crate::strutil::lower_of;
use crate::strutil::lowercase;
use crate::types::Principal;

verus! {

/// A token identifier, as the standard encodes it.
pub type TokenIdentifier = String;

/// An individual token's index within one canister.
pub type TokenIndex = u32;

/// A textual account identifier.
pub type AccountIdentifier = String;

/// A sub-account as the standard carries it on the wire.
pub type Subaccount = Vec<u8>;

/// A transfer memo.
pub type Memo = Vec<u8>;

/// An account addressed either by identity or by textual identifier.
#[allow(non_camel_case_types)]
#[derive(Debug, PartialEq, Eq)]
pub enum User {
    principal(Principal),
    address(AccountIdentifier),
}

/// A transfer request on the wire.
#[derive(Debug, PartialEq, Eq)]
pub struct TransferRequest {
    pub to: User,
    pub token: TokenIdentifier,
    pub notify: bool,
    pub from: User,
    pub memo: Memo,
    pub subaccount: Option<Subaccount>,
    pub amount: u128,
}

/// Why a transfer was refused.
#[allow(non_camel_case_types)]
#[derive(Debug, PartialEq, Eq)]
pub enum TransferResponse_err {
    CannotNotify(AccountIdentifier),
    InsufficientBalance,
    InvalidToken(TokenIdentifier),
    Rejected,
    Unauthorized(AccountIdentifier),
    Other(String),
}

/// A transfer's outcome on the wire.
#[allow(non_camel_case_types)]
#[derive(Debug, PartialEq, Eq)]
pub enum TransferResponse {
    ok(u128),
    err(TransferResponse_err),
}

/// A balance query on the wire.
#[derive(Debug, PartialEq, Eq)]
pub struct BalanceRequest {
    pub token: TokenIdentifier,
    pub user: User,
}

/// The standard's shared error type.
#[derive(Debug, PartialEq, Eq)]
pub enum CommonError {
    InvalidToken(TokenIdentifier),
    Other(TokenIdentifier),
}

/// A balance query's outcome.
#[allow(non_camel_case_types)]
#[derive(Debug, PartialEq, Eq)]
pub enum BalanceResponse {
    ok(u128),
    err(CommonError),
}

/// A bearer query's outcome.
#[allow(non_camel_case_types)]
#[derive(Debug, PartialEq, Eq)]
pub enum BearerResponse {
    ok(AccountIdentifier),
    err(CommonError),
}

/// A token-list query's outcome.
#[allow(non_camel_case_types)]
#[derive(Debug, PartialEq, Eq)]
pub enum TokensResponse {
    ok(Vec<u32>),
    err(CommonError),
}

/// Whether two textual account identifiers name the same account: the
/// comparison ignores letter case.
pub fn account_idf_equal(a: &AccountIdentifier, b: &AccountIdentifier) -> (r: bool)
    ensures
        r == (lower_of(a@) == lower_of(b@)),
{
    let la = lowercase(a.as_str());
    let lb = lowercase(b.as_str());
    la == lb
}

} // verus!
