//! The typed failures every externally invocable operation can return.

use vstd::prelude::*;

verus! {

/// Why an operation was refused.  Every refusal is reported to the caller
/// as a value of this type; verified code never panics.
#[derive(Debug, PartialEq, Eq)]
pub enum DaoError {
    /// The caller has not joined the organization.
    NotMember,
    /// The caller already joined and has not quit since.
    AlreadyMember,
    /// No proposal carries the given id.
    ProposalNotFound,
    /// The proposal has already reached a terminal state.
    VotingClosed,
    /// A proposer may not vote on their own proposal.
    SelfVoteForbidden,
    /// The ledger balance does not cover the required stake.
    InsufficientBalance,
    /// The allowance granted to the custody account is too small.
    InsufficientAllowance,
    /// The escrow transfer itself failed on the ledger.
    TransferFailed(String),
    /// The caller is not on the administrator list.
    Unauthorized,
}

impl Clone for DaoError {
    fn clone(&self) -> (r: Self)
        ensures
            r == *self,
    {
        match self {
            DaoError::NotMember => DaoError::NotMember,
            DaoError::AlreadyMember => DaoError::AlreadyMember,
            DaoError::ProposalNotFound => DaoError::ProposalNotFound,
            DaoError::VotingClosed => DaoError::VotingClosed,
            DaoError::SelfVoteForbidden => DaoError::SelfVoteForbidden,
            DaoError::InsufficientBalance => DaoError::InsufficientBalance,
            DaoError::InsufficientAllowance => DaoError::InsufficientAllowance,
            DaoError::TransferFailed(detail) => DaoError::TransferFailed(detail.clone()),
            DaoError::Unauthorized => DaoError::Unauthorized,
        }
    }
}

impl DaoError {
    /// A human-readable reason, in place of `Display`.
    pub fn message(&self) -> (msg: String)
        ensures
            *self is NotMember ==> msg@ == "You are not yet a member of this group!"@,
            *self is AlreadyMember ==> msg@ == "Users have already joined current DAO!"@,
            *self is ProposalNotFound ==> msg@ == "Proposal does not exist!"@,
            *self is VotingClosed ==> msg@ == "Voting has closed"@,
            *self is SelfVoteForbidden ==> msg@ == "You can't vote for yourself!"@,
            *self is InsufficientBalance ==> msg@ == "Insufficient balance!"@,
            *self is InsufficientAllowance ==> msg@ == "Approved insufficient NDP count"@,
            self matches DaoError::TransferFailed(detail) ==> msg@ == detail@,
            *self is Unauthorized ==> msg@ == "no auth"@,
    {
        match self {
            DaoError::NotMember => "You are not yet a member of this group!".to_owned(),
            DaoError::AlreadyMember => "Users have already joined current DAO!".to_owned(),
            DaoError::ProposalNotFound => "Proposal does not exist!".to_owned(),
            DaoError::VotingClosed => "Voting has closed".to_owned(),
            DaoError::SelfVoteForbidden => "You can't vote for yourself!".to_owned(),
            DaoError::InsufficientBalance => "Insufficient balance!".to_owned(),
            DaoError::InsufficientAllowance => "Approved insufficient NDP count".to_owned(),
            DaoError::TransferFailed(detail) => detail.clone(),
            DaoError::Unauthorized => "no auth".to_owned(),
        }
    }
}

} // verus!
