//! Why a call is aborted.

use vstd::prelude::*;

verus! {

/// Why a call is aborted. A call that is merely turned down answers
/// `false` instead.
#[derive(Clone, Copy, Debug, PartialEq, Eq, Structural)]
pub enum TokenError {
    /// The owner was read before it was ever set.
    NotInitialized,
    /// A purchase or a sale was attempted on a token without an owner.
    OwnerNotSet,
    /// A transfer names the same account as source and destination.
    SelfTransfer,
    /// The token was initialized before; its owner and supply stay.
    AlreadyInitialized,
}

impl TokenError {
    /// What to tell the caller.
    pub fn message(&self) -> (text: &'static str)
        ensures
            text@ == match *self {
                TokenError::NotInitialized => "Owner not set"@,
                TokenError::OwnerNotSet => "Contract owner not set"@,
                TokenError::SelfTransfer => "Cannot transfer to self"@,
                TokenError::AlreadyInitialized => "Token is already initialized"@,
            },
    {
        match self {
            TokenError::NotInitialized => "Owner not set",
            TokenError::OwnerNotSet => "Contract owner not set",
            TokenError::SelfTransfer => "Cannot transfer to self",
            TokenError::AlreadyInitialized => "Token is already initialized",
        }
    }
}

} // verus!
