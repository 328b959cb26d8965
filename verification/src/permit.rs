//! Approval of a token allowance by signature, as a behavior module
//! declares it. Checking the signature is the implementor's business.

use vstd::prelude::*;
use crate::capped::{Balance, PSP22Error};

verus! {

/// The address of an account.
pub type AccountId = [u8; 32];

/// A signature over a permit, as raw bytes.
#[derive(Debug, PartialEq, Eq)]
pub struct Signature {
    pub bytes: Vec<u8>,
}

/// A token whose allowances can be approved by a signed message.
pub trait PSP22Permit {
    /// Lets `spender` spend `value` tokens of `owner`, on the strength of
    /// `signature`, until `deadline`.
    fn permit(
        &mut self,
        owner: AccountId,
        spender: AccountId,
        value: Balance,
        deadline: u64,
        signature: Signature,
    ) -> Result<(), PSP22Error>;

    /// The value that ties a signature to this token.
    fn domain_separator(&mut self) -> [u8; 32];
}

} // verus!
