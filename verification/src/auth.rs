//! The authorization capability consumed by club creation: a check
//! answering "may this caller create clubs", injected by the surrounding
//! system.

use vstd::prelude::*;
use crate::types::AccountId;

verus! {

/// Answers whether an account holds the club-creation capability.
pub trait Authorizer {
    /// Which accounts are privileged.
    spec fn is_privileged(&self, who: AccountId) -> bool;

    /// Decides the privilege of `who`.
    fn check_privileged(&self, who: AccountId) -> (r: bool)
        ensures
            r == self.is_privileged(who),
    ;
}

/// The simplest authorizer: a single designated root account.
pub struct RootAccount {
    /// The one privileged account.
    pub root: AccountId,
}

impl Authorizer for RootAccount {
    open spec fn is_privileged(&self, who: AccountId) -> bool {
        who == self.root
    }

    fn check_privileged(&self, who: AccountId) -> (r: bool) {
        who == self.root
    }
}

} // verus!
