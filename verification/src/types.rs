//! The entity model: clubs, memberships, configuration, origins, errors,
//! and the events each successful operation emits.

use vstd::prelude::*;

verus! {

/// Uniquely identifies a club. Assigned sequentially starting at 1.
pub type ClubId = u32;

/// An account in the surrounding ledger system.
pub type AccountId = u64;

/// An amount in the ledger's balance unit.
pub type Balance = u128;

/// A value of the logical clock that measures subscription time.
pub type BlockNumber = u64;

/// The constants the registry is configured with.
#[derive(Clone, Copy, PartialEq, Eq, Structural, Debug)]
pub struct Config {
    /// The maximum length of a club name, in bytes.
    pub max_name_length: u32,
    /// The maximum forward-looking subscription length, in years.
    pub max_subscription_length: u16,
    /// Approximate number of clock ticks per year, used to compute
    /// subscription expiration. Must be positive.
    pub blocks_per_year: BlockNumber,
    /// The fee withdrawn from the caller when a club is created.
    pub club_creation_fee: Balance,
}

/// The provenance of a call: either signed by an account or unsigned.
#[derive(Clone, Copy, PartialEq, Eq, Structural, Debug)]
pub enum Origin {
    /// The call was signed by the given account.
    Signed(AccountId),
    /// The call carries no signature.
    Unsigned,
}

/// Validation and invariant errors raised by the registry itself.
#[derive(Clone, Copy, PartialEq, Eq, Structural, Debug)]
pub enum Error {
    /// The club identifier space is exhausted; a defensive check that
    /// signals an internal invariant breach rather than user error.
    ClubIdOverflow,
    /// The caller lacks permission to perform the operation.
    NoPermission,
    /// The addressed record does not exist.
    NotFound,
    /// The record to be created already exists.
    AlreadyExists,
    /// The requested or cumulative subscription length exceeds the
    /// configured maximum.
    SubscriptionTooLong,
    /// The proposed owner is the current owner.
    SameOwner,
    /// The proposed fee equals the stored fee.
    SameFee,
}

/// Failures reported by the balance ledger on withdrawal.
#[derive(Clone, Copy, PartialEq, Eq, Structural, Debug)]
pub enum LedgerError {
    /// The account's free balance is below the requested amount.
    InsufficientBalance,
    /// The withdrawal would drop the account below the minimum balance
    /// that keeps it alive.
    KeepAlive,
}

/// Everything an operation can fail with.
#[derive(Clone, Copy, PartialEq, Eq, Structural, Debug)]
pub enum DispatchError {
    /// The origin did not authorize the operation.
    BadOrigin,
    /// A validation or invariant error of the registry.
    Module(Error),
    /// The balance ledger refused the fee withdrawal.
    Funds(LedgerError),
}

/// Events emitted, one per successful operation.
#[derive(Clone, Copy, PartialEq, Eq, Structural, Debug)]
pub enum Event {
    /// A club has been created.
    ClubCreated { id: ClubId, owner: AccountId },
    /// A member has been added to a club.
    MemberAdded { id: ClubId, member_id: AccountId },
    /// A membership has been extended.
    MembershipExtended { id: ClubId, member_id: AccountId, expires_at: BlockNumber },
    /// A club has been transferred to another owner.
    OwnershipTransferred { id: ClubId, owner: AccountId },
    /// A club's annual fee has been changed.
    AnnualFeeChanged { id: ClubId, annual_fee: Balance },
}

/// A club record.
pub struct ClubDetails {
    /// The club name; at most [`Config::max_name_length`] bytes.
    pub name: Vec<u8>,
    /// The club owner; mutable only by ownership transfer.
    pub owner: AccountId,
    /// The annual membership fee; mutable only by fee adjustment.
    pub annual_fee: Balance,
}

/// The mathematical image of a club record.
pub ghost struct ClubView {
    pub name: Seq<u8>,
    pub owner: AccountId,
    pub annual_fee: Balance,
}

impl View for ClubDetails {
    type V = ClubView;

    open spec fn view(&self) -> ClubView {
        ClubView { name: self.name@, owner: self.owner, annual_fee: self.annual_fee }
    }
}

/// A membership record, keyed outside this struct by (club, account).
#[derive(Clone, Copy, PartialEq, Eq, Structural, Debug)]
pub struct MemberDetails {
    /// The membership is active exactly while the clock is at or below
    /// this value. A fresh membership starts at 0: expired until the
    /// first renewal.
    pub expires_at: BlockNumber,
}

} // verus!
