//! The mathematical model of the registry: an abstract state, and one
//! transition function per operation. Every operation of the executable
//! engine is specified as exactly one of these transitions, and the
//! registry-wide laws are proved about them.

use vstd::prelude::*;
use crate::ledger::withdraw_outcome;
use crate::types::{AccountId, Balance, BlockNumber, ClubId, ClubView, Config, DispatchError,
    Error, Event, LedgerError, MemberDetails, Origin};

verus! {

/// `a + b`, clamped to the numeric maximum.
pub open spec fn saturating_add_u64(a: u64, b: u64) -> u64 {
    if a + b > u64::MAX {
        u64::MAX
    } else {
        (a + b) as u64
    }
}

/// `a * b`, clamped to the numeric maximum.
pub open spec fn saturating_mul_u64(a: u64, b: u64) -> u64 {
    if a * b > u64::MAX {
        u64::MAX
    } else {
        (a * b) as u64
    }
}

/// `a * b`, clamped to the numeric maximum.
pub open spec fn saturating_mul_u128(a: u128, b: u128) -> u128 {
    if a * b > u128::MAX {
        u128::MAX
    } else {
        (a * b) as u128
    }
}

/// Everything the engine persists: the club records (the record with ID
/// `i` sits at index `i - 1`), the membership records keyed by club and
/// account, and the events emitted so far.
pub ghost struct StateView {
    pub clubs: Seq<ClubView>,
    pub members: Map<(ClubId, AccountId), MemberDetails>,
    pub events: Seq<Event>,
}

impl StateView {
    /// A club record exists for `id` exactly when `1 <= id <= count`.
    pub open spec fn club_exists(self, id: ClubId) -> bool {
        1 <= id && id as int <= self.clubs.len()
    }

    /// The club record with the given ID.
    pub open spec fn club(self, id: ClubId) -> ClubView {
        self.clubs[id as int - 1]
    }

    /// The number of live club records; the next ID to assign is one more.
    pub open spec fn club_count(self) -> int {
        self.clubs.len() as int
    }

    /// Club creation. `privileged` is the authorizer's answer for the
    /// signer; `withdraw` is the ledger's answer to withdrawing the
    /// club-creation fee from the signer. Inserts a club with the given
    /// name and owner, a fee of zero, and the next sequential ID.
    pub open spec fn create_club(
        self,
        origin: Origin,
        privileged: bool,
        name: Seq<u8>,
        owner: AccountId,
        withdraw: Result<(), LedgerError>,
    ) -> (StateView, Result<ClubId, DispatchError>) {
        match origin {
            Origin::Unsigned => (self, Err(DispatchError::BadOrigin)),
            Origin::Signed(_) => if !privileged {
                (self, Err(DispatchError::BadOrigin))
            } else if self.clubs.len() >= ClubId::MAX as int {
                (self, Err(DispatchError::Module(Error::ClubIdOverflow)))
            } else {
                match withdraw {
                    Err(e) => (self, Err(DispatchError::Funds(e))),
                    Ok(()) => {
                        let id = (self.clubs.len() + 1) as ClubId;
                        (
                            StateView {
                                clubs: self.clubs.push(
                                    ClubView { name, owner, annual_fee: 0 },
                                ),
                                members: self.members,
                                events: self.events.push(Event::ClubCreated { id, owner }),
                            },
                            Ok(id),
                        )
                    },
                }
            },
        }
    }

    /// Member enrollment by the club owner. Inserts a membership that is
    /// expired from the start; no fee is charged.
    pub open spec fn add_member(
        self,
        origin: Origin,
        club_id: ClubId,
        member_id: AccountId,
    ) -> (StateView, Result<(), DispatchError>) {
        match origin {
            Origin::Unsigned => (self, Err(DispatchError::BadOrigin)),
            Origin::Signed(who) => if !self.club_exists(club_id) {
                (self, Err(DispatchError::Module(Error::NotFound)))
            } else if self.club(club_id).owner != who {
                (self, Err(DispatchError::Module(Error::NoPermission)))
            } else if self.members.contains_key((club_id, member_id)) {
                (self, Err(DispatchError::Module(Error::AlreadyExists)))
            } else {
                (
                    StateView {
                        clubs: self.clubs,
                        members: self.members.insert(
                            (club_id, member_id),
                            MemberDetails { expires_at: 0 },
                        ),
                        events: self.events.push(
                            Event::MemberAdded { id: club_id, member_id },
                        ),
                    },
                    Ok(()),
                )
            },
        }
    }

    /// The renewal base: an expired membership restarts at the clock,
    /// an active one keeps its unused remainder.
    pub open spec fn renewal_base(expires_at: BlockNumber, now: BlockNumber) -> BlockNumber {
        if expires_at < now {
            now
        } else {
            expires_at
        }
    }

    /// The whole years of coverage an active membership still holds.
    pub open spec fn remaining_years(
        expires_at: BlockNumber,
        now: BlockNumber,
        blocks_per_year: BlockNumber,
    ) -> int {
        (expires_at - now) / (blocks_per_year as int)
    }

    /// Subscription renewal by the member. `free` and `minimum` are the
    /// signer's balance and the ledger's minimum; the fee is the club's
    /// annual fee times the years requested, and the expiration moves to
    /// the renewal base plus a year's worth of clocks per year bought,
    /// both with saturating arithmetic.
    pub open spec fn extend_membership(
        self,
        cfg: Config,
        origin: Origin,
        club_id: ClubId,
        years: u16,
        now: BlockNumber,
        free: Balance,
        minimum: Balance,
    ) -> (StateView, Result<(), DispatchError>) {
        match origin {
            Origin::Unsigned => (self, Err(DispatchError::BadOrigin)),
            Origin::Signed(who) => if years > cfg.max_subscription_length {
                (self, Err(DispatchError::Module(Error::SubscriptionTooLong)))
            } else if !self.members.contains_key((club_id, who)) {
                (self, Err(DispatchError::Module(Error::NotFound)))
            } else {
                let expires_at = self.members[(club_id, who)].expires_at;
                if expires_at >= now && Self::remaining_years(expires_at, now, cfg.blocks_per_year)
                    + years > cfg.max_subscription_length {
                    (self, Err(DispatchError::Module(Error::SubscriptionTooLong)))
                } else {
                    let new_expires = saturating_add_u64(
                        Self::renewal_base(expires_at, now),
                        saturating_mul_u64(cfg.blocks_per_year, years as u64),
                    );
                    let amount = saturating_mul_u128(
                        self.club(club_id).annual_fee,
                        years as u128,
                    );
                    match withdraw_outcome(free, minimum, amount) {
                        Err(e) => (self, Err(DispatchError::Funds(e))),
                        Ok(()) => (
                            StateView {
                                clubs: self.clubs,
                                members: self.members.insert(
                                    (club_id, who),
                                    MemberDetails { expires_at: new_expires },
                                ),
                                events: self.events.push(
                                    Event::MembershipExtended {
                                        id: club_id,
                                        member_id: who,
                                        expires_at: new_expires,
                                    },
                                ),
                            },
                            Ok(()),
                        ),
                    }
                }
            },
        }
    }

    /// Ownership transfer by the current owner to a distinct account.
    /// Name, fee and all membership records are untouched.
    pub open spec fn transfer_ownership(
        self,
        origin: Origin,
        club_id: ClubId,
        owner_id: AccountId,
    ) -> (StateView, Result<(), DispatchError>) {
        match origin {
            Origin::Unsigned => (self, Err(DispatchError::BadOrigin)),
            Origin::Signed(who) => if who == owner_id {
                (self, Err(DispatchError::Module(Error::SameOwner)))
            } else if !self.club_exists(club_id) {
                (self, Err(DispatchError::Module(Error::NotFound)))
            } else if self.club(club_id).owner != who {
                (self, Err(DispatchError::Module(Error::NoPermission)))
            } else {
                (
                    StateView {
                        clubs: self.clubs.update(
                            club_id as int - 1,
                            ClubView {
                                name: self.club(club_id).name,
                                owner: owner_id,
                                annual_fee: self.club(club_id).annual_fee,
                            },
                        ),
                        members: self.members,
                        events: self.events.push(
                            Event::OwnershipTransferred { id: club_id, owner: owner_id },
                        ),
                    },
                    Ok(()),
                )
            },
        }
    }

    /// Fee adjustment by the owner to a value different from the stored
    /// one. Already-computed expirations are unaffected.
    pub open spec fn set_annual_fee(
        self,
        origin: Origin,
        club_id: ClubId,
        annual_fee: Balance,
    ) -> (StateView, Result<(), DispatchError>) {
        match origin {
            Origin::Unsigned => (self, Err(DispatchError::BadOrigin)),
            Origin::Signed(who) => if !self.club_exists(club_id) {
                (self, Err(DispatchError::Module(Error::NotFound)))
            } else if self.club(club_id).owner != who {
                (self, Err(DispatchError::Module(Error::NoPermission)))
            } else if self.club(club_id).annual_fee == annual_fee {
                (self, Err(DispatchError::Module(Error::SameFee)))
            } else {
                (
                    StateView {
                        clubs: self.clubs.update(
                            club_id as int - 1,
                            ClubView {
                                name: self.club(club_id).name,
                                owner: self.club(club_id).owner,
                                annual_fee,
                            },
                        ),
                        members: self.members,
                        events: self.events.push(
                            Event::AnnualFeeChanged { id: club_id, annual_fee },
                        ),
                    },
                    Ok(()),
                )
            },
        }
    }
}

} // verus!
