//! The executable engine. A [`Pallet`] owns the persisted records and
//! offers the five operations; each is proved to perform exactly the
//! matching transition of [`StateView`].

use vstd::prelude::*;
use crate::assoc::{assoc_view, lemma_assoc_view_at, lemma_assoc_view_contains,
    lemma_assoc_view_push, lemma_assoc_view_update, lemma_unique_keys_push,
    lemma_unique_keys_update, unique_keys};
use crate::ledger::{withdraw_outcome, Ledger};
use crate::auth::Authorizer;
use crate::state::{saturating_mul_u128, saturating_mul_u64, StateView};
use crate::types::{AccountId, Balance, BlockNumber, ClubDetails, ClubId, Config, DispatchError,
    Error, Event, MemberDetails, Origin};

verus! {

/// `a * b`, clamped to the numeric maximum.
fn mul_saturating_u64(a: u64, b: u64) -> (r: u64)
    ensures
        r == saturating_mul_u64(a, b),
{
    match a.checked_mul(b) {
        Some(x) => x,
        None => u64::MAX,
    }
}

/// `a * b`, clamped to the numeric maximum.
fn mul_saturating_u128(a: u128, b: u128) -> (r: u128)
    ensures
        r == saturating_mul_u128(a, b),
{
    match a.checked_mul(b) {
        Some(x) => x,
        None => u128::MAX,
    }
}

/// The club registry and membership ledger, as one engine over its
/// persistent store. The club with ID `i` sits at index `i - 1`; the
/// membership records carry their (club, account) key and are pairwise
/// distinct in it.
pub struct Pallet {
    config: Config,
    clubs: Vec<ClubDetails>,
    members: Vec<((ClubId, AccountId), MemberDetails)>,
    events: Vec<Event>,
}

impl View for Pallet {
    type V = StateView;

    closed spec fn view(&self) -> StateView {
        StateView {
            clubs: self.clubs@.map_values(|c: ClubDetails| c@),
            members: assoc_view(self.members@),
            events: self.events@,
        }
    }
}

impl Pallet {
    /// The constants this engine was configured with.
    pub closed spec fn spec_config(self) -> Config {
        self.config
    }

    /// The internal invariant: the ID space is respected, names are
    /// bounded, membership keys are distinct and point at live clubs,
    /// and a year is a positive number of clock ticks.
    pub closed spec fn well_formed(self) -> bool {
        &&& self.config.blocks_per_year >= 1
        &&& self.clubs@.len() <= ClubId::MAX as int
        &&& forall|i: int| 0 <= i < self.clubs@.len()
            ==> (#[trigger] self.clubs@[i]).name@.len() <= self.config.max_name_length
        &&& unique_keys(self.members@)
        &&& forall|i: int| 0 <= i < self.members@.len()
            ==> 1 <= (#[trigger] self.members@[i]).0.0
                && self.members@[i].0.0 as int <= self.clubs@.len()
    }

    /// A fresh engine with no clubs, no members and no events.
    pub fn new(config: Config) -> (r: Pallet)
        requires
            config.blocks_per_year >= 1,
        ensures
            r.well_formed(),
            r.spec_config() == config,
            r@.clubs == Seq::<crate::types::ClubView>::empty(),
            r@.members == Map::<(ClubId, AccountId), MemberDetails>::empty(),
            r@.events == Seq::<Event>::empty(),
    {
        let r = Pallet { config, clubs: Vec::new(), members: Vec::new(), events: Vec::new() };
        proof {
            assert(r@.clubs =~= Seq::<crate::types::ClubView>::empty());
            assert(r@.members =~= Map::<(ClubId, AccountId), MemberDetails>::empty());
        }
        r
    }

    /// The configuration.
    pub fn config(&self) -> (r: Config)
        ensures
            r == self.spec_config(),
    {
        self.config
    }

    /// The number of clubs; the next club created gets ID `count + 1`.
    pub fn count(&self) -> (r: u32)
        requires
            self.well_formed(),
        ensures
            r as int == self@.club_count(),
    {
        self.clubs.len() as u32
    }

    /// The club record stored for `club_id`, if any.
    pub fn clubs(&self, club_id: ClubId) -> (r: Option<&ClubDetails>)
        ensures
            match r {
                Some(c) => self@.club_exists(club_id) && c@ == self@.club(club_id),
                None => !self@.club_exists(club_id),
            },
    {
        if 1 <= club_id && (club_id as usize) <= self.clubs.len() {
            Some(&self.clubs[(club_id - 1) as usize])
        } else {
            None
        }
    }

    /// The membership record stored for (`club_id`, `member_id`), if any.
    pub fn members(&self, club_id: ClubId, member_id: AccountId) -> (r: Option<MemberDetails>)
        requires
            self.well_formed(),
        ensures
            r == if self@.members.contains_key((club_id, member_id)) {
                Some(self@.members[(club_id, member_id)])
            } else {
                None::<MemberDetails>
            },
    {
        match self.find_member(club_id, member_id) {
            Some(i) => Some(self.members[i].1),
            None => None,
        }
    }

    /// The event emitted by the most recent successful operation.
    pub fn last_event(&self) -> (r: Option<Event>)
        ensures
            r == if self@.events.len() == 0 {
                None::<Event>
            } else {
                Some(self@.events.last())
            },
    {
        if self.events.len() == 0 {
            None
        } else {
            Some(self.events[self.events.len() - 1])
        }
    }

    /// Creates a club with the given name for `owner`, assigning the next
    /// sequential ID. The origin must be signed by an account the
    /// authorizer accepts; that signer — not the owner — pays the
    /// club-creation fee, and the club starts with an annual fee of zero.
    /// Nothing is stored unless the withdrawal succeeds.
    pub fn create_club<A: Authorizer, L: Ledger>(
        &mut self,
        auth: &A,
        ledger: &mut L,
        origin: Origin,
        name: Vec<u8>,
        owner: AccountId,
    ) -> (r: Result<ClubId, DispatchError>)
        requires
            old(self).well_formed(),
            name@.len() <= old(self).spec_config().max_name_length,
        ensures
            final(self).well_formed(),
            final(self).spec_config() == old(self).spec_config(),
            final(ledger).minimum_balance() == old(ledger).minimum_balance(),
            (match origin {
                Origin::Signed(who) => (final(self)@, r) == old(self)@.create_club(
                    origin,
                    auth.is_privileged(who),
                    name@,
                    owner,
                    withdraw_outcome(
                        old(ledger).balance_of(who),
                        old(ledger).minimum_balance(),
                        old(self).spec_config().club_creation_fee,
                    ),
                ),
                Origin::Unsigned => final(self)@ == old(self)@
                    && r == Err::<ClubId, DispatchError>(DispatchError::BadOrigin),
            }),
            r is Err ==> forall|a: AccountId|
                final(ledger).balance_of(a) == old(ledger).balance_of(a),
            (match origin {
                Origin::Signed(who) => r is Ok ==> final(ledger).balance_of(who)
                    == old(ledger).balance_of(who) - old(self).spec_config().club_creation_fee
                    && (forall|a: AccountId| a != who
                        ==> final(ledger).balance_of(a) == old(ledger).balance_of(a)),
                Origin::Unsigned => true,
            }),
    {
        let ghost name_view = name@;
        let who = match origin {
            Origin::Signed(w) => w,
            Origin::Unsigned => {
                return Err(DispatchError::BadOrigin);
            },
        };
        if !auth.check_privileged(who) {
            return Err(DispatchError::BadOrigin);
        }
        if self.clubs.len() >= ClubId::MAX as usize {
            return Err(DispatchError::Module(Error::ClubIdOverflow));
        }
        match ledger.withdraw(who, self.config.club_creation_fee) {
            Err(e) => {
                return Err(DispatchError::Funds(e));
            },
            Ok(()) => {},
        }
        let next_id = self.clubs.len() as u32 + 1;
        self.clubs.push(ClubDetails { name, owner, annual_fee: 0 });
        self.events.push(Event::ClubCreated { id: next_id, owner });
        proof {
            let s2 = old(self)@.create_club(
                origin,
                true,
                name_view,
                owner,
                Ok(()),
            );
            assert(self@.clubs =~= s2.0.clubs);
            assert(self@ =~~= s2.0);
        }
        Ok(next_id)
    }

    /// Adds `member_id` to the club's membership ledger. The origin must
    /// be signed by the club owner, the club must exist, and the account
    /// must not already be a member. The fresh membership is expired
    /// (`expires_at = 0`) until its first renewal; no fee is charged.
    pub fn add_member(
        &mut self,
        origin: Origin,
        club_id: ClubId,
        member_id: AccountId,
    ) -> (r: Result<(), DispatchError>)
        requires
            old(self).well_formed(),
        ensures
            final(self).well_formed(),
            final(self).spec_config() == old(self).spec_config(),
            (final(self)@, r) == old(self)@.add_member(origin, club_id, member_id),
    {
        let who = match origin {
            Origin::Signed(w) => w,
            Origin::Unsigned => {
                return Err(DispatchError::BadOrigin);
            },
        };
        let owner = match self.clubs(club_id) {
            Some(c) => c.owner,
            None => {
                return Err(DispatchError::Module(Error::NotFound));
            },
        };
        if owner != who {
            return Err(DispatchError::Module(Error::NoPermission));
        }
        match self.find_member(club_id, member_id) {
            Some(_) => {
                return Err(DispatchError::Module(Error::AlreadyExists));
            },
            None => {},
        }
        proof {
            let key = (club_id, member_id);
            let fresh = MemberDetails { expires_at: 0 };
            lemma_assoc_view_contains(self.members@, key);
            lemma_unique_keys_push(self.members@, key, fresh);
            lemma_assoc_view_push(self.members@, key, fresh);
        }
        self.members.push(((club_id, member_id), MemberDetails { expires_at: 0 }));
        self.events.push(Event::MemberAdded { id: club_id, member_id });
        proof {
            let s2 = old(self)@.add_member(origin, club_id, member_id);
            assert(self@ =~~= s2.0);
        }
        Ok(())
    }

    /// Transfers the club to `owner_id`. The origin must be signed by the
    /// current owner, and the new owner must be a different account. The
    /// name, the annual fee and every membership record — including one
    /// the new owner may hold — are untouched.
    pub fn transfer_ownership(
        &mut self,
        origin: Origin,
        club_id: ClubId,
        owner_id: AccountId,
    ) -> (r: Result<(), DispatchError>)
        requires
            old(self).well_formed(),
        ensures
            final(self).well_formed(),
            final(self).spec_config() == old(self).spec_config(),
            (final(self)@, r) == old(self)@.transfer_ownership(origin, club_id, owner_id),
    {
        let who = match origin {
            Origin::Signed(w) => w,
            Origin::Unsigned => {
                return Err(DispatchError::BadOrigin);
            },
        };
        if who == owner_id {
            return Err(DispatchError::Module(Error::SameOwner));
        }
        if !(1 <= club_id && (club_id as usize) <= self.clubs.len()) {
            return Err(DispatchError::Module(Error::NotFound));
        }
        let i = (club_id - 1) as usize;
        if self.clubs[i].owner != who {
            return Err(DispatchError::Module(Error::NoPermission));
        }
        let club = vstd::std_specs::vec::vec_index_mut(&mut self.clubs, i);
        club.owner = owner_id;
        self.events.push(Event::OwnershipTransferred { id: club_id, owner: owner_id });
        proof {
            let s2 = old(self)@.transfer_ownership(origin, club_id, owner_id);
            assert(self@.clubs =~= s2.0.clubs);
            assert(self@ =~~= s2.0);
        }
        Ok(())
    }

    /// Sets the club's annual fee. The origin must be signed by the club
    /// owner and the fee must differ from the stored one. Memberships
    /// already paid for are not affected.
    pub fn set_annual_fee(
        &mut self,
        origin: Origin,
        club_id: ClubId,
        annual_fee: Balance,
    ) -> (r: Result<(), DispatchError>)
        requires
            old(self).well_formed(),
        ensures
            final(self).well_formed(),
            final(self).spec_config() == old(self).spec_config(),
            (final(self)@, r) == old(self)@.set_annual_fee(origin, club_id, annual_fee),
    {
        let who = match origin {
            Origin::Signed(w) => w,
            Origin::Unsigned => {
                return Err(DispatchError::BadOrigin);
            },
        };
        if !(1 <= club_id && (club_id as usize) <= self.clubs.len()) {
            return Err(DispatchError::Module(Error::NotFound));
        }
        let i = (club_id - 1) as usize;
        if self.clubs[i].owner != who {
            return Err(DispatchError::Module(Error::NoPermission));
        }
        if self.clubs[i].annual_fee == annual_fee {
            return Err(DispatchError::Module(Error::SameFee));
        }
        let club = vstd::std_specs::vec::vec_index_mut(&mut self.clubs, i);
        club.annual_fee = annual_fee;
        self.events.push(Event::AnnualFeeChanged { id: club_id, annual_fee });
        proof {
            let s2 = old(self)@.set_annual_fee(origin, club_id, annual_fee);
            assert(self@.clubs =~= s2.0.clubs);
            assert(self@ =~~= s2.0);
        }
        Ok(())
    }

    /// Extends the signer's membership in the club by `years`. A lapsed
    /// subscription restarts at `now`; an active one keeps its unused
    /// remainder, and the remaining whole years plus the request must
    /// stay within the configured maximum. The fee is the club's annual
    /// fee times `years`, withdrawn from the signer; the stored
    /// expiration moves only if that withdrawal succeeds.
    pub fn extend_membership<L: Ledger>(
        &mut self,
        ledger: &mut L,
        origin: Origin,
        club_id: ClubId,
        years: u16,
        now: BlockNumber,
    ) -> (r: Result<(), DispatchError>)
        requires
            old(self).well_formed(),
        ensures
            final(self).well_formed(),
            final(self).spec_config() == old(self).spec_config(),
            final(ledger).minimum_balance() == old(ledger).minimum_balance(),
            (match origin {
                Origin::Signed(who) => (final(self)@, r) == old(self)@.extend_membership(
                    old(self).spec_config(),
                    origin,
                    club_id,
                    years,
                    now,
                    old(ledger).balance_of(who),
                    old(ledger).minimum_balance(),
                ),
                Origin::Unsigned => final(self)@ == old(self)@
                    && r == Err::<(), DispatchError>(DispatchError::BadOrigin),
            }),
            r is Err ==> forall|a: AccountId|
                final(ledger).balance_of(a) == old(ledger).balance_of(a),
            (match origin {
                Origin::Signed(who) => r is Ok ==> ({
                    let amount = saturating_mul_u128(
                        old(self)@.club(club_id).annual_fee,
                        years as u128,
                    );
                    final(ledger).balance_of(who) == old(ledger).balance_of(who) - amount
                        && (forall|a: AccountId| a != who
                            ==> final(ledger).balance_of(a) == old(ledger).balance_of(a))
                }),
                Origin::Unsigned => true,
            }),
    {
        let who = match origin {
            Origin::Signed(w) => w,
            Origin::Unsigned => {
                return Err(DispatchError::BadOrigin);
            },
        };
        if years > self.config.max_subscription_length {
            return Err(DispatchError::Module(Error::SubscriptionTooLong));
        }
        let idx = match self.find_member(club_id, who) {
            Some(i) => i,
            None => {
                return Err(DispatchError::Module(Error::NotFound));
            },
        };
        let expires_at = self.members[idx].1.expires_at;
        let blocks_per_year = self.config.blocks_per_year;
        let base: u64;
        if expires_at < now {
            base = now;
        } else {
            let current_len = (expires_at - now) / blocks_per_year;
            if current_len as u128 + years as u128 > self.config.max_subscription_length as u128 {
                return Err(DispatchError::Module(Error::SubscriptionTooLong));
            }
            base = expires_at;
        }
        let new_expires = base.saturating_add(mul_saturating_u64(blocks_per_year, years as u64));
        proof {
            assert(self.members@[idx as int].0.0 == club_id);
            assert(1 <= club_id && club_id as int <= self.clubs@.len());
        }
        let annual_fee = self.clubs[(club_id - 1) as usize].annual_fee;
        let amount = mul_saturating_u128(annual_fee, years as u128);
        match ledger.withdraw(who, amount) {
            Err(e) => {
                return Err(DispatchError::Funds(e));
            },
            Ok(()) => {},
        }
        proof {
            let key = (club_id, who);
            let renewed = MemberDetails { expires_at: new_expires };
            lemma_unique_keys_update(self.members@, idx as int, key, renewed);
            lemma_assoc_view_update(self.members@, idx as int, key, renewed);
        }
        self.members.set(idx, ((club_id, who), MemberDetails { expires_at: new_expires }));
        self.events.push(
            Event::MembershipExtended { id: club_id, member_id: who, expires_at: new_expires },
        );
        proof {
            let s2 = old(self)@.extend_membership(
                self.config,
                origin,
                club_id,
                years,
                now,
                old(ledger).balance_of(who),
                old(ledger).minimum_balance(),
            );
            assert(self@ =~~= s2.0);
        }
        Ok(())
    }

    /// The index of the membership record for the given key, if any.
    fn find_member(&self, club_id: ClubId, member_id: AccountId) -> (r: Option<usize>)
        requires
            self.well_formed(),
        ensures
            match r {
                Some(i) => i < self.members@.len()
                    && self.members@[i as int].0 == (club_id, member_id)
                    && self@.members.contains_key((club_id, member_id))
                    && self@.members[(club_id, member_id)] == self.members@[i as int].1,
                None => !self@.members.contains_key((club_id, member_id)),
            },
    {
        let mut i: usize = 0;
        while i < self.members.len()
            invariant
                i <= self.members@.len(),
                unique_keys(self.members@),
                forall|j: int| 0 <= j < i
                    ==> (#[trigger] self.members@[j]).0 != (club_id, member_id),
            decreases self.members@.len() - i,
        {
            if self.members[i].0.0 == club_id && self.members[i].0.1 == member_id {
                proof {
                    lemma_assoc_view_at(self.members@, i as int);
                }
                return Some(i);
            }
            i = i + 1;
        }
        proof {
            lemma_assoc_view_contains(self.members@, (club_id, member_id));
        }
        None
    }
}

} // verus!
