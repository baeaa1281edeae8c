//! Registry-wide laws, proved once and for all over the transitions of
//! [`StateView`]. Each executable operation is pinned to its transition,
//! so these laws carry over to the engine.

use vstd::prelude::*;
use crate::state::StateView;
use crate::types::{AccountId, Balance, BlockNumber, ClubId, ClubView, Config, DispatchError,
    Error, Event, LedgerError, Origin};

verus! {

/// Law: club IDs form the strictly increasing sequence 1, 2, 3, …
/// A successful creation returns exactly `count + 1`, grows the count by
/// one, and stores the new record under that ID; a failed creation
/// leaves everything unchanged.
pub proof fn lemma_create_club_assigns_next_id(
    s: StateView,
    origin: Origin,
    privileged: bool,
    name: Seq<u8>,
    owner: AccountId,
    withdraw: Result<(), LedgerError>,
)
    ensures
        ({
            let (s2, r) = s.create_club(origin, privileged, name, owner, withdraw);
            &&& r is Ok ==> {
                let id = (s.club_count() + 1) as ClubId;
                &&& r == Ok::<ClubId, DispatchError>(id)
                &&& s2.club_count() == s.club_count() + 1
                &&& s2.club(id) == (ClubView { name, owner, annual_fee: 0 })
                &&& forall|other: ClubId| s.club_exists(other)
                    ==> #[trigger] s2.club(other) == s.club(other)
            }
            &&& r is Err ==> s2 == s
        }),
{
}

/// Law: no operation but club creation changes the club count, so IDs
/// stay sequential regardless of how calls interleave.
pub proof fn lemma_club_count_stable(
    s: StateView,
    cfg: Config,
    origin: Origin,
    club_id: ClubId,
    account: AccountId,
    years: u16,
    now: BlockNumber,
    free: Balance,
    minimum: Balance,
    fee: Balance,
)
    ensures
        s.add_member(origin, club_id, account).0.club_count() == s.club_count(),
        s.extend_membership(cfg, origin, club_id, years, now, free, minimum).0.club_count()
            == s.club_count(),
        s.transfer_ownership(origin, club_id, account).0.club_count() == s.club_count(),
        s.set_annual_fee(origin, club_id, fee).0.club_count() == s.club_count(),
{
}

/// Law: enrolling the same (club, account) twice in a row always fails
/// with `AlreadyExists` and never overwrites — the second call hands the
/// state back untouched.
pub proof fn lemma_add_member_never_overwrites(
    s: StateView,
    origin: Origin,
    club_id: ClubId,
    member_id: AccountId,
)
    requires
        s.add_member(origin, club_id, member_id).1 is Ok,
    ensures
        ({
            let s1 = s.add_member(origin, club_id, member_id).0;
            s1.add_member(origin, club_id, member_id) == (
                s1,
                Err::<(), DispatchError>(DispatchError::Module(Error::AlreadyExists)),
            )
        }),
{
}

/// Law: every operation is all-or-nothing. Whenever an operation fails —
/// a validation error or a refused withdrawal — the state it hands back
/// is the state it was given: in particular a membership renewal whose
/// fee withdrawal fails leaves the stored expiration untouched.
pub proof fn lemma_failed_operations_change_nothing(
    s: StateView,
    cfg: Config,
    origin: Origin,
    privileged: bool,
    name: Seq<u8>,
    club_id: ClubId,
    account: AccountId,
    years: u16,
    now: BlockNumber,
    free: Balance,
    minimum: Balance,
    fee: Balance,
    withdraw: Result<(), LedgerError>,
)
    ensures
        ({
            let (s2, r) = s.create_club(origin, privileged, name, account, withdraw);
            r is Err ==> s2 == s
        }),
        ({
            let (s2, r) = s.add_member(origin, club_id, account);
            r is Err ==> s2 == s
        }),
        ({
            let (s2, r) = s.extend_membership(cfg, origin, club_id, years, now, free, minimum);
            r is Err ==> s2 == s
        }),
        ({
            let (s2, r) = s.transfer_ownership(origin, club_id, account);
            r is Err ==> s2 == s
        }),
        ({
            let (s2, r) = s.set_annual_fee(origin, club_id, fee);
            r is Err ==> s2 == s
        }),
{
}

/// Law: transferring a club to its current owner always fails with
/// `SameOwner` — before any other check, whatever the state — while a
/// transfer by the owner of an existing club to a distinct account
/// always succeeds and changes nothing but the owner: the name, the
/// annual fee, every other club and every membership record are kept.
pub proof fn lemma_transfer_ownership_exact(
    s: StateView,
    club_id: ClubId,
    who: AccountId,
    owner_id: AccountId,
)
    ensures
        who == owner_id ==> s.transfer_ownership(Origin::Signed(who), club_id, owner_id) == (
            s,
            Err::<(), DispatchError>(DispatchError::Module(Error::SameOwner)),
        ),
        (who != owner_id && s.club_exists(club_id) && s.club(club_id).owner == who) ==> ({
            let (s2, r) = s.transfer_ownership(Origin::Signed(who), club_id, owner_id);
            &&& r == Ok::<(), DispatchError>(())
            &&& s2.club(club_id).owner == owner_id
            &&& s2.club(club_id).name == s.club(club_id).name
            &&& s2.club(club_id).annual_fee == s.club(club_id).annual_fee
            &&& s2.club_count() == s.club_count()
            &&& forall|other: ClubId| other != club_id && s.club_exists(other)
                ==> #[trigger] s2.club(other) == s.club(other)
            &&& s2.members == s.members
        }),
{
}

/// Law: setting a club's annual fee to the value already stored always
/// fails with `SameFee`, and the state is handed back untouched.
pub proof fn lemma_set_annual_fee_rejects_same_fee(s: StateView, club_id: ClubId, who: AccountId)
    ensures
        (s.club_exists(club_id) && s.club(club_id).owner == who) ==> s.set_annual_fee(
            Origin::Signed(who),
            club_id,
            s.club(club_id).annual_fee,
        ) == (s, Err::<(), DispatchError>(DispatchError::Module(Error::SameFee))),
{
}

/// Law: every successful operation emits exactly one event, carrying the
/// affected IDs and the changed values; a failed operation emits none
/// (that much is part of `lemma_failed_operations_change_nothing`).
pub proof fn lemma_one_event_per_success(
    s: StateView,
    cfg: Config,
    origin: Origin,
    privileged: bool,
    name: Seq<u8>,
    club_id: ClubId,
    who: AccountId,
    account: AccountId,
    years: u16,
    now: BlockNumber,
    free: Balance,
    minimum: Balance,
    fee: Balance,
    withdraw: Result<(), LedgerError>,
)
    ensures
        ({
            let (s2, r) = s.create_club(origin, privileged, name, account, withdraw);
            r is Ok ==> s2.events == s.events.push(
                Event::ClubCreated { id: (s.club_count() + 1) as ClubId, owner: account },
            )
        }),
        ({
            let (s2, r) = s.add_member(origin, club_id, account);
            r is Ok ==> s2.events == s.events.push(
                Event::MemberAdded { id: club_id, member_id: account },
            )
        }),
        ({
            let (s2, r) = s.extend_membership(
                cfg,
                Origin::Signed(who),
                club_id,
                years,
                now,
                free,
                minimum,
            );
            r is Ok ==> s2.events == s.events.push(
                Event::MembershipExtended {
                    id: club_id,
                    member_id: who,
                    expires_at: s2.members[(club_id, who)].expires_at,
                },
            )
        }),
        ({
            let (s2, r) = s.transfer_ownership(origin, club_id, account);
            r is Ok ==> s2.events == s.events.push(
                Event::OwnershipTransferred { id: club_id, owner: account },
            )
        }),
        ({
            let (s2, r) = s.set_annual_fee(origin, club_id, fee);
            r is Ok ==> s2.events == s.events.push(
                Event::AnnualFeeChanged { id: club_id, annual_fee: fee },
            )
        }),
{
}

/// Every membership record points at a club that exists.
pub open spec fn members_have_clubs(s: StateView) -> bool {
    forall|k: (ClubId, AccountId)| s.members.contains_key(k) ==> s.club_exists(#[trigger] k.0)
}

/// Law: no operation creates an orphaned membership. Clubs are never
/// deleted, so once every membership points at a live club, every
/// transition keeps it that way.
pub proof fn lemma_no_orphaned_memberships(
    s: StateView,
    cfg: Config,
    origin: Origin,
    privileged: bool,
    name: Seq<u8>,
    club_id: ClubId,
    account: AccountId,
    years: u16,
    now: BlockNumber,
    free: Balance,
    minimum: Balance,
    fee: Balance,
    withdraw: Result<(), LedgerError>,
)
    requires
        members_have_clubs(s),
    ensures
        members_have_clubs(s.create_club(origin, privileged, name, account, withdraw).0),
        members_have_clubs(s.add_member(origin, club_id, account).0),
        members_have_clubs(s.extend_membership(cfg, origin, club_id, years, now, free, minimum).0),
        members_have_clubs(s.transfer_ownership(origin, club_id, account).0),
        members_have_clubs(s.set_annual_fee(origin, club_id, fee).0),
{
}

} // verus!
