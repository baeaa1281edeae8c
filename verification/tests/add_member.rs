use pallet_clubs::auth::RootAccount;
use pallet_clubs::ledger::TestLedger;
use pallet_clubs::pallet::Pallet;
use pallet_clubs::types::{Config, DispatchError, Error, Event, Origin};

const ALICE: u64 = 1;
const BOB: u64 = 2;
const DAVE: u64 = 3;
const DEFAULT_CLUB_ID: u32 = 1;

fn fixture() -> (Pallet, TestLedger, RootAccount) {
    let config = Config {
        max_name_length: 255,
        max_subscription_length: 100,
        blocks_per_year: 100,
        club_creation_fee: 10,
    };
    let pallet = Pallet::new(config);
    let mut ledger = TestLedger::new(1);
    ledger.make_free_balance_be(ALICE, 1000);
    ledger.make_free_balance_be(BOB, 1000);
    (pallet, ledger, RootAccount { root: ALICE })
}

fn with_default_club() -> (Pallet, TestLedger, RootAccount) {
    let (mut pallet, mut ledger, auth) = fixture();
    pallet
        .create_club(&auth, &mut ledger, Origin::Signed(ALICE), [0_u8, 1].to_vec(), BOB)
        .unwrap();
    (pallet, ledger, auth)
}

fn with_default_member() -> (Pallet, TestLedger, RootAccount) {
    let (mut pallet, ledger, auth) = with_default_club();
    pallet.add_member(Origin::Signed(BOB), DEFAULT_CLUB_ID, DAVE).unwrap();
    (pallet, ledger, auth)
}

#[test]
fn add_member_happy_path() {
    let (mut pallet, _ledger, _auth) = with_default_club();

    let member_id = DAVE;
    assert_eq!(
        pallet.add_member(Origin::Signed(BOB), DEFAULT_CLUB_ID, member_id),
        Ok(())
    );

    let member = pallet.members(DEFAULT_CLUB_ID, member_id).unwrap();
    assert_eq!(member.expires_at, 0);

    assert_eq!(
        pallet.last_event(),
        Some(Event::MemberAdded { id: DEFAULT_CLUB_ID, member_id })
    );
}

#[test]
fn add_member_bad_origin() {
    let (mut pallet, _ledger, _auth) = with_default_club();

    assert_eq!(
        pallet.add_member(Origin::Unsigned, DEFAULT_CLUB_ID, DAVE),
        Err(DispatchError::BadOrigin)
    );
}

#[test]
fn add_member_no_club() {
    let (mut pallet, _ledger, _auth) = fixture();

    assert_eq!(
        pallet.add_member(Origin::Signed(BOB), DEFAULT_CLUB_ID, DAVE),
        Err(DispatchError::Module(Error::NotFound))
    );
}

#[test]
fn add_member_not_an_owner() {
    let (mut pallet, _ledger, _auth) = with_default_club();

    assert_eq!(
        pallet.add_member(Origin::Signed(DAVE), DEFAULT_CLUB_ID, DAVE),
        Err(DispatchError::Module(Error::NoPermission))
    );
}

#[test]
fn member_already_exists() {
    let (mut pallet, _ledger, _auth) = with_default_member();

    assert_eq!(
        pallet.add_member(Origin::Signed(BOB), DEFAULT_CLUB_ID, DAVE),
        Err(DispatchError::Module(Error::AlreadyExists))
    );
    // The stored record is untouched.
    assert_eq!(pallet.members(DEFAULT_CLUB_ID, DAVE).unwrap().expires_at, 0);
}
