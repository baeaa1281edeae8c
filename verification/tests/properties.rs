use pallet_clubs::auth::RootAccount;
use pallet_clubs::ledger::TestLedger;
use pallet_clubs::pallet::Pallet;
use pallet_clubs::types::{Config, DispatchError, Error, LedgerError, Origin};

const ALICE: u64 = 1;
const BOB: u64 = 2;
const DAVE: u64 = 3;
const DEFAULT_CLUB_ID: u32 = 1;

fn fixture_with(config: Config) -> (Pallet, TestLedger, RootAccount) {
    let pallet = Pallet::new(config);
    let mut ledger = TestLedger::new(1);
    ledger.make_free_balance_be(ALICE, 1000);
    ledger.make_free_balance_be(BOB, 1000);
    (pallet, ledger, RootAccount { root: ALICE })
}

fn fixture() -> (Pallet, TestLedger, RootAccount) {
    fixture_with(Config {
        max_name_length: 255,
        max_subscription_length: 100,
        blocks_per_year: 100,
        club_creation_fee: 10,
    })
}

fn with_default_member(
    (mut pallet, mut ledger, auth): (Pallet, TestLedger, RootAccount),
) -> (Pallet, TestLedger, RootAccount) {
    pallet
        .create_club(&auth, &mut ledger, Origin::Signed(ALICE), [0_u8, 1].to_vec(), BOB)
        .unwrap();
    pallet.add_member(Origin::Signed(BOB), DEFAULT_CLUB_ID, DAVE).unwrap();
    (pallet, ledger, auth)
}

#[test]
fn sequential_club_ids() {
    let (mut pallet, mut ledger, auth) = fixture();

    for expected in 1..=3_u32 {
        assert_eq!(
            pallet.create_club(&auth, &mut ledger, Origin::Signed(ALICE), Vec::new(), BOB),
            Ok(expected)
        );
        assert_eq!(pallet.count(), expected);
    }
}

#[test]
fn renewal_arithmetic() {
    // A lapsed membership restarts at the clock; an active one keeps its
    // unused remainder.
    let (mut pallet, mut ledger, _auth) = with_default_member(fixture());

    assert_eq!(
        pallet.extend_membership(&mut ledger, Origin::Signed(DAVE), DEFAULT_CLUB_ID, 1, 0),
        Ok(())
    );
    assert_eq!(pallet.members(DEFAULT_CLUB_ID, DAVE).unwrap().expires_at, 100);

    assert_eq!(
        pallet.extend_membership(&mut ledger, Origin::Signed(DAVE), DEFAULT_CLUB_ID, 1, 50),
        Ok(())
    );
    assert_eq!(pallet.members(DEFAULT_CLUB_ID, DAVE).unwrap().expires_at, 200);
}

#[test]
fn renewal_restarts_after_lapse() {
    // No credit is kept for time spent lapsed: renewing at clock 250
    // with one year bought ends at 350, not at 200.
    let (mut pallet, mut ledger, _auth) = with_default_member(fixture());

    pallet
        .extend_membership(&mut ledger, Origin::Signed(DAVE), DEFAULT_CLUB_ID, 1, 0)
        .unwrap();
    assert_eq!(pallet.members(DEFAULT_CLUB_ID, DAVE).unwrap().expires_at, 100);

    assert_eq!(
        pallet.extend_membership(&mut ledger, Origin::Signed(DAVE), DEFAULT_CLUB_ID, 1, 250),
        Ok(())
    );
    assert_eq!(pallet.members(DEFAULT_CLUB_ID, DAVE).unwrap().expires_at, 350);
}

#[test]
fn cumulative_cap_boundary() {
    // With 99 years still covered, two more are refused but one is fine.
    let (mut pallet, mut ledger, _auth) = with_default_member(fixture());

    assert_eq!(
        pallet.extend_membership(&mut ledger, Origin::Signed(DAVE), DEFAULT_CLUB_ID, 99, 0),
        Ok(())
    );
    assert_eq!(pallet.members(DEFAULT_CLUB_ID, DAVE).unwrap().expires_at, 9900);

    assert_eq!(
        pallet.extend_membership(&mut ledger, Origin::Signed(DAVE), DEFAULT_CLUB_ID, 2, 0),
        Err(DispatchError::Module(Error::SubscriptionTooLong))
    );
    assert_eq!(pallet.members(DEFAULT_CLUB_ID, DAVE).unwrap().expires_at, 9900);

    assert_eq!(
        pallet.extend_membership(&mut ledger, Origin::Signed(DAVE), DEFAULT_CLUB_ID, 1, 0),
        Ok(())
    );
    assert_eq!(pallet.members(DEFAULT_CLUB_ID, DAVE).unwrap().expires_at, 10000);
}

#[test]
fn renewal_is_fee_atomic() {
    // A refused withdrawal leaves the stored expiration untouched; the
    // same request succeeds once the account is funded.
    let (mut pallet, mut ledger, _auth) = with_default_member(fixture());
    pallet.set_annual_fee(Origin::Signed(BOB), DEFAULT_CLUB_ID, 10).unwrap();

    ledger.make_free_balance_be(DAVE, 5);
    assert_eq!(
        pallet.extend_membership(&mut ledger, Origin::Signed(DAVE), DEFAULT_CLUB_ID, 1, 0),
        Err(DispatchError::Funds(LedgerError::InsufficientBalance))
    );
    assert_eq!(pallet.members(DEFAULT_CLUB_ID, DAVE).unwrap().expires_at, 0);
    assert_eq!(ledger.free_balance(DAVE), 5);

    ledger.make_free_balance_be(DAVE, 100);
    assert_eq!(
        pallet.extend_membership(&mut ledger, Origin::Signed(DAVE), DEFAULT_CLUB_ID, 1, 0),
        Ok(())
    );
    assert_eq!(pallet.members(DEFAULT_CLUB_ID, DAVE).unwrap().expires_at, 100);
    assert_eq!(ledger.free_balance(DAVE), 90);
}

#[test]
fn renewal_at_exact_keep_alive_boundary() {
    // The fee plus the minimum balance is exactly covered: the renewal
    // goes through and leaves the account at the minimum.
    let (mut pallet, mut ledger, _auth) = with_default_member(fixture());
    pallet.set_annual_fee(Origin::Signed(BOB), DEFAULT_CLUB_ID, 10).unwrap();

    ledger.make_free_balance_be(DAVE, 11);
    assert_eq!(
        pallet.extend_membership(&mut ledger, Origin::Signed(DAVE), DEFAULT_CLUB_ID, 1, 0),
        Ok(())
    );
    assert_eq!(ledger.free_balance(DAVE), 1);
}

#[test]
fn renewal_with_zero_fee_needs_no_funds() {
    // Dave holds no balance at all, but the club's fee is zero.
    let (mut pallet, mut ledger, _auth) = with_default_member(fixture());

    assert_eq!(ledger.free_balance(DAVE), 0);
    assert_eq!(
        pallet.extend_membership(&mut ledger, Origin::Signed(DAVE), DEFAULT_CLUB_ID, 3, 0),
        Ok(())
    );
    assert_eq!(pallet.members(DEFAULT_CLUB_ID, DAVE).unwrap().expires_at, 300);
}

#[test]
fn expiration_saturates_instead_of_wrapping() {
    // A year of u64::MAX clocks bought twice clamps the expiration to the
    // numeric maximum rather than wrapping or failing.
    let (mut pallet, mut ledger, _auth) = with_default_member(fixture_with(Config {
        max_name_length: 255,
        max_subscription_length: 100,
        blocks_per_year: u64::MAX,
        club_creation_fee: 10,
    }));

    assert_eq!(
        pallet.extend_membership(&mut ledger, Origin::Signed(DAVE), DEFAULT_CLUB_ID, 2, 0),
        Ok(())
    );
    assert_eq!(
        pallet.members(DEFAULT_CLUB_ID, DAVE).unwrap().expires_at,
        u64::MAX
    );
}

#[test]
fn fee_computation_saturates() {
    // The annual fee times the years requested clamps to the numeric
    // maximum, which no balance covers while the minimum stays positive.
    let (mut pallet, mut ledger, _auth) = with_default_member(fixture());
    pallet
        .set_annual_fee(Origin::Signed(BOB), DEFAULT_CLUB_ID, u128::MAX)
        .unwrap();

    ledger.make_free_balance_be(DAVE, u128::MAX);
    assert_eq!(
        pallet.extend_membership(&mut ledger, Origin::Signed(DAVE), DEFAULT_CLUB_ID, 2, 0),
        Err(DispatchError::Funds(LedgerError::KeepAlive))
    );
}
