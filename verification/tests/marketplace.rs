use bountify::Bountify;
use bountify::Error;
use bountify::Transfer;

const ASKER: u128 = 1;
const BIDDER_X: u128 = 2;
const BIDDER_Y: u128 = 3;
const STRANGER: u128 = 9;

fn hash(s: &str) -> String {
    s.to_string()
}

#[test]
fn bounty_counter_works() {
    let mut bountify = Bountify::default();
    assert_eq!(bountify.get_and_increment_bounty_counter(), 0);
    assert_eq!(bountify.get_and_increment_bounty_counter(), 1);
    assert_eq!(bountify.get_and_increment_bounty_counter(), 2);
}

#[test]
fn create_commission_requires_exact_stake() {
    let mut m = Bountify::new();
    let r = m.create_bounty(hash("task"), Some(100), ASKER, 40);
    assert_eq!(r, Err(Error::StakeMismatch));
    assert!(m.get_bounties().is_empty());

    let r = m.create_bounty(hash("task"), Some(100), ASKER, 100);
    assert_eq!(r, Ok(()));
    let all = m.get_bounties();
    assert_eq!(all.len(), 1);
    assert_eq!(all[0].id, 0);
    assert_eq!(all[0].ask.doer, ASKER);
    assert_eq!(all[0].ask.amount, Some(100));
    assert!(all[0].current_bid.is_none());
}

#[test]
fn create_auction_takes_no_stake() {
    let mut m = Bountify::new();
    assert_eq!(m.create_bounty(hash("sale"), None, ASKER, 0), Ok(()));
    let all = m.get_bounties();
    assert_eq!(all.len(), 1);
    assert_eq!(all[0].ask.amount, None);
}

#[test]
fn bid_on_unknown_bounty_is_not_found() {
    let mut m = Bountify::new();
    assert_eq!(m.check_bid(5, None, 0), Err(Error::NotFound));
    let r = m.bid_for_bounty(5, hash("offer"), None, BIDDER_X, 0);
    assert_eq!(r.err(), Some(Error::NotFound));
}

#[test]
fn bid_shape_must_match_mode() {
    let mut m = Bountify::new();
    m.create_bounty(hash("task"), Some(100), ASKER, 100).unwrap();
    m.create_bounty(hash("sale"), None, ASKER, 0).unwrap();

    // A staked bid against a commission-mode bounty is malformed.
    assert_eq!(m.check_bid(0, Some(10), 10), Err(Error::InvalidBidShape));
    let r = m.bid_for_bounty(0, hash("offer"), Some(10), BIDDER_X, 10);
    assert_eq!(r.err(), Some(Error::InvalidBidShape));

    // A stakeless bid against an auction-mode bounty is malformed.
    assert_eq!(m.check_bid(1, None, 0), Err(Error::InvalidBidShape));
    let r = m.bid_for_bounty(1, hash("offer"), None, BIDDER_X, 0);
    assert_eq!(r.err(), Some(Error::InvalidBidShape));
}

#[test]
fn auction_bid_must_stake_declared_amount() {
    let mut m = Bountify::new();
    m.create_bounty(hash("sale"), None, ASKER, 0).unwrap();
    assert_eq!(m.check_bid(0, Some(50), 30), Err(Error::StakeMismatch));
    let r = m.bid_for_bounty(0, hash("offer"), Some(50), BIDDER_X, 30);
    assert_eq!(r.err(), Some(Error::StakeMismatch));
    assert!(m.get_bounties()[0].current_bid.is_none());
}

#[test]
fn auction_outbid_refunds_previous_stake() {
    let mut m = Bountify::new();
    m.create_bounty(hash("sale"), None, ASKER, 0).unwrap();

    // First bid needs no refund.
    assert_eq!(m.check_bid(0, Some(50), 50), Ok(None));
    let ev = m.bid_for_bounty(0, hash("b1"), Some(50), BIDDER_X, 50).unwrap();
    assert_eq!(ev.id, 0);
    assert_eq!(ev.bidder, BIDDER_X);
    assert_eq!(ev.bid_amount, Some(50));
    assert_eq!(ev.bid_data, "b1");

    // An equal bid is too low; the state is unchanged.
    assert_eq!(m.check_bid(0, Some(50), 50), Err(Error::BidTooLow));
    let r = m.bid_for_bounty(0, hash("b2"), Some(50), BIDDER_Y, 50);
    assert_eq!(r.err(), Some(Error::BidTooLow));
    let cur = m.get_bounties()[0].current_bid.clone().unwrap();
    assert_eq!(cur.doer, BIDDER_X);
    assert_eq!(cur.amount, Some(50));

    // A strictly greater bid is accepted, and the whole previous stake is
    // owed back to the outbid bidder before the new bid is committed.
    assert_eq!(
        m.check_bid(0, Some(75), 75),
        Ok(Some(Transfer { to: BIDDER_X, amount: 50 }))
    );
    let ev = m.bid_for_bounty(0, hash("b3"), Some(75), BIDDER_Y, 75).unwrap();
    assert_eq!(ev.bidder, BIDDER_Y);
    assert_eq!(ev.bid_amount, Some(75));
    let cur = m.get_bounties()[0].current_bid.clone().unwrap();
    assert_eq!(cur.doer, BIDDER_Y);
    assert_eq!(cur.amount, Some(75));
}

#[test]
fn commission_settle_pays_chosen_bidder() {
    let mut m = Bountify::new();
    m.create_bounty(hash("task"), Some(50), ASKER, 50).unwrap();
    m.bid_for_bounty(0, hash("offer"), None, BIDDER_X, 0).unwrap();

    assert_eq!(
        m.check_settle(0, ASKER),
        Ok(Some(Transfer { to: BIDDER_X, amount: 50 }))
    );
    let ev = m.settle(0, ASKER).unwrap().unwrap();
    assert_eq!(ev.id, 0);
    assert_eq!(ev.asker, ASKER);
    assert_eq!(ev.bidder, BIDDER_X);
    assert_eq!(ev.amount, 50);
    assert!(m.get_bounties().is_empty());

    // The bounty is gone: a second settlement cannot find it.
    assert_eq!(m.settle(0, ASKER).err(), Some(Error::NotFound));
}

#[test]
fn auction_settle_pays_asker_not_bidder() {
    let mut m = Bountify::new();
    m.create_bounty(hash("sale"), None, ASKER, 0).unwrap();
    m.bid_for_bounty(0, hash("offer"), Some(75), BIDDER_Y, 75).unwrap();

    assert_eq!(
        m.check_settle(0, ASKER),
        Ok(Some(Transfer { to: ASKER, amount: 75 }))
    );
    let ev = m.settle(0, ASKER).unwrap().unwrap();
    assert_eq!(ev.bidder, BIDDER_Y);
    assert_eq!(ev.amount, 75);
    assert!(m.get_bounties().is_empty());
}

#[test]
fn only_asker_may_settle() {
    let mut m = Bountify::new();
    m.create_bounty(hash("task"), Some(50), ASKER, 50).unwrap();
    assert_eq!(m.check_settle(0, STRANGER), Err(Error::Unauthorized));
    assert_eq!(m.settle(0, STRANGER).err(), Some(Error::Unauthorized));
    assert_eq!(m.get_bounties().len(), 1);
}

#[test]
fn settle_without_bid_removes_quietly() {
    let mut m = Bountify::new();
    m.create_bounty(hash("task"), Some(50), ASKER, 50).unwrap();
    assert_eq!(m.check_settle(0, ASKER), Ok(None));
    // No transfer and no notification; the bounty is still removed.
    assert_eq!(m.settle(0, ASKER), Ok(None));
    assert!(m.get_bounties().is_empty());
}

#[test]
fn force_set_is_asker_only_and_commission_only() {
    let mut m = Bountify::new();
    m.create_bounty(hash("task"), Some(50), ASKER, 50).unwrap();
    m.create_bounty(hash("sale"), None, ASKER, 0).unwrap();

    assert_eq!(
        m.force_set_current_bid(0, BIDDER_X, hash("pick"), STRANGER),
        Err(Error::Unauthorized)
    );
    assert_eq!(
        m.force_set_current_bid(1, BIDDER_X, hash("pick"), ASKER),
        Err(Error::InvalidBidShape)
    );
    assert_eq!(
        m.force_set_current_bid(7, BIDDER_X, hash("pick"), ASKER),
        Err(Error::NotFound)
    );

    assert_eq!(m.force_set_current_bid(0, BIDDER_X, hash("pick"), ASKER), Ok(()));
    let picked = m.get_bounties_for_user(ASKER)[0].current_bid.clone().unwrap();
    assert_eq!(picked.doer, BIDDER_X);
    assert_eq!(picked.data, "pick");
    assert_eq!(picked.amount, None);
}

#[test]
fn settle_from_middle_keeps_other_ids() {
    let mut m = Bountify::new();
    m.create_bounty(hash("a"), Some(10), ASKER, 10).unwrap();
    m.create_bounty(hash("b"), Some(20), ASKER, 20).unwrap();
    m.create_bounty(hash("c"), Some(30), ASKER, 30).unwrap();

    assert_eq!(m.settle(1, ASKER), Ok(None));

    let mut ids: Vec<u32> = m.get_bounties().iter().map(|b| b.id).collect();
    ids.sort();
    assert_eq!(ids, vec![0, 2]);

    // The surviving records are intact under their own ids.
    for b in m.get_bounties() {
        assert_eq!(b.ask.doer, ASKER);
        if b.id == 0 {
            assert_eq!(b.ask.amount, Some(10));
        } else {
            assert_eq!(b.ask.amount, Some(30));
        }
    }
}

#[test]
fn ids_are_never_reused_after_removal() {
    let mut m = Bountify::new();
    m.create_bounty(hash("a"), None, ASKER, 0).unwrap();
    assert_eq!(m.settle(0, ASKER), Ok(None));
    m.create_bounty(hash("b"), None, ASKER, 0).unwrap();
    let all = m.get_bounties();
    assert_eq!(all.len(), 1);
    assert_eq!(all[0].id, 1);
}

#[test]
fn index_and_store_agree_across_operations() {
    let mut m = Bountify::new();
    m.create_bounty(hash("a"), Some(10), ASKER, 10).unwrap();
    m.create_bounty(hash("b"), None, ASKER, 0).unwrap();
    m.bid_for_bounty(1, hash("offer"), Some(5), BIDDER_X, 5).unwrap();
    m.create_bounty(hash("c"), Some(30), BIDDER_Y, 30).unwrap();
    m.settle(0, ASKER).unwrap();
    m.bid_for_bounty(1, hash("raise"), Some(8), BIDDER_Y, 8).unwrap();
    m.settle(1, ASKER).unwrap();
    m.create_bounty(hash("d"), None, BIDDER_X, 0).unwrap();

    // The enumeration lists each live bounty exactly once, under its own
    // id, and nothing else.
    let mut ids: Vec<u32> = m.get_bounties().iter().map(|b| b.id).collect();
    ids.sort();
    assert_eq!(ids, vec![2, 3]);
    assert_eq!(m.get_bounties_for_user(BIDDER_Y).len(), 1);
    assert_eq!(m.get_bounties_for_user(BIDDER_X).len(), 1);
    assert_eq!(m.get_bounties_for_user(ASKER).len(), 0);
}

#[test]
fn listing_filters_by_asker() {
    let mut m = Bountify::new();
    m.create_bounty(hash("a"), Some(10), ASKER, 10).unwrap();
    m.create_bounty(hash("b"), None, BIDDER_X, 0).unwrap();
    m.create_bounty(hash("c"), Some(30), ASKER, 30).unwrap();

    assert_eq!(m.get_bounties().len(), 3);
    let mine = m.get_bounties_for_user(ASKER);
    assert_eq!(mine.len(), 2);
    assert_eq!(mine[0].id, 0);
    assert_eq!(mine[1].id, 2);
    let theirs = m.get_bounties_for_user(BIDDER_X);
    assert_eq!(theirs.len(), 1);
    assert_eq!(theirs[0].id, 1);
    assert!(m.get_bounties_for_user(STRANGER).is_empty());
}
