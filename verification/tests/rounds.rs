use pallet_funding::types::{
    AuctionPhase, Error, Event, ParticipantsSize, Project, ProjectStatus, TicketSize,
};
use pallet_funding::pallet::Pallet;

const ALICE: u64 = 1;
const BOB: u64 = 2;
const CHARLIE: u64 = 3;

fn default_project() -> Project {
    Project {
        minimum_price: 1,
        ticket_size: TicketSize { minimum: Some(1), maximum: None },
        participants_size: ParticipantsSize { minimum: Some(2), maximum: None },
        ..Default::default()
    }
}

fn new_test_ext() -> Pallet {
    let mut m = Pallet::new();
    m.set_plmc_balance(ALICE, 512);
    m.set_plmc_balance(BOB, 512);
    m.set_plmc_balance(CHARLIE, 512);
    m.set_asset_balance(ALICE, 1984, 1_000_000_000);
    m.set_asset_balance(BOB, 1984, 1_000_000_000);
    m.set_asset_balance(CHARLIE, 1984, 1_000_000_000);
    m.set_price(2069, 400_000);
    m.set_price(1984, 1_000_000);
    m
}

#[test]
fn create_works() {
    let mut m = new_test_ext();
    let project = default_project();
    assert!(m.create(ALICE, project).is_ok());
    assert_eq!(m.last_event(), Event::Created { project_id: 0, issuer: ALICE });
}

#[test]
fn project_id_autoincremenet_works() {
    let mut m = new_test_ext();
    let project = default_project();
    assert!(m.create(ALICE, project.clone()).is_ok());
    assert_eq!(m.last_event(), Event::Created { project_id: 0, issuer: ALICE });
    assert!(m.create(ALICE, project).is_ok());
    assert_eq!(m.last_event(), Event::Created { project_id: 1, issuer: ALICE });
}

#[test]
fn price_too_low() {
    let mut m = new_test_ext();
    let project = Project {
        minimum_price: 0,
        ticket_size: TicketSize { minimum: Some(1), maximum: None },
        participants_size: ParticipantsSize { minimum: Some(2), maximum: None },
        ..Default::default()
    };
    assert_eq!(m.create(ALICE, project), Err(Error::PriceTooLow));
}

#[test]
fn participants_size_error() {
    let mut m = new_test_ext();
    let project = Project {
        minimum_price: 1,
        ticket_size: TicketSize { minimum: Some(1), maximum: None },
        participants_size: ParticipantsSize { minimum: None, maximum: None },
        ..Default::default()
    };
    assert_eq!(m.create(ALICE, project), Err(Error::ParticipantsSizeError));
}

#[test]
fn ticket_size_error() {
    let mut m = new_test_ext();
    let project = Project {
        minimum_price: 1,
        ticket_size: TicketSize { minimum: None, maximum: None },
        participants_size: ParticipantsSize { minimum: Some(1), maximum: None },
        ..Default::default()
    };
    assert_eq!(m.create(ALICE, project), Err(Error::TicketSizeError));
}

#[test]
fn start_evaluation_works() {
    let mut m = new_test_ext();
    assert!(m.create(ALICE, default_project()).is_ok());
    let project_info = m.project_info(ALICE, 0).unwrap();
    assert!(project_info.project_status == ProjectStatus::Application);
    assert!(m.start_evaluation(ALICE, 0).is_ok());
    let project_info = m.project_info(ALICE, 0).unwrap();
    assert!(project_info.project_status == ProjectStatus::EvaluationRound);
}

#[test]
fn evaluation_stops_after_28_days() {
    let mut m = new_test_ext();
    assert!(m.create(ALICE, default_project()).is_ok());
    let ed = m.project_info(ALICE, 0).unwrap();
    assert!(ed.project_status == ProjectStatus::Application);
    assert!(m.start_evaluation(ALICE, 0).is_ok());
    let ed = m.project_info(ALICE, 0).unwrap();
    assert!(ed.project_status == ProjectStatus::EvaluationRound);
    let block_number = m.block_number();
    m.set_block_number(block_number + 100);
    m.on_initialize(m.block_number());
    let ed = m.project_info(ALICE, 0).unwrap();
    assert!(ed.project_status == ProjectStatus::EvaluationEnded);
}

#[test]
fn basic_bond_works() {
    let mut m = new_test_ext();
    assert!(m.create(ALICE, default_project()).is_ok());
    assert_eq!(m.bond(BOB, 0, 128), Err(Error::EvaluationNotStarted));
    assert!(m.start_evaluation(ALICE, 0).is_ok());
    assert!(m.bond(BOB, 0, 128).is_ok());
}

#[test]
fn multiple_bond_works() {
    let mut m = new_test_ext();
    assert!(m.create(ALICE, default_project()).is_ok());
    assert_eq!(m.bond(BOB, 0, 128), Err(Error::EvaluationNotStarted));
    assert!(m.start_evaluation(ALICE, 0).is_ok());

    assert!(m.bond(BOB, 0, 128).is_ok());
    let evaluation_metadata = m.evaluations(ALICE, 0).unwrap();
    assert_eq!(evaluation_metadata.amount_bonded, 128);

    assert!(m.bond(CHARLIE, 0, 128).is_ok());
    let evaluation_metadata = m.evaluations(ALICE, 0).unwrap();
    assert_eq!(evaluation_metadata.amount_bonded, 256);

    let bonds = m.bonds(BOB, 0);
    assert_eq!(bonds.unwrap(), 128);

    let bonds = m.bonds(CHARLIE, 0);
    assert_eq!(bonds.unwrap(), 128);
}

#[test]
fn cannot_bond() {
    let mut m = new_test_ext();
    assert!(m.create(ALICE, default_project()).is_ok());
    assert!(m.start_evaluation(ALICE, 0).is_ok());
    assert_eq!(m.bond(BOB, 0, 1024), Err(Error::InsufficientBalance));
}

#[test]
fn start_auction_works() {
    let mut m = new_test_ext();
    assert!(m.create(ALICE, default_project()).is_ok());
    assert!(m.start_evaluation(ALICE, 0).is_ok());
    let block_number = m.block_number();
    m.set_block_number(block_number + 100);
    m.on_initialize(m.block_number());
    assert!(m.start_auction(ALICE, 0).is_ok());
}

#[test]
fn cannot_start_auction_before_evaluation() {
    let mut m = new_test_ext();
    assert!(m.create(ALICE, default_project()).is_ok());
    assert_eq!(m.start_auction(ALICE, 0), Err(Error::EvaluationNotStarted));
}

#[test]
fn bid_works() {
    let mut m = new_test_ext();
    assert!(m.create(ALICE, default_project()).is_ok());
    assert!(m.start_evaluation(ALICE, 0).is_ok());
    let block_number = m.block_number();
    m.set_block_number(block_number + 100);
    m.on_initialize(m.block_number());
    assert!(m.start_auction(ALICE, 0).is_ok());
    assert!(m.bid(BOB, 0, 1, 100).is_ok());
    let bids = m.auctions_info(BOB, 0).unwrap();
    assert!(bids.original_ct_amount == 100);
    assert!(bids.original_ct_usd_price == 1);
    assert!(bids.when == block_number + 100);
}

#[test]
fn cannot_bid_before_auction_round() {
    let mut m = new_test_ext();
    assert!(m.create(ALICE, default_project()).is_ok());
    assert!(m.start_evaluation(ALICE, 0).is_ok());
    assert_eq!(m.bid(BOB, 0, 1, 100), Err(Error::AuctionNotStarted));
}

#[test]
fn contribute_does_not_work() {
    let mut m = new_test_ext();
    assert!(m.create(ALICE, default_project()).is_ok());
    assert!(m.start_evaluation(ALICE, 0).is_ok());
    let block_number = m.block_number();
    m.set_block_number(block_number + 100);
    m.on_initialize(m.block_number());
    assert!(m.start_auction(ALICE, 0).is_ok());
    assert_eq!(m.contribute(BOB, 0, 100), Err(Error::AuctionNotStarted));
}

#[test]
fn contribute_works() {}

#[test]
fn it_works() {
    let mut m = new_test_ext();
    assert!(m.create(ALICE, default_project()).is_ok());
    let project_info = m.project_info(ALICE, 0).unwrap();
    assert!(project_info.project_status == ProjectStatus::Application);
    assert!(m.start_evaluation(ALICE, 0).is_ok());
    let project_info = m.project_info(ALICE, 0).unwrap();
    assert!(project_info.project_status == ProjectStatus::EvaluationRound);
    let block_number = m.block_number();
    m.set_block_number(block_number + 28);
    m.on_initialize(m.block_number());
    let project_info = m.project_info(ALICE, 0).unwrap();
    assert!(project_info.project_status == ProjectStatus::EvaluationEnded);
    assert!(m.start_auction(ALICE, 0).is_ok());
    let project_info = m.project_info(ALICE, 0).unwrap();
    assert!(project_info.project_status == ProjectStatus::AuctionRound(AuctionPhase::English));
    assert!(m.bid(BOB, 0, 1, 100).is_ok());
    let block_number = m.block_number();
    m.set_block_number(block_number + 10);
    m.on_initialize(m.block_number());
    let project_info = m.project_info(ALICE, 0).unwrap();
    assert!(project_info.project_status == ProjectStatus::AuctionRound(AuctionPhase::Candle));
    let block_number = m.block_number();
    m.set_block_number(block_number + 5);
    m.on_initialize(m.block_number());
    let project_info = m.project_info(ALICE, 0).unwrap();
    assert!(project_info.project_status == ProjectStatus::CommunityRound);
}

#[test]
fn advance_before_deadline_is_a_no_op() {
    let mut m = new_test_ext();
    assert!(m.create(ALICE, default_project()).is_ok());
    assert!(m.start_evaluation(ALICE, 0).is_ok());
    let before = m.project_info(ALICE, 0).unwrap();
    assert!(m.advance_round(0).is_ok());
    let after = m.project_info(ALICE, 0).unwrap();
    assert_eq!(before, after);
}

#[test]
fn evaluation_below_threshold_fails_funding() {
    let mut m = new_test_ext();
    let project = Project { evaluation_threshold: 1_000, ..default_project() };
    assert!(m.create(ALICE, project).is_ok());
    assert!(m.start_evaluation(ALICE, 0).is_ok());
    assert!(m.bond(BOB, 0, 128).is_ok());
    m.on_initialize(28);
    let project_info = m.project_info(ALICE, 0).unwrap();
    assert!(project_info.project_status == ProjectStatus::FundingFailed);
}

#[test]
fn full_lifecycle_reaches_funding_ended() {
    let mut m = new_test_ext();
    let project = Project { total_allocation_size: 1_000, ..default_project() };
    m.set_plmc_balance(BOB, 10_000);
    assert!(m.create(ALICE, project).is_ok());
    assert!(m.start_evaluation(ALICE, 0).is_ok());
    m.on_initialize(28);
    assert!(m.start_auction(ALICE, 0).is_ok());
    assert!(m.bid(BOB, 0, 1_000_000, 400).is_ok());
    m.on_initialize(38);
    m.on_initialize(43);
    let d = m.project_info(ALICE, 0).unwrap();
    assert!(d.project_status == ProjectStatus::CommunityRound);
    assert_eq!(d.weighted_average_price, Some(1_000_000));
    assert_eq!(d.remaining_contribution_tokens, 600);
    m.on_initialize(53);
    let d = m.project_info(ALICE, 0).unwrap();
    assert!(d.project_status == ProjectStatus::RemainderRound);
    m.on_initialize(58);
    let d = m.project_info(ALICE, 0).unwrap();
    assert!(d.project_status == ProjectStatus::FundingEnded);
}
