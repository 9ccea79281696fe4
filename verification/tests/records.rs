use fund_me::address::Address;
use fund_me::errors::DonationError;
use fund_me::instructions::donate::DonationReceipt;
use fund_me::instructions::init_project::{
    byte_len, Project, ProjectMetadata, ANCHOR_DISCRIMINATOR_SIZE, MAX_DESCRIPTION_LEN, MAX_IMAGE_URL_LEN,
    MAX_PROJECT_ID_LEN, MAX_TITLE_LEN,
};

fn metadata() -> ProjectMetadata {
    ProjectMetadata {
        title: String::from("Title"),
        description: String::from("Description"),
        image_url: String::from("https://example.org/i.png"),
    }
}

fn project(end_time: i64) -> Project {
    Project::new(Address::new([1; 32]), String::from("id"), metadata(), 1000, end_time, 254).unwrap()
}

#[test]
fn limits_are_as_the_records_reserve() {
    assert_eq!(ANCHOR_DISCRIMINATOR_SIZE, 8);
    assert_eq!(MAX_PROJECT_ID_LEN, 32);
    assert_eq!(MAX_TITLE_LEN, 100);
    assert_eq!(MAX_DESCRIPTION_LEN, 500);
    assert_eq!(MAX_IMAGE_URL_LEN, 200);
}

#[test]
fn new_project_has_raised_nothing() {
    let p = project(50);
    assert_eq!(p.owner(), Address::new([1; 32]));
    assert_eq!(p.project_id(), "id");
    assert_eq!(p.metadata().title, "Title");
    assert_eq!(p.metadata().description, "Description");
    assert_eq!(p.metadata().image_url, "https://example.org/i.png");
    assert_eq!(p.target_amount(), 1000);
    assert_eq!(p.current_amount(), 0);
    assert_eq!(p.end_time(), 50);
    assert_eq!(p.bump(), 254);
}

#[test]
fn new_project_with_a_long_field_is_refused() {
    let long_id = Project::new(Address::new([1; 32]), "i".repeat(33), metadata(), 1, 1, 1);
    assert_eq!(long_id.err(), Some(DonationError::FieldTooLong));
    let long_title = ProjectMetadata { title: "t".repeat(101), ..metadata() };
    assert!(!long_title.fits());
    let refused = Project::new(Address::new([1; 32]), String::from("i"), long_title, 1, 1, 1);
    assert_eq!(refused.err(), Some(DonationError::FieldTooLong));
    assert!(metadata().fits());
}

#[test]
fn byte_len_counts_stored_bytes() {
    assert_eq!(byte_len(&String::new()), 0);
    assert_eq!(byte_len(&String::from("abc")), 3);
    assert_eq!(byte_len(&String::from("é")), 2);
    assert_eq!(byte_len(&String::from("€")), 3);
}

#[test]
fn project_is_open_strictly_before_its_deadline() {
    let p = project(50);
    assert!(p.is_open(49));
    assert!(!p.is_open(50));
    assert!(!p.is_open(51));
    assert!(p.is_open(i64::MIN));
    assert_eq!(p.check_open(49), Ok(()));
    assert_eq!(p.check_open(50), Err(DonationError::ProjectExpired));
    assert_eq!(p.check_open(i64::MAX), Err(DonationError::ProjectExpired));
}

#[test]
fn credit_adds_to_the_running_total() {
    let mut p = project(50);
    assert_eq!(p.credit(400), Ok(()));
    assert_eq!(p.current_amount(), 400);
    assert_eq!(p.credit(700), Ok(()));
    assert_eq!(p.current_amount(), 1100);
    assert_eq!(p.credit(0), Ok(()));
    assert_eq!(p.current_amount(), 1100);
    assert_eq!(p.target_amount(), 1000);
}

#[test]
fn credit_beyond_u64_is_refused_and_keeps_the_total() {
    let mut p = Project::stored(Address::new([1; 32]), String::from("id"), metadata(), 10, u64::MAX - 1, 50, 3);
    assert_eq!(p.current_amount(), u64::MAX - 1);
    assert_eq!(p.credit(2), Err(DonationError::AmountOverflow));
    assert_eq!(p.current_amount(), u64::MAX - 1);
    assert_eq!(p.credit(1), Ok(()));
    assert_eq!(p.current_amount(), u64::MAX);
}

#[test]
fn stored_project_keeps_every_field() {
    let p = Project::stored(Address::new([7; 32]), String::from("kept"), metadata(), 10, 4, -3, 9);
    assert_eq!(p.owner(), Address::new([7; 32]));
    assert_eq!(p.project_id(), "kept");
    assert_eq!(p.target_amount(), 10);
    assert_eq!(p.current_amount(), 4);
    assert_eq!(p.end_time(), -3);
    assert_eq!(p.bump(), 9);
}

#[test]
fn new_receipt_is_not_refunded() {
    let user = Address::new([1; 32]);
    let project = Address::new([2; 32]);
    let r = DonationReceipt::new(user, project, 400, 1_700_000_000, 253);
    assert_eq!(
        r,
        DonationReceipt { user, project, amount: 400, timestamp: 1_700_000_000, refunded: false, bump: 253 }
    );
}

#[test]
fn messages_name_the_error() {
    assert_eq!(DonationError::ProjectExpired.message(), "Project fundraising period has ended.");
    let all = [
        DonationError::ProjectExpired,
        DonationError::AddressAlreadyInUse,
        DonationError::InsufficientFunds,
        DonationError::AddressSpaceExhausted,
        DonationError::AmountOverflow,
        DonationError::FieldTooLong,
        DonationError::ProjectNotFound,
    ];
    for (i, a) in all.iter().enumerate() {
        assert!(!a.message().is_empty());
        for b in all.iter().skip(i + 1) {
            assert_ne!(a.message(), b.message());
        }
    }
}
