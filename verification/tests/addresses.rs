use anchor_lang::solana_program::pubkey::Pubkey;
use fund_me::address::{
    find_project_address, find_receipt_address, program_id, project_seed_list, receipt_seed_list,
    resolve, Address, PROGRAM_ID,
};
use fund_me::errors::DonationError;
use std::str::FromStr;

#[test]
fn program_id_is_the_declared_one() {
    let declared = Pubkey::from_str("5AacFLpus95hMDvRxUnYuoMrh7dryys2qysiRpiALbxD").unwrap();
    assert_eq!(program_id().bytes, declared.to_bytes());
    assert_eq!(PROGRAM_ID, declared.to_bytes());
}

#[test]
fn project_seeds_are_tag_owner_and_id() {
    let owner = Address::new([9; 32]);
    let seeds = project_seed_list(&owner, &String::from("garden"));
    assert_eq!(seeds, vec![b"project".to_vec(), vec![9u8; 32], b"garden".to_vec()]);
}

#[test]
fn receipt_seeds_are_tag_user_project_and_seed_low_byte_first() {
    let user = Address::new([1; 32]);
    let project = Address::new([2; 32]);
    let seeds = receipt_seed_list(&user, &project, 0x0102_0304_0506_0708);
    assert_eq!(
        seeds,
        vec![b"receipt".to_vec(), vec![1u8; 32], vec![2u8; 32], vec![8, 7, 6, 5, 4, 3, 2, 1]]
    );
    let negative = receipt_seed_list(&user, &project, -2);
    assert_eq!(negative[3], vec![0xfe, 0xff, 0xff, 0xff, 0xff, 0xff, 0xff, 0xff]);
    assert_eq!(negative[3], (-2i64).to_le_bytes().to_vec());
}

#[test]
fn project_address_is_the_program_address_of_its_seeds() {
    let owner = Address::new([9; 32]);
    let id = Pubkey::new_from_array(PROGRAM_ID);
    let (expected, bump) = Pubkey::find_program_address(&[b"project", &[9u8; 32], b"garden"], &id);
    let (address, found_bump) = find_project_address(&owner, &String::from("garden")).unwrap();
    assert_eq!(address.bytes, expected.to_bytes());
    assert_eq!(found_bump, bump);
    assert_ne!(address, owner);
    assert!(!expected.is_on_curve());
}

#[test]
fn receipt_address_is_the_program_address_of_its_seeds() {
    let user = Address::new([1; 32]);
    let project = Address::new([2; 32]);
    let id = Pubkey::new_from_array(PROGRAM_ID);
    let seed = 1_700_000_000i64;
    let (expected, bump) =
        Pubkey::find_program_address(&[b"receipt", &[1u8; 32], &[2u8; 32], &seed.to_le_bytes()], &id);
    let (address, found_bump) = find_receipt_address(&user, &project, seed).unwrap();
    assert_eq!(address.bytes, expected.to_bytes());
    assert_eq!(found_bump, bump);
}

#[test]
fn derivation_is_repeatable_and_tells_seeds_apart() {
    let seeds = vec![b"receipt".to_vec(), vec![3u8; 32]];
    let first = fund_me::address::derive(&seeds).unwrap();
    let second = fund_me::address::derive(&seeds).unwrap();
    assert_eq!(first, second);
    let other = fund_me::address::derive(&vec![b"receipt".to_vec(), vec![4u8; 32]]).unwrap();
    assert_ne!(first.0, other.0);
}

#[test]
fn derived_address_can_be_made_again_from_its_bump() {
    let seeds = vec![b"project".to_vec(), vec![3u8; 32], b"x".to_vec()];
    let (address, bump) = fund_me::address::derive(&seeds).unwrap();
    let id = Pubkey::new_from_array(PROGRAM_ID);
    let again =
        Pubkey::create_program_address(&[b"project", &[3u8; 32], b"x", &[bump]], &id).unwrap();
    assert_eq!(address.bytes, again.to_bytes());
}

#[test]
fn derivation_without_a_usable_bump_is_exhausted() {
    let too_many: Vec<Vec<u8>> = (0..16u8).map(|i| vec![i]).collect();
    assert_eq!(fund_me::address::derive(&too_many), Err(DonationError::AddressSpaceExhausted));
    let too_long = vec![vec![0u8; 33]];
    assert_eq!(fund_me::address::derive(&too_long), Err(DonationError::AddressSpaceExhausted));
}

#[test]
fn resolve_maps_a_missing_address_to_exhausted() {
    let address = Address::new([5; 32]);
    assert_eq!(resolve(Some((address, 250))), Ok((address, 250)));
    assert_eq!(resolve(None), Err(DonationError::AddressSpaceExhausted));
}

#[test]
fn same_compares_all_bytes() {
    let a = Address::new([5; 32]);
    let mut bytes = [5u8; 32];
    assert!(a.same(&Address::new(bytes)));
    bytes[31] = 6;
    assert!(!a.same(&Address::new(bytes)));
    bytes[31] = 5;
    bytes[0] = 4;
    assert!(!a.same(&Address::new(bytes)));
    assert_eq!(a.to_vec(), vec![5u8; 32]);
}
