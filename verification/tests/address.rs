use anchor_lang::prelude::Pubkey;
use restaurant_booking::{
    derive_address, program_id, BookTable, Identity, InitializeDishStats, InitializeUserStats,
    Namespace, SubmitReview,
};
use std::str::FromStr;

fn program() -> Identity {
    Identity::new([9u8; 32])
}

fn alice() -> Identity {
    Identity::new([1u8; 32])
}

fn place() -> Identity {
    Identity::new([2u8; 32])
}

fn pasta() -> Identity {
    Identity::new([3u8; 32])
}

const USER_STATS_ADDRESS: [u8; 32] = [
    12, 32, 74, 91, 119, 205, 158, 40, 155, 37, 157, 126, 19, 165, 255, 187, 158, 30, 172, 115,
    145, 100, 13, 106, 225, 17, 190, 213, 97, 250, 46, 62,
];

const DISH_STATS_ADDRESS: [u8; 32] = [
    197, 68, 139, 250, 4, 226, 156, 164, 132, 219, 233, 31, 209, 101, 124, 76, 248, 139, 46, 246,
    220, 28, 173, 82, 121, 202, 43, 49, 244, 55, 7, 255,
];

const REVIEW_ADDRESS: [u8; 32] = [
    239, 138, 199, 191, 199, 129, 194, 158, 22, 207, 22, 178, 90, 211, 203, 166, 132, 140, 202,
    72, 9, 1, 114, 9, 10, 154, 122, 198, 87, 239, 56, 68,
];

#[test]
fn namespaces_have_their_tags() {
    assert_eq!(Namespace::UserStats.tag_text(), "user-stats");
    assert_eq!(Namespace::DishStats.tag_text(), "dish-stats");
    assert_eq!(Namespace::Review.tag_text(), "review");
}

#[test]
fn user_stats_address_is_the_hash_of_its_seeds() {
    let found = derive_address(Namespace::UserStats, &alice(), &place(), &program());
    assert_eq!(found, Some((Identity::new(USER_STATS_ADDRESS), 255)));
}

#[test]
fn dish_stats_address_is_the_hash_of_its_seeds() {
    let found = derive_address(Namespace::DishStats, &alice(), &pasta(), &program());
    assert_eq!(found, Some((Identity::new(DISH_STATS_ADDRESS), 255)));
}

#[test]
fn review_address_skips_bump_seeds_that_land_on_the_curve() {
    let found = derive_address(Namespace::Review, &alice(), &place(), &program());
    assert_eq!(found, Some((Identity::new(REVIEW_ADDRESS), 253)));
}

#[test]
fn address_agrees_with_the_ledger() {
    let (address, bump) = Pubkey::find_program_address(
        &[b"user-stats", &[1u8; 32], &[2u8; 32]],
        &Pubkey::new_from_array([9u8; 32]),
    );
    let found = derive_address(Namespace::UserStats, &alice(), &place(), &program());
    assert_eq!(found, Some((Identity::new(address.to_bytes()), bump)));
}

#[test]
fn address_depends_on_every_seed() {
    let address_of = |namespace: Namespace, first: Identity, second: Identity, under: Identity| {
        derive_address(namespace, &first, &second, &under).map(|(address, _)| address)
    };
    let base = address_of(Namespace::UserStats, alice(), place(), program());
    assert_ne!(base, Some(alice()));
    assert_ne!(base, Some(place()));
    assert_ne!(base, Some(program()));
    assert_ne!(base, address_of(Namespace::Review, alice(), place(), program()));
    assert_ne!(base, address_of(Namespace::UserStats, place(), alice(), program()));
    assert_ne!(base, address_of(Namespace::UserStats, alice(), pasta(), program()));
    assert_ne!(base, address_of(Namespace::UserStats, alice(), place(), alice()));
    assert_eq!(base, address_of(Namespace::UserStats, alice(), place(), program()));
}

#[test]
fn accounts_hold_the_derived_address() {
    let init = InitializeUserStats::new(program(), alice(), place()).expect("an address");
    assert_eq!(init.user_stats(), Identity::new(USER_STATS_ADDRESS));
    assert_eq!(init.user(), alice());
    assert_eq!(init.restaurant(), place());
    assert_eq!(init.program(), program());

    let booking = BookTable::new(program(), alice(), place()).expect("an address");
    assert_eq!(booking.user_stats(), init.user_stats());

    let dish = InitializeDishStats::new(program(), alice(), pasta()).expect("an address");
    assert_eq!(dish.dish_stats(), Identity::new(DISH_STATS_ADDRESS));
    assert_eq!(dish.dish(), pasta());

    let review = SubmitReview::new(program(), alice(), place()).expect("an address");
    assert_eq!(review.review(), Identity::new(REVIEW_ADDRESS));
    assert_eq!(review.restaurant(), place());
    assert_eq!(review.bump(), 253);
    assert_eq!(init.bump(), 255);
    assert_eq!(booking.bump(), 255);
    assert_eq!(dish.bump(), 255);
}

#[test]
fn program_identity_is_the_declared_one() {
    let declared = Pubkey::from_str("9MGNGbBKQqxDhVkRxuH5qDyovnpUw1FviYEUNcN7WUD").expect("a key");
    assert_eq!(program_id().bytes, declared.to_bytes());
}
