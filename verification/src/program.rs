//! The four operations of the program, each on the record store and the
//! accounts resolved for it.

use crate::accounts::{BookTable, InitializeDishStats, InitializeUserStats, SubmitReview};
use crate::address::{derived_address, Namespace};
use crate::error::ErrorCode;
use crate::identity::{identity_views, Identity};
use crate::layout::{dish_stats_bytes, lemma_review_round_trip, review_bytes, user_stats_bytes};
use crate::model;
use crate::records::{
    DishStats, Review, ReviewView, UserStats, MAX_CONFIDENCE, MAX_RATING, MIN_CONFIDENCE,
    MIN_RATING,
};
use crate::store::RecordStore;
use vstd::prelude::*;
use vstd::utf8::encode_utf8;

verus! {

/// The `UserStats` record under `address`, if one is there.
pub fn user_stats_at(store: &RecordStore, address: &Identity) -> (found: Option<UserStats>)
    ensures
        match found {
            Some(stats) => model::user_stats_at(store@, address@) == Some(stats@),
            None => model::user_stats_at(store@, address@) is None,
        },
{
    match store.read(address) {
        Some(data) => UserStats::from_bytes(data.as_slice()),
        None => None,
    }
}

/// The `DishStats` record under `address`, if one is there.
pub fn dish_stats_at(store: &RecordStore, address: &Identity) -> (found: Option<DishStats>)
    ensures
        match found {
            Some(stats) => model::dish_stats_at(store@, address@) == Some(stats@),
            None => model::dish_stats_at(store@, address@) is None,
        },
{
    match store.read(address) {
        Some(data) => DishStats::from_bytes(data.as_slice()),
        None => None,
    }
}

/// The `Review` record under `address`, if one is there.
pub fn review_at(store: &RecordStore, address: &Identity) -> (found: Option<Review>)
    ensures
        match found {
            Some(review) => model::review_at(store@, address@) == Some(review@),
            None => model::review_at(store@, address@) is None,
        },
{
    match store.read(address) {
        Some(data) => Review::from_bytes(data.as_slice()),
        None => None,
    }
}

/// Creates the statistics of a user and a restaurant, with no visit counted.
/// Refused with `AlreadyInitialized` if the pair has statistics already; they
/// stay as they are.
pub fn initialize_user_stats(
    store: &mut RecordStore,
    ctx: &InitializeUserStats,
) -> (result: Result<(), ErrorCode>)
    ensures
        final(store)@ == model::initialize_user_stats(
            old(store)@,
            ctx.user_stats()@,
            ctx.user()@,
            ctx.restaurant()@,
        ).records,
        result == model::initialize_user_stats(
            old(store)@,
            ctx.user_stats()@,
            ctx.user()@,
            ctx.restaurant()@,
        ).result,
        derived_address(
            Namespace::UserStats,
            ctx.user()@,
            ctx.restaurant()@,
            ctx.program()@,
        ) == Some((ctx.user_stats()@, ctx.bump())),
{
    let stats = UserStats::new(ctx.user(), ctx.restaurant());
    store.create(ctx.user_stats(), stats.to_bytes())
}

/// Creates the statistics of a user and a dish, with no order counted and the
/// name cut to 50 bytes. Refused with `AlreadyInitialized` if the pair has
/// statistics already; they stay as they are.
pub fn initialize_dish_stats(
    store: &mut RecordStore,
    ctx: &InitializeDishStats,
    name: &str,
) -> (result: Result<(), ErrorCode>)
    ensures
        final(store)@ == model::initialize_dish_stats(
            old(store)@,
            ctx.dish_stats()@,
            ctx.user()@,
            ctx.dish()@,
            encode_utf8(name@),
        ).records,
        result == model::initialize_dish_stats(
            old(store)@,
            ctx.dish_stats()@,
            ctx.user()@,
            ctx.dish()@,
            encode_utf8(name@),
        ).result,
        derived_address(
            Namespace::DishStats,
            ctx.user()@,
            ctx.dish()@,
            ctx.program()@,
        ) == Some((ctx.dish_stats()@, ctx.bump())),
{
    let stats = DishStats::new(ctx.user(), ctx.dish(), name);
    store.create(ctx.dish_stats(), stats.to_bytes())
}

/// Counts a visit of the user to the restaurant, then one order for the
/// `DishStats` record under each reference at an even position of
/// `remaining_accounts`. Nothing ties a reference to `dish_ids` or to the
/// user: whatever `DishStats` record it names is counted up, and the
/// references at odd positions are not looked at. Binding each reference to
/// an entry of `dish_ids` would close that gap; whether to do so is an open
/// design decision, and until it is taken every reference is accepted.
///
/// The counters that the booking reaches must be below their maximum.
///
/// Refused with `NotFound` if the pair has no statistics. A reference without
/// a `DishStats` record stops the batch with `NotFound`; the visit and the
/// orders before it stay counted.
pub fn book_table(
    store: &mut RecordStore,
    ctx: &BookTable,
    dish_ids: &Vec<Identity>,
    remaining_accounts: &Vec<Identity>,
) -> (result: Result<(), ErrorCode>)
    requires
        model::booking_can_count(
            old(store)@,
            ctx.user_stats()@,
            identity_views(remaining_accounts@),
        ),
    ensures
        final(store)@ == model::book_table(
            old(store)@,
            ctx.user_stats()@,
            identity_views(dish_ids@),
            identity_views(remaining_accounts@),
        ).records,
        result == model::book_table(
            old(store)@,
            ctx.user_stats()@,
            identity_views(dish_ids@),
            identity_views(remaining_accounts@),
        ).result,
        derived_address(
            Namespace::UserStats,
            ctx.user()@,
            ctx.restaurant()@,
            ctx.program()@,
        ) == Some((ctx.user_stats()@, ctx.bump())),
{
    let address = ctx.user_stats();
    let ghost references = identity_views(remaining_accounts@);
    let ghost wanted = model::book_table(
        old(store)@,
        address@,
        identity_views(dish_ids@),
        references,
    );
    match count_visit(store, &address) {
        Ok(()) => {},
        Err(error) => {
            return Err(error);
        },
    }
    let mut at: usize = 0;
    while at < remaining_accounts.len()
        invariant
            references == identity_views(remaining_accounts@),
            wanted == model::book_table(
                old(store)@,
                ctx.user_stats()@,
                identity_views(dish_ids@),
                references,
            ),
            derived_address(
                Namespace::UserStats,
                ctx.user()@,
                ctx.restaurant()@,
                ctx.program()@,
            ) == Some((ctx.user_stats()@, ctx.bump())),
            model::count_orders(store@, references, at as nat) == wanted,
            model::orders_can_count(store@, references, at as nat),
        decreases remaining_accounts@.len() - at,
    {
        assert(references[at as int] == remaining_accounts@[at as int]@);
        match count_order(store, &remaining_accounts[at]) {
            Ok(()) => {},
            Err(error) => {
                return Err(error);
            },
        }
        at = if remaining_accounts.len() - at > 2 {
            at + 2
        } else {
            remaining_accounts.len()
        };
    }
    Ok(())
}

/// Counts one visit in the `UserStats` record under `address`. Refused with
/// `NotFound` if no such record is there.
fn count_visit(store: &mut RecordStore, address: &Identity) -> (result: Result<(), ErrorCode>)
    requires
        model::user_stats_at(old(store)@, address@) matches Some(stats) ==> stats.visit_count
            < u64::MAX,
    ensures
        match model::user_stats_at(old(store)@, address@) {
            Some(stats) => result == Ok::<(), ErrorCode>(()) && final(store)@ == old(
                store,
            )@.insert(address@, user_stats_bytes(stats.visited())),
            None => result == Err::<(), ErrorCode>(ErrorCode::NotFound) && final(store)@ == old(
                store,
            )@,
        },
{
    match user_stats_at(store, address) {
        Some(mut stats) => {
            stats.record_visit();
            store.write(address, stats.to_bytes())
        },
        None => Err(ErrorCode::NotFound),
    }
}

/// Counts one order in the `DishStats` record under `reference`. Refused with
/// `NotFound` if no such record is there.
fn count_order(store: &mut RecordStore, reference: &Identity) -> (result: Result<(), ErrorCode>)
    requires
        model::dish_stats_at(old(store)@, reference@) matches Some(stats) ==> stats.count
            < u64::MAX,
    ensures
        match model::dish_stats_at(old(store)@, reference@) {
            Some(stats) => result == Ok::<(), ErrorCode>(()) && final(store)@ == old(
                store,
            )@.insert(reference@, dish_stats_bytes(stats.ordered())),
            None => result == Err::<(), ErrorCode>(ErrorCode::NotFound) && final(store)@ == old(
                store,
            )@,
        },
{
    match dish_stats_at(store, reference) {
        Some(mut dish) => {
            dish.record_order();
            store.write(reference, dish.to_bytes())
        },
        None => Err(ErrorCode::NotFound),
    }
}

/// Writes the user's review of the restaurant, once. The record is created on
/// first use. The rating must be 1 to 5 and the confidence level 1 to 10; the
/// text is cut to 200 bytes.
///
/// Refused with `InvalidRating` or `InvalidConfidenceLevel` before anything
/// is stored; with `ReviewAlreadyExists` if a review is written already; with
/// `AlreadyInitialized` if the address holds something that is no review
/// record. A refusal changes nothing.
pub fn submit_review(
    store: &mut RecordStore,
    ctx: &SubmitReview,
    rating: u8,
    review: &str,
    confidence_level: u8,
) -> (result: Result<(), ErrorCode>)
    ensures
        final(store)@ == model::submit_review(
            old(store)@,
            ctx.review()@,
            ctx.user()@,
            ctx.restaurant()@,
            rating as nat,
            encode_utf8(review@),
            confidence_level as nat,
        ).records,
        result == model::submit_review(
            old(store)@,
            ctx.review()@,
            ctx.user()@,
            ctx.restaurant()@,
            rating as nat,
            encode_utf8(review@),
            confidence_level as nat,
        ).result,
        derived_address(
            Namespace::Review,
            ctx.user()@,
            ctx.restaurant()@,
            ctx.program()@,
        ) == Some((ctx.review()@, ctx.bump())),
{
    let address = ctx.review();
    if rating < MIN_RATING || rating > MAX_RATING {
        return Err(ErrorCode::InvalidRating);
    }
    if confidence_level < MIN_CONFIDENCE || confidence_level > MAX_CONFIDENCE {
        return Err(ErrorCode::InvalidConfidenceLevel);
    }
    let blank = Review::blank();
    proof {
        lemma_review_round_trip(ReviewView::blank());
    }
    let existing = Review::from_bytes(store.get_or_create(address, blank.to_bytes()).as_slice());
    if existing.is_none() {
        return Err(ErrorCode::AlreadyInitialized);
    }
    match Review::submit(
        existing,
        ctx.user(),
        ctx.restaurant(),
        rating,
        review,
        confidence_level,
    ) {
        Ok(stored) => {
            let _ = store.write(&address, stored.to_bytes());
            assert(store@ =~= old(store)@.insert(address@, review_bytes(stored@)));
            Ok(())
        },
        Err(error) => Err(error),
    }
}

} // verus!
