//! What each operation does to the records, stated on the mathematical view of
//! the store: a map from addresses to serialized records.

use crate::error::ErrorCode;
use crate::layout::{
    dish_stats_bytes, dish_stats_of, review_bytes, review_of, user_stats_bytes, user_stats_of,
};
use crate::records::{submission, DishStatsView, ReviewView, UserStatsView};
use vstd::prelude::*;

verus! {

/// The records after an operation, and what the caller is told.
pub struct Outcome {
    pub records: Map<Seq<u8>, Seq<u8>>,
    pub result: Result<(), ErrorCode>,
}

/// The operation went through and left `records`.
pub open spec fn done(records: Map<Seq<u8>, Seq<u8>>) -> Outcome {
    Outcome { records, result: Ok(()) }
}

/// The operation was refused with `error` and left `records`.
pub open spec fn refused(records: Map<Seq<u8>, Seq<u8>>, error: ErrorCode) -> Outcome {
    Outcome { records, result: Err(error) }
}

/// The `UserStats` record under `address`, if one is there.
pub open spec fn user_stats_at(
    records: Map<Seq<u8>, Seq<u8>>,
    address: Seq<u8>,
) -> Option<UserStatsView> {
    if records.contains_key(address) {
        user_stats_of(records[address])
    } else {
        None
    }
}

/// The `DishStats` record under `address`, if one is there.
pub open spec fn dish_stats_at(
    records: Map<Seq<u8>, Seq<u8>>,
    address: Seq<u8>,
) -> Option<DishStatsView> {
    if records.contains_key(address) {
        dish_stats_of(records[address])
    } else {
        None
    }
}

/// The `Review` record under `address`, if one is there.
pub open spec fn review_at(records: Map<Seq<u8>, Seq<u8>>, address: Seq<u8>) -> Option<
    ReviewView,
> {
    if records.contains_key(address) {
        review_of(records[address])
    } else {
        None
    }
}

/// Creating the statistics of a pair: refused if the address is occupied,
/// else a record with no visits is stored there.
pub open spec fn initialize_user_stats(
    records: Map<Seq<u8>, Seq<u8>>,
    address: Seq<u8>,
    user: Seq<u8>,
    restaurant: Seq<u8>,
) -> Outcome {
    if records.contains_key(address) {
        refused(records, ErrorCode::AlreadyInitialized)
    } else {
        done(records.insert(address, user_stats_bytes(UserStatsView::fresh(user, restaurant))))
    }
}

/// Creating the statistics of a dish: refused if the address is occupied,
/// else a record with no orders and the bounded name is stored there.
pub open spec fn initialize_dish_stats(
    records: Map<Seq<u8>, Seq<u8>>,
    address: Seq<u8>,
    user: Seq<u8>,
    dish: Seq<u8>,
    name: Seq<u8>,
) -> Outcome {
    if records.contains_key(address) {
        refused(records, ErrorCode::AlreadyInitialized)
    } else {
        done(records.insert(address, dish_stats_bytes(DishStatsView::fresh(user, dish, name))))
    }
}

/// Counting the orders of a booking: the references at `from`, `from + 2`,
/// `from + 4`, ... are taken in turn, and the `DishStats` record under each is
/// counted up by one. The first reference without such a record stops the
/// batch with `NotFound`; what was counted before it stays counted. The
/// references in between are passed over.
pub open spec fn count_orders(
    records: Map<Seq<u8>, Seq<u8>>,
    references: Seq<Seq<u8>>,
    from: nat,
) -> Outcome
    decreases references.len() + 1 - from,
{
    if from >= references.len() {
        done(records)
    } else {
        match dish_stats_at(records, references[from as int]) {
            None => refused(records, ErrorCode::NotFound),
            Some(stats) => count_orders(
                records.insert(references[from as int], dish_stats_bytes(stats.ordered())),
                references,
                from + 2,
            ),
        }
    }
}

/// Booking a table: refused with `NotFound` if the pair has no statistics
/// under `address`; else the visit is counted, and then the orders. The dish
/// identifiers are accepted and have no effect.
pub open spec fn book_table(
    records: Map<Seq<u8>, Seq<u8>>,
    address: Seq<u8>,
    dish_ids: Seq<Seq<u8>>,
    references: Seq<Seq<u8>>,
) -> Outcome {
    match user_stats_at(records, address) {
        None => refused(records, ErrorCode::NotFound),
        Some(stats) => count_orders(
            records.insert(address, user_stats_bytes(stats.visited())),
            references,
            0,
        ),
    }
}

/// Whether every counter that counting the orders reaches is below its
/// maximum when it is counted up.
pub open spec fn orders_can_count(
    records: Map<Seq<u8>, Seq<u8>>,
    references: Seq<Seq<u8>>,
    from: nat,
) -> bool
    decreases references.len() + 1 - from,
{
    if from >= references.len() {
        true
    } else {
        match dish_stats_at(records, references[from as int]) {
            None => true,
            Some(stats) => stats.count < u64::MAX && orders_can_count(
                records.insert(references[from as int], dish_stats_bytes(stats.ordered())),
                references,
                from + 2,
            ),
        }
    }
}

/// Whether every counter that a booking reaches is below its maximum when it
/// is counted up.
pub open spec fn booking_can_count(
    records: Map<Seq<u8>, Seq<u8>>,
    address: Seq<u8>,
    references: Seq<Seq<u8>>,
) -> bool {
    match user_stats_at(records, address) {
        None => true,
        Some(stats) => stats.visit_count < u64::MAX && orders_can_count(
            records.insert(address, user_stats_bytes(stats.visited())),
            references,
            0,
        ),
    }
}

/// Submitting a review. A rating or confidence level out of range is refused
/// first. An address that is free receives the review. An address that holds
/// a review record receives it unless a review is already written there. An
/// address that holds anything else is refused as occupied.
pub open spec fn submit_review(
    records: Map<Seq<u8>, Seq<u8>>,
    address: Seq<u8>,
    user: Seq<u8>,
    restaurant: Seq<u8>,
    rating: nat,
    text: Seq<u8>,
    confidence_level: nat,
) -> Outcome {
    match submission(
        review_at(records, address),
        user,
        restaurant,
        rating,
        text,
        confidence_level,
    ) {
        Err(error) => refused(records, error),
        Ok(review) => if records.contains_key(address) && review_at(records, address) is None {
            refused(records, ErrorCode::AlreadyInitialized)
        } else {
            done(records.insert(address, review_bytes(review)))
        },
    }
}

/// One call of the program, with the address resolved for it.
pub enum Operation {
    InitializeUserStats { address: Seq<u8>, user: Seq<u8>, restaurant: Seq<u8> },
    InitializeDishStats { address: Seq<u8>, user: Seq<u8>, dish: Seq<u8>, name: Seq<u8> },
    BookTable { address: Seq<u8>, dish_ids: Seq<Seq<u8>>, references: Seq<Seq<u8>> },
    SubmitReview {
        address: Seq<u8>,
        user: Seq<u8>,
        restaurant: Seq<u8>,
        rating: nat,
        text: Seq<u8>,
        confidence_level: nat,
    },
}

impl Operation {
    /// What the operation does to the records.
    pub open spec fn apply(self, records: Map<Seq<u8>, Seq<u8>>) -> Outcome {
        match self {
            Operation::InitializeUserStats { address, user, restaurant } => initialize_user_stats(
                records,
                address,
                user,
                restaurant,
            ),
            Operation::InitializeDishStats { address, user, dish, name } => initialize_dish_stats(
                records,
                address,
                user,
                dish,
                name,
            ),
            Operation::BookTable { address, dish_ids, references } => book_table(
                records,
                address,
                dish_ids,
                references,
            ),
            Operation::SubmitReview {
                address,
                user,
                restaurant,
                rating,
                text,
                confidence_level,
            } => submit_review(
                records,
                address,
                user,
                restaurant,
                rating,
                text,
                confidence_level,
            ),
        }
    }

    /// Whether every counter that the operation reaches is below its maximum
    /// when it is counted up.
    pub open spec fn can_count(self, records: Map<Seq<u8>, Seq<u8>>) -> bool {
        match self {
            Operation::BookTable { address, dish_ids, references } => booking_can_count(
                records,
                address,
                references,
            ),
            _ => true,
        }
    }
}

} // verus!
