//! What holds of the operations in every state of the store.

use crate::error::ErrorCode;
use crate::layout::{
    dish_stats_bytes, lemma_dish_stats_bytes_round_trip, lemma_dish_stats_round_trip,
    lemma_review_round_trip, lemma_user_stats_bytes_round_trip,
    lemma_user_stats_round_trip, user_stats_bytes, DISH_STATS_BYTES,
};
use crate::model::{
    book_table, booking_can_count, count_orders, dish_stats_at, initialize_dish_stats,
    initialize_user_stats, orders_can_count, refused, review_at, submit_review, user_stats_at,
    Operation,
};
use crate::records::{
    confidence_is_valid, rating_is_valid, DishStatsView, ReviewView, UserStatsView, NAME_CAPACITY,
    REVIEW_CAPACITY,
};
use crate::text::{kept_len, lemma_padded_is_bounded};
use vstd::prelude::*;

verus! {

/// How many of the references at `from`, `from + 2`, `from + 4`, ... name
/// `address`.
pub open spec fn orders_of(references: Seq<Seq<u8>>, address: Seq<u8>, from: nat) -> nat
    decreases references.len() + 1 - from,
{
    if from >= references.len() {
        0
    } else if references[from as int] == address {
        1 + orders_of(references, address, from + 2)
    } else {
        orders_of(references, address, from + 2)
    }
}

/// Initializing the statistics of a pair succeeds on a free address and
/// stores a record with no visits. Doing it again is refused with
/// `AlreadyInitialized` and leaves every record as it was.
pub proof fn law_user_stats_initialized_once(
    records: Map<Seq<u8>, Seq<u8>>,
    address: Seq<u8>,
    user: Seq<u8>,
    restaurant: Seq<u8>,
)
    requires
        !records.contains_key(address),
        user.len() == 32,
        restaurant.len() == 32,
    ensures
        ({
            let first = initialize_user_stats(records, address, user, restaurant);
            let second = initialize_user_stats(first.records, address, user, restaurant);
            &&& first.result is Ok
            &&& user_stats_at(first.records, address) == Some(
                UserStatsView { user, restaurant, visit_count: 0 },
            )
            &&& second == refused(first.records, ErrorCode::AlreadyInitialized)
        }),
{
    lemma_user_stats_round_trip(UserStatsView::fresh(user, restaurant));
}

/// Initializing the statistics of a dish stores the name cut to 50 bytes:
/// the stored length is the smaller of the name's length and 50, the buffer
/// begins with that many bytes of the name, and every byte after them is
/// zero.
pub proof fn law_dish_name_is_bounded(
    records: Map<Seq<u8>, Seq<u8>>,
    address: Seq<u8>,
    user: Seq<u8>,
    dish: Seq<u8>,
    name: Seq<u8>,
)
    requires
        !records.contains_key(address),
        user.len() == 32,
        dish.len() == 32,
    ensures
        ({
            let after = initialize_dish_stats(records, address, user, dish, name);
            &&& after.result is Ok
            &&& dish_stats_at(after.records, address) matches Some(stored)
            &&& stored.user == user
            &&& stored.dish == dish
            &&& stored.count == 0
            &&& stored.name_len == if name.len() <= 50 {
                name.len()
            } else {
                50
            }
            &&& stored.name_data.len() == 50
            &&& forall|i: int| 0 <= i < stored.name_len ==> stored.name_data[i] == name[i]
            &&& forall|i: int| stored.name_len <= i < 50 ==> stored.name_data[i] == 0u8
        }),
{
    let fresh = DishStatsView::fresh(user, dish, name);
    lemma_padded_is_bounded(name, NAME_CAPACITY as nat);
    lemma_dish_stats_round_trip(fresh);
    let kept = kept_len(name.len(), NAME_CAPACITY as nat);
    assert forall|i: int| 0 <= i < kept implies fresh.name_data[i] == name[i] by {
        assert(fresh.name_data.subrange(0, kept as int)[i] == name.subrange(0, kept as int)[i]);
    }
}

/// A review with a rating outside 1 to 5 is refused with `InvalidRating`, one
/// with a valid rating and a confidence level outside 1 to 10 with
/// `InvalidConfidenceLevel`; either way no record is created or changed.
pub proof fn law_invalid_review_is_refused(
    records: Map<Seq<u8>, Seq<u8>>,
    address: Seq<u8>,
    user: Seq<u8>,
    restaurant: Seq<u8>,
    rating: nat,
    text: Seq<u8>,
    confidence_level: nat,
)
    ensures
        ({
            let outcome = submit_review(
                records,
                address,
                user,
                restaurant,
                rating,
                text,
                confidence_level,
            );
            &&& !rating_is_valid(rating) ==> outcome == refused(records, ErrorCode::InvalidRating)
            &&& rating_is_valid(rating) && !confidence_is_valid(confidence_level) ==> outcome
                == refused(records, ErrorCode::InvalidConfidenceLevel)
            &&& !confidence_is_valid(confidence_level) ==> outcome.result is Err && outcome.records
                == records
        }),
{
}

/// Once a review with a text has been written, it stays: a further
/// submission under the same address, whatever valid rating, confidence level
/// and text it carries, is refused with `ReviewAlreadyExists`, and the stored
/// review is the first one.
pub proof fn law_review_is_written_once(
    records: Map<Seq<u8>, Seq<u8>>,
    address: Seq<u8>,
    user: Seq<u8>,
    restaurant: Seq<u8>,
    rating: nat,
    text: Seq<u8>,
    confidence_level: nat,
    next_rating: nat,
    next_text: Seq<u8>,
    next_confidence_level: nat,
)
    requires
        user.len() == 32,
        restaurant.len() == 32,
        text.len() > 0,
        submit_review(
            records,
            address,
            user,
            restaurant,
            rating,
            text,
            confidence_level,
        ).result is Ok,
        rating_is_valid(next_rating),
        confidence_is_valid(next_confidence_level),
    ensures
        ({
            let first = submit_review(
                records,
                address,
                user,
                restaurant,
                rating,
                text,
                confidence_level,
            );
            let second = submit_review(
                first.records,
                address,
                user,
                restaurant,
                next_rating,
                next_text,
                next_confidence_level,
            );
            &&& review_at(first.records, address) == Some(
                ReviewView::written(user, restaurant, rating, text, confidence_level),
            )
            &&& second == refused(first.records, ErrorCode::ReviewAlreadyExists)
        }),
{
    let written = ReviewView::written(user, restaurant, rating, text, confidence_level);
    lemma_padded_is_bounded(text, REVIEW_CAPACITY as nat);
    lemma_review_round_trip(written);
}

/// Counting the orders, where it goes through, adds to the count of every
/// `DishStats` record the number of references that name it, changes nothing
/// else of that record, and leaves every other record as it was.
pub proof fn law_orders_are_counted(
    records: Map<Seq<u8>, Seq<u8>>,
    references: Seq<Seq<u8>>,
    from: nat,
    address: Seq<u8>,
)
    requires
        count_orders(records, references, from).result is Ok,
        orders_can_count(records, references, from),
    ensures
        ({
            let after = count_orders(records, references, from).records;
            &&& after.contains_key(address) == records.contains_key(address)
            &&& match dish_stats_at(records, address) {
                Some(stats) => dish_stats_at(after, address) == Some(
                    DishStatsView {
                        count: stats.count + orders_of(references, address, from),
                        ..stats
                    },
                ),
                None => records.contains_key(address) ==> after[address] == records[address],
            }
        }),
    decreases references.len() + 1 - from,
{
    if from < references.len() {
        let named = references[from as int];
        let stats = dish_stats_at(records, named)->Some_0;
        let counted = records.insert(named, dish_stats_bytes(stats.ordered()));
        lemma_dish_stats_bytes_round_trip(records[named]);
        lemma_dish_stats_round_trip(stats.ordered());
        law_orders_are_counted(counted, references, from + 2, address);
    }
}

/// Counting the orders, however far it gets, only counts up: of a `DishStats`
/// record nothing but the count changes, and the count does not fall; every
/// other record stays as it was.
pub proof fn law_orders_only_count_up(
    records: Map<Seq<u8>, Seq<u8>>,
    references: Seq<Seq<u8>>,
    from: nat,
    address: Seq<u8>,
)
    requires
        orders_can_count(records, references, from),
    ensures
        ({
            let after = count_orders(records, references, from).records;
            &&& after.contains_key(address) == records.contains_key(address)
            &&& match dish_stats_at(records, address) {
                Some(stats) => dish_stats_at(after, address) matches Some(counted)
                    && counted.count >= stats.count && counted == DishStatsView {
                    count: counted.count,
                    ..stats
                },
                None => records.contains_key(address) ==> after[address] == records[address],
            }
        }),
    decreases references.len() + 1 - from,
{
    if from < references.len() {
        let named = references[from as int];
        if dish_stats_at(records, named) is Some {
            let stats = dish_stats_at(records, named)->Some_0;
            let counted = records.insert(
                named,
                dish_stats_bytes(stats.ordered()),
            );
            lemma_dish_stats_bytes_round_trip(records[named]);
            lemma_dish_stats_round_trip(stats.ordered());
            law_orders_only_count_up(counted, references, from + 2, address);
        }
    }
}

/// Counting the orders, however far it gets, removes no record, and changes
/// none that has not the length of a `DishStats` record.
pub proof fn law_orders_touch_dish_stats_only(
    records: Map<Seq<u8>, Seq<u8>>,
    references: Seq<Seq<u8>>,
    from: nat,
    address: Seq<u8>,
)
    requires
        records.contains_key(address),
    ensures
        ({
            let after = count_orders(records, references, from).records;
            &&& after.contains_key(address)
            &&& records[address].len() != DISH_STATS_BYTES ==> after[address] == records[address]
        }),
    decreases references.len() + 1 - from,
{
    if from < references.len() {
        let named = references[from as int];
        if dish_stats_at(records, named) is Some {
            let stats = dish_stats_at(records, named)->Some_0;
            let counted = records.insert(named, dish_stats_bytes(stats.ordered()));
            law_orders_touch_dish_stats_only(counted, references, from + 2, address);
        }
    }
}

/// No operation removes a record: an occupied address stays occupied,
/// whether the operation goes through or not.
pub proof fn law_records_are_kept(
    records: Map<Seq<u8>, Seq<u8>>,
    operation: Operation,
    address: Seq<u8>,
)
    requires
        records.contains_key(address),
    ensures
        operation.apply(records).records.contains_key(address),
{
    match operation {
        Operation::BookTable { address: stats_address, dish_ids, references } => {
            if user_stats_at(records, stats_address) is Some {
                let stats = user_stats_at(records, stats_address)->Some_0;
                let visited = records.insert(stats_address, user_stats_bytes(stats.visited()));
                law_orders_touch_dish_stats_only(visited, references, 0, address);
            }
        },
        _ => {},
    }
}

/// Counters never fall. Whatever operation runs, and whether it goes through
/// or not, a `UserStats` record keeps its user and restaurant and a visit
/// count at least as high as before, and a `DishStats` record keeps its user,
/// dish and name and a count at least as high as before.
pub proof fn law_counters_never_fall(
    records: Map<Seq<u8>, Seq<u8>>,
    operation: Operation,
    address: Seq<u8>,
)
    requires
        operation.can_count(records),
    ensures
        ({
            let after = operation.apply(records).records;
            &&& user_stats_at(records, address) matches Some(stats) ==> user_stats_at(
                after,
                address,
            ) matches Some(later) && later.visit_count >= stats.visit_count && later
                == UserStatsView { visit_count: later.visit_count, ..stats }
            &&& dish_stats_at(records, address) matches Some(stats) ==> dish_stats_at(
                after,
                address,
            ) matches Some(later) && later.count >= stats.count && later == DishStatsView {
                count: later.count,
                ..stats
            }
        }),
{
    match operation {
        Operation::BookTable { address: stats_address, dish_ids, references } => {
            if user_stats_at(records, stats_address) is Some {
                let stats = user_stats_at(records, stats_address)->Some_0;
                let visited = records.insert(
                    stats_address,
                    user_stats_bytes(stats.visited()),
                );
                lemma_user_stats_bytes_round_trip(records[stats_address]);
                lemma_user_stats_round_trip(stats.visited());
                law_orders_only_count_up(visited, references, 0, address);
            }
        },
        _ => {},
    }
}

/// A written review is frozen. Whatever operation runs, under whatever
/// address, a review record with a text stays exactly as it is.
pub proof fn law_written_review_is_frozen(
    records: Map<Seq<u8>, Seq<u8>>,
    operation: Operation,
    address: Seq<u8>,
)
    requires
        review_at(records, address) is Some,
        review_at(records, address)->Some_0.is_written(),
    ensures
        operation.apply(records).records.contains_key(address),
        operation.apply(records).records[address] == records[address],
{
    match operation {
        Operation::BookTable { address: stats_address, dish_ids, references } => {
            if user_stats_at(records, stats_address) is Some {
                let stats = user_stats_at(records, stats_address)->Some_0;
                let visited = records.insert(stats_address, user_stats_bytes(stats.visited()));
                law_orders_touch_dish_stats_only(visited, references, 0, address);
            }
        },
        _ => {},
    }
}

/// Counting the orders cannot run a counter past its maximum where every
/// `DishStats` record has room for as many orders as there are references
/// left.
pub proof fn law_orders_with_room_can_count(
    records: Map<Seq<u8>, Seq<u8>>,
    references: Seq<Seq<u8>>,
    from: nat,
)
    requires
        from <= references.len(),
        forall|address: Seq<u8>| #[trigger]
            dish_stats_at(records, address) matches Some(stats) ==> stats.count + (
            references.len() - from) <= u64::MAX,
    ensures
        orders_can_count(records, references, from),
    decreases references.len() + 1 - from,
{
    if from < references.len() {
        let named = references[from as int];
        if dish_stats_at(records, named) is Some {
            let stats = dish_stats_at(records, named)->Some_0;
            let counted = records.insert(named, dish_stats_bytes(stats.ordered()));
            lemma_dish_stats_bytes_round_trip(records[named]);
            lemma_dish_stats_round_trip(stats.ordered());
            if from + 2 <= references.len() {
                assert forall|address: Seq<u8>| #[trigger]
                    dish_stats_at(counted, address) is Some implies dish_stats_at(
                    counted,
                    address,
                )->Some_0.count + (references.len() - (from + 2)) <= u64::MAX by {
                    if address != named {
                        assert(dish_stats_at(counted, address) == dish_stats_at(records, address));
                    }
                }
                law_orders_with_room_can_count(counted, references, from + 2);
            }
        }
    }
}

/// A booking cannot run a counter past its maximum where the pair's visit
/// count is below the maximum and every `DishStats` record has room for as
/// many orders as there are references.
pub proof fn law_booking_with_room_can_count(
    records: Map<Seq<u8>, Seq<u8>>,
    address: Seq<u8>,
    references: Seq<Seq<u8>>,
)
    requires
        user_stats_at(records, address) matches Some(stats) ==> stats.visit_count < u64::MAX,
        forall|dish_address: Seq<u8>| #[trigger]
            dish_stats_at(records, dish_address) matches Some(stats) ==> stats.count
                + references.len() <= u64::MAX,
    ensures
        booking_can_count(records, address, references),
{
    if user_stats_at(records, address) is Some {
        let stats = user_stats_at(records, address)->Some_0;
        let visited = records.insert(address, user_stats_bytes(stats.visited()));
        lemma_user_stats_bytes_round_trip(records[address]);
        lemma_user_stats_round_trip(stats.visited());
        assert forall|dish_address: Seq<u8>| #[trigger]
            dish_stats_at(visited, dish_address) is Some implies dish_stats_at(
            visited,
            dish_address,
        )->Some_0.count + references.len() <= u64::MAX by {
            if dish_address != address {
                assert(dish_stats_at(visited, dish_address) == dish_stats_at(
                    records,
                    dish_address,
                ));
            }
        }
        law_orders_with_room_can_count(visited, references, 0);
    }
}

/// A booking that goes through counts exactly one visit for the pair, and for
/// every `DishStats` record exactly one order per reference at an even
/// position that names it.
pub proof fn law_booking_is_counted(
    records: Map<Seq<u8>, Seq<u8>>,
    address: Seq<u8>,
    dish_ids: Seq<Seq<u8>>,
    references: Seq<Seq<u8>>,
    dish_address: Seq<u8>,
)
    requires
        book_table(records, address, dish_ids, references).result is Ok,
        booking_can_count(records, address, references),
    ensures
        ({
            let after = book_table(records, address, dish_ids, references).records;
            &&& user_stats_at(records, address) matches Some(stats)
            &&& user_stats_at(after, address) == Some(
                UserStatsView { visit_count: stats.visit_count + 1, ..stats },
            )
            &&& dish_stats_at(records, dish_address) matches Some(dish) ==> dish_stats_at(
                after,
                dish_address,
            ) == Some(
                DishStatsView {
                    count: dish.count + orders_of(references, dish_address, 0),
                    ..dish
                },
            )
        }),
{
    let stats = user_stats_at(records, address)->Some_0;
    let visited = records.insert(address, user_stats_bytes(stats.visited()));
    lemma_user_stats_bytes_round_trip(records[address]);
    lemma_user_stats_round_trip(stats.visited());
    law_orders_are_counted(visited, references, 0, address);
    law_orders_are_counted(visited, references, 0, dish_address);
}

/// The dish identifiers handed to a booking have no effect on it.
pub proof fn law_booking_ignores_dish_ids(
    records: Map<Seq<u8>, Seq<u8>>,
    address: Seq<u8>,
    dish_ids: Seq<Seq<u8>>,
    other_dish_ids: Seq<Seq<u8>>,
    references: Seq<Seq<u8>>,
)
    ensures
        book_table(records, address, dish_ids, references) == book_table(
            records,
            address,
            other_dish_ids,
            references,
        ),
{
}

} // verus!
