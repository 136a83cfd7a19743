use restaurant_booking::{
    book_table, initialize_dish_stats, initialize_user_stats, submit_review, BookTable, DishStats,
    ErrorCode, Identity, InitializeDishStats, InitializeUserStats, RecordStore, Review,
    SubmitReview, UserStats,
};

fn program() -> Identity {
    Identity::new([9u8; 32])
}

fn alice() -> Identity {
    Identity::new([1u8; 32])
}

fn bob() -> Identity {
    Identity::new([4u8; 32])
}

fn restaurant() -> Identity {
    Identity::new([2u8; 32])
}

fn pasta() -> Identity {
    Identity::new([3u8; 32])
}

fn pizza() -> Identity {
    Identity::new([5u8; 32])
}

fn user_stats_at(store: &RecordStore, address: &Identity) -> UserStats {
    restaurant_booking::user_stats_at(store, address).expect("user stats")
}

fn dish_stats_at(store: &RecordStore, address: &Identity) -> DishStats {
    restaurant_booking::dish_stats_at(store, address).expect("dish stats")
}

fn review_at(store: &RecordStore, address: &Identity) -> Review {
    restaurant_booking::review_at(store, address).expect("a review")
}

fn init_user(store: &mut RecordStore, user: Identity) -> Identity {
    let ctx = InitializeUserStats::new(program(), user, restaurant()).expect("an address");
    assert_eq!(initialize_user_stats(store, &ctx), Ok(()));
    ctx.user_stats()
}

fn init_dish(store: &mut RecordStore, user: Identity, dish: Identity, name: &str) -> Identity {
    let ctx = InitializeDishStats::new(program(), user, dish).expect("an address");
    assert_eq!(initialize_dish_stats(store, &ctx, name), Ok(()));
    ctx.dish_stats()
}

#[test]
fn visit_order_and_review_from_start_to_end() {
    let mut store = RecordStore::new();
    let stats = init_user(&mut store, alice());
    assert_eq!(user_stats_at(&store, &stats).visit_count, 0);

    let dish = init_dish(&mut store, alice(), pasta(), "Pasta");
    let booking = BookTable::new(program(), alice(), restaurant()).expect("an address");
    assert_eq!(book_table(&mut store, &booking, &vec![pasta()], &vec![dish]), Ok(()));
    assert_eq!(user_stats_at(&store, &stats).visit_count, 1);
    assert_eq!(dish_stats_at(&store, &dish).count, 1);

    let accounts = SubmitReview::new(program(), alice(), restaurant()).expect("an address");
    assert_eq!(
        submit_review(&mut store, &accounts, 6, "ok", 8),
        Err(ErrorCode::InvalidRating)
    );
    assert!(!store.contains(&accounts.review()));

    assert_eq!(submit_review(&mut store, &accounts, 4, "ok", 8), Ok(()));
    let stored = review_at(&store, &accounts.review());
    assert_eq!(stored.review_len, 2);
    assert_eq!(stored.rating, 4);
    assert_eq!(stored.confidence_level, 8);
    assert_eq!(&stored.review_data[..2], &b"ok"[..]);
    assert_eq!(stored.user, alice());
    assert_eq!(stored.restaurant, restaurant());

    assert_eq!(
        submit_review(&mut store, &accounts, 4, "ok", 8),
        Err(ErrorCode::ReviewAlreadyExists)
    );
}

#[test]
fn user_stats_start_at_zero() {
    let mut store = RecordStore::new();
    let address = init_user(&mut store, alice());
    let stats = user_stats_at(&store, &address);
    assert_eq!(stats, UserStats { user: alice(), restaurant: restaurant(), visit_count: 0 });
}

#[test]
fn second_initialization_of_user_stats_is_refused() {
    let mut store = RecordStore::new();
    let address = init_user(&mut store, alice());
    let booking = BookTable::new(program(), alice(), restaurant()).expect("an address");
    assert_eq!(book_table(&mut store, &booking, &vec![], &vec![]), Ok(()));
    let before = store.read(&address).expect("a record").clone();

    let again = InitializeUserStats::new(program(), alice(), restaurant()).expect("an address");
    assert_eq!(initialize_user_stats(&mut store, &again), Err(ErrorCode::AlreadyInitialized));
    assert_eq!(store.read(&address), Some(&before));
    assert_eq!(user_stats_at(&store, &address).visit_count, 1);
}

#[test]
fn users_have_separate_statistics() {
    let mut store = RecordStore::new();
    let first = init_user(&mut store, alice());
    let second = init_user(&mut store, bob());
    assert_ne!(first, second);
    let booking = BookTable::new(program(), bob(), restaurant()).expect("an address");
    assert_eq!(book_table(&mut store, &booking, &vec![], &vec![]), Ok(()));
    assert_eq!(user_stats_at(&store, &first).visit_count, 0);
    assert_eq!(user_stats_at(&store, &second).visit_count, 1);
}

#[test]
fn dish_stats_keep_a_short_name() {
    let mut store = RecordStore::new();
    let address = init_dish(&mut store, alice(), pasta(), "Pasta");
    let stats = dish_stats_at(&store, &address);
    assert_eq!(stats.user, alice());
    assert_eq!(stats.dish, pasta());
    assert_eq!(stats.count, 0);
    assert_eq!(stats.name_len, 5);
    let mut expected = [0u8; 50];
    expected[..5].copy_from_slice(b"Pasta");
    assert_eq!(stats.name_data, expected);
}

#[test]
fn second_initialization_of_dish_stats_is_refused() {
    let mut store = RecordStore::new();
    let address = init_dish(&mut store, alice(), pasta(), "Pasta");
    let before = store.read(&address).expect("a record").clone();
    let again = InitializeDishStats::new(program(), alice(), pasta()).expect("an address");
    assert_eq!(
        initialize_dish_stats(&mut store, &again, "Lasagne"),
        Err(ErrorCode::AlreadyInitialized)
    );
    assert_eq!(store.read(&address), Some(&before));
}

#[test]
fn booking_without_statistics_is_not_found() {
    let mut store = RecordStore::new();
    let booking = BookTable::new(program(), alice(), restaurant()).expect("an address");
    assert_eq!(book_table(&mut store, &booking, &vec![], &vec![]), Err(ErrorCode::NotFound));
    assert!(!store.contains(&booking.user_stats()));
}

#[test]
fn each_booking_counts_one_visit() {
    let mut store = RecordStore::new();
    let address = init_user(&mut store, alice());
    let booking = BookTable::new(program(), alice(), restaurant()).expect("an address");
    for expected in 1..=5u64 {
        assert_eq!(book_table(&mut store, &booking, &vec![], &vec![]), Ok(()));
        assert_eq!(user_stats_at(&store, &address).visit_count, expected);
    }
}

#[test]
fn booking_counts_references_at_even_positions_only() {
    let mut store = RecordStore::new();
    let stats = init_user(&mut store, alice());
    let first = init_dish(&mut store, alice(), pasta(), "Pasta");
    let second = init_dish(&mut store, alice(), pizza(), "Pizza");
    let nowhere = Identity::new([0xEE; 32]);
    let booking = BookTable::new(program(), alice(), restaurant()).expect("an address");

    let references = vec![first, second, first, nowhere, second];
    assert_eq!(book_table(&mut store, &booking, &vec![pasta()], &references), Ok(()));
    assert_eq!(user_stats_at(&store, &stats).visit_count, 1);
    assert_eq!(dish_stats_at(&store, &first).count, 2);
    assert_eq!(dish_stats_at(&store, &second).count, 1);
}

#[test]
fn booking_counts_dishes_that_were_not_ordered() {
    let mut store = RecordStore::new();
    init_user(&mut store, alice());
    let of_bob = init_dish(&mut store, bob(), pizza(), "Pizza");
    let booking = BookTable::new(program(), alice(), restaurant()).expect("an address");

    assert_eq!(book_table(&mut store, &booking, &vec![], &vec![of_bob]), Ok(()));
    assert_eq!(book_table(&mut store, &booking, &vec![pasta()], &vec![of_bob]), Ok(()));
    assert_eq!(dish_stats_at(&store, &of_bob).count, 2);
    assert_eq!(dish_stats_at(&store, &of_bob).user, bob());
}

#[test]
fn booking_stops_at_a_missing_reference_and_keeps_what_it_counted() {
    let mut store = RecordStore::new();
    let stats = init_user(&mut store, alice());
    let first = init_dish(&mut store, alice(), pasta(), "Pasta");
    let second = init_dish(&mut store, alice(), pizza(), "Pizza");
    let nowhere = Identity::new([0xEE; 32]);
    let booking = BookTable::new(program(), alice(), restaurant()).expect("an address");

    let references = vec![first, first, nowhere, first, second];
    assert_eq!(
        book_table(&mut store, &booking, &vec![], &references),
        Err(ErrorCode::NotFound)
    );
    assert_eq!(user_stats_at(&store, &stats).visit_count, 1);
    assert_eq!(dish_stats_at(&store, &first).count, 1);
    assert_eq!(dish_stats_at(&store, &second).count, 0);
    assert!(!store.contains(&nowhere));
}

#[test]
fn booking_refuses_a_reference_to_another_kind_of_record() {
    let mut store = RecordStore::new();
    let stats = init_user(&mut store, alice());
    let booking = BookTable::new(program(), alice(), restaurant()).expect("an address");
    assert_eq!(
        book_table(&mut store, &booking, &vec![], &vec![stats]),
        Err(ErrorCode::NotFound)
    );
    assert_eq!(user_stats_at(&store, &stats).visit_count, 1);
}

#[test]
fn rating_out_of_range_is_refused() {
    let mut store = RecordStore::new();
    let accounts = SubmitReview::new(program(), alice(), restaurant()).expect("an address");
    for rating in [0u8, 6, 7, 255] {
        assert_eq!(
            submit_review(&mut store, &accounts, rating, "fine", 5),
            Err(ErrorCode::InvalidRating)
        );
        assert!(!store.contains(&accounts.review()));
    }
    for rating in 1u8..=5 {
        let mut fresh = RecordStore::new();
        assert_eq!(submit_review(&mut fresh, &accounts, rating, "fine", 5), Ok(()));
        assert_eq!(review_at(&fresh, &accounts.review()).rating, rating);
    }
}

#[test]
fn confidence_out_of_range_is_refused() {
    let mut store = RecordStore::new();
    let accounts = SubmitReview::new(program(), alice(), restaurant()).expect("an address");
    for confidence in [0u8, 11, 12, 255] {
        assert_eq!(
            submit_review(&mut store, &accounts, 3, "fine", confidence),
            Err(ErrorCode::InvalidConfidenceLevel)
        );
        assert!(!store.contains(&accounts.review()));
    }
    for confidence in 1u8..=10 {
        let mut fresh = RecordStore::new();
        assert_eq!(submit_review(&mut fresh, &accounts, 3, "fine", confidence), Ok(()));
        assert_eq!(review_at(&fresh, &accounts.review()).confidence_level, confidence);
    }
}

#[test]
fn rating_is_judged_before_confidence() {
    let mut store = RecordStore::new();
    let accounts = SubmitReview::new(program(), alice(), restaurant()).expect("an address");
    assert_eq!(submit_review(&mut store, &accounts, 0, "fine", 0), Err(ErrorCode::InvalidRating));
}

#[test]
fn invalid_submission_leaves_a_written_review_alone() {
    let mut store = RecordStore::new();
    let accounts = SubmitReview::new(program(), alice(), restaurant()).expect("an address");
    assert_eq!(submit_review(&mut store, &accounts, 5, "great", 10), Ok(()));
    let before = store.read(&accounts.review()).expect("a record").clone();
    assert_eq!(submit_review(&mut store, &accounts, 9, "bad", 1), Err(ErrorCode::InvalidRating));
    assert_eq!(
        submit_review(&mut store, &accounts, 1, "bad", 0),
        Err(ErrorCode::InvalidConfidenceLevel)
    );
    assert_eq!(store.read(&accounts.review()), Some(&before));
}

#[test]
fn second_review_is_refused_and_the_first_stays() {
    let mut store = RecordStore::new();
    let accounts = SubmitReview::new(program(), alice(), restaurant()).expect("an address");
    assert_eq!(submit_review(&mut store, &accounts, 5, "great", 10), Ok(()));
    let before = store.read(&accounts.review()).expect("a record").clone();

    assert_eq!(
        submit_review(&mut store, &accounts, 1, "awful", 1),
        Err(ErrorCode::ReviewAlreadyExists)
    );
    assert_eq!(store.read(&accounts.review()), Some(&before));
    let stored = review_at(&store, &accounts.review());
    assert_eq!(stored.rating, 5);
    assert_eq!(stored.review_len, 5);
    assert_eq!(&stored.review_data[..5], &b"great"[..]);
}

#[test]
fn empty_review_can_be_written_over() {
    let mut store = RecordStore::new();
    let accounts = SubmitReview::new(program(), alice(), restaurant()).expect("an address");
    assert_eq!(submit_review(&mut store, &accounts, 2, "", 3), Ok(()));
    assert_eq!(review_at(&store, &accounts.review()).review_len, 0);
    assert_eq!(submit_review(&mut store, &accounts, 4, "better", 7), Ok(()));
    let stored = review_at(&store, &accounts.review());
    assert_eq!(stored.rating, 4);
    assert_eq!(stored.review_len, 6);
    assert_eq!(stored.confidence_level, 7);
}

#[test]
fn review_over_another_kind_of_record_is_refused() {
    let mut store = RecordStore::new();
    let accounts = SubmitReview::new(program(), alice(), restaurant()).expect("an address");
    assert_eq!(store.create(accounts.review(), vec![1, 2, 3]), Ok(()));
    assert_eq!(
        submit_review(&mut store, &accounts, 4, "ok", 8),
        Err(ErrorCode::AlreadyInitialized)
    );
    assert_eq!(store.read(&accounts.review()), Some(&vec![1, 2, 3]));
}

#[test]
fn error_messages_name_the_cause() {
    assert_eq!(ErrorCode::InvalidRating.message(), "Rating must be between 1 and 5");
    assert_eq!(
        ErrorCode::ReviewAlreadyExists.message(),
        "You have already submitted a review for this restaurant."
    );
    assert_eq!(
        ErrorCode::InvalidConfidenceLevel.message(),
        "Confidence level must be between 1 and 10"
    );
    assert_ne!(ErrorCode::AlreadyInitialized.message(), ErrorCode::NotFound.message());
}

#[test]
fn written_review_survives_every_later_operation() {
    let mut store = RecordStore::new();
    let accounts = SubmitReview::new(program(), alice(), restaurant()).expect("an address");
    assert_eq!(submit_review(&mut store, &accounts, 5, "great", 10), Ok(()));
    let before = store.read(&accounts.review()).expect("a record").clone();

    let stats = init_user(&mut store, alice());
    let dish = init_dish(&mut store, alice(), pasta(), "Pasta");
    let booking = BookTable::new(program(), alice(), restaurant()).expect("an address");
    assert_eq!(book_table(&mut store, &booking, &vec![], &vec![dish, stats, dish]), Ok(()));
    assert_eq!(
        book_table(&mut store, &booking, &vec![], &vec![accounts.review()]),
        Err(ErrorCode::NotFound)
    );
    assert_eq!(
        submit_review(&mut store, &accounts, 1, "changed my mind", 1),
        Err(ErrorCode::ReviewAlreadyExists)
    );

    assert_eq!(store.read(&accounts.review()), Some(&before));
    assert_eq!(user_stats_at(&store, &stats).visit_count, 2);
    assert_eq!(dish_stats_at(&store, &dish).count, 2);
}

#[test]
fn counting_changes_nothing_but_the_counter() {
    let mut store = RecordStore::new();
    let stats = init_user(&mut store, alice());
    let dish = init_dish(&mut store, alice(), pasta(), "Pasta al pomodoro");
    let fresh_stats = user_stats_at(&store, &stats);
    let fresh_dish = dish_stats_at(&store, &dish);
    let booking = BookTable::new(program(), alice(), restaurant()).expect("an address");
    assert_eq!(book_table(&mut store, &booking, &vec![], &vec![dish]), Ok(()));

    assert_eq!(user_stats_at(&store, &stats), UserStats { visit_count: 1, ..fresh_stats });
    assert_eq!(dish_stats_at(&store, &dish), DishStats { count: 1, ..fresh_dish });
}

#[test]
fn counters_continue_from_a_large_value() {
    let mut store = RecordStore::new();
    let booking = BookTable::new(program(), alice(), restaurant()).expect("an address");
    let high = UserStats { user: alice(), restaurant: restaurant(), visit_count: u64::MAX - 1 };
    assert_eq!(store.create(booking.user_stats(), high.to_bytes()), Ok(()));
    let dish = Identity::new([0x77; 32]);
    let mut many = DishStats::new(alice(), pasta(), "Pasta");
    many.count = 0x0102_0304_0506_07FF;
    assert_eq!(store.create(dish, many.to_bytes()), Ok(()));

    assert_eq!(book_table(&mut store, &booking, &vec![], &vec![dish]), Ok(()));
    assert_eq!(user_stats_at(&store, &booking.user_stats()).visit_count, u64::MAX);
    assert_eq!(dish_stats_at(&store, &dish).count, 0x0102_0304_0506_0800);
}

#[test]
fn typed_reads_tell_the_kinds_apart() {
    let mut store = RecordStore::new();
    let stats = init_user(&mut store, alice());
    let dish = init_dish(&mut store, alice(), pasta(), "Pasta");
    assert!(restaurant_booking::user_stats_at(&store, &stats).is_some());
    assert_eq!(restaurant_booking::dish_stats_at(&store, &stats), None);
    assert_eq!(restaurant_booking::review_at(&store, &stats), None);
    assert_eq!(restaurant_booking::user_stats_at(&store, &dish), None);
    assert!(restaurant_booking::dish_stats_at(&store, &dish).is_some());
    assert_eq!(restaurant_booking::user_stats_at(&store, &Identity::new([0xEE; 32])), None);
}
