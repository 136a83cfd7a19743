//! The three record kinds, their mathematical views, and the changes that a
//! record goes through: created once, then counted up or written once.

use crate::error::ErrorCode;
use crate::identity::Identity;
use crate::text::{fit, is_bounded_text, kept_len, lemma_padded_is_bounded, padded, zeros};
use vstd::prelude::*;
use vstd::utf8::encode_utf8;

verus! {

/// The number of bytes reserved for a dish's name.
pub const NAME_CAPACITY: usize = 50;

/// The number of bytes reserved for a review's text.
pub const REVIEW_CAPACITY: usize = 200;

/// The lowest rating.
pub const MIN_RATING: u8 = 1;

/// The highest rating.
pub const MAX_RATING: u8 = 5;

/// The lowest confidence level.
pub const MIN_CONFIDENCE: u8 = 1;

/// The highest confidence level.
pub const MAX_CONFIDENCE: u8 = 10;

/// How often a user has visited a restaurant.
#[derive(Clone, Copy, Debug, PartialEq, Eq)]
pub struct UserStats {
    pub user: Identity,
    pub restaurant: Identity,
    pub visit_count: u64,
}

/// How often a user has ordered a dish, and the dish's name.
#[derive(Clone, Copy, Debug, PartialEq, Eq)]
pub struct DishStats {
    pub user: Identity,
    pub dish: Identity,
    pub count: u64,
    pub name_len: u32,
    pub name_data: [u8; 50],
}

/// A user's review of a restaurant.
#[derive(Clone, Copy, Debug, PartialEq, Eq)]
pub struct Review {
    pub user: Identity,
    pub restaurant: Identity,
    pub rating: u8,
    pub review_len: u32,
    pub review_data: [u8; 200],
    pub confidence_level: u8,
}

/// What a `UserStats` record says.
pub struct UserStatsView {
    pub user: Seq<u8>,
    pub restaurant: Seq<u8>,
    pub visit_count: nat,
}

/// What a `DishStats` record says.
pub struct DishStatsView {
    pub user: Seq<u8>,
    pub dish: Seq<u8>,
    pub count: nat,
    pub name_len: nat,
    pub name_data: Seq<u8>,
}

/// What a `Review` record says.
pub struct ReviewView {
    pub user: Seq<u8>,
    pub restaurant: Seq<u8>,
    pub rating: nat,
    pub review_len: nat,
    pub review_data: Seq<u8>,
    pub confidence_level: nat,
}

impl UserStatsView {
    /// The record of a pair that has not visited yet.
    pub open spec fn fresh(user: Seq<u8>, restaurant: Seq<u8>) -> UserStatsView {
        UserStatsView { user, restaurant, visit_count: 0 }
    }

    /// The record after one more visit.
    pub open spec fn visited(self) -> UserStatsView {
        UserStatsView { visit_count: self.visit_count + 1, ..self }
    }

    /// Whether the fields fit the record's fixed layout.
    pub open spec fn fits(self) -> bool {
        &&& self.user.len() == 32
        &&& self.restaurant.len() == 32
        &&& self.visit_count <= u64::MAX
    }
}

impl DishStatsView {
    /// The record of a dish that has not been ordered yet. The name is cut to
    /// the reserved capacity without complaint.
    pub open spec fn fresh(user: Seq<u8>, dish: Seq<u8>, name: Seq<u8>) -> DishStatsView {
        DishStatsView {
            user,
            dish,
            count: 0,
            name_len: kept_len(name.len(), NAME_CAPACITY as nat),
            name_data: padded(name, NAME_CAPACITY as nat),
        }
    }

    /// The record after one more order.
    pub open spec fn ordered(self) -> DishStatsView {
        DishStatsView { count: self.count + 1, ..self }
    }

    /// Whether the fields fit the record's fixed layout.
    pub open spec fn fits(self) -> bool {
        &&& self.user.len() == 32
        &&& self.dish.len() == 32
        &&& self.count <= u64::MAX
        &&& self.name_len <= u32::MAX
        &&& self.name_data.len() == NAME_CAPACITY
    }

    /// Whether the name lies within its buffer, with zeros after it.
    pub open spec fn name_is_bounded(self) -> bool {
        is_bounded_text(self.name_len, self.name_data)
    }
}

impl ReviewView {
    /// The record without a review: every field is zero.
    pub open spec fn blank() -> ReviewView {
        ReviewView {
            user: zeros(32),
            restaurant: zeros(32),
            rating: 0,
            review_len: 0,
            review_data: zeros(REVIEW_CAPACITY as nat),
            confidence_level: 0,
        }
    }

    /// Whether a review has been written into the record.
    pub open spec fn is_written(self) -> bool {
        self.review_len > 0
    }

    /// The record that holds a review. The text is cut to the reserved
    /// capacity without complaint.
    pub open spec fn written(
        user: Seq<u8>,
        restaurant: Seq<u8>,
        rating: nat,
        text: Seq<u8>,
        confidence_level: nat,
    ) -> ReviewView {
        ReviewView {
            user,
            restaurant,
            rating,
            review_len: kept_len(text.len(), REVIEW_CAPACITY as nat),
            review_data: padded(text, REVIEW_CAPACITY as nat),
            confidence_level,
        }
    }

    /// Whether the fields fit the record's fixed layout.
    pub open spec fn fits(self) -> bool {
        &&& self.user.len() == 32
        &&& self.restaurant.len() == 32
        &&& self.rating <= u8::MAX
        &&& self.review_len <= u32::MAX
        &&& self.review_data.len() == REVIEW_CAPACITY
        &&& self.confidence_level <= u8::MAX
    }

    /// Whether the text lies within its buffer, with zeros after it.
    pub open spec fn text_is_bounded(self) -> bool {
        is_bounded_text(self.review_len, self.review_data)
    }
}

/// Whether a rating is one that a review may carry.
pub open spec fn rating_is_valid(rating: nat) -> bool {
    MIN_RATING <= rating <= MAX_RATING
}

/// Whether a confidence level is one that a review may carry.
pub open spec fn confidence_is_valid(confidence_level: nat) -> bool {
    MIN_CONFIDENCE <= confidence_level <= MAX_CONFIDENCE
}

/// The outcome of submitting a review where `existing` is the record found
/// under the review's address, if any: the record to store, or the refusal.
/// The rating is judged first, then the confidence level, then whether a
/// review is already written.
pub open spec fn submission(
    existing: Option<ReviewView>,
    user: Seq<u8>,
    restaurant: Seq<u8>,
    rating: nat,
    text: Seq<u8>,
    confidence_level: nat,
) -> Result<ReviewView, ErrorCode> {
    if !rating_is_valid(rating) {
        Err(ErrorCode::InvalidRating)
    } else if !confidence_is_valid(confidence_level) {
        Err(ErrorCode::InvalidConfidenceLevel)
    } else if existing is Some && existing->Some_0.is_written() {
        Err(ErrorCode::ReviewAlreadyExists)
    } else {
        Ok(ReviewView::written(user, restaurant, rating, text, confidence_level))
    }
}

impl View for UserStats {
    type V = UserStatsView;

    open spec fn view(&self) -> UserStatsView {
        UserStatsView {
            user: self.user@,
            restaurant: self.restaurant@,
            visit_count: self.visit_count as nat,
        }
    }
}

impl View for DishStats {
    type V = DishStatsView;

    open spec fn view(&self) -> DishStatsView {
        DishStatsView {
            user: self.user@,
            dish: self.dish@,
            count: self.count as nat,
            name_len: self.name_len as nat,
            name_data: self.name_data@,
        }
    }
}

impl View for Review {
    type V = ReviewView;

    open spec fn view(&self) -> ReviewView {
        ReviewView {
            user: self.user@,
            restaurant: self.restaurant@,
            rating: self.rating as nat,
            review_len: self.review_len as nat,
            review_data: self.review_data@,
            confidence_level: self.confidence_level as nat,
        }
    }
}

/// The view of a review that may be absent.
pub open spec fn review_view_of(found: Option<Review>) -> Option<ReviewView> {
    match found {
        Some(review) => Some(review@),
        None => None,
    }
}

impl UserStats {
    /// The record of a pair that has not visited yet.
    pub fn new(user: Identity, restaurant: Identity) -> (stats: UserStats)
        ensures
            stats@ == UserStatsView::fresh(user@, restaurant@),
            stats@.fits(),
    {
        UserStats { user, restaurant, visit_count: 0 }
    }

    /// Counts one more visit.
    pub fn record_visit(&mut self)
        requires
            old(self).visit_count < u64::MAX,
        ensures
            final(self)@ == old(self)@.visited(),
            final(self)@.fits(),
    {
        self.visit_count = self.visit_count + 1;
    }
}

impl DishStats {
    /// The record of a dish that has not been ordered yet. Of a name longer
    /// than 50 bytes the first 50 are kept.
    pub fn new(user: Identity, dish: Identity, name: &str) -> (stats: DishStats)
        ensures
            stats@ == DishStatsView::fresh(user@, dish@, encode_utf8(name@)),
            stats@.fits(),
            stats@.name_is_bounded(),
    {
        let (name_len, name_data) = fit::<50>(name.as_bytes());
        proof {
            lemma_padded_is_bounded(encode_utf8(name@), NAME_CAPACITY as nat);
        }
        DishStats { user, dish, count: 0, name_len, name_data }
    }

    /// Counts one more order.
    pub fn record_order(&mut self)
        requires
            old(self).count < u64::MAX,
        ensures
            final(self)@ == old(self)@.ordered(),
    {
        self.count = self.count + 1;
    }
}

impl Review {
    /// The record that a fresh address receives before a review is written:
    /// every byte of it is zero.
    pub fn blank() -> (review: Review)
        ensures
            review@ == ReviewView::blank(),
            review@.fits(),
            !review@.is_written(),
    {
        let review = Review {
            user: Identity::new([0u8;32]),
            restaurant: Identity::new([0u8;32]),
            rating: 0,
            review_len: 0,
            review_data: [0u8;200],
            confidence_level: 0,
        };
        assert(review@.user =~= zeros(32));
        assert(review@.restaurant =~= zeros(32));
        assert(review@.review_data =~= zeros(REVIEW_CAPACITY as nat));
        review
    }

    /// Judges a submission against the record found under the review's
    /// address, if any, and returns the record to store. Of a text longer than
    /// 200 bytes the first 200 are kept.
    pub fn submit(
        existing: Option<Review>,
        user: Identity,
        restaurant: Identity,
        rating: u8,
        review: &str,
        confidence_level: u8,
    ) -> (outcome: Result<Review, ErrorCode>)
        ensures
            match outcome {
                Ok(stored) => submission(
                    review_view_of(existing),
                    user@,
                    restaurant@,
                    rating as nat,
                    encode_utf8(review@),
                    confidence_level as nat,
                ) == Ok::<ReviewView, ErrorCode>(stored@) && stored@.fits()
                    && stored@.text_is_bounded(),
                Err(error) => submission(
                    review_view_of(existing),
                    user@,
                    restaurant@,
                    rating as nat,
                    encode_utf8(review@),
                    confidence_level as nat,
                ) == Err::<ReviewView, ErrorCode>(error),
            },
    {
        if rating < MIN_RATING || rating > MAX_RATING {
            return Err(ErrorCode::InvalidRating);
        }
        if confidence_level < MIN_CONFIDENCE || confidence_level > MAX_CONFIDENCE {
            return Err(ErrorCode::InvalidConfidenceLevel);
        }
        if let Some(found) = existing {
            if found.review_len > 0 {
                return Err(ErrorCode::ReviewAlreadyExists);
            }
        }
        let (review_len, review_data) = fit::<200>(review.as_bytes());
        proof {
            lemma_padded_is_bounded(encode_utf8(review@), REVIEW_CAPACITY as nat);
        }
        Ok(Review { user, restaurant, rating, review_len, review_data, confidence_level })
    }
}

} // verus!
