//! A fixed-layout record store for restaurant visits, dish orders and
//! write-once reviews, keyed by derived addresses.

pub mod accounts;
pub mod address;
pub mod error;
pub mod identity;
pub mod laws;
pub mod layout;
pub mod model;
pub mod program;
pub mod records;
pub mod store;
pub mod text;

pub use accounts::{BookTable, InitializeDishStats, InitializeUserStats, SubmitReview};
pub use address::{derive_address, program_id, Namespace};
pub use error::ErrorCode;
pub use identity::Identity;
pub use program::{
    book_table, dish_stats_at, initialize_dish_stats, initialize_user_stats, review_at,
    submit_review, user_stats_at,
};
pub use records::{DishStats, Review, UserStats};
pub use store::RecordStore;
