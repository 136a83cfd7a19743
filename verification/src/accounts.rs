//! The accounts of each operation: the identities it is about and the address
//! of the record it touches, derived from them.

use crate::address::{derive_address, derived_address, Namespace};
use crate::identity::Identity;
use vstd::prelude::*;

verus! {

/// The accounts of `initialize_user_stats`: who signs, what it is about, and
/// the address of the record it touches. A value of this type always holds the
/// address derived from the other three identities.
pub struct InitializeUserStats {
    program: Identity,
    user: Identity,
    restaurant: Identity,
    user_stats: Identity,
    bump: u8,
}

impl InitializeUserStats {
    #[verifier::type_invariant]
    spec fn addressed(self) -> bool {
        derived_address(Namespace::UserStats, self.user@, self.restaurant@, self.program@) == Some(
            (self.user_stats@, self.bump),
        )
    }

    /// The program under which the address is derived.
    pub closed spec fn spec_program(&self) -> Identity {
        self.program
    }

    /// The user who signs the operation.
    pub closed spec fn spec_user(&self) -> Identity {
        self.user
    }

    /// The restaurant that the operation is about.
    pub closed spec fn spec_restaurant(&self) -> Identity {
        self.restaurant
    }

    /// The address of the pair's statistics.
    pub closed spec fn spec_user_stats(&self) -> Identity {
        self.user_stats
    }

    /// The bump seed that goes with the address.
    pub closed spec fn spec_bump(&self) -> u8 {
        self.bump
    }

    /// Resolves the accounts of the operation: derives the address of the
    /// record for `(user, restaurant)` under `program`. `None` when the
    /// derivation yields no address.
    pub fn new(program: Identity, user: Identity, restaurant: Identity) -> (found: Option<
        InitializeUserStats,
    >)
        ensures
            found is Some <==> derived_address(
                Namespace::UserStats,
                user@,
                restaurant@,
                program@,
            ) is Some,
            found matches Some(ctx) ==> ({
                &&& ctx.program() == program
                &&& ctx.user() == user
                &&& ctx.restaurant() == restaurant
                &&& derived_address(Namespace::UserStats, user@, restaurant@, program@) == Some(
                    (ctx.user_stats()@, ctx.bump()),
                )
            }),
    {
        match derive_address(Namespace::UserStats, &user, &restaurant, &program) {
            Some((user_stats, bump)) => Some(
                InitializeUserStats { program, user, restaurant, user_stats, bump },
            ),
            None => None,
        }
    }

    /// The program under which the address is derived.
    #[verifier::when_used_as_spec(spec_program)]
    pub fn program(&self) -> (id: Identity)
        ensures
            id == self.spec_program(),
    {
        self.program
    }

    /// The user who signs the operation.
    #[verifier::when_used_as_spec(spec_user)]
    pub fn user(&self) -> (id: Identity)
        ensures
            id == self.spec_user(),
    {
        self.user
    }

    /// The restaurant that the operation is about.
    #[verifier::when_used_as_spec(spec_restaurant)]
    pub fn restaurant(&self) -> (id: Identity)
        ensures
            id == self.spec_restaurant(),
    {
        self.restaurant
    }

    /// The address of the pair's statistics. It is the address derived from the user, the
    /// restaurant and the program.
    #[verifier::when_used_as_spec(spec_user_stats)]
    pub fn user_stats(&self) -> (address: Identity)
        ensures
            address == self.spec_user_stats(),
            derived_address(
                Namespace::UserStats,
                self.spec_user()@,
                self.spec_restaurant()@,
                self.spec_program()@,
            ) == Some((address@, self.spec_bump())),
    {
        proof {
            use_type_invariant(self);
        }
        self.user_stats
    }

    /// The bump seed that goes with the address.
    #[verifier::when_used_as_spec(spec_bump)]
    pub fn bump(&self) -> (bump: u8)
        ensures
            bump == self.spec_bump(),
    {
        self.bump
    }
}

/// The accounts of `initialize_dish_stats`: who signs, what it is about, and
/// the address of the record it touches. A value of this type always holds the
/// address derived from the other three identities.
pub struct InitializeDishStats {
    program: Identity,
    user: Identity,
    dish: Identity,
    dish_stats: Identity,
    bump: u8,
}

impl InitializeDishStats {
    #[verifier::type_invariant]
    spec fn addressed(self) -> bool {
        derived_address(Namespace::DishStats, self.user@, self.dish@, self.program@) == Some(
            (self.dish_stats@, self.bump),
        )
    }

    /// The program under which the address is derived.
    pub closed spec fn spec_program(&self) -> Identity {
        self.program
    }

    /// The user who signs the operation.
    pub closed spec fn spec_user(&self) -> Identity {
        self.user
    }

    /// The dish that the operation is about.
    pub closed spec fn spec_dish(&self) -> Identity {
        self.dish
    }

    /// The address of the dish's statistics.
    pub closed spec fn spec_dish_stats(&self) -> Identity {
        self.dish_stats
    }

    /// The bump seed that goes with the address.
    pub closed spec fn spec_bump(&self) -> u8 {
        self.bump
    }

    /// Resolves the accounts of the operation: derives the address of the
    /// record for `(user, dish)` under `program`. `None` when the
    /// derivation yields no address.
    pub fn new(program: Identity, user: Identity, dish: Identity) -> (found: Option<
        InitializeDishStats,
    >)
        ensures
            found is Some <==> derived_address(
                Namespace::DishStats,
                user@,
                dish@,
                program@,
            ) is Some,
            found matches Some(ctx) ==> ({
                &&& ctx.program() == program
                &&& ctx.user() == user
                &&& ctx.dish() == dish
                &&& derived_address(Namespace::DishStats, user@, dish@, program@) == Some(
                    (ctx.dish_stats()@, ctx.bump()),
                )
            }),
    {
        match derive_address(Namespace::DishStats, &user, &dish, &program) {
            Some((dish_stats, bump)) => Some(
                InitializeDishStats { program, user, dish, dish_stats, bump },
            ),
            None => None,
        }
    }

    /// The program under which the address is derived.
    #[verifier::when_used_as_spec(spec_program)]
    pub fn program(&self) -> (id: Identity)
        ensures
            id == self.spec_program(),
    {
        self.program
    }

    /// The user who signs the operation.
    #[verifier::when_used_as_spec(spec_user)]
    pub fn user(&self) -> (id: Identity)
        ensures
            id == self.spec_user(),
    {
        self.user
    }

    /// The dish that the operation is about.
    #[verifier::when_used_as_spec(spec_dish)]
    pub fn dish(&self) -> (id: Identity)
        ensures
            id == self.spec_dish(),
    {
        self.dish
    }

    /// The address of the dish's statistics. It is the address derived from the user, the
    /// dish and the program.
    #[verifier::when_used_as_spec(spec_dish_stats)]
    pub fn dish_stats(&self) -> (address: Identity)
        ensures
            address == self.spec_dish_stats(),
            derived_address(
                Namespace::DishStats,
                self.spec_user()@,
                self.spec_dish()@,
                self.spec_program()@,
            ) == Some((address@, self.spec_bump())),
    {
        proof {
            use_type_invariant(self);
        }
        self.dish_stats
    }

    /// The bump seed that goes with the address.
    #[verifier::when_used_as_spec(spec_bump)]
    pub fn bump(&self) -> (bump: u8)
        ensures
            bump == self.spec_bump(),
    {
        self.bump
    }
}

/// The accounts of `book_table`: who signs, what it is about, and the
/// address of the record it touches. A value of this type always holds the
/// address derived from the other three identities.
pub struct BookTable {
    program: Identity,
    user: Identity,
    restaurant: Identity,
    user_stats: Identity,
    bump: u8,
}

impl BookTable {
    #[verifier::type_invariant]
    spec fn addressed(self) -> bool {
        derived_address(Namespace::UserStats, self.user@, self.restaurant@, self.program@) == Some(
            (self.user_stats@, self.bump),
        )
    }

    /// The program under which the address is derived.
    pub closed spec fn spec_program(&self) -> Identity {
        self.program
    }

    /// The user who signs the operation.
    pub closed spec fn spec_user(&self) -> Identity {
        self.user
    }

    /// The restaurant that the operation is about.
    pub closed spec fn spec_restaurant(&self) -> Identity {
        self.restaurant
    }

    /// The address of the pair's statistics.
    pub closed spec fn spec_user_stats(&self) -> Identity {
        self.user_stats
    }

    /// The bump seed that goes with the address.
    pub closed spec fn spec_bump(&self) -> u8 {
        self.bump
    }

    /// Resolves the accounts of the operation: derives the address of the
    /// record for `(user, restaurant)` under `program`. `None` when the
    /// derivation yields no address.
    pub fn new(program: Identity, user: Identity, restaurant: Identity) -> (found: Option<
        BookTable,
    >)
        ensures
            found is Some <==> derived_address(
                Namespace::UserStats,
                user@,
                restaurant@,
                program@,
            ) is Some,
            found matches Some(ctx) ==> ({
                &&& ctx.program() == program
                &&& ctx.user() == user
                &&& ctx.restaurant() == restaurant
                &&& derived_address(Namespace::UserStats, user@, restaurant@, program@) == Some(
                    (ctx.user_stats()@, ctx.bump()),
                )
            }),
    {
        match derive_address(Namespace::UserStats, &user, &restaurant, &program) {
            Some((user_stats, bump)) => Some(
                BookTable { program, user, restaurant, user_stats, bump },
            ),
            None => None,
        }
    }

    /// The program under which the address is derived.
    #[verifier::when_used_as_spec(spec_program)]
    pub fn program(&self) -> (id: Identity)
        ensures
            id == self.spec_program(),
    {
        self.program
    }

    /// The user who signs the operation.
    #[verifier::when_used_as_spec(spec_user)]
    pub fn user(&self) -> (id: Identity)
        ensures
            id == self.spec_user(),
    {
        self.user
    }

    /// The restaurant that the operation is about.
    #[verifier::when_used_as_spec(spec_restaurant)]
    pub fn restaurant(&self) -> (id: Identity)
        ensures
            id == self.spec_restaurant(),
    {
        self.restaurant
    }

    /// The address of the pair's statistics. It is the address derived from the user, the
    /// restaurant and the program.
    #[verifier::when_used_as_spec(spec_user_stats)]
    pub fn user_stats(&self) -> (address: Identity)
        ensures
            address == self.spec_user_stats(),
            derived_address(
                Namespace::UserStats,
                self.spec_user()@,
                self.spec_restaurant()@,
                self.spec_program()@,
            ) == Some((address@, self.spec_bump())),
    {
        proof {
            use_type_invariant(self);
        }
        self.user_stats
    }

    /// The bump seed that goes with the address.
    #[verifier::when_used_as_spec(spec_bump)]
    pub fn bump(&self) -> (bump: u8)
        ensures
            bump == self.spec_bump(),
    {
        self.bump
    }
}

/// The accounts of `submit_review`: who signs, what it is about, and the
/// address of the record it touches. A value of this type always holds the
/// address derived from the other three identities.
pub struct SubmitReview {
    program: Identity,
    user: Identity,
    restaurant: Identity,
    review: Identity,
    bump: u8,
}

impl SubmitReview {
    #[verifier::type_invariant]
    spec fn addressed(self) -> bool {
        derived_address(Namespace::Review, self.user@, self.restaurant@, self.program@) == Some(
            (self.review@, self.bump),
        )
    }

    /// The program under which the address is derived.
    pub closed spec fn spec_program(&self) -> Identity {
        self.program
    }

    /// The user who signs the operation.
    pub closed spec fn spec_user(&self) -> Identity {
        self.user
    }

    /// The restaurant that the operation is about.
    pub closed spec fn spec_restaurant(&self) -> Identity {
        self.restaurant
    }

    /// The address of the pair's review.
    pub closed spec fn spec_review(&self) -> Identity {
        self.review
    }

    /// The bump seed that goes with the address.
    pub closed spec fn spec_bump(&self) -> u8 {
        self.bump
    }

    /// Resolves the accounts of the operation: derives the address of the
    /// record for `(user, restaurant)` under `program`. `None` when the
    /// derivation yields no address.
    pub fn new(program: Identity, user: Identity, restaurant: Identity) -> (found: Option<
        SubmitReview,
    >)
        ensures
            found is Some <==> derived_address(
                Namespace::Review,
                user@,
                restaurant@,
                program@,
            ) is Some,
            found matches Some(ctx) ==> ({
                &&& ctx.program() == program
                &&& ctx.user() == user
                &&& ctx.restaurant() == restaurant
                &&& derived_address(Namespace::Review, user@, restaurant@, program@) == Some(
                    (ctx.review()@, ctx.bump()),
                )
            }),
    {
        match derive_address(Namespace::Review, &user, &restaurant, &program) {
            Some((review, bump)) => Some(
                SubmitReview { program, user, restaurant, review, bump },
            ),
            None => None,
        }
    }

    /// The program under which the address is derived.
    #[verifier::when_used_as_spec(spec_program)]
    pub fn program(&self) -> (id: Identity)
        ensures
            id == self.spec_program(),
    {
        self.program
    }

    /// The user who signs the operation.
    #[verifier::when_used_as_spec(spec_user)]
    pub fn user(&self) -> (id: Identity)
        ensures
            id == self.spec_user(),
    {
        self.user
    }

    /// The restaurant that the operation is about.
    #[verifier::when_used_as_spec(spec_restaurant)]
    pub fn restaurant(&self) -> (id: Identity)
        ensures
            id == self.spec_restaurant(),
    {
        self.restaurant
    }

    /// The address of the pair's review. It is the address derived from the user, the
    /// restaurant and the program.
    #[verifier::when_used_as_spec(spec_review)]
    pub fn review(&self) -> (address: Identity)
        ensures
            address == self.spec_review(),
            derived_address(
                Namespace::Review,
                self.spec_user()@,
                self.spec_restaurant()@,
                self.spec_program()@,
            ) == Some((address@, self.spec_bump())),
    {
        proof {
            use_type_invariant(self);
        }
        self.review
    }

    /// The bump seed that goes with the address.
    #[verifier::when_used_as_spec(spec_bump)]
    pub fn bump(&self) -> (bump: u8)
        ensures
            bump == self.spec_bump(),
    {
        self.bump
    }
}

} // verus!
