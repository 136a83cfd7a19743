//! Derived addresses: the key under which a record is stored.

use crate::identity::Identity;
use anchor_lang::prelude::Pubkey;
use vstd::prelude::*;
use vstd::utf8::encode_utf8;

verus! {

/// The bytes of the program's own identity.
pub const PROGRAM_ID: [u8; 32] = [
    2, 35, 143, 99, 209, 216, 229, 57, 104, 197, 194, 125, 120, 226, 154, 222,
    165, 239, 214, 180, 191, 251, 244, 251, 143, 114, 143, 170, 35, 59, 101, 30,
];

/// The program's own identity: the one under which it derives addresses when
/// it runs on the ledger. It is configuration and plays no part in what an
/// operation does.
pub fn program_id() -> (id: Identity)
    ensures
        id@ == PROGRAM_ID@,
{
    Identity::new(PROGRAM_ID)
}

/// The namespace of a record kind. Its tag is the first seed of every address
/// derived for that kind.
#[derive(Clone, Copy, Debug, PartialEq, Eq, Structural)]
pub enum Namespace {
    UserStats,
    DishStats,
    Review,
}

impl Namespace {
    /// The tag of the namespace, as text.
    pub open spec fn tag(self) -> Seq<char> {
        match self {
            Namespace::UserStats => "user-stats"@,
            Namespace::DishStats => "dish-stats"@,
            Namespace::Review => "review"@,
        }
    }

    /// The tag of the namespace, as the bytes that are hashed.
    pub open spec fn seed(self) -> Seq<u8> {
        encode_utf8(self.tag())
    }

    /// The tag of the namespace.
    pub fn tag_text(self) -> (text: &'static str)
        ensures
            text@ == self.tag(),
    {
        match self {
            Namespace::UserStats => "user-stats",
            Namespace::DishStats => "dish-stats",
            Namespace::Review => "review",
        }
    }
}

/// What the ledger's derivation yields for three seeds under a program: the
/// hash-derived, off-curve address with the largest bump seed for which one
/// exists, and that bump seed; or `None` when no bump seed gives one or a
/// seed is longer than the ledger takes.
pub uninterp spec fn program_address(
    tag: Seq<u8>,
    first: Seq<u8>,
    second: Seq<u8>,
    program: Seq<u8>,
) -> Option<(Seq<u8>, u8)>;

/// The view of a derived address and its bump seed, where one was found.
pub open spec fn found_view(found: Option<(Identity, u8)>) -> Option<(Seq<u8>, u8)> {
    match found {
        Some((address, bump)) => Some((address@, bump)),
        None => None,
    }
}

/// Calls `Pubkey::try_find_program_address` with the seeds `[tag, first,
/// second]` and the program's identity. The contract only names what the call
/// returns: it is a function of the four arguments, and nothing more is
/// claimed of it.
#[verifier::external_body]
fn find_program_address(
    tag: &[u8],
    first: &Identity,
    second: &Identity,
    program: &Identity,
) -> (found: Option<(Identity, u8)>)
    ensures
        found_view(found) == program_address(tag@, first@, second@, program@),
{
    let program_id = Pubkey::new_from_array(program.bytes);
    let seeds: [&[u8]; 3] = [tag, &first.bytes, &second.bytes];
    Pubkey::try_find_program_address(&seeds, &program_id).map(
        |(address, bump)| (Identity { bytes: address.to_bytes() }, bump),
    )
}

/// The address of the record of a namespace for a pair of identities, with
/// its bump seed.
pub open spec fn derived_address(
    namespace: Namespace,
    first: Seq<u8>,
    second: Seq<u8>,
    program: Seq<u8>,
) -> Option<(Seq<u8>, u8)> {
    program_address(namespace.seed(), first, second, program)
}

/// Derives the address of the record of `namespace` for the pair
/// `(first, second)` under `program`, and the bump seed that goes with it.
pub fn derive_address(
    namespace: Namespace,
    first: &Identity,
    second: &Identity,
    program: &Identity,
) -> (found: Option<(Identity, u8)>)
    ensures
        found_view(found) == derived_address(namespace, first@, second@, program@),
{
    find_program_address(namespace.tag_text().as_bytes(), first, second, program)
}

} // verus!
