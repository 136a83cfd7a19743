//! The fixed byte layout of the records. Integers are little-endian; every
//! record kind has one length, and every byte string of that length is the
//! layout of exactly one record.
//!
//! | record    | bytes, in order                                          |
//! |-----------|----------------------------------------------------------|
//! | UserStats | user 32, restaurant 32, visit_count 8                    |
//! | DishStats | user 32, dish 32, count 8, name_len 4, name_data 50      |
//! | Review    | user 32, restaurant 32, rating 1, review_len 4,          |
//! |           | review_data 200, confidence_level 1                      |

use crate::identity::Identity;
use crate::records::{DishStats, DishStatsView, Review, ReviewView, UserStats, UserStatsView};
use vstd::prelude::*;

verus! {

/// The length of a `UserStats` record.
pub const USER_STATS_BYTES: usize = 72;

/// The length of a `DishStats` record.
pub const DISH_STATS_BYTES: usize = 126;

/// The length of a `Review` record.
pub const REVIEW_BYTES: usize = 270;

/// 256 to the power of `width`: the number of values that `width` bytes hold.
pub open spec fn pow256(width: nat) -> nat
    decreases width,
{
    if width == 0 {
        1
    } else {
        256 * pow256((width - 1) as nat)
    }
}

/// The `width` little-endian bytes of `value`, lowest byte first.
pub open spec fn le_bytes(value: nat, width: nat) -> Seq<u8>
    decreases width,
{
    if width == 0 {
        Seq::empty()
    } else {
        seq![(value % 256) as u8] + le_bytes(value / 256, (width - 1) as nat)
    }
}

/// The value that little-endian bytes stand for.
pub open spec fn le_value(bytes: Seq<u8>) -> nat
    decreases bytes.len(),
{
    if bytes.len() == 0 {
        0
    } else {
        bytes[0] as nat + 256 * le_value(bytes.subrange(1, bytes.len() as int))
    }
}

/// More bytes hold at least as many values.
pub proof fn lemma_pow256_increases(narrow: nat, wide: nat)
    requires
        narrow <= wide,
    ensures
        0 < pow256(narrow) <= pow256(wide),
    decreases wide,
{
    if wide == 0 {
    } else if narrow == wide {
        lemma_pow256_increases((narrow - 1) as nat, (wide - 1) as nat);
    } else {
        lemma_pow256_increases(narrow, (wide - 1) as nat);
    }
}

/// The widths that the layouts use, in numbers.
pub proof fn lemma_pow256_widths()
    ensures
        pow256(0) == 1,
        pow256(1) == 0x100,
        pow256(4) == 0x1_0000_0000,
        pow256(7) == 0x100_0000_0000_0000,
        pow256(8) == 0x1_0000_0000_0000_0000,
{
    reveal_with_fuel(pow256, 9);
}

/// Little-endian bytes have the width asked for.
pub proof fn lemma_le_bytes_len(value: nat, width: nat)
    ensures
        le_bytes(value, width).len() == width,
    decreases width,
{
    if width > 0 {
        lemma_le_bytes_len(value / 256, (width - 1) as nat);
    }
}

/// Reading back the bytes of a value that fits the width gives the value.
pub proof fn lemma_le_value_of_bytes(value: nat, width: nat)
    requires
        value < pow256(width),
    ensures
        le_value(le_bytes(value, width)) == value,
    decreases width,
{
    if width > 0 {
        let rest = le_bytes(value / 256, (width - 1) as nat);
        let all = le_bytes(value, width);
        lemma_le_bytes_len(value / 256, (width - 1) as nat);
        lemma_le_value_of_bytes(value / 256, (width - 1) as nat);
        assert(all.subrange(1, all.len() as int) =~= rest);
        assert(all[0] == (value % 256) as u8);
    }
}

/// Every byte string is the little-endian form of the value it stands for,
/// and that value fits its width.
pub proof fn lemma_le_bytes_of_value(bytes: Seq<u8>)
    ensures
        le_value(bytes) < pow256(bytes.len()),
        le_bytes(le_value(bytes), bytes.len()) == bytes,
    decreases bytes.len(),
{
    if bytes.len() > 0 {
        let tail = bytes.subrange(1, bytes.len() as int);
        lemma_le_bytes_of_value(tail);
        let value = le_value(bytes);
        assert(value == bytes[0] as nat + 256 * le_value(tail));
        assert(value % 256 == bytes[0] as nat);
        assert(value / 256 == le_value(tail));
        assert(le_bytes(value, bytes.len()) =~= bytes);
    } else {
        assert(le_bytes(0, 0) =~= bytes);
    }
}

/// Appends the `width` little-endian bytes of `value`.
pub fn push_le(out: &mut Vec<u8>, value: u64, width: usize)
    requires
        width <= 8,
    ensures
        final(out)@ == old(out)@ + le_bytes(value as nat, width as nat),
{
    let mut rest: u64 = value;
    let mut written: usize = 0;
    while written < width
        invariant
            written <= width,
            out@ + le_bytes(rest as nat, (width - written) as nat) == old(out)@ + le_bytes(
                value as nat,
                width as nat,
            ),
        decreases width - written,
    {
        let ghost before = out@;
        let low: u8 = (rest % 256) as u8;
        out.push(low);
        proof {
            let tail = le_bytes((rest / 256) as nat, (width - written - 1) as nat);
            assert(le_bytes(rest as nat, (width - written) as nat) == seq![low] + tail);
            assert(before.push(low) + tail =~= before + (seq![low] + tail));
        }
        rest = rest / 256;
        written += 1;
    }
    assert(le_bytes(rest as nat, 0) =~= Seq::<u8>::empty());
    assert(out@ + Seq::<u8>::empty() =~= out@);
}

/// Reads the little-endian value of the `width` bytes at `start`.
pub fn read_le(bytes: &[u8], start: usize, width: usize) -> (value: u64)
    requires
        width <= 8,
        start + width <= bytes.len(),
    ensures
        value == le_value(bytes@.subrange(start as int, start + width)),
        value < pow256(width as nat),
{
    let end: usize = start + width;
    let mut value: u64 = 0;
    let mut at: usize = end;
    while at > start
        invariant
            start <= at <= end,
            end == start + width,
            width <= 8,
            end <= bytes.len(),
            value == le_value(bytes@.subrange(at as int, end as int)),
            value < pow256((end - at) as nat),
        decreases at - start,
    {
        at -= 1;
        proof {
            let here = bytes@.subrange(at as int, end as int);
            assert(here.subrange(1, here.len() as int) =~= bytes@.subrange(at + 1, end as int));
            lemma_pow256_increases((end - at - 1) as nat, 7);
            lemma_pow256_widths();
        }
        value = value * 256 + bytes[at] as u64;
    }
    value
}

/// Appends the 32 bytes of an identity.
pub fn push_identity(out: &mut Vec<u8>, id: &Identity)
    ensures
        final(out)@ == old(out)@ + id@,
{
    let mut i: usize = 0;
    while i < 32
        invariant
            i <= 32,
            out@ == old(out)@ + id@.subrange(0, i as int),
        decreases 32 - i,
    {
        out.push(id.bytes[i]);
        assert(out@ =~= old(out)@ + id@.subrange(0, i + 1));
        i += 1;
    }
    assert(id@.subrange(0, 32) =~= id@);
}

/// Appends all bytes of `data`.
pub fn push_bytes(out: &mut Vec<u8>, data: &[u8])
    ensures
        final(out)@ == old(out)@ + data@,
{
    let mut i: usize = 0;
    while i < data.len()
        invariant
            i <= data@.len(),
            out@ == old(out)@ + data@.subrange(0, i as int),
        decreases data@.len() - i,
    {
        out.push(data[i]);
        assert(out@ =~= old(out)@ + data@.subrange(0, i + 1));
        i += 1;
    }
    assert(data@.subrange(0, data@.len() as int) =~= data@);
}

/// Reads the identity whose 32 bytes begin at `start`.
pub fn read_identity(bytes: &[u8], start: usize) -> (id: Identity)
    requires
        start + 32 <= bytes.len(),
    ensures
        id@ == bytes@.subrange(start as int, start + 32),
{
    let mut data: [u8; 32] = [0u8;32];
    let mut i: usize = 0;
    while i < 32
        invariant
            i <= 32,
            start + 32 <= bytes.len(),
            forall|j: int| 0 <= j < i ==> data@[j] == bytes@[start + j],
        decreases 32 - i,
    {
        data[i] = bytes[start + i];
        i += 1;
    }
    assert(data@ =~= bytes@.subrange(start as int, start + 32));
    Identity { bytes: data }
}

/// Reads the `N` bytes that begin at `start`.
pub fn read_array<const N: usize>(bytes: &[u8], start: usize) -> (data: [u8; N])
    requires
        start + N <= bytes.len(),
    ensures
        data@ == bytes@.subrange(start as int, start + N),
{
    let mut data: [u8; N] = [0u8;N];
    let mut i: usize = 0;
    while i < N
        invariant
            i <= N,
            start + N <= bytes.len(),
            forall|j: int| 0 <= j < i ==> data@[j] == bytes@[start + j],
        decreases N - i,
    {
        data[i] = bytes[start + i];
        i += 1;
    }
    assert(data@ =~= bytes@.subrange(start as int, start + N));
    data
}

/// The layout of a `UserStats` record.
pub open spec fn user_stats_bytes(record: UserStatsView) -> Seq<u8> {
    record.user + record.restaurant + le_bytes(record.visit_count, 8)
}

/// The `UserStats` record that bytes lay out, if they have its length.
pub open spec fn user_stats_of(bytes: Seq<u8>) -> Option<UserStatsView> {
    if bytes.len() == USER_STATS_BYTES {
        Some(
            UserStatsView {
                user: bytes.subrange(0, 32),
                restaurant: bytes.subrange(32, 64),
                visit_count: le_value(bytes.subrange(64, 72)),
            },
        )
    } else {
        None
    }
}

/// The layout of a `DishStats` record.
pub open spec fn dish_stats_bytes(record: DishStatsView) -> Seq<u8> {
    record.user + record.dish + le_bytes(record.count, 8) + le_bytes(record.name_len, 4)
        + record.name_data
}

/// The `DishStats` record that bytes lay out, if they have its length.
pub open spec fn dish_stats_of(bytes: Seq<u8>) -> Option<DishStatsView> {
    if bytes.len() == DISH_STATS_BYTES {
        Some(
            DishStatsView {
                user: bytes.subrange(0, 32),
                dish: bytes.subrange(32, 64),
                count: le_value(bytes.subrange(64, 72)),
                name_len: le_value(bytes.subrange(72, 76)),
                name_data: bytes.subrange(76, 126),
            },
        )
    } else {
        None
    }
}

/// The layout of a `Review` record.
pub open spec fn review_bytes(record: ReviewView) -> Seq<u8> {
    record.user + record.restaurant + le_bytes(record.rating, 1) + le_bytes(record.review_len, 4)
        + record.review_data + le_bytes(record.confidence_level, 1)
}

/// The `Review` record that bytes lay out, if they have its length.
pub open spec fn review_of(bytes: Seq<u8>) -> Option<ReviewView> {
    if bytes.len() == REVIEW_BYTES {
        Some(
            ReviewView {
                user: bytes.subrange(0, 32),
                restaurant: bytes.subrange(32, 64),
                rating: le_value(bytes.subrange(64, 65)),
                review_len: le_value(bytes.subrange(65, 69)),
                review_data: bytes.subrange(69, 269),
                confidence_level: le_value(bytes.subrange(269, 270)),
            },
        )
    } else {
        None
    }
}

/// Laying out a `UserStats` record and reading the bytes back gives the
/// record.
pub proof fn lemma_user_stats_round_trip(record: UserStatsView)
    requires
        record.fits(),
    ensures
        user_stats_bytes(record).len() == USER_STATS_BYTES,
        user_stats_of(user_stats_bytes(record)) == Some(record),
{
    let bytes = user_stats_bytes(record);
    lemma_pow256_widths();
    lemma_le_bytes_len(record.visit_count, 8);
    lemma_le_value_of_bytes(record.visit_count, 8);
    assert(bytes.subrange(0, 32) =~= record.user);
    assert(bytes.subrange(32, 64) =~= record.restaurant);
    assert(bytes.subrange(64, 72) =~= le_bytes(record.visit_count, 8));
}

/// Every 72 bytes lay out one `UserStats` record: reading them and laying the
/// record out again gives the same bytes.
pub proof fn lemma_user_stats_bytes_round_trip(bytes: Seq<u8>)
    requires
        bytes.len() == USER_STATS_BYTES,
    ensures
        user_stats_of(bytes) is Some,
        user_stats_of(bytes)->Some_0.fits(),
        user_stats_bytes(user_stats_of(bytes)->Some_0) == bytes,
{
    lemma_pow256_widths();
    lemma_le_bytes_of_value(bytes.subrange(64, 72));
    assert(user_stats_bytes(user_stats_of(bytes)->Some_0) =~= bytes);
}

/// Laying out a `DishStats` record and reading the bytes back gives the
/// record.
pub proof fn lemma_dish_stats_round_trip(record: DishStatsView)
    requires
        record.fits(),
    ensures
        dish_stats_bytes(record).len() == DISH_STATS_BYTES,
        dish_stats_of(dish_stats_bytes(record)) == Some(record),
{
    let bytes = dish_stats_bytes(record);
    lemma_pow256_widths();
    lemma_le_bytes_len(record.count, 8);
    lemma_le_bytes_len(record.name_len, 4);
    lemma_le_value_of_bytes(record.count, 8);
    lemma_le_value_of_bytes(record.name_len, 4);
    assert(bytes.subrange(0, 32) =~= record.user);
    assert(bytes.subrange(32, 64) =~= record.dish);
    assert(bytes.subrange(64, 72) =~= le_bytes(record.count, 8));
    assert(bytes.subrange(72, 76) =~= le_bytes(record.name_len, 4));
    assert(bytes.subrange(76, 126) =~= record.name_data);
}

/// Every 126 bytes lay out one `DishStats` record: reading them and laying
/// the record out again gives the same bytes.
pub proof fn lemma_dish_stats_bytes_round_trip(bytes: Seq<u8>)
    requires
        bytes.len() == DISH_STATS_BYTES,
    ensures
        dish_stats_of(bytes) is Some,
        dish_stats_of(bytes)->Some_0.fits(),
        dish_stats_bytes(dish_stats_of(bytes)->Some_0) == bytes,
{
    lemma_pow256_widths();
    lemma_le_bytes_of_value(bytes.subrange(64, 72));
    lemma_le_bytes_of_value(bytes.subrange(72, 76));
    assert(dish_stats_bytes(dish_stats_of(bytes)->Some_0) =~= bytes);
}

/// Laying out a `Review` record and reading the bytes back gives the record.
pub proof fn lemma_review_round_trip(record: ReviewView)
    requires
        record.fits(),
    ensures
        review_bytes(record).len() == REVIEW_BYTES,
        review_of(review_bytes(record)) == Some(record),
{
    let bytes = review_bytes(record);
    lemma_pow256_widths();
    lemma_le_bytes_len(record.rating, 1);
    lemma_le_bytes_len(record.review_len, 4);
    lemma_le_bytes_len(record.confidence_level, 1);
    lemma_le_value_of_bytes(record.rating, 1);
    lemma_le_value_of_bytes(record.review_len, 4);
    lemma_le_value_of_bytes(record.confidence_level, 1);
    assert(bytes.subrange(0, 32) =~= record.user);
    assert(bytes.subrange(32, 64) =~= record.restaurant);
    assert(bytes.subrange(64, 65) =~= le_bytes(record.rating, 1));
    assert(bytes.subrange(65, 69) =~= le_bytes(record.review_len, 4));
    assert(bytes.subrange(69, 269) =~= record.review_data);
    assert(bytes.subrange(269, 270) =~= le_bytes(record.confidence_level, 1));
}

/// Every 270 bytes lay out one `Review` record: reading them and laying the
/// record out again gives the same bytes.
pub proof fn lemma_review_bytes_round_trip(bytes: Seq<u8>)
    requires
        bytes.len() == REVIEW_BYTES,
    ensures
        review_of(bytes) is Some,
        review_of(bytes)->Some_0.fits(),
        review_bytes(review_of(bytes)->Some_0) == bytes,
{
    lemma_pow256_widths();
    lemma_le_bytes_of_value(bytes.subrange(64, 65));
    lemma_le_bytes_of_value(bytes.subrange(65, 69));
    lemma_le_bytes_of_value(bytes.subrange(269, 270));
    assert(review_bytes(review_of(bytes)->Some_0) =~= bytes);
}

impl UserStats {
    /// The 72 bytes of the record.
    pub fn to_bytes(&self) -> (bytes: Vec<u8>)
        ensures
            bytes@ == user_stats_bytes(self@),
            bytes@.len() == USER_STATS_BYTES,
    {
        let mut bytes: Vec<u8> = Vec::new();
        push_identity(&mut bytes, &self.user);
        push_identity(&mut bytes, &self.restaurant);
        push_le(&mut bytes, self.visit_count, 8);
        proof {
            lemma_le_bytes_len(self.visit_count as nat, 8);
            assert(bytes@ =~= user_stats_bytes(self@));
        }
        bytes
    }

    /// The record that the bytes lay out; `None` unless there are 72 of them.
    pub fn from_bytes(bytes: &[u8]) -> (found: Option<UserStats>)
        ensures
            match found {
                Some(record) => user_stats_of(bytes@) == Some(record@),
                None => user_stats_of(bytes@) is None,
            },
    {
        if bytes.len() != USER_STATS_BYTES {
            return None;
        }
        let user = read_identity(bytes, 0);
        let restaurant = read_identity(bytes, 32);
        let visit_count = read_le(bytes, 64, 8);
        Some(UserStats { user, restaurant, visit_count })
    }
}

impl DishStats {
    /// The 126 bytes of the record.
    pub fn to_bytes(&self) -> (bytes: Vec<u8>)
        ensures
            bytes@ == dish_stats_bytes(self@),
            bytes@.len() == DISH_STATS_BYTES,
    {
        let mut bytes: Vec<u8> = Vec::new();
        push_identity(&mut bytes, &self.user);
        push_identity(&mut bytes, &self.dish);
        push_le(&mut bytes, self.count, 8);
        push_le(&mut bytes, self.name_len as u64, 4);
        push_bytes(&mut bytes, &self.name_data);
        proof {
            lemma_le_bytes_len(self.count as nat, 8);
            lemma_le_bytes_len(self.name_len as nat, 4);
            assert(bytes@ =~= dish_stats_bytes(self@));
        }
        bytes
    }

    /// The record that the bytes lay out; `None` unless there are 126 of them.
    pub fn from_bytes(bytes: &[u8]) -> (found: Option<DishStats>)
        ensures
            match found {
                Some(record) => dish_stats_of(bytes@) == Some(record@),
                None => dish_stats_of(bytes@) is None,
            },
    {
        if bytes.len() != DISH_STATS_BYTES {
            return None;
        }
        let user = read_identity(bytes, 0);
        let dish = read_identity(bytes, 32);
        let count = read_le(bytes, 64, 8);
        let name_len = read_le(bytes, 72, 4);
        let name_data = read_array::<50>(bytes, 76);
        proof {
            lemma_pow256_widths();
        }
        Some(DishStats { user, dish, count, name_len: name_len as u32, name_data })
    }
}

impl Review {
    /// The 270 bytes of the record.
    pub fn to_bytes(&self) -> (bytes: Vec<u8>)
        ensures
            bytes@ == review_bytes(self@),
            bytes@.len() == REVIEW_BYTES,
    {
        let mut bytes: Vec<u8> = Vec::new();
        push_identity(&mut bytes, &self.user);
        push_identity(&mut bytes, &self.restaurant);
        push_le(&mut bytes, self.rating as u64, 1);
        push_le(&mut bytes, self.review_len as u64, 4);
        push_bytes(&mut bytes, &self.review_data);
        push_le(&mut bytes, self.confidence_level as u64, 1);
        proof {
            lemma_le_bytes_len(self.rating as nat, 1);
            lemma_le_bytes_len(self.review_len as nat, 4);
            lemma_le_bytes_len(self.confidence_level as nat, 1);
            assert(bytes@ =~= review_bytes(self@));
        }
        bytes
    }

    /// The record that the bytes lay out; `None` unless there are 270 of them.
    pub fn from_bytes(bytes: &[u8]) -> (found: Option<Review>)
        ensures
            match found {
                Some(record) => review_of(bytes@) == Some(record@),
                None => review_of(bytes@) is None,
            },
    {
        if bytes.len() != REVIEW_BYTES {
            return None;
        }
        let user = read_identity(bytes, 0);
        let restaurant = read_identity(bytes, 32);
        let rating = read_le(bytes, 64, 1);
        let review_len = read_le(bytes, 65, 4);
        let review_data = read_array::<200>(bytes, 69);
        let confidence_level = read_le(bytes, 269, 1);
        proof {
            lemma_pow256_widths();
        }
        Some(
            Review {
                user,
                restaurant,
                rating: rating as u8,
                review_len: review_len as u32,
                review_data,
                confidence_level: confidence_level as u8,
            },
        )
    }
}

} // verus!
