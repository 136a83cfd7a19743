//! Bounded text: a text cut to a fixed capacity and padded with zeros.

use vstd::prelude::*;

verus! {

/// The number of bytes of a text of `len` bytes that a buffer of `capacity`
/// bytes keeps.
pub open spec fn kept_len(len: nat, capacity: nat) -> nat {
    if len <= capacity {
        len
    } else {
        capacity
    }
}

/// `count` zero bytes.
pub open spec fn zeros(count: nat) -> Seq<u8> {
    Seq::new(count, |i: int| 0u8)
}

/// The content of a buffer of `capacity` bytes that holds `text`: the first
/// bytes of the text, as many as fit, and zeros after them.
pub open spec fn padded(text: Seq<u8>, capacity: nat) -> Seq<u8> {
    let kept = kept_len(text.len(), capacity);
    text.subrange(0, kept as int) + zeros((capacity - kept) as nat)
}

/// Whether `data` is a buffer that holds a text of `len` bytes: the length is
/// within the buffer and every byte after the text is zero.
pub open spec fn is_bounded_text(len: nat, data: Seq<u8>) -> bool {
    &&& len <= data.len()
    &&& forall|i: int| len <= i < data.len() ==> data[i] == 0u8
}

/// A padded text is a bounded text of the kept length.
pub proof fn lemma_padded_is_bounded(text: Seq<u8>, capacity: nat)
    ensures
        padded(text, capacity).len() == capacity,
        is_bounded_text(kept_len(text.len(), capacity), padded(text, capacity)),
        padded(text, capacity).subrange(0, kept_len(text.len(), capacity) as int)
            == text.subrange(0, kept_len(text.len(), capacity) as int),
{
    let kept = kept_len(text.len(), capacity);
    assert(padded(text, capacity).subrange(0, kept as int) =~= text.subrange(0, kept as int));
}

/// Cuts `text` to the `N` bytes of a buffer, silently: a longer text loses its
/// tail, a shorter one is followed by zeros. Returns the kept length and the
/// buffer.
pub fn fit<const N: usize>(text: &[u8]) -> (fitted: (u32, [u8; N]))
    requires
        N <= u32::MAX,
    ensures
        fitted.0 == kept_len(text@.len(), N as nat),
        fitted.1@ == padded(text@, N as nat),
{
    let kept: usize = if text.len() <= N {
        text.len()
    } else {
        N
    };
    let mut data: [u8; N] = [0u8;N];
    let mut i: usize = 0;
    while i < kept
        invariant
            i <= kept,
            kept <= N,
            kept <= text@.len(),
            forall|j: int| 0 <= j < i ==> data@[j] == text@[j],
            forall|j: int| i <= j < N ==> data@[j] == 0u8,
        decreases kept - i,
    {
        data[i] = text[i];
        i += 1;
    }
    assert(data@ =~= padded(text@, N as nat));
    (kept as u32, data)
}

} // verus!
