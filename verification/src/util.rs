//! Fixed-width byte fields.

use vstd::prelude::*;
use vstd::string::StringSliceAdditionalSpecFns;

verus! {

/// The first `n` bytes of `bytes`, with zeros after them where `bytes` is
/// shorter than `n`.
pub open spec fn fixed_width(bytes: Seq<u8>, n: nat) -> Seq<u8> {
    Seq::new(
        n,
        |i: int|
            if i < bytes.len() {
                bytes[i]
            } else {
                0u8
            },
    )
}

/// A field of `fixed_width` is never longer or shorter than asked for, and
/// puts nothing but zeros behind the text.
pub proof fn lemma_fixed_width(bytes: Seq<u8>, n: nat)
    ensures
        fixed_width(bytes, n).len() == n,
        bytes.len() >= n ==> fixed_width(bytes, n) == bytes.take(n as int),
        bytes.len() <= n ==> fixed_width(bytes, n) == bytes + Seq::new(
            (n - bytes.len()) as nat,
            |i: int| 0u8,
        ),
{
}

/// Fits the UTF-8 bytes of `src` into a field of `N` bytes: a longer text is
/// cut after `N` bytes, a shorter one is followed by zeros.
pub fn from_string_to_u8<const N: usize>(src: &str) -> (dst: [u8; N])
    ensures
        dst@ == fixed_width(src.spec_bytes(), N as nat),
{
    let bytes = src.as_bytes();
    let mut dst: [u8; N] = [0u8; N];
    let len: usize = if bytes.len() < N {
        bytes.len()
    } else {
        N
    };
    let mut i: usize = 0;
    while i < len
        invariant
            i <= len,
            len <= N,
            len <= bytes@.len(),
            dst@.len() == N,
            forall|j: int| 0 <= j < i ==> dst@[j] == bytes@[j],
            forall|j: int| i <= j < N ==> dst@[j] == 0u8,
        decreases len - i,
    {
        dst[i] = bytes[i];
        i = i + 1;
    }
    dst
}

} // verus!
