//! CRC-16/MCRF4XX, the checksum of the MAVLink wire format.
//!
//! The checksum is defined bit by bit: polynomial `0x1021` in its reflected
//! form `0x8408`, initial value `0xFFFF`, input and output reflected, no final
//! xor. [`checksum`] computes it and is proved against that definition, and
//! the lemmas show which corruptions the checksum is certain to detect.

use vstd::prelude::*;

verus! {

/// The reflected generator polynomial.
pub const POLY: u16 = 0x8408;

/// The register before the first byte.
pub const INIT: u16 = 0xFFFF;

/// One shift of the register.
pub open spec fn shift(s: u16) -> u16 {
    if s & 1 == 1 {
        (s >> 1) ^ POLY
    } else {
        s >> 1
    }
}

/// The register after one more byte.
pub open spec fn absorb(s: u16, b: u8) -> u16 {
    shift(shift(shift(shift(shift(shift(shift(shift(s ^ (b as u16)))))))))
}

/// The register after all bytes of `data`, starting from `s`.
pub open spec fn fold(s: u16, data: Seq<u8>) -> u16
    decreases data.len(),
{
    if data.len() == 0 {
        s
    } else {
        absorb(fold(s, data.drop_last()), data.last())
    }
}

/// The CRC-16/MCRF4XX checksum of `data`.
pub open spec fn crc16(data: Seq<u8>) -> u16 {
    fold(INIT, data)
}

/// Folding over a concatenation folds over the parts in turn.
pub proof fn lemma_fold_concat(s: u16, a: Seq<u8>, b: Seq<u8>)
    ensures
        fold(s, a + b) == fold(fold(s, a), b),
    decreases b.len(),
{
    if b.len() == 0 {
    } else {
        assert((a + b).drop_last() =~= a + b.drop_last());
        lemma_fold_concat(s, a, b.drop_last());
    }
}

/// Folding over one more byte absorbs it.
pub proof fn lemma_fold_push(s: u16, a: Seq<u8>, b: u8)
    ensures
        fold(s, a.push(b)) == absorb(fold(s, a), b),
{
    assert(a.push(b).drop_last() =~= a);
}

/// Two registers that absorb the same byte stay apart.
pub proof fn lemma_absorb_keeps_registers_apart(s: u16, t: u16, b: u8)
    requires
        s != t,
    ensures
        absorb(s, b) != absorb(t, b),
{
    assert(s != t ==> absorb(s, b) != absorb(t, b)) by (bit_vector);
}

/// One register that absorbs two different bytes splits.
pub proof fn lemma_absorb_tells_bytes_apart(s: u16, b: u8, c: u8)
    requires
        b != c,
    ensures
        absorb(s, b) != absorb(s, c),
{
    assert(b != c ==> absorb(s, b) != absorb(s, c)) by (bit_vector);
}

/// Two registers that fold over the same bytes stay apart.
pub proof fn lemma_fold_keeps_registers_apart(s: u16, t: u16, data: Seq<u8>)
    requires
        s != t,
    ensures
        fold(s, data) != fold(t, data),
    decreases data.len(),
{
    if data.len() > 0 {
        lemma_fold_keeps_registers_apart(s, t, data.drop_last());
        lemma_absorb_keeps_registers_apart(
            fold(s, data.drop_last()),
            fold(t, data.drop_last()),
            data.last(),
        );
    }
}

/// A change to a single byte always changes the checksum.
pub proof fn lemma_single_byte_change_detected(data: Seq<u8>, i: int, b: u8)
    requires
        0 <= i < data.len(),
        b != data[i],
    ensures
        crc16(data.update(i, b)) != crc16(data),
{
    let head = data.subrange(0, i);
    let tail = data.subrange(i + 1, data.len() as int);
    assert(data =~= head.push(data[i]) + tail);
    assert(data.update(i, b) =~= head.push(b) + tail);
    lemma_fold_concat(INIT, head.push(data[i]), tail);
    lemma_fold_concat(INIT, head.push(b), tail);
    lemma_fold_push(INIT, head, data[i]);
    lemma_fold_push(INIT, head, b);
    lemma_absorb_tells_bytes_apart(fold(INIT, head), data[i], b);
    lemma_fold_keeps_registers_apart(
        fold(INIT, head.push(data[i])),
        fold(INIT, head.push(b)),
        tail,
    );
}

/// The register after one more byte.
pub fn absorb_byte(s: u16, b: u8) -> (r: u16)
    ensures
        r == absorb(s, b),
{
    let mut r: u16 = s ^ (b as u16);
    let mut k: u8 = 0;
    let ghost start: u16 = r;
    while k < 8
        invariant
            k <= 8,
            start == s ^ (b as u16),
            k == 0 ==> r == start,
            k == 1 ==> r == shift(start),
            k == 2 ==> r == shift(shift(start)),
            k == 3 ==> r == shift(shift(shift(start))),
            k == 4 ==> r == shift(shift(shift(shift(start)))),
            k == 5 ==> r == shift(shift(shift(shift(shift(start))))),
            k == 6 ==> r == shift(shift(shift(shift(shift(shift(start)))))),
            k == 7 ==> r == shift(shift(shift(shift(shift(shift(shift(start))))))),
            k == 8 ==> r == shift(shift(shift(shift(shift(shift(shift(shift(start)))))))),
        decreases 8 - k,
    {
        if r & 1 == 1 {
            r = (r >> 1) ^ POLY;
        } else {
            r = r >> 1;
        }
        k = k + 1;
    }
    r
}

/// The register after all bytes of `data`, starting from `s`.
pub fn update(s: u16, data: &[u8]) -> (r: u16)
    ensures
        r == fold(s, data@),
{
    let mut r: u16 = s;
    let mut i: usize = 0;
    while i < data.len()
        invariant
            i <= data.len(),
            r == fold(s, data@.take(i as int)),
        decreases data.len() - i,
    {
        proof {
            assert(data@.take(i + 1) =~= data@.take(i as int).push(data@[i as int]));
            lemma_fold_push(s, data@.take(i as int), data@[i as int]);
        }
        r = absorb_byte(r, data[i]);
        i = i + 1;
    }
    proof {
        assert(data@.take(data.len() as int) =~= data@);
    }
    r
}

/// The CRC-16/MCRF4XX checksum of `data`.
pub fn checksum(data: &[u8]) -> (r: u16)
    ensures
        r == crc16(data@),
{
    update(INIT, data)
}

} // verus!
