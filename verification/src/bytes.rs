//! Byte-level building blocks shared by every encoder: comparison,
//! concatenation and fixed-width big-endian words.

use vstd::prelude::*;

verus! {

/// Width in bytes of an account or contract address.
pub const ADDRESS_LEN: usize = 20;

/// Width in bytes of one word of a call's fixed fields.
pub const WORD_LEN: usize = 32;

/// The big-endian digits of `n` in base 256, `len` bytes wide; digits above the
/// width are cut off.
pub open spec fn be_bytes(n: nat, len: nat) -> Seq<u8>
    decreases len,
{
    if len == 0 {
        Seq::<u8>::empty()
    } else {
        be_bytes(n / 256, (len - 1) as nat).push((n % 256) as u8)
    }
}

/// `len` zero bytes.
pub open spec fn zeros(len: nat) -> Seq<u8> {
    Seq::new(len, |i: int| 0u8)
}

/// `a` on the right of a field of `len` bytes, zero-filled on the left.
pub open spec fn left_padded(a: Seq<u8>, len: nat) -> Seq<u8>
    recommends
        a.len() <= len,
{
    zeros((len - a.len()) as nat) + a
}

/// Whether two byte strings hold the same bytes.
pub fn bytes_eq(a: &Vec<u8>, b: &Vec<u8>) -> (same: bool)
    ensures
        same == (a@ == b@),
{
    if a.len() != b.len() {
        return false;
    }
    let mut i: usize = 0;
    while i < a.len()
        invariant
            a@.len() == b@.len(),
            i <= a@.len(),
            a@.subrange(0, i as int) == b@.subrange(0, i as int),
        decreases a@.len() - i,
    {
        if a[i] != b[i] {
            return false;
        }
        proof {
            assert(a@.subrange(0, i + 1) == a@.subrange(0, i as int).push(a@[i as int]));
            assert(b@.subrange(0, i + 1) == b@.subrange(0, i as int).push(b@[i as int]));
        }
        i += 1;
    }
    proof {
        assert(a@ == a@.subrange(0, a@.len() as int));
        assert(b@ == b@.subrange(0, b@.len() as int));
    }
    true
}

/// Appends the bytes of `tail` to `out`.
pub fn append(out: &mut Vec<u8>, tail: &Vec<u8>)
    ensures
        final(out)@ == old(out)@ + tail@,
{
    let mut i: usize = 0;
    while i < tail.len()
        invariant
            i <= tail@.len(),
            out@ == old(out)@ + tail@.subrange(0, i as int),
        decreases tail@.len() - i,
    {
        out.push(tail[i]);
        proof {
            assert(tail@.subrange(0, i + 1) == tail@.subrange(0, i as int).push(tail@[i as int]));
        }
        i += 1;
    }
    proof {
        assert(tail@ == tail@.subrange(0, tail@.len() as int));
    }
}

/// Appends `count` zero bytes to `out`.
pub fn append_zeros(out: &mut Vec<u8>, count: usize)
    ensures
        final(out)@ == old(out)@ + zeros(count as nat),
{
    let mut i: usize = 0;
    while i < count
        invariant
            i <= count,
            out@ == old(out)@ + zeros(i as nat),
        decreases count - i,
    {
        out.push(0u8);
        proof {
            assert(zeros((i + 1) as nat) == zeros(i as nat).push(0u8));
        }
        i += 1;
    }
    proof {
        assert(old(out)@ + zeros(0) == old(out)@);
    }
}

/// Appends `a` as one field of `len` bytes, zero-filled on the left.
pub fn append_left_padded(out: &mut Vec<u8>, a: &Vec<u8>, len: usize)
    requires
        a@.len() <= len,
    ensures
        final(out)@ == old(out)@ + left_padded(a@, len as nat),
{
    append_zeros(out, len - a.len());
    append(out, a);
}

/// Appends `n` as `len` big-endian bytes; digits above the width are cut off.
pub fn append_be(out: &mut Vec<u8>, n: u128, len: usize)
    ensures
        final(out)@ == old(out)@ + be_bytes(n as nat, len as nat),
{
    let mut digits: Vec<u8> = Vec::new();
    let mut rest: u128 = n;
    let mut i: usize = 0;
    // Least significant digit first.
    while i < len
        invariant
            i <= len,
            digits@.len() == i,
            forall|k: nat| #![trigger be_bytes(rest as nat, k)]
                be_bytes(n as nat, (k + i) as nat) == be_bytes(rest as nat, k) + digits@.reverse(),
        decreases len - i,
    {
        let digit: u8 = (rest % 256) as u8;
        let ghost before = digits@;
        let ghost rest_before = rest;
        digits.push(digit);
        rest = rest / 256;
        proof {
            assert(digits@.reverse() == seq![digit] + before.reverse());
            assert forall|k: nat| #![trigger be_bytes(rest as nat, k)]
                be_bytes(n as nat, (k + i + 1) as nat) == be_bytes(rest as nat, k) + digits@.reverse() by {
                assert(be_bytes(rest_before as nat, (k + 1) as nat) == be_bytes(rest as nat, k).push(digit));
                assert(be_bytes(rest as nat, k).push(digit) + before.reverse()
                    == be_bytes(rest as nat, k) + (seq![digit] + before.reverse()));
            }
        }
        i += 1;
    }
    let mut j: usize = len;
    while j > 0
        invariant
            j <= len,
            digits@.len() == len,
            out@ == old(out)@ + digits@.reverse().subrange(0, len - j),
        decreases j,
    {
        j -= 1;
        out.push(digits[j]);
        proof {
            let r = digits@.reverse();
            assert(r[len - 1 - j] == digits@[j as int]);
            assert(r.subrange(0, len - j) == r.subrange(0, len - j - 1).push(r[len - 1 - j]));
        }
    }
    proof {
        let r = digits@.reverse();
        assert(r.subrange(0, len as int) == r);
        assert(be_bytes(n as nat, (0nat + len) as nat) == be_bytes(rest as nat, 0) + r);
        assert(be_bytes(rest as nat, 0) + r == r);
    }
}

} // verus!
