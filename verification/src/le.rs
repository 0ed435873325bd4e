//! Little-endian encoding of integers into byte buffers.

use vstd::prelude::*;

verus! {

/// The `width` low-order base-256 digits of `value`, least significant
/// first.
pub open spec fn le_bytes(value: nat, width: nat) -> Seq<u8>
    decreases width,
{
    if width == 0 {
        Seq::empty()
    } else {
        seq![(value % 256) as u8] + le_bytes(value / 256, (width - 1) as nat)
    }
}

/// The unsigned number with the same 64-bit two's complement pattern.
pub open spec fn unsigned_of_i64(value: i64) -> nat {
    if value >= 0 {
        value as nat
    } else {
        (0x1_0000_0000_0000_0000 + value) as nat
    }
}

/// The unsigned number with the same 16-bit two's complement pattern.
pub open spec fn unsigned_of_i16(value: i16) -> nat {
    if value >= 0 {
        value as nat
    } else {
        (0x1_0000 + value) as nat
    }
}

/// `le_bytes` has exactly `width` digits.
pub proof fn lemma_le_bytes_len(value: nat, width: nat)
    ensures
        le_bytes(value, width).len() == width,
    decreases width,
{
    if width > 0 {
        lemma_le_bytes_len(value / 256, (width - 1) as nat);
    }
}

/// Dropping the first digit leaves the digits of `value / 256`.
pub proof fn lemma_le_bytes_tail(value: nat, width: nat)
    requires
        width > 0,
    ensures
        le_bytes(value, width)[0] == (value % 256) as u8,
        le_bytes(value, width).subrange(1, width as int) == le_bytes(
            value / 256,
            (width - 1) as nat,
        ),
{
    lemma_le_bytes_len(value, width);
    lemma_le_bytes_len(value / 256, (width - 1) as nat);
    assert(le_bytes(value, width).subrange(1, width as int) =~= le_bytes(
        value / 256,
        (width - 1) as nat,
    ));
}

/// The two's complement pattern of a 64-bit signed number.
pub fn i64_pattern(value: i64) -> (pattern: u64)
    ensures
        pattern == unsigned_of_i64(value),
{
    if value >= 0 {
        value as u64
    } else {
        u64::MAX - ((-(value + 1)) as u64)
    }
}

/// The two's complement pattern of a 16-bit signed number.
pub fn i16_pattern(value: i16) -> (pattern: u64)
    ensures
        pattern == unsigned_of_i16(value),
{
    if value >= 0 {
        value as u64
    } else {
        0xFFFF - ((-(value + 1)) as u64)
    }
}

/// Writes the `width` low-order bytes of `value` into `buf` at `at`, least
/// significant first, and leaves every other byte as it was.
pub fn put_le<const N: usize>(buf: &mut [u8; N], at: usize, value: u64, width: usize)
    requires
        at + width <= N,
    ensures
        forall|i: int|
            at <= i < at + width ==> #[trigger] final(buf)@[i] == le_bytes(
                value as nat,
                width as nat,
            )[i - at],
        forall|i: int| 0 <= i < at || at + width <= i < N ==> #[trigger] final(buf)@[i] == old(buf)@[i],
{
    let mut rest: u64 = value;
    let mut done: usize = 0;
    proof {
        lemma_le_bytes_len(value as nat, width as nat);
        assert(le_bytes(value as nat, width as nat).subrange(0, width as int) =~= le_bytes(
            value as nat,
            width as nat,
        ));
    }
    while done < width
        invariant
            done <= width,
            at + width <= N,
            le_bytes(value as nat, width as nat).len() == width,
            le_bytes(value as nat, width as nat).subrange(done as int, width as int) == le_bytes(
                rest as nat,
                (width - done) as nat,
            ),
            forall|i: int|
                at <= i < at + done ==> #[trigger] buf@[i] == le_bytes(
                    value as nat,
                    width as nat,
                )[i - at],
            forall|i: int| 0 <= i < at || at + done <= i < N ==> #[trigger] buf@[i] == old(buf)@[i],
        decreases width - done,
    {
        proof {
            lemma_le_bytes_tail(rest as nat, (width - done) as nat);
            let all = le_bytes(value as nat, width as nat);
            let tail = all.subrange(done as int, width as int);
            assert(tail[0] == all[done as int]);
            assert(tail.subrange(1, (width - done) as int) =~= all.subrange(
                done + 1,
                width as int,
            ));
        }
        buf[at + done] = (rest % 256) as u8;
        rest = rest / 256;
        done = done + 1;
    }
}

} // verus!
