//! Integers of variable length: seven bits to a byte, the least significant first, and the high
//! bit set in every byte but the last.
use vstd::prelude::*;

verus! {

/// The shortest encoding of a number.
pub open spec fn varint(n: nat) -> Seq<u8>
    decreases n,
{
    if n < 128 {
        seq![n as u8]
    } else {
        seq![(128 + n % 128) as u8] + varint(n / 128)
    }
}

/// The number whose groups of seven bits the bytes hold.
pub open spec fn varint_value(s: Seq<u8>) -> nat
    decreases s.len(),
{
    if s.len() == 0 {
        0
    } else {
        (s[0] % 128) as nat + 128 * varint_value(s.drop_first())
    }
}

/// The high bit is set in every byte but the last.
pub open spec fn terminated(s: Seq<u8>) -> bool {
    &&& s.len() >= 1
    &&& s.last() < 128
    &&& forall|i: int| 0 <= i < s.len() - 1 ==> s[i] >= 128
}

/// The bytes are an encoding, in at most `limit` bytes, of the number `n`, which is at most `max`.
/// The encoding need not be the shortest.
pub open spec fn is_varint(s: Seq<u8>, limit: nat, max: nat, n: nat) -> bool {
    &&& terminated(s)
    &&& s.len() <= limit
    &&& varint_value(s) == n
    &&& n <= max
}

/// The number of bytes that an encoding of an integer of `bits` bits may take.
pub open spec fn varint_limit(bits: nat) -> nat {
    (bits + 6) / 7
}

/// The shortest encoding is an encoding of its number.
proof fn varint_shape(n: nat)
    ensures
        terminated(varint(n)),
        varint_value(varint(n)) == n,
    decreases n,
{
    let s = varint(n);
    if n < 128 {
        assert(s.drop_first() =~= Seq::<u8>::empty());
        assert(varint_value(s.drop_first()) == 0);
    } else {
        varint_shape(n / 128);
        let rest = varint(n / 128);
        assert(s.drop_first() =~= rest);
        assert(s.last() == rest.last());
        assert forall|i: int| 0 <= i < s.len() - 1 implies s[i] >= 128 by {
            if i > 0 {
                assert(s[i] == rest[i - 1]);
            }
        }
    }
}

/// A number below `128` to the power of `k` takes at most `k` bytes.
proof fn varint_length(n: nat, k: nat)
    requires
        k >= 1,
        n < vstd::arithmetic::power::pow(128, k),
    ensures
        varint(n).len() <= k,
    decreases k,
{
    reveal_with_fuel(vstd::arithmetic::power::pow, 2);
    if n >= 128 {
        assert(k >= 2);
        assert(vstd::arithmetic::power::pow(128, k) == 128 * vstd::arithmetic::power::pow(
            128,
            (k - 1) as nat,
        ));
        varint_length(n / 128, (k - 1) as nat);
    }
}

/// The shortest encoding of a length is accepted where one is expected.
pub proof fn varint_of_usize(n: usize)
    ensures
        is_varint(varint(n as nat), varint_limit(usize::BITS as nat), usize::MAX as nat, n as nat),
{
    varint_shape(n as nat);
    assert(vstd::arithmetic::power::pow(128, 5) == 0x8_0000_0000) by {
        reveal_with_fuel(vstd::arithmetic::power::pow, 6);
    }
    assert(vstd::arithmetic::power::pow(128, 10) == 0x40_0000_0000_0000_0000) by {
        reveal_with_fuel(vstd::arithmetic::power::pow, 11);
    }
    if usize::BITS == 32 {
        varint_length(n as nat, 5);
    } else {
        varint_length(n as nat, 10);
    }
}

/// At most one prefix of a byte string is an encoding.
pub proof fn varint_ends_at_one_place(s: Seq<u8>, from: int, i: int, j: int)
    requires
        0 <= from <= i <= s.len(),
        from <= j <= s.len(),
        terminated(s.subrange(from, i)),
        terminated(s.subrange(from, j)),
    ensures
        i == j,
{
    let a = s.subrange(from, i);
    let b = s.subrange(from, j);
    if i < j {
        assert(a.last() == b[a.len() - 1]);
    } else if j < i {
        assert(b.last() == a[b.len() - 1]);
    }
}

} // verus!
