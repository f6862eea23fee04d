//! Byte-level vocabulary shared by the protocol decoders: big-endian numbers
//! and NUL-terminated text.

use vstd::prelude::*;

verus! {

/// The number that a byte sequence denotes when read in big-endian order.
pub open spec fn be_value(s: Seq<u8>) -> nat
    decreases s.len(),
{
    if s.len() == 0 {
        0
    } else {
        be_value(s.drop_last()) * 256 + s.last() as nat
    }
}

/// The `width` bytes that denote `n` in big-endian order (the low `width`
/// bytes of `n` when it needs more).
pub open spec fn be_bytes(n: nat, width: nat) -> Seq<u8>
    decreases width,
{
    if width == 0 {
        Seq::empty()
    } else {
        be_bytes(n / 256, (width - 1) as nat).push((n % 256) as u8)
    }
}

/// `256` to the power `width`: the number of values that `width` bytes can denote.
pub open spec fn byte_range(width: nat) -> nat
    decreases width,
{
    if width == 0 {
        1
    } else {
        256 * byte_range((width - 1) as nat)
    }
}

/// `be_bytes` always yields exactly `width` bytes.
pub proof fn lemma_be_bytes_len(n: nat, width: nat)
    ensures
        be_bytes(n, width).len() == width,
    decreases width,
{
    if width > 0 {
        lemma_be_bytes_len(n / 256, (width - 1) as nat);
    }
}

/// Reading back what `be_bytes` wrote gives the number again, as long as it
/// fits in `width` bytes.
pub proof fn lemma_be_round_trip(n: nat, width: nat)
    requires
        n < byte_range(width),
    ensures
        be_value(be_bytes(n, width)) == n,
    decreases width,
{
    if width > 0 {
        let head = be_bytes(n / 256, (width - 1) as nat);
        lemma_be_round_trip(n / 256, (width - 1) as nat);
        assert(be_bytes(n, width).drop_last() =~= head);
    }
}

/// The ranges of the widths that the protocols use.
pub proof fn lemma_byte_ranges()
    ensures
        byte_range(2) == 0x1_0000,
        byte_range(4) == 0x1_0000_0000,
        byte_range(16) == 0x1_0000_0000_0000_0000_0000_0000_0000_0000,
{
    reveal_with_fuel(byte_range, 17);
}

/// The position of the first NUL byte of `s`, or `s.len()` where it has none.
pub open spec fn nul_position(s: Seq<u8>) -> nat
    decreases s.len(),
{
    if s.len() == 0 || s[0] == 0 {
        0
    } else {
        1 + nul_position(s.skip(1))
    }
}

/// `nul_position` is the one position before which no byte is NUL and at
/// which the sequence ends or holds a NUL.
pub proof fn lemma_nul_position(s: Seq<u8>, at: nat)
    requires
        at <= s.len(),
        forall|i: int| 0 <= i < at ==> s[i] != 0,
        at < s.len() ==> s[at as int] == 0,
    ensures
        nul_position(s) == at,
    decreases s.len(),
{
    if at > 0 {
        let rest = s.skip(1);
        assert forall|i: int| 0 <= i < at - 1 implies rest[i] != 0 by {
            assert(rest[i] == s[i + 1]);
        }
        lemma_nul_position(rest, (at - 1) as nat);
    }
}

/// What `nul_position` returns has the properties that define it.
pub proof fn lemma_nul_position_is_first(s: Seq<u8>)
    ensures
        nul_position(s) <= s.len(),
        forall|i: int| 0 <= i < nul_position(s) ==> s[i] != 0,
        nul_position(s) < s.len() ==> s[nul_position(s) as int] == 0,
    decreases s.len(),
{
    if s.len() != 0 && s[0] != 0 {
        let rest = s.skip(1);
        lemma_nul_position_is_first(rest);
        assert forall|i: int| 0 <= i < nul_position(s) implies s[i] != 0 by {
            if i > 0 {
                assert(rest[i - 1] == s[i]);
            }
        }
    }
}

/// A NUL-free prefix has no terminator; a prefix that reaches past the first
/// NUL has it where the whole sequence has it.
pub proof fn lemma_nul_position_prefix(s: Seq<u8>, k: int)
    requires
        0 <= k <= s.len(),
    ensures
        k <= nul_position(s) ==> nul_position(s.take(k)) == k,
        k > nul_position(s) ==> nul_position(s.take(k)) == nul_position(s),
{
    lemma_nul_position_is_first(s);
    let p = s.take(k);
    if k <= nul_position(s) {
        lemma_nul_position(p, k as nat);
    } else {
        lemma_nul_position(p, nul_position(s));
    }
}

/// The bytes of a stream that arrives in the pieces `chunks`.
pub open spec fn joined(chunks: Seq<Seq<u8>>) -> Seq<u8>
    decreases chunks.len(),
{
    if chunks.len() == 0 {
        Seq::empty()
    } else {
        joined(chunks.drop_last()) + chunks.last()
    }
}

/// What has arrived with the first `k` pieces is a prefix of the stream.
pub proof fn lemma_joined_prefix(chunks: Seq<Seq<u8>>, k: int)
    requires
        0 <= k <= chunks.len(),
    ensures
        joined(chunks.take(k)).len() <= joined(chunks).len(),
        joined(chunks.take(k)) == joined(chunks).take(joined(chunks.take(k)).len() as int),
    decreases chunks.len(),
{
    if k == chunks.len() {
        assert(chunks.take(k) =~= chunks);
        assert(joined(chunks).take(joined(chunks).len() as int) =~= joined(chunks));
    } else {
        let head = chunks.drop_last();
        lemma_joined_prefix(head, k);
        assert(head.take(k) =~= chunks.take(k));
        let n = joined(chunks.take(k)).len() as int;
        assert(joined(chunks).take(n) =~= joined(head).take(n));
    }
}

} // verus!
