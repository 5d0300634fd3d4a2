//! Fixed-width integers as byte sequences, in both byte orders.

use vstd::arithmetic::div_mod::lemma_mod_breakdown;
use vstd::prelude::*;

verus! {

/// The `n` bytes of `v`, least significant first. What does not fit in `n`
/// bytes is cut off.
pub open spec fn le(v: nat, n: nat) -> Seq<u8>
    decreases n,
{
    if n == 0 {
        Seq::empty()
    } else {
        seq![(v % 256) as u8] + le(v / 256, (n - 1) as nat)
    }
}

/// The number that `s` spells, least significant byte first.
pub open spec fn le_value(s: Seq<u8>) -> nat
    decreases s.len(),
{
    if s.len() == 0 {
        0
    } else {
        s[0] as nat + 256 * le_value(s.skip(1))
    }
}

/// The `n` bytes of `v`, most significant first. What does not fit in `n`
/// bytes is cut off.
pub open spec fn be(v: nat, n: nat) -> Seq<u8>
    decreases n,
{
    if n == 0 {
        Seq::empty()
    } else {
        be(v / 256, (n - 1) as nat).push((v % 256) as u8)
    }
}

/// The number that `s` spells, most significant byte first.
pub open spec fn be_value(s: Seq<u8>) -> nat
    decreases s.len(),
{
    if s.len() == 0 {
        0
    } else {
        be_value(s.drop_last()) * 256 + s.last() as nat
    }
}

/// 256 to the power of `n`.
pub open spec fn pow256(n: nat) -> nat
    decreases n,
{
    if n == 0 {
        1
    } else {
        256 * pow256((n - 1) as nat)
    }
}

/// The bit pattern of a signed 32-bit number.
pub open spec fn word32(v: i32) -> nat {
    if v < 0 {
        (v + 0x1_0000_0000) as nat
    } else {
        v as nat
    }
}

/// The signed 32-bit number with the bit pattern `w`.
pub open spec fn signed32(w: nat) -> int {
    if w >= 0x8000_0000 {
        w - 0x1_0000_0000
    } else {
        w as int
    }
}

/// Reading back a little-endian number gives what was written, for every
/// number that the width can hold.
pub proof fn lemma_le_roundtrip(v: nat, n: nat)
    requires
        v < pow256(n),
    ensures
        le_value(le(v, n)) == v,
        le(v, n).len() == n,
    decreases n,
{
    if n > 0 {
        let t = le(v / 256, (n - 1) as nat);
        lemma_le_roundtrip(v / 256, (n - 1) as nat);
        assert(le(v, n).skip(1) =~= t);
        assert(le(v, n)[0] == (v % 256) as u8);
    }
}

/// Reading back a big-endian number gives what was written, for every number
/// that the width can hold.
pub proof fn lemma_be_roundtrip(v: nat, n: nat)
    requires
        v < pow256(n),
    ensures
        be_value(be(v, n)) == v,
        be(v, n).len() == n,
    decreases n,
{
    if n > 0 {
        lemma_be_roundtrip(v / 256, (n - 1) as nat);
        assert(be(v, n).drop_last() =~= be(v / 256, (n - 1) as nat));
    }
}

pub proof fn lemma_le_len(v: nat, n: nat)
    ensures
        le(v, n).len() == n,
    decreases n,
{
    if n > 0 {
        lemma_le_len(v / 256, (n - 1) as nat);
    }
}

pub proof fn lemma_be_len(v: nat, n: nat)
    ensures
        be(v, n).len() == n,
    decreases n,
{
    if n > 0 {
        lemma_be_len(v / 256, (n - 1) as nat);
    }
}

/// A little-endian field of `n` bytes holds less than 256 to the power of `n`.
pub proof fn lemma_le_value_bound(s: Seq<u8>)
    ensures
        le_value(s) < pow256(s.len()),
    decreases s.len(),
{
    if s.len() > 0 {
        lemma_le_value_bound(s.skip(1));
    }
}

/// A big-endian field of `n` bytes holds less than 256 to the power of `n`.
pub proof fn lemma_be_value_bound(s: Seq<u8>)
    ensures
        be_value(s) < pow256(s.len()),
    decreases s.len(),
{
    if s.len() > 0 {
        lemma_be_value_bound(s.drop_last());
    }
}

/// Writing back what was read gives the same bytes, little-endian.
pub proof fn lemma_le_reencode(s: Seq<u8>)
    ensures
        le(le_value(s), s.len()) =~= s,
    decreases s.len(),
{
    if s.len() > 0 {
        lemma_le_reencode(s.skip(1));
        let v = le_value(s);
        assert(v % 256 == s[0] as nat);
        assert(v / 256 == le_value(s.skip(1)));
        assert(s =~= seq![s[0]] + s.skip(1));
    }
}

/// Writing back what was read gives the same bytes, big-endian.
pub proof fn lemma_be_reencode(s: Seq<u8>)
    ensures
        be(be_value(s), s.len()) =~= s,
    decreases s.len(),
{
    if s.len() > 0 {
        lemma_be_reencode(s.drop_last());
        let v = be_value(s);
        assert(v % 256 == s.last() as nat);
        assert(v / 256 == be_value(s.drop_last()));
        assert(s =~= s.drop_last().push(s.last()));
    }
}

/// Only the low bytes of a number are written.
pub proof fn lemma_le_cuts_off(v: nat, n: nat)
    ensures
        le(v, n) == le(v % pow256(n), n),
    decreases n,
{
    if n > 0 {
        let z = pow256((n - 1) as nat);
        lemma_pow256_positive((n - 1) as nat);
        lemma_mod_breakdown(v as int, 256, z as int);
        lemma_le_cuts_off(v / 256, (n - 1) as nat);
        let w = v % pow256(n);
        assert(w == 256 * ((v / 256) % z) + v % 256);
        assert(w / 256 == (v / 256) % z);
        lemma_le_cuts_off(w / 256, (n - 1) as nat);
    }
}

proof fn lemma_pow256_positive(n: nat)
    ensures
        pow256(n) > 0,
    decreases n,
{
    if n > 0 {
        lemma_pow256_positive((n - 1) as nat);
    }
}

pub proof fn lemma_pow256_values()
    ensures
        pow256(1) == 0x100,
        pow256(2) == 0x1_0000,
        pow256(4) == 0x1_0000_0000,
        pow256(8) == 0x1_0000_0000_0000_0000,
{
    reveal_with_fuel(pow256, 9);
}

proof fn lemma_le_value_2(s: Seq<u8>)
    requires
        s.len() == 2,
    ensures
        le_value(s) == s[0] + 256 * s[1],
{
    reveal_with_fuel(le_value, 3);
}

proof fn lemma_le_value_4(s: Seq<u8>)
    requires
        s.len() == 4,
    ensures
        le_value(s) == s[0] + 0x100 * s[1] + 0x1_0000 * s[2] + 0x100_0000 * s[3],
{
    reveal_with_fuel(le_value, 5);
}

proof fn lemma_be_value_2(s: Seq<u8>)
    requires
        s.len() == 2,
    ensures
        be_value(s) == 256 * s[0] + s[1],
{
    reveal_with_fuel(be_value, 3);
}

proof fn lemma_be_value_4(s: Seq<u8>)
    requires
        s.len() == 4,
    ensures
        be_value(s) == 0x100_0000 * s[0] + 0x1_0000 * s[1] + 0x100 * s[2] + s[3],
{
    reveal_with_fuel(be_value, 5);
}

proof fn lemma_le_value_8(s: Seq<u8>)
    requires
        s.len() == 8,
    ensures
        le_value(s) == le_value(s.take(4)) + 0x1_0000_0000 * le_value(s.skip(4)),
{
    reveal_with_fuel(le_value, 9);
    lemma_le_value_4(s.take(4));
    lemma_le_value_4(s.skip(4));
}

proof fn lemma_be_value_8(s: Seq<u8>)
    requires
        s.len() == 8,
    ensures
        be_value(s) == 0x1_0000_0000 * be_value(s.take(4)) + be_value(s.skip(4)),
{
    reveal_with_fuel(be_value, 9);
    lemma_be_value_4(s.take(4));
    lemma_be_value_4(s.skip(4));
}

/// The two bytes at `at`, little-endian.
pub fn le16_at(b: &[u8], at: usize) -> (r: u16)
    requires
        at + 2 <= b@.len(),
    ensures
        r == le_value(b@.subrange(at as int, at + 2)),
{
    proof {
        lemma_le_value_2(b@.subrange(at as int, at + 2));
    }
    b[at] as u16 + 0x100 * b[at + 1] as u16
}

/// The four bytes at `at`, little-endian.
pub fn le32_at(b: &[u8], at: usize) -> (r: u32)
    requires
        at + 4 <= b@.len(),
    ensures
        r == le_value(b@.subrange(at as int, at + 4)),
{
    proof {
        lemma_le_value_4(b@.subrange(at as int, at + 4));
    }
    b[at] as u32 + 0x100 * b[at + 1] as u32 + 0x1_0000 * b[at + 2] as u32 + 0x100_0000
        * b[at + 3] as u32
}

/// The eight bytes at `at`, little-endian.
pub fn le64_at(b: &[u8], at: usize) -> (r: u64)
    requires
        at + 8 <= b@.len(),
    ensures
        r == le_value(b@.subrange(at as int, at + 8)),
{
    assert(b@.len() == b.len());
    let high: u32 = le32_at(b, at + 4);
    let low: u32 = le32_at(b, at);
    proof {
        let s = b@.subrange(at as int, at + 8);
        lemma_le_value_8(s);
        assert(s.take(4) =~= b@.subrange(at as int, at + 4));
        assert(s.skip(4) =~= b@.subrange(at + 4, at + 8));
    }
    low as u64 + 0x1_0000_0000 * high as u64
}

/// The two bytes at `at`, big-endian.
pub fn be16_at(b: &[u8], at: usize) -> (r: u16)
    requires
        at + 2 <= b@.len(),
    ensures
        r == be_value(b@.subrange(at as int, at + 2)),
{
    proof {
        lemma_be_value_2(b@.subrange(at as int, at + 2));
    }
    0x100 * b[at] as u16 + b[at + 1] as u16
}

/// The four bytes at `at`, big-endian.
pub fn be32_at(b: &[u8], at: usize) -> (r: u32)
    requires
        at + 4 <= b@.len(),
    ensures
        r == be_value(b@.subrange(at as int, at + 4)),
{
    proof {
        lemma_be_value_4(b@.subrange(at as int, at + 4));
    }
    0x100_0000 * b[at] as u32 + 0x1_0000 * b[at + 1] as u32 + 0x100 * b[at + 2] as u32
        + b[at + 3] as u32
}

/// The eight bytes at `at`, big-endian.
pub fn be64_at(b: &[u8], at: usize) -> (r: u64)
    requires
        at + 8 <= b@.len(),
    ensures
        r == be_value(b@.subrange(at as int, at + 8)),
{
    assert(b@.len() == b.len());
    let high: u32 = be32_at(b, at);
    let low: u32 = be32_at(b, at + 4);
    proof {
        let s = b@.subrange(at as int, at + 8);
        lemma_be_value_8(s);
        assert(s.take(4) =~= b@.subrange(at as int, at + 4));
        assert(s.skip(4) =~= b@.subrange(at + 4, at + 8));
    }
    0x1_0000_0000 * high as u64 + low as u64
}

/// Appends the low `n` bytes of `v`, least significant first.
pub fn push_le(out: &mut Vec<u8>, v: u64, n: usize)
    ensures
        final(out)@ == old(out)@ + le(v as nat, n as nat),
{
    let mut rest: u64 = v;
    let mut i: usize = 0;
    proof {
        assert(old(out)@ + le(v as nat, n as nat) =~= out@ + le(v as nat, n as nat));
    }
    while i < n
        invariant
            i <= n,
            out@ + le(rest as nat, (n - i) as nat) == old(out)@ + le(v as nat, n as nat),
        decreases n - i,
    {
        let ghost before = out@;
        out.push((rest % 256) as u8);
        proof {
            assert(before + le(rest as nat, (n - i) as nat) =~= out@ + le(
                rest as nat / 256,
                (n - i - 1) as nat,
            ));
        }
        rest = rest / 256;
        i = i + 1;
    }
    proof {
        assert(out@ + le(rest as nat, 0) =~= out@);
    }
}

/// Appends the low `n` bytes of `v`, most significant first.
pub fn push_be(out: &mut Vec<u8>, v: u64, n: usize)
    ensures
        final(out)@ == old(out)@ + be(v as nat, n as nat),
    decreases n,
{
    if n > 0 {
        push_be(out, v / 256, n - 1);
        out.push((v % 256) as u8);
        proof {
            assert(out@ =~= old(out)@ + be(v as nat, n as nat));
        }
    }
}

/// The bit pattern of a signed 32-bit number.
pub fn to_word32(v: i32) -> (r: u32)
    ensures
        r == word32(v),
{
    if v < 0 {
        (v as i64 + 0x1_0000_0000) as u32
    } else {
        v as u32
    }
}

/// The signed 32-bit number with the bit pattern `w`.
pub fn from_word32(w: u32) -> (r: i32)
    ensures
        r == signed32(w as nat),
{
    if w >= 0x8000_0000 {
        (w as i64 - 0x1_0000_0000) as i32
    } else {
        w as i32
    }
}

/// A copy of part of `b`.
pub fn copy_range(b: &[u8], from: usize, to: usize) -> (r: Vec<u8>)
    requires
        from <= to <= b@.len(),
    ensures
        r@ == b@.subrange(from as int, to as int),
{
    let mut out: Vec<u8> = Vec::new();
    let mut i: usize = from;
    while i < to
        invariant
            from <= i <= to <= b@.len(),
            out@ =~= b@.subrange(from as int, i as int),
        decreases to - i,
    {
        out.push(b[i]);
        i = i + 1;
    }
    out
}

/// The number of bytes before the first zero byte; all of them if there is none.
pub open spec fn before_zero(b: Seq<u8>) -> nat
    decreases b.len(),
{
    if b.len() == 0 || b[0] == 0 {
        0
    } else {
        1 + before_zero(b.skip(1))
    }
}

/// The bytes before the first zero byte hold none, and a zero byte follows them
/// unless they are all there is.
pub proof fn lemma_before_zero(b: Seq<u8>)
    ensures
        before_zero(b) <= b.len(),
        forall|k: int| 0 <= k < before_zero(b) ==> #[trigger] b[k] != 0,
        before_zero(b) < b.len() ==> b[before_zero(b) as int] == 0,
    decreases b.len(),
{
    if b.len() > 0 && b[0] != 0 {
        let t = b.skip(1);
        lemma_before_zero(t);
        assert forall|k: int| 0 <= k < before_zero(b) implies #[trigger] b[k] != 0 by {
            if k > 0 {
                assert(t[k - 1] == b[k]);
            }
        }
        if before_zero(b) < b.len() {
            assert(t[before_zero(t) as int] == b[before_zero(b) as int]);
        }
    }
}

/// The number of bytes from `from` on before the first zero byte.
pub fn count_before_zero(b: &[u8], from: usize) -> (r: usize)
    requires
        from <= b@.len(),
    ensures
        r == before_zero(b@.skip(from as int)),
{
    let ghost t = b@.skip(from as int);
    let mut i: usize = from;
    proof {
        lemma_before_zero(t);
    }
    while i < b.len() && b[i] != 0
        invariant
            from <= i <= b@.len(),
            t == b@.skip(from as int),
            forall|k: int| 0 <= k < i - from ==> #[trigger] t[k] != 0,
        decreases b@.len() - i,
    {
        assert(t[i - from] == b@[i as int]);
        i = i + 1;
    }
    proof {
        let z = before_zero(t);
        if z < i - from {
            assert(t[z as int] != 0);
        }
        if i < b@.len() {
            assert(t[i - from] == b@[i as int]);
        }
    }
    i - from
}

/// Appends all of `b`.
pub fn push_all(out: &mut Vec<u8>, b: &[u8])
    ensures
        final(out)@ == old(out)@ + b@,
{
    let mut i: usize = 0;
    while i < b.len()
        invariant
            i <= b@.len(),
            out@ =~= old(out)@ + b@.take(i as int),
        decreases b@.len() - i,
    {
        out.push(b[i]);
        i = i + 1;
    }
    proof {
        assert(b@.take(b@.len() as int) =~= b@);
    }
}

/// In the one order the lowest byte comes first.
pub proof fn law_lowest_byte_comes_first(s: Seq<u8>)
    requires
        s.len() > 0,
    ensures
        le_value(s) == s[0] + 256 * le_value(s.skip(1)),
        s.len() == 1 ==> le_value(s) == s[0],
{
    if s.len() == 1 {
        assert(s.skip(1).len() == 0);
        assert(le_value(s.skip(1)) == 0);
    }
}

/// In the other order the highest byte comes first: what one order reads, the
/// other reads from the same bytes turned round.
pub proof fn law_orders_mirror_each_other(s: Seq<u8>)
    ensures
        be_value(s) == le_value(s.reverse()),
        s.len() == 2 ==> be_value(s) == 256 * s[0] + s[1],
    decreases s.len(),
{
    let r = s.reverse();
    if s.len() > 0 {
        law_orders_mirror_each_other(s.drop_last());
        assert(r.skip(1) =~= s.drop_last().reverse());
        assert(r[0] == s.last());
    }
    if s.len() == 2 {
        let h = s.drop_last();
        assert(h.drop_last().len() == 0);
        assert(be_value(h.drop_last()) == 0);
        assert(be_value(h) == s[0]);
    }
}

/// The bits of a signed number and back.
pub proof fn law_signed_words_keep_their_bits(v: i32, w: u32)
    ensures
        signed32(word32(v)) == v,
        word32(signed32(w as nat) as i32) == w,
        v >= 0 ==> word32(v) == v,
        v < 0 ==> word32(v) == 0x1_0000_0000 + v,
{
}

} // verus!
