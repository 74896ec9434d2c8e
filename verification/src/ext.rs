//! Big-endian integer extraction and the Internet one's-complement checksum
//! over byte buffers.
use vstd::prelude::*;
use vstd::arithmetic::power::{pow, lemma_pow_increases};
use vstd::arithmetic::div_mod::{lemma_fundamental_div_mod, lemma_mod_multiples_vanish};
use vstd::layout::{layout_of_primitives, unsigned_int_max_values, size_of};

verus! {

/// One's-complement carry folding: add the carry out of the low sixteen bits
/// back in until the value fits in sixteen bits.
pub open spec fn fold16(x: int) -> int
    decreases x,
    via fold16_decreases
{
    if x > 0xffff {
        fold16(x / 0x10000 + x % 0x10000)
    } else {
        x
    }
}

#[via_fn]
proof fn fold16_decreases(x: int) {
    if x > 0xffff {
        lemma_fundamental_div_mod(x, 0x10000);
    }
}

/// Folding keeps the value's residue modulo 0xffff, lands in the sixteen-bit
/// range, and never turns a positive sum into zero.
pub proof fn lemma_fold16_props(x: int)
    requires
        x >= 0,
    ensures
        0 <= fold16(x) <= 0xffff,
        fold16(x) % 0xffff == x % 0xffff,
        x > 0 ==> fold16(x) > 0,
    decreases x,
{
    if x > 0xffff {
        let q = x / 0x10000;
        let r = x % 0x10000;
        let y = q + r;
        lemma_fundamental_div_mod(x, 0x10000);
        assert(x == y + 0xffff * q);
        lemma_mod_multiples_vanish(q, y, 0xffff);
        lemma_fold16_props(y);
    }
}

/// Folding a sum in two stages gives the same result as folding it at once.
pub proof fn lemma_fold16_add(a: int, b: int)
    requires
        a >= 0,
        b >= 0,
    ensures
        fold16(a + b) == fold16(fold16(a) + b),
{
    let u = fold16(a + b);
    let v = fold16(fold16(a) + b);
    lemma_fold16_props(a);
    lemma_fold16_props(a + b);
    lemma_fold16_props(fold16(a) + b);
    vstd::arithmetic::div_mod::lemma_add_mod_noop(fold16(a), b, 0xffff);
    vstd::arithmetic::div_mod::lemma_add_mod_noop(a, b, 0xffff);
    assert(u % 0xffff == v % 0xffff);
    if a + b == 0 {
    } else {
        assert(u > 0 && v > 0);
    }
}

/// The sixteen-bit word sum of `s` from index `i` on: bytes pair up
/// big-endian, and a lone final byte counts as the high half of a word.
pub open spec fn word_sum_from(s: Seq<u8>, i: int) -> int
    decreases s.len() - i,
{
    if i < 0 || i >= s.len() {
        0
    } else if i + 1 == s.len() {
        s[i] * 256
    } else {
        s[i] * 256 + s[i + 1] + word_sum_from(s, i + 2)
    }
}

/// The sixteen-bit word sum of the whole buffer.
pub open spec fn word_sum(s: Seq<u8>) -> int {
    word_sum_from(s, 0)
}

/// A word sum is never negative.
pub proof fn lemma_word_sum_from_nonneg(s: Seq<u8>, i: int)
    ensures
        word_sum_from(s, i) >= 0,
    decreases s.len() - i,
{
    if 0 <= i && i + 1 < s.len() {
        lemma_word_sum_from_nonneg(s, i + 2);
    }
}

/// The Internet (one's-complement) checksum of a buffer: the complement of
/// its carry-folded sixteen-bit word sum.
pub open spec fn checksum_spec(s: Seq<u8>) -> int {
    0xffff - fold16(word_sum(s))
}

/// Big-endian value of a byte sequence: the empty sequence stands for zero,
/// and each trailing byte shifts the value left by eight bits.
pub open spec fn be_val(s: Seq<u8>) -> nat
    decreases s.len(),
{
    if s.len() == 0 {
        0
    } else {
        (be_val(s.drop_last()) * 256 + s.last()) as nat
    }
}

/// Big-endian value of the first `n` bytes, or of the whole buffer when it
/// is shorter than `n`: missing trailing bytes contribute nothing.
pub open spec fn be_prefix_val(s: Seq<u8>, n: int) -> nat {
    if s.len() <= n {
        be_val(s)
    } else {
        be_val(s.take(n))
    }
}

/// A big-endian value is bounded by 256 to the power of its byte count.
pub proof fn lemma_be_val_bound(s: Seq<u8>)
    ensures
        be_val(s) < pow(256, s.len()),
    decreases s.len(),
{
    if s.len() == 0 {
        assert(pow(256, 0) == 1) by {
            reveal_with_fuel(pow, 1);
        }
    } else {
        lemma_be_val_bound(s.drop_last());
        assert(pow(256, s.len()) == 256 * pow(256, (s.len() - 1) as nat)) by {
            reveal_with_fuel(pow, 2);
        }
        assert(be_val(s.drop_last()) * 256 <= (pow(256, (s.len() - 1) as nat) - 1) * 256)
            by (nonlinear_arith)
            requires
                be_val(s.drop_last()) <= pow(256, (s.len() - 1) as nat) - 1,
        ;
    }
}

/// Big-endian decode of the first `n` bytes of `b` (all of `b` when it is
/// shorter), accumulating high byte first.
fn be_decode(b: &[u8], n: usize) -> (r: u64)
    requires
        1 <= n <= 8,
    ensures
        r == be_prefix_val(b@, n as int),
{
    let k: usize = if b.len() < n {
        b.len()
    } else {
        n
    };
    let mut r: u64 = 0;
    let mut i: usize = 0;
    while i < k
        invariant
            i <= k,
            k <= 8,
            k <= b@.len(),
            r == be_val(b@.take(i as int)),
        decreases k - i,
    {
        proof {
            lemma_be_val_bound(b@.take(i as int));
            lemma_pow_increases(256, i as nat, 7);
            assert(pow(256, 7) == 0x100000000000000) by {
                reveal_with_fuel(pow, 8);
            }
            assert(b@.take(i + 1).drop_last() =~= b@.take(i as int));
            assert(b@.take(i + 1).last() == b@[i as int]);
        }
        r = r * 256 + (b[i] as u64);
        i = i + 1;
    }
    proof {
        if b@.len() <= n {
            assert(b@.take(k as int) =~= b@);
        }
    }
    r
}

/// Fixed-width big-endian readers and the Internet checksum, as methods on a
/// byte buffer. `bytes` is the buffer the contracts speak of.
pub trait BytesExt {
    spec fn bytes(&self) -> Seq<u8>;

    /// The big-endian value of the first two bytes (fewer when the buffer is
    /// shorter).
    fn u16(&self) -> (r: u16)
        ensures
            r == be_prefix_val(self.bytes(), 2),
    ;

    /// The big-endian value of the first four bytes (fewer when the buffer is
    /// shorter).
    fn u32(&self) -> (r: u32)
        ensures
            r == be_prefix_val(self.bytes(), 4),
    ;

    /// The big-endian value of the first eight bytes (fewer when the buffer
    /// is shorter).
    fn u64(&self) -> (r: u64)
        ensures
            r == be_prefix_val(self.bytes(), 8),
    ;

    /// The big-endian value of the first pointer-width's worth of bytes
    /// (fewer when the buffer is shorter).
    fn usize(&self) -> (r: usize)
        ensures
            r == be_prefix_val(self.bytes(), size_of::<usize>() as int),
    ;

    /// The Internet one's-complement checksum of the buffer: sixteen-bit
    /// big-endian words are summed (a lone final byte counting as the high
    /// half of a word), carries fold back into the low sixteen bits, and the
    /// complement of the folded sum is returned.
    fn checksum(&self) -> (r: u16)
        requires
            self.bytes().len() >= 1,
        ensures
            r == checksum_spec(self.bytes()),
    ;
}

impl BytesExt for [u8] {
    open spec fn bytes(&self) -> Seq<u8> {
        self@
    }

    fn u16(&self) -> (r: u16) {
        proof {
            lemma_prefix_val_bound(self@, 2);
            assert(pow(256, 2) == 0x10000) by {
                reveal_with_fuel(pow, 3);
            }
        }
        be_decode(self, 2) as u16
    }

    fn u32(&self) -> (r: u32) {
        proof {
            lemma_prefix_val_bound(self@, 4);
            assert(pow(256, 4) == 0x100000000) by {
                reveal_with_fuel(pow, 5);
            }
        }
        be_decode(self, 4) as u32
    }

    fn u64(&self) -> (r: u64) {
        be_decode(self, 8)
    }

    fn usize(&self) -> (r: usize) {
        let w: usize = ((usize::BITS / 8) as usize);
        proof {
            broadcast use layout_of_primitives;

            unsigned_int_max_values();
            lemma_prefix_val_bound(self@, size_of::<usize>() as int);
        }
        be_decode(self, w) as usize
    }

    fn checksum(&self) -> (r: u16) {
        let length: usize = self.len() - 1;
        let ghost s = self@;
        let mut csum: u32 = 0;
        let ghost mut gsum: int = 0;
        let mut i: usize = 0;
        while i < length
            invariant
                s == self@,
                s.len() >= 1,
                length == s.len() - 1,
                i % 2 == 0,
                i <= length + 1,
                gsum >= 0,
                csum <= 0x10000,
                fold16(csum as int) == fold16(gsum),
                word_sum(s) == gsum + word_sum_from(s, i as int),
            decreases length + 1 - i,
        {
            let w: u32 = (self[i] as u32) * 256 + (self[i + 1] as u32);
            proof {
                lemma_fold16_add(csum as int, w as int);
                lemma_fold16_add(gsum, w as int);
            }
            csum = csum + w;
            csum = csum / 0x10000 + csum % 0x10000;
            proof {
                gsum = gsum + w;
            }
            i = i + 2;
        }
        if length % 2 == 0 {
            let w: u32 = (self[length] as u32) * 256;
            proof {
                lemma_fold16_add(csum as int, w as int);
                lemma_fold16_add(gsum, w as int);
            }
            csum = csum + w;
            proof {
                gsum = gsum + w;
            }
        }
        proof {
            assert(word_sum(s) == gsum);
        }
        while csum > 0xffff
            invariant
                fold16(csum as int) == fold16(word_sum(s)),
            decreases csum,
        {
            proof {
                lemma_fundamental_div_mod(csum as int, 0x10000);
            }
            csum = csum / 0x10000 + csum % 0x10000;
        }
        (0xffff - csum) as u16
    }
}

/// A diagnostic label for `v`'s type. Run-time type reflection is a facility
/// verified code does not reach, so the label is empty; callers that need a
/// descriptive name attach one at the diagnostic layer.
pub fn type_of<T>(_v: &T) -> (r: &'static str)
    ensures
        r@.len() == 0,
{
    proof {
        reveal_strlit("");
    }
    ""
}

/// The diagnostic label of the value's type, together with the value itself
/// handed back unchanged.
pub fn type_of2<T>(v: T) -> (r: (&'static str, T))
    ensures
        r.0@.len() == 0,
        r.1 == v,
{
    let name = type_of(&v);
    (name, v)
}

/// An all-zero buffer stands for the value zero.
pub proof fn lemma_be_val_zero(s: Seq<u8>)
    requires
        forall|i: int| 0 <= i < s.len() ==> s[i] == 0,
    ensures
        be_val(s) == 0,
    decreases s.len(),
{
    if s.len() > 0 {
        lemma_be_val_zero(s.drop_last());
    }
}

/// An all-zero buffer decodes to zero at every width, whether the buffer is
/// shorter or longer than the width.
pub proof fn lemma_zero_bytes_decode_zero(s: Seq<u8>, n: int)
    requires
        0 <= n,
        forall|i: int| 0 <= i < s.len() ==> s[i] == 0,
    ensures
        be_prefix_val(s, n) == 0,
{
    if s.len() <= n {
        lemma_be_val_zero(s);
    } else {
        lemma_be_val_zero(s.take(n));
    }
}

/// Decoding is prefix-based: two buffers that agree on their first `n` bytes
/// decode to the same value at width `n`, whatever follows.
pub proof fn lemma_decode_prefix_based(s: Seq<u8>, t: Seq<u8>, n: int)
    requires
        0 <= n <= s.len(),
        n <= t.len(),
        s.take(n) == t.take(n),
    ensures
        be_prefix_val(s, n) == be_prefix_val(t, n),
{
    if s.len() == n {
        assert(s.take(n) =~= s);
    }
    if t.len() == n {
        assert(t.take(n) =~= t);
    }
}

/// The word sum from index `i` equals the word sum of the buffer's tail that
/// starts there.
proof fn lemma_word_sum_from_skip(s: Seq<u8>, i: int)
    requires
        0 <= i <= s.len(),
    ensures
        word_sum_from(s, i) == word_sum(s.skip(i)),
    decreases s.len() - i,
{
    let t = s.skip(i);
    if i == s.len() {
    } else if i + 1 == s.len() {
        assert(t.len() == 1 && t[0] == s[i]);
    } else {
        lemma_word_sum_from_skip(t, 2);
        assert(t.skip(2) =~= s.skip(i + 2));
        lemma_word_sum_from_skip(s, i + 2);
    }
}

/// Word sums add across a split at an even offset.
pub proof fn lemma_word_sum_concat(a: Seq<u8>, b: Seq<u8>)
    requires
        a.len() % 2 == 0,
    ensures
        word_sum(a + b) == word_sum(a) + word_sum(b),
    decreases a.len(),
{
    if a.len() == 0 {
        assert(a + b =~= b);
    } else {
        let c = a + b;
        lemma_word_sum_from_skip(c, 2);
        lemma_word_sum_from_skip(a, 2);
        assert(c.skip(2) =~= a.skip(2) + b);
        lemma_word_sum_concat(a.skip(2), b);
    }
}

/// An all-zero buffer's word sum is zero.
pub proof fn lemma_word_sum_zero(s: Seq<u8>, i: int)
    requires
        forall|j: int| 0 <= j < s.len() ==> s[j] == 0,
    ensures
        word_sum_from(s, i) == 0,
    decreases s.len() - i,
{
    if 0 <= i && i + 1 < s.len() {
        lemma_word_sum_zero(s, i + 2);
    }
}

/// An all-zero buffer checksums to all ones: nothing is summed, nothing is
/// folded, and the complement of zero is 0xffff.
pub proof fn lemma_checksum_zero_buffer(s: Seq<u8>)
    requires
        forall|j: int| 0 <= j < s.len() ==> s[j] == 0,
    ensures
        checksum_spec(s) == 0xffff,
{
    lemma_word_sum_zero(s, 0);
}

/// A buffer that carries its own checksum verifies: when an even-length
/// buffer's trailing word holds the checksum computed over that buffer with
/// the trailing word zeroed, the buffer's carry-folded word sum is 0xffff
/// (all ones), and its own checksum is therefore 0. For the all-zero buffer
/// both the stored word and the folded sum are 0, and the checksum is 0xffff.
pub proof fn lemma_checksum_self_verifying(s: Seq<u8>)
    requires
        s.len() >= 2,
        s.len() % 2 == 0,
        s[s.len() - 2] * 256 + s[s.len() - 1] == checksum_spec(
            s.take(s.len() - 2).push(0).push(0),
        ),
    ensures
        fold16(word_sum(s)) == 0xffff,
        checksum_spec(s) == 0,
{
    let n = s.len() as int;
    let p = s.take(n - 2);
    let zz = seq![0u8, 0u8];
    let tail = seq![s[n - 2], s[n - 1]];
    assert(p.push(0).push(0) =~= p + zz);
    lemma_word_sum_concat(p, zz);
    assert(word_sum_from(zz, 2) == 0);
    assert(word_sum(zz) == 0);
    assert(s =~= p + tail);
    lemma_word_sum_concat(p, tail);
    assert(word_sum_from(tail, 2) == 0);
    assert(word_sum(tail) == s[n - 2] * 256 + s[n - 1]);
    let a = word_sum(p);
    lemma_word_sum_from_nonneg(p, 0);
    lemma_fold16_props(a);
    let x = 0xffff - fold16(a);
    lemma_fold16_add(a, x);
}

/// The value of any prefix of up to `n` bytes is below 256 to the power `n`.
proof fn lemma_prefix_val_bound(s: Seq<u8>, n: int)
    requires
        0 <= n,
    ensures
        be_prefix_val(s, n) < pow(256, n as nat),
{
    if s.len() <= n {
        lemma_be_val_bound(s);
        lemma_pow_increases(256, s.len(), n as nat);
    } else {
        lemma_be_val_bound(s.take(n));
    }
}

} // verus!


