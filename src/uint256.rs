//! Little-endian byte strings read as unsigned integers, and 256-bit values
//! held as four 64-bit words (least significant word first).
use vstd::prelude::*;

verus! {

/// `256^n`.
pub open spec fn radix(n: nat) -> nat
    decreases n,
{
    if n == 0 {
        1
    } else {
        256 * radix((n - 1) as nat)
    }
}

/// The unsigned integer whose little-endian bytes are `s`.
pub open spec fn le_value(s: Seq<u8>) -> nat
    decreases s.len(),
{
    if s.len() == 0 {
        0
    } else {
        s[0] as nat + 256 * le_value(s.drop_first())
    }
}

/// The unsigned integer whose base-2^64 digits are `w`, least significant first.
pub open spec fn wide_value(w: Seq<u64>) -> nat
    decreases w.len(),
{
    if w.len() == 0 {
        0
    } else {
        w[0] as nat + 0x1_0000_0000_0000_0000 * wide_value(w.drop_first())
    }
}

/// The 64-bit word read little-endian from the eight bytes at `8 * i`.
pub open spec fn le_word(s: Seq<u8>, i: int) -> u64 {
    le_value(s.subrange(8 * i, 8 * i + 8)) as u64
}

/// A 32-byte string split into four little-endian words.
pub open spec fn le_words(s: Seq<u8>) -> Seq<u64> {
    seq![le_word(s, 0), le_word(s, 1), le_word(s, 2), le_word(s, 3)]
}

pub proof fn lemma_radix_mono(a: nat, b: nat)
    requires
        a <= b,
    ensures
        radix(a) <= radix(b),
    decreases b,
{
    if a < b {
        lemma_radix_mono(a, (b - 1) as nat);
    }
}

pub proof fn lemma_le_value_bound(s: Seq<u8>)
    ensures
        le_value(s) < radix(s.len()),
    decreases s.len(),
{
    if s.len() > 0 {
        lemma_le_value_bound(s.drop_first());
    }
}

/// Reading the concatenation of two byte strings.
pub proof fn lemma_le_value_append(a: Seq<u8>, b: Seq<u8>)
    ensures
        le_value(a + b) == le_value(a) + radix(a.len()) * le_value(b),
    decreases a.len(),
{
    if a.len() > 0 {
        assert((a + b).drop_first() =~= a.drop_first() + b);
        lemma_le_value_append(a.drop_first(), b);
        let x = le_value(a.drop_first());
        let r = radix((a.len() - 1) as nat);
        let y = le_value(b);
        assert((a + b)[0] == a[0]);
        assert(radix(a.len()) == 256 * r);
        assert(256 * (x + r * y) == 256 * x + (256 * r) * y) by (nonlinear_arith);
        assert(le_value(a + b) == a[0] as nat + 256 * le_value(a.drop_first() + b));
        assert(le_value(a) == a[0] as nat + 256 * x);
        assert(le_value(a.drop_first() + b) == x + r * y);
        assert(le_value(a + b) == le_value(a) + (256 * r) * y);
    } else {
        assert(a + b =~= b);
        assert(radix(0) == 1);
        assert(le_value(a) == 0);
    }
}

/// Two equally long digit strings compare as their most significant differing digit.
pub proof fn lemma_wide_lex(a: Seq<u64>, b: Seq<u64>, i: int)
    requires
        a.len() == b.len(),
        0 <= i < a.len(),
        a[i] < b[i],
        forall|j: int| i < j < a.len() ==> a[j] == b[j],
    ensures
        wide_value(a) < wide_value(b),
    decreases i,
{
    let x = wide_value(a.drop_first());
    let y = wide_value(b.drop_first());
    if i == 0 {
        assert(a.drop_first() =~= b.drop_first());
    } else {
        lemma_wide_lex(a.drop_first(), b.drop_first(), i - 1);
        assert(a[0] as nat + 0x1_0000_0000_0000_0000 * x < b[0] as nat + 0x1_0000_0000_0000_0000 * y)
            by (nonlinear_arith)
            requires
                x < y,
                a[0] < 0x1_0000_0000_0000_0000,
        ;
    }
}

/// Four little-endian words read from 32 bytes are the base-2^64 digits of the
/// bytes' own little-endian value.
pub proof fn lemma_words_value(s: Seq<u8>)
    requires
        s.len() == 32,
    ensures
        wide_value(le_words(s)) == le_value(s),
{
    reveal_with_fuel(radix, 9);
    assert(radix(8) == 0x1_0000_0000_0000_0000);
    let w = le_words(s);
    lemma_le_value_bound(s.subrange(24, 32));
    let w3 = w.drop_first().drop_first().drop_first();
    assert(w3.len() == 1 && w3[0] == w[3]);
    assert(w3.drop_first() =~= Seq::<u64>::empty());
    assert(wide_value(Seq::<u64>::empty()) == 0);
    assert(le_value(s.subrange(24, 32)) < 0x1_0000_0000_0000_0000);
    assert(w[3] as nat == le_value(s.subrange(24, 32)));
    assert(wide_value(w.drop_first().drop_first().drop_first()) == le_value(s.subrange(24, 32)));
    assert(s.subrange(16, 32) =~= s.subrange(16, 24) + s.subrange(24, 32));
    lemma_le_value_append(s.subrange(16, 24), s.subrange(24, 32));
    lemma_le_value_bound(s.subrange(16, 24));
    assert(wide_value(w.drop_first().drop_first()) == le_value(s.subrange(16, 32)));
    assert(s.subrange(8, 32) =~= s.subrange(8, 16) + s.subrange(16, 32));
    lemma_le_value_append(s.subrange(8, 16), s.subrange(16, 32));
    lemma_le_value_bound(s.subrange(8, 16));
    assert(wide_value(w.drop_first()) == le_value(s.subrange(8, 32)));
    assert(s =~= s.subrange(0, 8) + s.subrange(8, 32));
    lemma_le_value_append(s.subrange(0, 8), s.subrange(8, 32));
    lemma_le_value_bound(s.subrange(0, 8));
}

/// Comparing two 32-byte strings as four little-endian words each, most
/// significant word first, orders them as their 256-bit little-endian values.
pub proof fn lemma_target_round_trip(digest: Seq<u8>, target: Seq<u8>)
    requires
        digest.len() == 32,
        target.len() == 32,
    ensures
        wide_value(le_words(digest)) < wide_value(le_words(target)) <==> le_value(digest)
            < le_value(target),
        wide_value(le_words(digest)) == wide_value(le_words(target)) <==> le_value(digest)
            == le_value(target),
{
    lemma_words_value(digest);
    lemma_words_value(target);
}

/// The little-endian value of the eight bytes of `b` starting at `off`.
pub fn read_u64_le(b: &Vec<u8>, off: usize) -> (r: u64)
    requires
        off + 8 <= b@.len(),
    ensures
        r as nat == le_value(b@.subrange(off as int, off + 8)),
{
    let n: usize = b.len();
    let mut acc: u64 = 0;
    let mut k: usize = 8;
    proof {
        assert(b@.subrange(off + 8, off + 8) =~= Seq::<u8>::empty());
    }
    while k > 0
        invariant
            off + 8 <= b@.len(),
            b@.len() == n,
            k <= 8,
            acc as nat == le_value(b@.subrange(off + k, off + 8)),
        decreases k,
    {
        let ghost tail = b@.subrange(off + k, off + 8);
        proof {
            lemma_le_value_bound(tail);
            lemma_radix_mono(tail.len(), 7);
            reveal_with_fuel(radix, 8);
            assert(b@.subrange(off + k - 1, off + 8).drop_first() =~= tail);
            assert(radix(7) == 0x100_0000_0000_0000);
            assert(acc * 256 + 255 <= u64::MAX) by (nonlinear_arith)
                requires
                    acc < 0x100_0000_0000_0000,
            ;
        }
        let idx: usize = off + k - 1;
        let byte: u8 = b[idx];
        acc = acc * 256 + byte as u64;
        k = k - 1;
    }
    acc
}

/// Splits a 32-byte string into four little-endian words, least significant first.
pub fn hash_to_u256_le(hash: &Vec<u8>) -> (r: [u64; 4])
    requires
        hash@.len() == 32,
    ensures
        r@ == le_words(hash@),
{
    let w0 = read_u64_le(hash, 0);
    let w1 = read_u64_le(hash, 8);
    let w2 = read_u64_le(hash, 16);
    let w3 = read_u64_le(hash, 24);
    let r = [w0, w1, w2, w3];
    assert(r@ =~= le_words(hash@));
    r
}

/// Compares two 256-bit values word by word, most significant word first.
pub fn compare_u256(a: &[u64; 4], b: &[u64; 4]) -> (r: core::cmp::Ordering)
    ensures
        (r == core::cmp::Ordering::Less) <==> wide_value(a@) < wide_value(b@),
        (r == core::cmp::Ordering::Equal) <==> wide_value(a@) == wide_value(b@),
        (r == core::cmp::Ordering::Greater) <==> wide_value(a@) > wide_value(b@),
{
    let mut i: usize = 4;
    while i > 0
        invariant
            i <= 4,
            forall|j: int| i <= j < 4 ==> a@[j] == b@[j],
        decreases i,
    {
        proof {
            if a@[i - 1] < b@[i - 1] {
                lemma_wide_lex(a@, b@, i - 1);
            } else if a@[i - 1] > b@[i - 1] {
                lemma_wide_lex(b@, a@, i - 1);
            }
        }
        if a[i - 1] < b[i - 1] {
            return core::cmp::Ordering::Less;
        } else if a[i - 1] > b[i - 1] {
            return core::cmp::Ordering::Greater;
        }
        i = i - 1;
    }
    proof {
        assert(a@ =~= b@);
    }
    core::cmp::Ordering::Equal
}

} // verus!
