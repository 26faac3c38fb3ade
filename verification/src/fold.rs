//! Word folding: the byte stream is read as consecutive non-overlapping 8-byte
//! little-endian unsigned integers, and every full word is added into a 64-bit
//! accumulator with wraparound. Trailing bytes that do not fill a word are
//! excluded by policy: a stream of `8 * k + r` bytes (`r < 8`) folds exactly
//! `k` words.

use vstd::prelude::*;

verus! {

/// Unsigned addition modulo 2^64: overflow wraps around and is intentional.
pub open spec fn wrap_add(a: u64, b: u64) -> u64 {
    ((a + b) % 0x1_0000_0000_0000_0000) as u64
}

/// The little-endian value of the word occupying bytes `8*k .. 8*k + 8` of `s`.
pub open spec fn word_at(s: Seq<u8>, k: int) -> u64 {
    (s[8 * k] + s[8 * k + 1] * 0x100 + s[8 * k + 2] * 0x1_0000 + s[8 * k + 3] * 0x100_0000 + s[8
        * k + 4] * 0x1_0000_0000 + s[8 * k + 5] * 0x100_0000_0000 + s[8 * k + 6]
        * 0x1_0000_0000_0000 + s[8 * k + 7] * 0x100_0000_0000_0000) as u64
}

/// How many full words a stream of `len` bytes holds; trailing bytes beyond
/// the last full word are not folded.
pub open spec fn full_words(len: nat) -> nat {
    len / 8
}

/// The accumulator after folding the first `k` words of `s` into `acc`.
pub open spec fn fold_upto(acc: u64, s: Seq<u8>, k: nat) -> u64
    decreases k,
{
    if k == 0 {
        acc
    } else {
        wrap_add(fold_upto(acc, s, (k - 1) as nat), word_at(s, k - 1))
    }
}

/// The accumulator after folding every full word of `s` into `acc`: the
/// stream's signature relative to `acc`.
pub open spec fn fold_bytes(acc: u64, s: Seq<u8>) -> u64 {
    fold_upto(acc, s, full_words(s.len()))
}

/// Wraparound addition agrees with the machine's wrapping add.
proof fn lemma_wrap_add_is_wrapping(a: u64, b: u64)
    ensures
        wrap_add(a, b) == a.wrapping_add(b),
{
    if a + b > u64::MAX {
        assert((a + b) % 0x1_0000_0000_0000_0000 == a + b - 0x1_0000_0000_0000_0000) by {
            vstd::arithmetic::div_mod::lemma_mod_sub_multiples_vanish(
                (a + b) as int,
                0x1_0000_0000_0000_0000,
            );
            vstd::arithmetic::div_mod::lemma_small_mod(
                (a + b - 0x1_0000_0000_0000_0000) as nat,
                0x1_0000_0000_0000_0000,
            );
        }
    } else {
        assert((a + b) % 0x1_0000_0000_0000_0000 == a + b) by {
            vstd::arithmetic::div_mod::lemma_small_mod(
                (a + b) as nat,
                0x1_0000_0000_0000_0000,
            );
        }
    }
}

/// Folding reads words by byte index alone: two streams that agree on their
/// first `8 * k` bytes fold their first `k` words identically.
proof fn lemma_fold_upto_agree(acc: u64, s: Seq<u8>, t: Seq<u8>, k: nat)
    requires
        8 * k <= s.len(),
        8 * k <= t.len(),
        forall|i: int| 0 <= i < 8 * k ==> s[i] == t[i],
    ensures
        fold_upto(acc, s, k) == fold_upto(acc, t, k),
    decreases k,
{
    if k > 0 {
        lemma_fold_upto_agree(acc, s, t, (k - 1) as nat);
        assert(word_at(s, k - 1) == word_at(t, k - 1));
    }
}

/// Folding the first `a.len() / 8 + j` words of `a + b` is folding all of `a`
/// and then the first `j` words of `b`, provided `a` fills whole words.
proof fn lemma_fold_append_upto(acc: u64, a: Seq<u8>, b: Seq<u8>, j: nat)
    requires
        a.len() % 8 == 0,
        8 * j <= b.len(),
    ensures
        fold_upto(acc, a + b, a.len() / 8 + j) == fold_upto(
            fold_upto(acc, a, a.len() / 8),
            b,
            j,
        ),
    decreases j,
{
    let m = a.len() / 8;
    vstd::arithmetic::div_mod::lemma_fundamental_div_mod(a.len() as int, 8);
    assert(a.len() == 8 * m);
    if j == 0 {
        lemma_fold_upto_agree(acc, a + b, a, m as nat);
    } else {
        lemma_fold_append_upto(acc, a, b, (j - 1) as nat);
        assert(word_at(a + b, m + j - 1) == word_at(b, j - 1));
    }
}

/// Splitting a stream at any whole-word boundary splits the fold: folding `a`
/// and then `b` gives the same accumulator as folding `a + b` in one pass.
/// Chunked reading therefore agrees with whole-stream reading wherever every
/// read before the last fills whole words.
pub proof fn lemma_fold_append(acc: u64, a: Seq<u8>, b: Seq<u8>)
    requires
        a.len() % 8 == 0,
    ensures
        fold_bytes(fold_bytes(acc, a), b) == fold_bytes(acc, a + b),
{
    let m = a.len() / 8;
    let q = b.len() / 8;
    vstd::arithmetic::div_mod::lemma_fundamental_div_mod(a.len() as int, 8);
    vstd::arithmetic::div_mod::lemma_fundamental_div_mod(b.len() as int, 8);
    vstd::arithmetic::div_mod::lemma_mod_division_less_than_divisor(b.len() as int, 8);
    let r = b.len() % 8;
    assert((a + b).len() == 8 * (m + q) + r);
    assert((a + b).len() / 8 == m + q) by {
        vstd::arithmetic::div_mod::lemma_div_multiples_vanish_fancy(
            (m + q) as int,
            r as int,
            8,
        );
    }
    lemma_fold_append_upto(acc, a, b, q as nat);
}

/// The truncation policy: trailing bytes beyond the last full word never
/// reach the accumulator. A stream of `8 * k + r` bytes (`0 <= r < 8`) folds
/// exactly its first `k` words, whatever the trailing `r` bytes hold.
pub proof fn lemma_trailing_ignored(acc: u64, s: Seq<u8>, t: Seq<u8>)
    requires
        s.len() % 8 == 0,
        t.len() < 8,
    ensures
        fold_bytes(acc, s + t) == fold_bytes(acc, s),
{
    lemma_fold_append(acc, s, t);
    assert(t.len() / 8 == 0) by {
        vstd::arithmetic::div_mod::lemma_basic_div(t.len() as int, 8);
    }
}

/// A stream of `8 * k + r` bytes with `r < 8` holds exactly `k` full words.
pub proof fn lemma_word_count(k: nat, r: nat)
    requires
        r < 8,
    ensures
        full_words(8 * k + r) == k,
{
    vstd::arithmetic::div_mod::lemma_div_multiples_vanish_fancy(k as int, r as int, 8);
}

/// An empty stream folds no words: the accumulator is unchanged.
pub proof fn lemma_fold_empty(acc: u64)
    ensures
        fold_bytes(acc, Seq::<u8>::empty()) == acc,
{
}

/// Decode the `k`-th full 8-byte little-endian word of `data`.
pub fn read_word(data: &[u8], k: usize) -> (w: u64)
    requires
        8 * k + 8 <= data@.len(),
    ensures
        w == word_at(data@, k as int),
{
    // the slice's length fits in usize, so the offsets below cannot overflow
    let _n: usize = data.len();
    let base: usize = 8 * k;
    let b0 = data[base] as u64;
    let b1 = data[base + 1] as u64;
    let b2 = data[base + 2] as u64;
    let b3 = data[base + 3] as u64;
    let b4 = data[base + 4] as u64;
    let b5 = data[base + 5] as u64;
    let b6 = data[base + 6] as u64;
    let b7 = data[base + 7] as u64;
    b0 + b1 * 0x100 + b2 * 0x1_0000 + b3 * 0x100_0000 + b4 * 0x1_0000_0000 + b5 * 0x100_0000_0000
        + b6 * 0x1_0000_0000_0000 + b7 * 0x100_0000_0000_0000
}

/// Fold every full word of `data` into `acc`. Trailing bytes (fewer than 8)
/// are not folded; a slice shorter than one word leaves `acc` unchanged.
pub fn fold_slice(acc: u64, data: &[u8]) -> (token: u64)
    ensures
        token == fold_bytes(acc, data@),
{
    let n: usize = data.len();
    let words: usize = n / 8;
    let mut token: u64 = acc;
    let mut k: usize = 0;
    while k < words
        invariant
            words == full_words(data@.len()),
            8 * words <= data@.len(),
            k <= words,
            token == fold_upto(acc, data@, k as nat),
        decreases words - k,
    {
        let w = read_word(data, k);
        proof {
            lemma_wrap_add_is_wrapping(token, w);
        }
        token = token.wrapping_add(w);
        k = k + 1;
    }
    token
}

} // verus!

