//! Signatures wider than a machine word.

use vstd::prelude::*;
use super::bit_model::{
    and_bits, lemma_popcount_bound, lemma_popcount_concat, one_bits, or_bits, popcount, shl_bits,
    shr_bits, xor_bits, zero_bits,
};
use super::bits::SimHashBits;
use super::word64::{
    lemma_u64_bit_logic, lemma_u64_bit_shift, lemma_u64_bits_injective, u64_bit, u64_bits,
};

verus! {

/// A bit string of `64 * N` bits held in `N` words. Word 0 holds the least
/// significant 64 bits, and within a word bit 0 is the least significant.
#[derive(Clone, Copy, Debug, PartialEq, Eq, Hash)]
pub struct BitArray<const N: usize> {
    words: [u64; N],
}

/// The bit string that a sequence of words stands for: bit `i` is bit `i % 64`
/// of word `i / 64`.
pub open spec fn words_bits(words: Seq<u64>) -> Seq<bool> {
    Seq::new(64 * words.len(), |i: int| u64_bit(words[i / 64], (i % 64) as u64))
}

/// Word `j` of `words` shifted towards the high end by `ws` whole words and
/// `bs < 64` further bits: the low part of the word `ws` places below, joined by
/// what the word below that one carries over.
pub open spec fn shl_word(words: Seq<u64>, ws: int, bs: u64, j: int) -> u64 {
    if j < ws {
        0
    } else {
        let hi = words[j - ws] << bs;
        let lo = if bs > 0 && j - ws >= 1 {
            words[j - ws - 1] >> ((64 - bs) as u64)
        } else {
            0
        };
        hi | lo
    }
}

/// Word `j` of `words` shifted towards the low end by `ws` whole words and
/// `bs < 64` further bits.
pub open spec fn shr_word(words: Seq<u64>, ws: int, bs: u64, j: int) -> u64 {
    if j + ws >= words.len() {
        0
    } else {
        let lo = words[j + ws] >> bs;
        let hi = if bs > 0 && j + ws + 1 < words.len() {
            words[j + ws + 1] << ((64 - bs) as u64)
        } else {
            0
        };
        lo | hi
    }
}

/// Shifting word by word with carries is shifting the whole bit string.
proof fn lemma_shl_words(a: Seq<u64>, out: Seq<u64>, ws: int, bs: u64)
    requires
        out.len() == a.len(),
        0 <= ws,
        bs < 64,
        forall|j: int| 0 <= j < a.len() ==> #[trigger] out[j] == shl_word(a, ws, bs, j),
    ensures
        words_bits(out) == shl_bits(words_bits(a), (64 * ws + bs) as nat),
{
    let n = 64 * ws + bs;
    assert forall|i: int| 0 <= i < 64 * a.len() implies #[trigger] words_bits(out)[i] == (i >= n
        && words_bits(a)[i - n]) by {
        let j = i / 64;
        let t = (i % 64) as u64;
        assert(out[j] == shl_word(a, ws, bs, j));
        if j < ws {
            lemma_u64_bit_logic(0, 0, t);
        } else {
            let hi = a[j - ws] << bs;
            let lo: u64 = if bs > 0 && j - ws >= 1 {
                a[j - ws - 1] >> ((64 - bs) as u64)
            } else {
                0
            };
            lemma_u64_bit_logic(hi, lo, t);
            lemma_u64_bit_shift(a[j - ws], bs, t);
            if bs > 0 && j - ws >= 1 {
                lemma_u64_bit_shift(a[j - ws - 1], (64 - bs) as u64, t);
            } else {
                lemma_u64_bit_logic(0, 0, t);
            }
            if t >= bs {
                assert((i - n) / 64 == j - ws);
                assert((i - n) % 64 == t - bs);
            } else if j - ws >= 1 {
                assert((i - n) / 64 == j - ws - 1);
                assert((i - n) % 64 == t + 64 - bs);
            }
        }
    }
    assert(words_bits(out) =~= shl_bits(words_bits(a), n as nat));
}

/// Shifting word by word with carries is shifting the whole bit string.
proof fn lemma_shr_words(a: Seq<u64>, out: Seq<u64>, ws: int, bs: u64)
    requires
        out.len() == a.len(),
        0 <= ws,
        bs < 64,
        forall|j: int| 0 <= j < a.len() ==> #[trigger] out[j] == shr_word(a, ws, bs, j),
    ensures
        words_bits(out) == shr_bits(words_bits(a), (64 * ws + bs) as nat),
{
    let n = 64 * ws + bs;
    let len = 64 * a.len();
    assert forall|i: int| 0 <= i < len implies #[trigger] words_bits(out)[i] == (i + n < len
        && words_bits(a)[i + n]) by {
        let j = i / 64;
        let t = (i % 64) as u64;
        assert(out[j] == shr_word(a, ws, bs, j));
        if j + ws >= a.len() {
            lemma_u64_bit_logic(0, 0, t);
        } else {
            let lo = a[j + ws] >> bs;
            let hi: u64 = if bs > 0 && j + ws + 1 < a.len() {
                a[j + ws + 1] << ((64 - bs) as u64)
            } else {
                0
            };
            lemma_u64_bit_logic(lo, hi, t);
            lemma_u64_bit_shift(a[j + ws], bs, t);
            if bs > 0 && j + ws + 1 < a.len() {
                lemma_u64_bit_shift(a[j + ws + 1], (64 - bs) as u64, t);
            } else {
                lemma_u64_bit_logic(0, 0, t);
            }
            if t + bs < 64 {
                assert((i + n) / 64 == j + ws);
                assert((i + n) % 64 == t + bs);
            } else if j + ws + 1 < a.len() {
                assert((i + n) / 64 == j + ws + 1);
                assert((i + n) % 64 == t + bs - 64);
            }
        }
    }
    assert(words_bits(out) =~= shr_bits(words_bits(a), n as nat));
}

/// The bits of the first `k + 1` words are those of the first `k` followed by
/// the bits of word `k`.
proof fn lemma_words_bits_push(words: Seq<u64>, k: int)
    requires
        0 <= k < words.len(),
    ensures
        words_bits(words.take(k + 1)) == words_bits(words.take(k)) + u64_bits(words[k]),
{
    assert(words_bits(words.take(k + 1)) =~= words_bits(words.take(k)) + u64_bits(words[k]));
}

/// Sequences of words with the same bits are the same sequence.
proof fn lemma_words_bits_injective(a: Seq<u64>, b: Seq<u64>)
    requires
        a.len() == b.len(),
        words_bits(a) == words_bits(b),
    ensures
        a == b,
{
    assert forall|k: int| 0 <= k < a.len() implies a[k] == b[k] by {
        assert forall|t: int| 0 <= t < 64 implies u64_bits(a[k])[t] == u64_bits(b[k])[t] by {
            let i = 64 * k + t;
            assert(i / 64 == k && i % 64 == t);
            assert(0 <= i < 64 * a.len());
            assert(words_bits(a)[i] == u64_bit(a[k], t as u64));
            assert(words_bits(b)[i] == u64_bit(b[k], t as u64));
        }
        assert(u64_bits(a[k]) =~= u64_bits(b[k]));
        lemma_u64_bits_injective(a[k], b[k]);
    }
    assert(a =~= b);
}

impl<const N: usize> View for BitArray<N> {
    type V = Seq<u64>;

    /// The words, least significant first.
    closed spec fn view(&self) -> Seq<u64> {
        self.words@
    }
}

impl<const N: usize> BitArray<N> {
    /// The value with every bit clear.
    pub fn new() -> (z: Self)
        ensures
            z@ == Seq::new(N as nat, |k: int| 0u64),
    {
        let z = BitArray { words: [0u64; N] };
        assert(z@ =~= Seq::new(N as nat, |k: int| 0u64));
        z
    }

    /// The value made of the given words, word 0 least significant.
    pub fn from_words(words: [u64; N]) -> (a: Self)
        ensures
            a@ == words@,
    {
        BitArray { words }
    }

    /// Word `k` of the value.
    pub fn word(&self, k: usize) -> (w: u64)
        requires
            k < N,
        ensures
            w == self@[k as int],
    {
        self.words[k]
    }
}

impl<const N: usize> SimHashBits for BitArray<N> {
    open spec fn width() -> nat {
        (64 * N) as nat
    }

    open spec fn bits(&self) -> Seq<bool> {
        words_bits(self@)
    }

    proof fn lemma_bits_len(&self) {
    }

    proof fn lemma_bits_injective(&self, other: &Self) {
        lemma_words_bits_injective(self@, other@);
        assert(self.words =~= other.words);
    }

    fn bit_length() -> (n: usize) {
        64 * N
    }

    fn zero() -> (z: Self) {
        let z = BitArray::new();
        proof {
            assert forall|i: int| 0 <= i < 64 * N implies !#[trigger] words_bits(z@)[i] by {
                lemma_u64_bit_logic(0, 0, (i % 64) as u64);
            }
            assert(words_bits(z@) =~= zero_bits((64 * N) as nat));
        }
        z
    }

    fn one() -> (o: Self) {
        let mut words = [0u64; N];
        if N > 0 {
            words[0] = 1;
        }
        let o = BitArray { words };
        proof {
            assert forall|i: int| 0 <= i < 64 * N implies #[trigger] words_bits(o@)[i] == (i
                == 0) by {
                lemma_u64_bit_logic(0, 0, (i % 64) as u64);
            }
            assert(words_bits(o@) =~= one_bits((64 * N) as nat));
        }
        o
    }

    fn bit_and(self, rhs: Self) -> (r: Self) {
        let mut words = [0u64; N];
        for k in 0..N
            invariant
                forall|j: int| 0 <= j < k ==> #[trigger] words@[j] == self@[j] & rhs@[j],
        {
            words[k] = self.words[k] & rhs.words[k];
        }
        let r = BitArray { words };
        proof {
            assert forall|i: int| 0 <= i < 64 * N implies #[trigger] words_bits(r@)[i] == (
            words_bits(self@)[i] && words_bits(rhs@)[i]) by {
                assert(r@[i / 64] == self@[i / 64] & rhs@[i / 64]);
                lemma_u64_bit_logic(self@[i / 64], rhs@[i / 64], (i % 64) as u64);
            }
            assert(words_bits(r@) =~= and_bits(words_bits(self@), words_bits(rhs@)));
        }
        r
    }

    fn bit_or(self, rhs: Self) -> (r: Self) {
        let mut words = [0u64; N];
        for k in 0..N
            invariant
                forall|j: int| 0 <= j < k ==> #[trigger] words@[j] == self@[j] | rhs@[j],
        {
            words[k] = self.words[k] | rhs.words[k];
        }
        let r = BitArray { words };
        proof {
            assert forall|i: int| 0 <= i < 64 * N implies #[trigger] words_bits(r@)[i] == (
            words_bits(self@)[i] || words_bits(rhs@)[i]) by {
                assert(r@[i / 64] == self@[i / 64] | rhs@[i / 64]);
                lemma_u64_bit_logic(self@[i / 64], rhs@[i / 64], (i % 64) as u64);
            }
            assert(words_bits(r@) =~= or_bits(words_bits(self@), words_bits(rhs@)));
        }
        r
    }

    fn bit_xor(self, rhs: Self) -> (r: Self) {
        let mut words = [0u64; N];
        for k in 0..N
            invariant
                forall|j: int| 0 <= j < k ==> #[trigger] words@[j] == self@[j] ^ rhs@[j],
        {
            words[k] = self.words[k] ^ rhs.words[k];
        }
        let r = BitArray { words };
        proof {
            assert forall|i: int| 0 <= i < 64 * N implies #[trigger] words_bits(r@)[i] == (
            words_bits(self@)[i] != words_bits(rhs@)[i]) by {
                assert(r@[i / 64] == self@[i / 64] ^ rhs@[i / 64]);
                lemma_u64_bit_logic(self@[i / 64], rhs@[i / 64], (i % 64) as u64);
            }
            assert(words_bits(r@) =~= xor_bits(words_bits(self@), words_bits(rhs@)));
        }
        r
    }

    fn shift_left(self, n: usize) -> (r: Self) {
        let ws: usize = n / 64;
        let bs: usize = n % 64;
        let mut words = [0u64; N];
        for j in 0..N
            invariant
                ws == n / 64,
                bs == n % 64,
                forall|k: int| 0 <= k < j ==> #[trigger] words@[k] == shl_word(
                    self@,
                    ws as int,
                    bs as u64,
                    k,
                ),
        {
            if j >= ws {
                let hi: u64 = self.words[j - ws] << bs;
                let lo: u64 = if bs > 0 && j - ws >= 1 {
                    self.words[j - ws - 1] >> (64 - bs)
                } else {
                    0
                };
                words[j] = hi | lo;
            } else {
                words[j] = 0;
            }
        }
        let r = BitArray { words };
        proof {
            lemma_shl_words(self@, r@, ws as int, bs as u64);
        }
        r
    }

    fn shift_right(self, n: usize) -> (r: Self) {
        let ws: usize = n / 64;
        let bs: usize = n % 64;
        let mut words = [0u64; N];
        for j in 0..N
            invariant
                ws == n / 64,
                bs == n % 64,
                forall|k: int| 0 <= k < j ==> #[trigger] words@[k] == shr_word(
                    self@,
                    ws as int,
                    bs as u64,
                    k,
                ),
        {
            if ws < N - j {
                let lo: u64 = self.words[j + ws] >> bs;
                let hi: u64 = if bs > 0 && ws + 1 < N - j {
                    self.words[j + ws + 1] << (64 - bs)
                } else {
                    0
                };
                words[j] = lo | hi;
            } else {
                words[j] = 0;
            }
        }
        let r = BitArray { words };
        proof {
            lemma_shr_words(self@, r@, ws as int, bs as u64);
        }
        r
    }

    fn equals(&self, rhs: &Self) -> (same: bool) {
        let mut same = true;
        for k in 0..N
            invariant
                same == (forall|j: int| 0 <= j < k ==> self@[j] == rhs@[j]),
        {
            if self.words[k] != rhs.words[k] {
                same = false;
                assert(self@[k as int] != rhs@[k as int]);
            }
        }
        proof {
            if same {
                assert(self@ =~= rhs@);
            }
            if words_bits(self@) == words_bits(rhs@) {
                lemma_words_bits_injective(self@, rhs@);
            }
        }
        same
    }

    fn hamming_distance(&self, rhs: &Self) -> (d: usize) {
        let mut d: usize = 0;
        let ghost x = Seq::new(N as nat, |k: int| self@[k] ^ rhs@[k]);
        for k in 0..N
            invariant
                64 * N <= usize::MAX,
                x == Seq::new(N as nat, |k: int| self@[k] ^ rhs@[k]),
                d == popcount(words_bits(x.take(k as int))),
                d <= 64 * k,
        {
            let w: u64 = self.words[k] ^ rhs.words[k];
            proof {
                lemma_words_bits_push(x, k as int);
                lemma_popcount_concat(words_bits(x.take(k as int)), u64_bits(x[k as int]));
                lemma_popcount_bound(u64_bits(w));
            }
            d = d + w.count_ones() as usize;
        }
        proof {
            assert(x.take(N as int) =~= x);
            assert forall|i: int| 0 <= i < 64 * N implies #[trigger] words_bits(x)[i] == (
            words_bits(self@)[i] != words_bits(rhs@)[i]) by {
                lemma_u64_bit_logic(self@[i / 64], rhs@[i / 64], (i % 64) as u64);
            }
            assert(words_bits(x) =~= xor_bits(words_bits(self@), words_bits(rhs@)));
        }
        d
    }
}

} // verus!
