use vstd::prelude::*;

use crate::sealed::Sealed;

verus! {

/// Storage that records, for each index of a dense domain, whether it is a member.
///
/// The trait is sealed: `[bool]` and `[bool; N]` keep one flag per index, `[u64]`
/// and `[u64; N]` pack sixty-four indices into each word.
pub trait SetBacking: Sealed {
    /// The flag of each index of the domain; its length is the domain's size.
    spec fn members(&self) -> Seq<bool>;

    /// Number of indices that the storage can represent.
    fn capacity(&self) -> (r: usize)
        requires
            self.members().len() <= usize::MAX,
        ensures
            r == self.members().len(),
    ;

    /// Whether `index` is a member.
    fn contains(&self, index: usize) -> (r: bool)
        requires
            index < self.members().len(),
        ensures
            r == self.members()[index as int],
    ;

    /// Makes `index` a member.
    fn insert(&mut self, index: usize)
        requires
            index < old(self).members().len(),
        ensures
            final(self).members() == old(self).members().update(index as int, true),
    ;

    /// Makes `index` a non-member.
    fn remove(&mut self, index: usize)
        requires
            index < old(self).members().len(),
        ensures
            final(self).members() == old(self).members().update(index as int, false),
    ;

    /// Makes every index a non-member.
    fn clear_all(&mut self)
        ensures
            final(self).members() == no_members(old(self).members().len()),
    ;
}

/// A domain of `n` indices of which none is a member.
pub open spec fn no_members(n: nat) -> Seq<bool> {
    Seq::new(n, |i: int| false)
}

/// Whether bit `b` of the word `w` is set.
pub open spec fn word_bit(w: u64, b: u64) -> bool {
    (w >> b) & 1u64 == 1u64
}

/// The membership that packed words stand for: index `i` is bit `i % 64` of word `i / 64`.
pub open spec fn packed_members(words: Seq<u64>) -> Seq<bool> {
    Seq::new(words.len() * 64, |i: int| word_bit(words[i / 64], (i % 64) as u64))
}

/// Tests bit `bit` of `w` with a single-bit mask.
fn word_has(w: u64, bit: u64) -> (r: bool)
    requires
        bit < 64,
    ensures
        r == word_bit(w, bit),
{
    let r = (w & (1u64 << bit)) != 0;
    assert(((w & (1u64 << bit)) != 0) == ((w >> bit) & 1u64 == 1u64)) by (bit_vector)
        requires
            bit < 64,
    ;
    r
}

/// Sets bit `bit` of `w` and keeps the others.
fn word_with(w: u64, bit: u64) -> (r: u64)
    requires
        bit < 64,
    ensures
        forall|j: u64| j < 64 ==> word_bit(r, j) == (j == bit || word_bit(w, j)),
{
    let r = w | (1u64 << bit);
    assert forall|j: u64| j < 64 implies word_bit(r, j) == (j == bit || word_bit(w, j)) by {
        assert(((w | (1u64 << bit)) >> j) & 1u64 == 1u64 <==> (j == bit || (w >> j) & 1u64
            == 1u64)) by (bit_vector)
            requires
                bit < 64,
                j < 64,
        ;
    }
    r
}

/// Clears bit `bit` of `w` and keeps the others.
fn word_without(w: u64, bit: u64) -> (r: u64)
    requires
        bit < 64,
    ensures
        forall|j: u64| j < 64 ==> word_bit(r, j) == (j != bit && word_bit(w, j)),
{
    let r = w & !(1u64 << bit);
    assert forall|j: u64| j < 64 implies word_bit(r, j) == (j != bit && word_bit(w, j)) by {
        assert(((w & !(1u64 << bit)) >> j) & 1u64 == 1u64 <==> (j != bit && (w >> j) & 1u64
            == 1u64)) by (bit_vector)
            requires
                bit < 64,
                j < 64,
        ;
    }
    r
}

/// Splits an index of the packed domain into its word and its bit.
fn split_index(index: usize) -> (r: (usize, u64))
    ensures
        r.0 == index / 64,
        r.1 == index % 64,
{
    let word = index >> 6;
    let bit = index & 63;
    assert(index >> 6 == index / 64 && index & 63 == index % 64) by (bit_vector);
    (word, bit as u64)
}

/// Replacing the word that holds `index` by one that differs from it at that
/// index alone changes the packed membership at that index alone.
proof fn lemma_packed_update(words: Seq<u64>, index: int, w: u64, val: bool)
    requires
        0 <= index < words.len() * 64,
        forall|j: u64|
            j < 64 ==> word_bit(w, j) == if j == (index % 64) as u64 {
                val
            } else {
                word_bit(words[index / 64], j)
            },
    ensures
        packed_members(words.update(index / 64, w)) == packed_members(words).update(index, val),
{
    let new_words = words.update(index / 64, w);
    assert forall|i: int| 0 <= i < words.len() * 64 implies #[trigger] packed_members(
        new_words,
    )[i] == packed_members(words).update(index, val)[i] by {
        if i / 64 == index / 64 {
            assert(i == index <==> i % 64 == index % 64);
        }
    }
    assert(packed_members(new_words) =~= packed_members(words).update(index, val));
}

/// Words that are all zero hold no member.
proof fn lemma_packed_zero(words: Seq<u64>)
    requires
        forall|k: int| 0 <= k < words.len() ==> words[k] == 0,
    ensures
        packed_members(words) == no_members(words.len() * 64),
{
    assert forall|i: int| 0 <= i < words.len() * 64 implies !#[trigger] packed_members(words)[i] by {
        let b = (i % 64) as u64;
        assert((0u64 >> b) & 1u64 == 0u64) by (bit_vector);
    }
    assert(packed_members(words) =~= no_members(words.len() * 64));
}

impl SetBacking for [bool] {
    open spec fn members(&self) -> Seq<bool> {
        self@
    }

    fn capacity(&self) -> (r: usize) {
        self.len()
    }

    fn contains(&self, index: usize) -> (r: bool) {
        self[index]
    }

    fn insert(&mut self, index: usize) {
        self[index] = true;
    }

    fn remove(&mut self, index: usize) {
        self[index] = false;
    }

    fn clear_all(&mut self) {
        let n = self.len();
        let mut i: usize = 0;
        while i < n
            invariant
                n == self@.len(),
                n == old(self)@.len(),
                i <= n,
                forall|k: int| 0 <= k < i ==> !self@[k],
            decreases n - i,
        {
            self[i] = false;
            i = i + 1;
        }
        assert(self@ =~= no_members(n as nat));
    }
}

impl SetBacking for [u64] {
    open spec fn members(&self) -> Seq<bool> {
        packed_members(self@)
    }

    fn capacity(&self) -> (r: usize) {
        self.len() * 64
    }

    fn contains(&self, index: usize) -> (r: bool) {
        let (word, bit) = split_index(index);
        word_has(self[word], bit)
    }

    fn insert(&mut self, index: usize) {
        let (word, bit) = split_index(index);
        let w = word_with(self[word], bit);
        proof {
            lemma_packed_update(self@, index as int, w, true);
        }
        self[word] = w;
    }

    fn remove(&mut self, index: usize) {
        let (word, bit) = split_index(index);
        let w = word_without(self[word], bit);
        proof {
            lemma_packed_update(self@, index as int, w, false);
        }
        self[word] = w;
    }

    fn clear_all(&mut self) {
        let n = self.len();
        let mut i: usize = 0;
        while i < n
            invariant
                n == self@.len(),
                n == old(self)@.len(),
                i <= n,
                forall|k: int| 0 <= k < i ==> self@[k] == 0,
            decreases n - i,
        {
            self[i] = 0;
            i = i + 1;
        }
        proof {
            lemma_packed_zero(self@);
        }
    }
}


impl<const N: usize> SetBacking for [bool; N] {
    open spec fn members(&self) -> Seq<bool> {
        self@
    }

    fn capacity(&self) -> (r: usize) {
        N
    }

    fn contains(&self, index: usize) -> (r: bool) {
        self[index]
    }

    fn insert(&mut self, index: usize) {
        self[index] = true;
    }

    fn remove(&mut self, index: usize) {
        self[index] = false;
    }

    fn clear_all(&mut self) {
        let mut i: usize = 0;
        while i < N
            invariant
                N == self@.len(),
                N == old(self)@.len(),
                i <= N,
                forall|k: int| 0 <= k < i ==> !self@[k],
            decreases N - i,
        {
            self[i] = false;
            i = i + 1;
        }
        assert(self@ =~= no_members(N as nat));
    }
}

impl<const N: usize> SetBacking for [u64; N] {
    open spec fn members(&self) -> Seq<bool> {
        packed_members(self@)
    }

    fn capacity(&self) -> (r: usize) {
        N * 64
    }

    fn contains(&self, index: usize) -> (r: bool) {
        let (word, bit) = split_index(index);
        word_has(self[word], bit)
    }

    fn insert(&mut self, index: usize) {
        let (word, bit) = split_index(index);
        let w = word_with(self[word], bit);
        proof {
            lemma_packed_update(self@, index as int, w, true);
        }
        self[word] = w;
    }

    fn remove(&mut self, index: usize) {
        let (word, bit) = split_index(index);
        let w = word_without(self[word], bit);
        proof {
            lemma_packed_update(self@, index as int, w, false);
        }
        self[word] = w;
    }

    fn clear_all(&mut self) {
        let mut i: usize = 0;
        while i < N
            invariant
                N == self@.len(),
                N == old(self)@.len(),
                i <= N,
                forall|k: int| 0 <= k < i ==> self@[k] == 0,
            decreases N - i,
        {
            self[i] = 0;
            i = i + 1;
        }
        proof {
            lemma_packed_zero(self@);
        }
    }
}

} // verus!
