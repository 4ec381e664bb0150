//! The packed stream encoding of Cap'n Proto. Every 8-byte word becomes a
//! tag byte, one bit per byte of the word, followed by the word's non-zero
//! bytes. A tag of `0x00` is followed by a count of further all-zero words,
//! which are left out; a tag of `0xff` by a count of further words that
//! follow as they are.
//!
//! `unpack` reads every stream of that shape. `pack` writes the stream that
//! the Cap'n Proto runtime writes: after an all-zero word it leaves out as
//! many all-zero words as follow, up to 255; after a word without a zero byte
//! it copies as many words as follow with at most one zero byte, up to 255.

use crate::wire::le::{put_range, put_zeros, zeros};
use vstd::prelude::*;

verus! {

/// The tag of the bytes `i..8` of `word`: bit `j` is set where byte `i + j`
/// is not zero.
pub open spec fn tag_of(word: Seq<u8>, i: int) -> int
    decreases 8 - i,
{
    if i >= 8 {
        0
    } else {
        (if word[i] != 0 {
            1int
        } else {
            0int
        }) + 2 * tag_of(word, i + 1)
    }
}

/// The non-zero bytes among the bytes `i..8` of `word`, in order.
pub open spec fn literals_of(word: Seq<u8>, i: int) -> Seq<u8>
    decreases 8 - i,
{
    if i >= 8 {
        Seq::empty()
    } else if word[i] != 0 {
        seq![word[i]] + literals_of(word, i + 1)
    } else {
        literals_of(word, i + 1)
    }
}

/// How many all-zero words `words` starts with, up to `limit`.
pub open spec fn zero_run(words: Seq<u8>, limit: nat) -> nat
    decreases limit,
{
    if limit == 0 || words.len() < 8 || tag_of(words.subrange(0, 8), 0) != 0 {
        0
    } else {
        1 + zero_run(words.skip(8), (limit - 1) as nat)
    }
}

/// How many words with at most one zero byte `words` starts with, up to
/// `limit`.
pub open spec fn literal_run(words: Seq<u8>, limit: nat) -> nat
    decreases limit,
{
    if limit == 0 || words.len() < 8 || literals_of(words.subrange(0, 8), 0).len() < 7 {
        0
    } else {
        1 + literal_run(words.skip(8), (limit - 1) as nat)
    }
}

/// How many words follow the first word of `words` in its chunk: the run
/// that the first word opens, if it opens one.
pub open spec fn run_of(words: Seq<u8>) -> nat
    recommends
        words.len() >= 8,
{
    let tag = tag_of(words.subrange(0, 8), 0);
    if tag == 0 {
        zero_run(words.skip(8), 255)
    } else if tag == 255 {
        literal_run(words.skip(8), 255)
    } else {
        0
    }
}

/// How many bytes of `words` its first chunk stands for.
pub open spec fn chunk_len(words: Seq<u8>) -> int
    recommends
        words.len() >= 8,
{
    8 + 8 * (run_of(words) as int)
}

/// The first chunk of the packed form of `words`: the first word's tag and
/// non-zero bytes and, where the word opens a run, the run's count and, for
/// a run of words that are copied, those words.
pub open spec fn packed_chunk(words: Seq<u8>) -> Seq<u8>
    recommends
        words.len() >= 8,
{
    let word = words.subrange(0, 8);
    let tag = tag_of(word, 0);
    seq![tag as u8] + literals_of(word, 0) + if tag == 0 {
        seq![run_of(words) as u8]
    } else if tag == 255 {
        seq![run_of(words) as u8] + words.subrange(8, chunk_len(words))
    } else {
        Seq::empty()
    }
}

/// The packed form of a whole number of words.
pub open spec fn packed(words: Seq<u8>) -> Seq<u8>
    decreases words.len(),
{
    if words.len() < 8 {
        Seq::empty()
    } else {
        proof {
            lemma_run_of(words);
        }
        packed_chunk(words) + packed(words.skip(chunk_len(words)))
    }
}

/// How many of the low `n` bits of `tag` are set: the number of bytes that
/// follow the tag.
pub open spec fn literal_count(tag: nat, n: nat) -> nat
    decreases n,
{
    if n == 0 {
        0
    } else {
        tag % 2 + literal_count(tag / 2, (n - 1) as nat)
    }
}

/// The `n` bytes that `tag` and the bytes after it stand for: the next
/// literal where a bit is set, zero where it is not.
pub open spec fn spread(tag: nat, literals: Seq<u8>, n: nat) -> Seq<u8>
    decreases n,
{
    if n == 0 {
        Seq::empty()
    } else if tag % 2 == 1 {
        seq![literals[0]] + spread(tag / 2, literals.skip(1), (n - 1) as nat)
    } else {
        seq![0u8] + spread(tag / 2, literals, (n - 1) as nat)
    }
}

/// `n` words of zero bytes.
pub open spec fn zero_words(n: int) -> Seq<u8> {
    zeros((8 * n) as nat)
}

/// `head` in front of what the rest of a stream unpacks to.
pub open spec fn and_then(head: Seq<u8>, rest: Option<Seq<u8>>) -> Option<Seq<u8>> {
    match rest {
        Some(r) => Some(head + r),
        None => None,
    }
}

/// The first chunk of a packed stream: the words that it stands for and the
/// number of bytes that it takes, or `None` where the stream ends inside it.
/// A chunk is a tag, its literal bytes and, after a tag of `0x00` or `0xff`,
/// a count and the run that the count announces.
pub open spec fn chunk(p: Seq<u8>) -> Option<(Seq<u8>, nat)>
    recommends
        p.len() > 0,
{
    let tag = p[0] as nat;
    let k = literal_count(tag, 8) as int;
    if p.len() < 1 + k {
        None
    } else {
        let word = spread(tag, p.subrange(1, 1 + k), 8);
        if tag == 0 || tag == 255 {
            if p.len() < 2 + k {
                None
            } else {
                let n = p[1 + k] as int;
                if tag == 0 {
                    Some((word + zero_words(n), (2 + k) as nat))
                } else if p.len() < 2 + k + 8 * n {
                    None
                } else {
                    Some((word + p.subrange(2 + k, 2 + k + 8 * n), (2 + k + 8 * n) as nat))
                }
            }
        } else {
            Some((word, (1 + k) as nat))
        }
    }
}

/// The words that a packed stream stands for, or `None` where the stream
/// ends inside a word or a run.
pub open spec fn unpacked(p: Seq<u8>) -> Option<Seq<u8>>
    decreases p.len(),
{
    if p.len() == 0 {
        Some(Seq::empty())
    } else {
        match chunk(p) {
            Some((words, taken)) => and_then(words, unpacked(p.skip(taken as int))),
            None => None,
        }
    }
}

/// The tag of a word fits in a byte (its low `8 - i` bits), counts the word's
/// non-zero bytes, and spreads them back out into the word, whatever follows
/// them in the stream.
pub proof fn lemma_spread_tag(word: Seq<u8>, i: int, tail: Seq<u8>)
    requires
        word.len() == 8,
        0 <= i <= 8,
    ensures
        0 <= tag_of(word, i) < 256,
        literal_count(tag_of(word, i) as nat, (8 - i) as nat) == literals_of(word, i).len(),
        spread(tag_of(word, i) as nat, literals_of(word, i) + tail, (8 - i) as nat) == word.subrange(
            i,
            8,
        ),
    decreases 8 - i,
{
    if i < 8 {
        lemma_spread_tag(word, i + 1, tail);
        let rest_tag = tag_of(word, i + 1);
        let rest = literals_of(word, i + 1);
        lemma_tag_below(word, i);
        if word[i] != 0 {
            assert((1 + 2 * rest_tag) % 2 == 1);
            assert((1 + 2 * rest_tag) / 2 == rest_tag);
            assert((literals_of(word, i) + tail).skip(1) =~= rest + tail);
            assert((literals_of(word, i) + tail)[0] == word[i]);
        } else {
            assert((2 * rest_tag) % 2 == 0);
            assert((2 * rest_tag) / 2 == rest_tag);
        }
        assert(seq![word[i]] + word.subrange(i + 1, 8) =~= word.subrange(i, 8));
    } else {
        assert(word.subrange(i, 8) =~= Seq::<u8>::empty());
    }
}

/// The tag of the last `8 - i` bytes of a word is below `2^(8 - i)`.
proof fn lemma_tag_below(word: Seq<u8>, i: int)
    requires
        0 <= i <= 8,
    ensures
        0 <= tag_of(word, i),
        i == 8 ==> tag_of(word, i) < 1,
        i == 7 ==> tag_of(word, i) < 2,
        i == 6 ==> tag_of(word, i) < 4,
        i == 5 ==> tag_of(word, i) < 8,
        i == 4 ==> tag_of(word, i) < 16,
        i == 3 ==> tag_of(word, i) < 32,
        i == 2 ==> tag_of(word, i) < 64,
        i == 1 ==> tag_of(word, i) < 128,
        i == 0 ==> tag_of(word, i) < 256,
    decreases 8 - i,
{
    if i < 8 {
        lemma_tag_below(word, i + 1);
    }
}

/// A word whose tag is zero from byte `i` on is zero from byte `i` on.
proof fn lemma_zero_tag(word: Seq<u8>, i: int)
    requires
        0 <= i <= 8,
        tag_of(word, i) == 0,
    ensures
        forall|j: int| i <= j < 8 ==> word[j] == 0,
    decreases 8 - i,
{
    if i < 8 {
        lemma_tag_below(word, i + 1);
        lemma_zero_tag(word, i + 1);
    }
}

/// A run of all-zero words is within its limit and within the words, and is
/// all zero.
pub proof fn lemma_zero_run(words: Seq<u8>, limit: nat)
    ensures
        zero_run(words, limit) <= limit,
        8 * zero_run(words, limit) <= words.len(),
        words.subrange(0, 8 * (zero_run(words, limit) as int)) == zero_words(
            zero_run(words, limit) as int,
        ),
    decreases limit,
{
    let n = zero_run(words, limit) as int;
    if n > 0 {
        let rest = words.skip(8);
        lemma_zero_run(rest, (limit - 1) as nat);
        lemma_zero_tag(words.subrange(0, 8), 0);
        assert forall|j: int| 0 <= j < 8 * n implies words[j] == 0 by {
            if j < 8 {
                assert(words.subrange(0, 8)[j] == words[j]);
            } else {
                assert(rest.subrange(0, 8 * (n - 1))[j - 8] == rest[j - 8]);
                assert(zero_words(n - 1)[j - 8] == 0);
            }
        }
    }
    assert(words.subrange(0, 8 * n) =~= zero_words(n));
}

/// A run of words that are copied is within its limit and within the words.
pub proof fn lemma_literal_run(words: Seq<u8>, limit: nat)
    ensures
        literal_run(words, limit) <= limit,
        8 * literal_run(words, limit) <= words.len(),
    decreases limit,
{
    if literal_run(words, limit) > 0 {
        lemma_literal_run(words.skip(8), (limit - 1) as nat);
    }
}

/// A chunk stays within the words that it is made of.
pub proof fn lemma_run_of(words: Seq<u8>)
    requires
        words.len() >= 8,
    ensures
        run_of(words) <= 255,
        chunk_len(words) <= words.len(),
{
    lemma_zero_run(words.skip(8), 255);
    lemma_literal_run(words.skip(8), 255);
}

/// Unpacking the first chunk of some words in front of a stream gives the
/// words of the chunk in front of what the stream unpacks to.
pub proof fn lemma_unpack_packed_chunk(words: Seq<u8>, rest: Seq<u8>)
    requires
        words.len() >= 8,
    ensures
        unpacked(packed_chunk(words) + rest) == and_then(
            words.subrange(0, chunk_len(words)),
            unpacked(rest),
        ),
{
    let word = words.subrange(0, 8);
    let tag = tag_of(word, 0);
    let lits = literals_of(word, 0);
    let k = lits.len() as int;
    let n = run_of(words) as int;
    let p = packed_chunk(words) + rest;
    lemma_run_of(words);
    lemma_spread_tag(word, 0, Seq::empty());
    assert(word.subrange(0, 8) =~= word);
    assert(lits + Seq::<u8>::empty() =~= lits);
    assert(p[0] as int == tag);
    assert(p.subrange(1, 1 + k) =~= lits);
    if tag == 0 {
        lemma_zero_run(words.skip(8), 255);
        assert(p[1 + k] as int == n);
        assert(p.skip(2 + k) =~= rest);
        assert(words.skip(8).subrange(0, 8 * n) =~= words.subrange(8, 8 + 8 * n));
        assert(word + zero_words(n) =~= words.subrange(0, 8 + 8 * n));
        assert(chunk(p) == Some((words.subrange(0, 8 + 8 * n), (2 + k) as nat)));
    } else if tag == 255 {
        assert(p[1 + k] as int == n);
        assert(p.subrange(2 + k, 2 + k + 8 * n) =~= words.subrange(8, 8 + 8 * n));
        assert(p.skip(2 + k + 8 * n) =~= rest);
        assert(word + words.subrange(8, 8 + 8 * n) =~= words.subrange(0, 8 + 8 * n));
        assert(chunk(p) == Some((words.subrange(0, 8 + 8 * n), (2 + k + 8 * n) as nat)));
    } else {
        assert(p.skip(1 + k) =~= rest);
        assert(chunk(p) == Some((word, (1 + k) as nat)));
    }
}

/// A word has at most eight non-zero bytes.
proof fn lemma_literals_length(word: Seq<u8>, i: int)
    requires
        0 <= i <= 8,
    ensures
        literals_of(word, i).len() <= 8 - i,
    decreases 8 - i,
{
    if i < 8 {
        lemma_literals_length(word, i + 1);
    }
}

/// Packing makes a stream at most a quarter longer than the words: a chunk
/// is at most two bytes longer than what it stands for.
pub proof fn lemma_packed_length(words: Seq<u8>)
    requires
        words.len() % 8 == 0,
    ensures
        4 * packed(words).len() <= 5 * words.len(),
    decreases words.len(),
{
    if words.len() >= 8 {
        lemma_run_of(words);
        lemma_literals_length(words.subrange(0, 8), 0);
        lemma_tag_below(words.subrange(0, 8), 0);
        let rest = words.skip(chunk_len(words));
        lemma_packed_length(rest);
        assert(packed_chunk(words).len() <= chunk_len(words) + 2);
    }
}

/// Unpacking what `packed` wrote gives the words back.
pub proof fn lemma_unpack_packed(words: Seq<u8>)
    requires
        words.len() % 8 == 0,
    ensures
        unpacked(packed(words)) == Some(words),
    decreases words.len(),
{
    if words.len() < 8 {
        assert(words =~= Seq::<u8>::empty());
    } else {
        lemma_run_of(words);
        let taken = chunk_len(words);
        let rest = words.skip(taken);
        lemma_unpack_packed(rest);
        lemma_unpack_packed_chunk(words, packed(rest));
        assert(words.subrange(0, taken) + rest =~= words);
    }
}

/// The tag byte of the word at `at`.
fn tag_byte(words: &[u8], at: usize) -> (tag: u8)
    requires
        at + 8 <= words.len(),
    ensures
        tag == tag_of(words@.subrange(at as int, at + 8), 0),
{
    let ghost word = words@.subrange(at as int, at + 8);
    let mut tag: u8 = 0;
    let mut i: usize = 8;
    while i > 0
        invariant
            i <= 8,
            at + 8 <= words.len(),
            word == words@.subrange(at as int, at + 8),
            tag == tag_of(word, i as int),
        decreases i,
    {
        i = i - 1;
        proof {
            lemma_tag_below(word, i as int);
            lemma_tag_below(word, i + 1);
        }
        let b: u8 = words[at + i];
        assert(b == word[i as int]);
        if b != 0 {
            tag = 2 * tag + 1;
        } else {
            tag = 2 * tag;
        }
    }
    tag
}

/// Appends the non-zero bytes of the word at `at` and says how many they are.
fn push_literals(out: &mut Vec<u8>, words: &[u8], at: usize) -> (k: usize)
    requires
        at + 8 <= words.len(),
    ensures
        final(out)@ == old(out)@ + literals_of(words@.subrange(at as int, at + 8), 0),
        k == literals_of(words@.subrange(at as int, at + 8), 0).len(),
{
    let ghost word = words@.subrange(at as int, at + 8);
    let mut k: usize = 0;
    let mut i: usize = 0;
    while i < 8
        invariant
            i <= 8,
            k <= i,
            at + 8 <= words.len(),
            word == words@.subrange(at as int, at + 8),
            old(out)@ + literals_of(word, 0) == out@ + literals_of(word, i as int),
            literals_of(word, 0).len() == k + literals_of(word, i as int).len(),
        decreases 8 - i,
    {
        let b: u8 = words[at + i];
        assert(b == word[i as int]);
        if b != 0 {
            assert(out@ + (seq![b] + literals_of(word, i + 1)) =~= out@.push(b) + literals_of(
                word,
                i + 1,
            ));
            out.push(b);
            k = k + 1;
        }
        i = i + 1;
    }
    assert(out@ + literals_of(word, 8) =~= out@);
    k
}

/// The number of non-zero bytes of the word at `at`.
fn count_nonzero(words: &[u8], at: usize) -> (k: usize)
    requires
        at + 8 <= words.len(),
    ensures
        k == literals_of(words@.subrange(at as int, at + 8), 0).len(),
{
    let ghost word = words@.subrange(at as int, at + 8);
    let mut k: usize = 0;
    let mut i: usize = 0;
    while i < 8
        invariant
            i <= 8,
            k <= i,
            at + 8 <= words.len(),
            word == words@.subrange(at as int, at + 8),
            literals_of(word, 0).len() == k + literals_of(word, i as int).len(),
        decreases 8 - i,
    {
        let b: u8 = words[at + i];
        assert(b == word[i as int]);
        if b != 0 {
            k = k + 1;
        }
        i = i + 1;
    }
    k
}

/// The length of the run of all-zero words that starts at `at`.
fn count_zero_run(words: &[u8], at: usize) -> (n: usize)
    requires
        at <= words.len(),
    ensures
        n == zero_run(words@.skip(at as int), 255),
        n <= 255,
        at + 8 * n <= words.len(),
{
    let mut n: usize = 0;
    loop
        invariant
            n <= 255,
            at + 8 * n <= words.len(),
            zero_run(words@.skip(at as int), 255) == n + zero_run(
                words@.skip(at + 8 * n),
                (255 - n) as nat,
            ),
        decreases 255 - n,
    {
        let ghost here = words@.skip(at + 8 * n);
        if n >= 255 || words.len() - (at + 8 * n) < 8 {
            return n;
        }
        let tag = tag_byte(words, at + 8 * n);
        assert(here.subrange(0, 8) =~= words@.subrange(at + 8 * n, at + 8 * n + 8));
        if tag != 0 {
            return n;
        }
        assert(here.skip(8) =~= words@.skip(at + 8 * (n + 1)));
        n = n + 1;
    }
}

/// The length of the run of words with at most one zero byte that starts at
/// `at`.
fn count_literal_run(words: &[u8], at: usize) -> (n: usize)
    requires
        at <= words.len(),
    ensures
        n == literal_run(words@.skip(at as int), 255),
        n <= 255,
        at + 8 * n <= words.len(),
{
    let mut n: usize = 0;
    loop
        invariant
            n <= 255,
            at + 8 * n <= words.len(),
            literal_run(words@.skip(at as int), 255) == n + literal_run(
                words@.skip(at + 8 * n),
                (255 - n) as nat,
            ),
        decreases 255 - n,
    {
        let ghost here = words@.skip(at + 8 * n);
        if n >= 255 || words.len() - (at + 8 * n) < 8 {
            return n;
        }
        let k = count_nonzero(words, at + 8 * n);
        assert(here.subrange(0, 8) =~= words@.subrange(at + 8 * n, at + 8 * n + 8));
        if k < 7 {
            return n;
        }
        assert(here.skip(8) =~= words@.skip(at + 8 * (n + 1)));
        n = n + 1;
    }
}

/// Appends the packed chunk of the words from `at` on and says how many
/// bytes of them it stands for.
fn pack_chunk(out: &mut Vec<u8>, words: &[u8], at: usize) -> (taken: usize)
    requires
        at + 8 <= words.len(),
    ensures
        final(out)@ == old(out)@ + packed_chunk(words@.skip(at as int)),
        taken == chunk_len(words@.skip(at as int)),
        at + taken <= words.len(),
{
    let ghost here = words@.skip(at as int);
    let ghost word = here.subrange(0, 8);
    assert(word =~= words@.subrange(at as int, at + 8));
    assert(here.skip(8) =~= words@.skip(at + 8));
    let tag = tag_byte(words, at);
    out.push(tag);
    let _ = push_literals(out, words, at);
    let ghost head = seq![tag] + literals_of(word, 0);
    assert(out@ =~= old(out)@ + head);
    if tag == 0 {
        let n = count_zero_run(words, at + 8);
        out.push(n as u8);
        assert(out@ =~= old(out)@ + (head + seq![n as u8]));
        8 + 8 * n
    } else if tag == 255 {
        let n = count_literal_run(words, at + 8);
        out.push(n as u8);
        put_range(out, words, at + 8, 8 * n);
        proof {
            let run = words@.subrange(at + 8, at + 8 + 8 * n);
            assert(run =~= here.subrange(8, 8 + 8 * n));
            assert(out@ =~= old(out)@ + (head + (seq![n as u8] + run)));
        }
        8 + 8 * n
    } else {
        assert(out@ =~= old(out)@ + (head + Seq::<u8>::empty()));
        8
    }
}

/// Packs a whole number of words.
pub fn pack(words: &[u8]) -> (out: Vec<u8>)
    requires
        words.len() % 8 == 0,
    ensures
        out@ == packed(words@),
{
    let mut out: Vec<u8> = Vec::new();
    let mut at: usize = 0;
    proof {
        assert(words@.skip(0) =~= words@);
        assert(out@ + packed(words@) =~= packed(words@));
    }
    while at < words.len()
        invariant
            at <= words.len(),
            at % 8 == 0,
            words.len() % 8 == 0,
            out@ + packed(words@.skip(at as int)) == packed(words@),
        decreases words.len() - at,
    {
        let ghost before = out@;
        let ghost here = words@.skip(at as int);
        let taken = pack_chunk(&mut out, words, at);
        proof {
            assert(here.skip(taken as int) =~= words@.skip(at + taken));
            assert(before + (packed_chunk(here) + packed(here.skip(taken as int))) =~= (before
                + packed_chunk(here)) + packed(here.skip(taken as int)));
        }
        at = at + taken;
    }
    proof {
        assert(words@.skip(at as int) =~= Seq::<u8>::empty());
        assert(out@ + Seq::<u8>::empty() =~= out@);
    }
    out
}

/// The number of literal bytes that follow `tag`.
fn count_literals(tag: u8) -> (k: usize)
    ensures
        k == literal_count(tag as nat, 8),
        k <= 8,
{
    let mut bits: u8 = tag;
    let mut k: usize = 0;
    let mut i: usize = 0;
    while i < 8
        invariant
            i <= 8,
            k <= i,
            k + literal_count(bits as nat, (8 - i) as nat) == literal_count(tag as nat, 8),
        decreases 8 - i,
    {
        if bits % 2 == 1 {
            k = k + 1;
        }
        bits = bits / 2;
        i = i + 1;
    }
    k
}

/// Appends the word that the tag at `at` and its `k` literal bytes stand for.
fn push_spread(out: &mut Vec<u8>, packed: &[u8], at: usize, k: usize)
    requires
        at + 1 + k <= packed.len(),
        k == literal_count(packed@[at as int] as nat, 8),
    ensures
        final(out)@ == old(out)@ + spread(
            packed@[at as int] as nat,
            packed@.subrange(at + 1, at + 1 + k),
            8,
        ),
{
    let tag: u8 = packed[at];
    let ghost lits = packed@.subrange(at + 1, at + 1 + k);
    let ghost word = spread(tag as nat, lits, 8);
    let mut bits: u8 = tag;
    let mut used: usize = 0;
    let mut i: usize = 0;
    proof {
        assert(lits.skip(0) =~= lits);
        assert(out@ =~= old(out)@ + Seq::<u8>::empty());
        assert(Seq::<u8>::empty() + word =~= word);
    }
    let ghost mut body: Seq<u8> = Seq::empty();
    while i < 8
        invariant
            i <= 8,
            used <= k,
            at + 1 + k <= packed.len(),
            lits == packed@.subrange(at + 1, at + 1 + k),
            out@ == old(out)@ + body,
            used + literal_count(bits as nat, (8 - i) as nat) == k,
            word == body + spread(bits as nat, lits.skip(used as int), (8 - i) as nat),
        decreases 8 - i,
    {
        let ghost left = lits.skip(used as int);
        if bits % 2 == 1 {
            let b: u8 = packed[at + 1 + used];
            proof {
                let more = spread((bits / 2) as nat, left.skip(1), (7 - i) as nat);
                assert(b == left[0]);
                assert(left.skip(1) =~= lits.skip(used + 1));
                assert(body + (seq![b] + more) =~= body.push(b) + more);
                assert(out@.push(b) =~= old(out)@ + body.push(b));
                body = body.push(b);
            }
            out.push(b);
            used = used + 1;
        } else {
            proof {
                let more = spread((bits / 2) as nat, left, (7 - i) as nat);
                assert(body + (seq![0u8] + more) =~= body.push(0u8) + more);
                assert(out@.push(0u8) =~= old(out)@ + body.push(0u8));
                body = body.push(0u8);
            }
            out.push(0u8);
        }
        bits = bits / 2;
        i = i + 1;
    }
    proof {
        assert(body + Seq::<u8>::empty() =~= body);
    }
}

/// Unpacks the chunk that starts at `at`, appends its words to `out` and
/// returns where the next chunk starts.
fn unpack_chunk(out: &mut Vec<u8>, packed: &[u8], at: usize) -> (next: Option<usize>)
    requires
        at < packed.len(),
    ensures
        match next {
            Some(next) => chunk(packed@.skip(at as int)) matches Some((words, taken))
                && final(out)@ == old(out)@ + words && next == at + taken && next
                <= packed.len(),
            None => chunk(packed@.skip(at as int)) is None && final(out)@ == old(out)@,
        },
{
    let ghost p = packed@.skip(at as int);
    let tag: u8 = packed[at];
    let k = count_literals(tag);
    assert(tag == p[0]);
    if packed.len() - at - 1 < k {
        return None;
    }
    assert(p.subrange(1, 1 + k) =~= packed@.subrange(at + 1, at + 1 + k));
    if tag == 0 || tag == 255 {
        if packed.len() - at - 1 - k < 1 {
            return None;
        }
        let n: usize = packed[at + 1 + k] as usize;
        assert(n == p[1 + k] as int);
        if tag == 0 {
            push_spread(out, packed, at, k);
            let ghost word = spread(tag as nat, p.subrange(1, 1 + k), 8);
            put_zeros(out, 8 * n);
            proof {
                assert(old(out)@ + word + zero_words(n as int) =~= old(out)@ + (word
                    + zero_words(n as int)));
            }
            Some(at + 2 + k)
        } else {
            if packed.len() - at - 2 - k < 8 * n {
                return None;
            }
            push_spread(out, packed, at, k);
            let ghost word = spread(tag as nat, p.subrange(1, 1 + k), 8);
            put_range(out, packed, at + 2 + k, 8 * n);
            proof {
                let run = p.subrange(2 + k, 2 + k + 8 * n);
                assert(run =~= packed@.subrange(at + 2 + k, at + 2 + k + 8 * n));
                assert(old(out)@ + word + run =~= old(out)@ + (word + run));
            }
            Some(at + 2 + k + 8 * n)
        }
    } else {
        push_spread(out, packed, at, k);
        Some(at + 1 + k)
    }
}

/// Unpacks a packed stream, all of it.
pub fn unpack(packed: &[u8]) -> (r: Option<Vec<u8>>)
    ensures
        match r {
            Some(words) => unpacked(packed@) == Some(words@),
            None => unpacked(packed@) is None,
        },
{
    let mut out: Vec<u8> = Vec::new();
    let mut at: usize = 0;
    proof {
        assert(packed@.skip(0) =~= packed@);
        match unpacked(packed@) {
            Some(r) => {
                assert(out@ + r =~= r);
            },
            None => {},
        }
    }
    while at < packed.len()
        invariant
            at <= packed.len(),
            unpacked(packed@) == and_then(out@, unpacked(packed@.skip(at as int))),
        decreases packed.len() - at,
    {
        let ghost before = out@;
        let ghost p = packed@.skip(at as int);
        match unpack_chunk(&mut out, packed, at) {
            None => {
                return None;
            },
            Some(next) => {
                proof {
                    let (words, taken) = chunk(p).unwrap();
                    assert(p.skip(taken as int) =~= packed@.skip(next as int));
                    match unpacked(packed@.skip(next as int)) {
                        Some(r) => {
                            assert(before + (words + r) =~= out@ + r);
                        },
                        None => {},
                    }
                }
                at = next;
            },
        }
    }
    proof {
        assert(packed@.skip(at as int) =~= Seq::<u8>::empty());
        assert(out@ + Seq::<u8>::empty() =~= out@);
    }
    Some(out)
}

} // verus!
