//! Fixed-width encodings: every integer travels as eight bytes, most
//! significant first.

use vstd::prelude::*;

verus! {

/// The eight bytes of `v`, most significant first.
pub open spec fn be_bytes(v: nat) -> Seq<u8> {
    seq![
        ((v / 0x100_0000_0000_0000) % 256) as u8,
        ((v / 0x1_0000_0000_0000) % 256) as u8,
        ((v / 0x100_0000_0000) % 256) as u8,
        ((v / 0x1_0000_0000) % 256) as u8,
        ((v / 0x100_0000) % 256) as u8,
        ((v / 0x1_0000) % 256) as u8,
        ((v / 0x100) % 256) as u8,
        (v % 256) as u8,
    ]
}

/// The integer that the eight bytes from `offset` on spell, most
/// significant first.
pub open spec fn be_word(d: Seq<u8>, offset: int) -> nat {
    (d[offset] as nat) * 0x100_0000_0000_0000 + (d[offset + 1] as nat) * 0x1_0000_0000_0000 + (d[
        offset + 2] as nat) * 0x100_0000_0000 + (d[offset + 3] as nat) * 0x1_0000_0000 + (d[offset
        + 4] as nat) * 0x100_0000 + (d[offset + 5] as nat) * 0x1_0000 + (d[offset + 6] as nat)
        * 0x100 + (d[offset + 7] as nat)
}

/// The encodings of a sequence of integers, one after the other.
pub open spec fn words_bytes(ws: Seq<nat>) -> Seq<u8>
    decreases ws.len(),
{
    if ws.len() == 0 {
        Seq::<u8>::empty()
    } else {
        words_bytes(ws.drop_last()) + be_bytes(ws.last())
    }
}

/// Appends the eight bytes of `v`, most significant first.
pub fn push_be_bytes(buf: &mut Vec<u8>, v: u64)
    ensures
        final(buf)@ == old(buf)@ + be_bytes(v as nat),
{
    buf.push(((v / 0x100_0000_0000_0000) % 256) as u8);
    buf.push(((v / 0x1_0000_0000_0000) % 256) as u8);
    buf.push(((v / 0x100_0000_0000) % 256) as u8);
    buf.push(((v / 0x1_0000_0000) % 256) as u8);
    buf.push(((v / 0x100_0000) % 256) as u8);
    buf.push(((v / 0x1_0000) % 256) as u8);
    buf.push(((v / 0x100) % 256) as u8);
    buf.push((v % 256) as u8);
    assert(buf@ =~= old(buf)@ + be_bytes(v as nat));
}

/// Reads the word that starts at `offset`.
pub fn read_word(d: &[u8], offset: usize) -> (r: u64)
    requires
        offset + 8 <= d.len(),
    ensures
        r == be_word(d@, offset as int),
{
    let b0: u64 = d[offset] as u64;
    let b1: u64 = d[offset + 1] as u64;
    let b2: u64 = d[offset + 2] as u64;
    let b3: u64 = d[offset + 3] as u64;
    let b4: u64 = d[offset + 4] as u64;
    let b5: u64 = d[offset + 5] as u64;
    let b6: u64 = d[offset + 6] as u64;
    let b7: u64 = d[offset + 7] as u64;
    b0 * 0x100_0000_0000_0000 + b1 * 0x1_0000_0000_0000 + b2 * 0x100_0000_0000 + b3
        * 0x1_0000_0000 + b4 * 0x100_0000 + b5 * 0x1_0000 + b6 * 0x100 + b7
}

/// Reading the encoding of an integer gives the integer back.
pub proof fn lemma_be_word_of_be_bytes(v: nat)
    requires
        v <= u64::MAX,
    ensures
        be_bytes(v).len() == 8,
        be_word(be_bytes(v), 0) == v,
{
    let x: u64 = v as u64;
    assert((x / 0x100_0000_0000_0000) % 256 * 0x100_0000_0000_0000 + (x / 0x1_0000_0000_0000) % 256
        * 0x1_0000_0000_0000 + (x / 0x100_0000_0000) % 256 * 0x100_0000_0000 + (x / 0x1_0000_0000)
        % 256 * 0x1_0000_0000 + (x / 0x100_0000) % 256 * 0x100_0000 + (x / 0x1_0000) % 256
        * 0x1_0000 + (x / 0x100) % 256 * 0x100 + x % 256 == x) by (bit_vector);
}

/// Every integer takes eight bytes.
pub proof fn lemma_words_bytes_len(ws: Seq<nat>)
    ensures
        words_bytes(ws).len() == 8 * ws.len(),
    decreases ws.len(),
{
    if ws.len() > 0 {
        lemma_words_bytes_len(ws.drop_last());
    }
}

/// A word depends only on its own eight bytes.
pub proof fn lemma_be_word_in_concat(x: Seq<u8>, y: Seq<u8>, z: Seq<u8>, offset: int)
    requires
        0 <= offset,
        offset + 8 <= y.len(),
    ensures
        be_word(x + y + z, x.len() + offset) == be_word(y, offset),
{
}

/// The word at position `i` of an encoded sequence is its integer `i`.
pub proof fn lemma_words_bytes_word(ws: Seq<nat>, i: int)
    requires
        0 <= i < ws.len(),
        forall|j: int| 0 <= j < ws.len() ==> ws[j] <= u64::MAX,
    ensures
        be_word(words_bytes(ws), 8 * i) == ws[i],
    decreases ws.len(),
{
    let front = ws.drop_last();
    lemma_words_bytes_len(front);
    lemma_be_word_of_be_bytes(ws.last());
    if i == ws.len() - 1 {
        lemma_be_word_in_concat(words_bytes(front), be_bytes(ws.last()), Seq::<u8>::empty(), 0);
        assert(words_bytes(ws) =~= words_bytes(front) + be_bytes(ws.last()) + Seq::<u8>::empty());
    } else {
        lemma_words_bytes_word(front, i);
        lemma_be_word_in_concat(Seq::<u8>::empty(), words_bytes(front), be_bytes(ws.last()), 8 * i);
        assert(words_bytes(ws) =~= Seq::<u8>::empty() + words_bytes(front) + be_bytes(ws.last()));
    }
}

} // verus!
