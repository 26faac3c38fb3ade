//! The two reading strategies' verified cores.
//!
//! The throughput reader reads a file in large chunks and feeds each chunk to
//! a [`Throughput`] accumulator; the caller owns the open file and the read
//! loop, and hands over exactly the bytes each read call returned. The mapped
//! reader makes the whole file addressable at once and folds it in one call to
//! [`fold_mapped`]. Both fold every full 8-byte word and exclude the trailing
//! bytes, so over the same contents they compute the same signature.

use vstd::prelude::*;

use crate::fold::fold_bytes;
use crate::fold::fold_slice;
use crate::fold::lemma_fold_append;

verus! {

/// Running totals of the chunked throughput reader: how many bytes have been
/// observed, and the signature folded so far.
pub struct Throughput {
    /// Total bytes observed across all chunks so far.
    pub bytes: u64,
    /// The accumulator: every full word of every chunk, folded with wraparound.
    pub token: u64,
}

impl Throughput {
    /// A fresh reader: nothing observed, signature zero.
    pub fn new() -> (s: Self)
        ensures
            s.bytes == 0,
            s.token == 0,
    {
        Throughput { bytes: 0, token: 0 }
    }

    /// Account one chunk, exactly the bytes the last read call returned: the
    /// byte count grows by the chunk's length, and every full word of the
    /// chunk — never stale bytes beyond it — is folded into the signature.
    /// Trailing bytes of the chunk that do not fill a word are excluded.
    pub fn feed(&mut self, chunk: &[u8])
        requires
            old(self).bytes + chunk@.len() <= u64::MAX,
        ensures
            final(self).bytes == old(self).bytes + chunk@.len(),
            final(self).token == fold_bytes(old(self).token, chunk@),
    {
        let n: usize = chunk.len();
        self.bytes = self.bytes + n as u64;
        self.token = fold_slice(self.token, chunk);
    }
}

/// The totals a reader starting from `bytes` observed and `token` folded
/// reaches after feeding every chunk in turn: the byte count first, the
/// signature second. This is what a run of [`Throughput::feed`] over the
/// chunks computes.
pub open spec fn run_totals(bytes: int, token: u64, chunks: Seq<Seq<u8>>) -> (int, u64)
    decreases chunks.len(),
{
    if chunks.len() == 0 {
        (bytes, token)
    } else {
        run_totals(bytes + chunks[0].len(), fold_bytes(token, chunks[0]), chunks.drop_first())
    }
}

/// A full run of the throughput reader reports the file faithfully: fed
/// chunks that concatenate to the file's contents, it counts every byte of
/// every chunk — the file's length — and its signature equals the one fold
/// over the whole contents, provided every chunk before the last fills whole
/// words (reads into the fixed 256 KiB buffer do, since only the final read
/// can come up short). The signature is thus a function of the contents
/// alone: two runs over an unmodified file, or one run of each reader, report
/// the same accumulator.
pub proof fn lemma_run_totals(bytes: int, token: u64, chunks: Seq<Seq<u8>>)
    requires
        forall|i: int| 0 <= i < chunks.len() - 1 ==> (#[trigger] chunks[i]).len() % 8 == 0,
    ensures
        run_totals(bytes, token, chunks).0 == bytes + chunks.flatten().len(),
        run_totals(bytes, token, chunks).1 == fold_bytes(token, chunks.flatten()),
    decreases chunks.len(),
{
    if chunks.len() == 0 {
        assert(chunks.flatten() =~= Seq::<u8>::empty());
    } else {
        let rest = chunks.drop_first();
        assert(forall|i: int|
            0 <= i < rest.len() - 1 ==> (#[trigger] rest[i]).len() % 8 == 0) by {
            assert(forall|i: int| 0 <= i < rest.len() ==> rest[i] == chunks[i + 1]);
        }
        let bytes1 = bytes + chunks[0].len();
        let token1 = fold_bytes(token, chunks[0]);
        lemma_run_totals(bytes1, token1, rest);
        assert(run_totals(bytes, token, chunks) == run_totals(bytes1, token1, rest));
        assert(chunks.flatten() == chunks[0] + rest.flatten());
        if chunks.len() == 1 {
            assert(rest.flatten() =~= Seq::<u8>::empty());
            assert(chunks[0] + rest.flatten() =~= chunks[0]);
        } else {
            lemma_fold_append(token, chunks[0], rest.flatten());
        }
    }
}

/// The mapped reader's fold: walk the whole region and fold every full word
/// into a fresh accumulator. The final window boundary is clamped to the last
/// full word, so a region of `8 * k + r` bytes (`r < 8`) folds exactly `k`
/// words, and a region shorter than one word folds none and returns zero.
pub fn fold_mapped(region: &[u8]) -> (token: u64)
    ensures
        token == fold_bytes(0, region@),
{
    fold_slice(0, region)
}

} // verus!
