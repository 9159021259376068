//! Comparing two files piece by piece.
use vstd::prelude::*;

verus! {

/// The most bytes that are compared at once.
pub const COMPARISON_CHUNK: usize = 65_536;

/// How far two files of the same length have been compared.
#[derive(Debug, Clone, Copy, PartialEq, Eq, Structural)]
pub struct FileComparison {
    pub remaining: u64,
}

impl FileComparison {
    /// Begins to compare two files; those of different lengths differ.
    pub fn new(left_len: u64, right_len: u64) -> (r: Option<FileComparison>)
        ensures
            r == (if left_len == right_len {
                Some(FileComparison { remaining: left_len })
            } else {
                None
            }),
    {
        if left_len == right_len {
            Some(FileComparison { remaining: left_len })
        } else {
            None
        }
    }

    /// How many bytes to read next from each file; none when all were compared.
    pub fn next_chunk(&self) -> (r: usize)
        ensures
            r == (if self.remaining < COMPARISON_CHUNK {
                self.remaining as int
            } else {
                COMPARISON_CHUNK as int
            }),
    {
        if self.remaining < COMPARISON_CHUNK as u64 {
            self.remaining as usize
        } else {
            COMPARISON_CHUNK
        }
    }

    /// Compares the bytes that were read; the comparison goes on while they are the same.
    pub fn compare_chunk(&mut self, left: &[u8], right: &[u8]) -> (r: bool)
        requires
            left@.len() <= old(self).remaining,
        ensures
            r == (left@ == right@),
            final(self).remaining == old(self).remaining - left@.len(),
    {
        self.remaining = self.remaining - left.len() as u64;
        if left.len() != right.len() {
            return false;
        }
        let mut i: usize = 0;
        while i < left.len()
            invariant
                i <= left.len(),
                left@.len() == right@.len(),
                self.remaining == old(self).remaining - left@.len(),
                forall|j: int| 0 <= j < i ==> left@[j] == right@[j],
            decreases left.len() - i,
        {
            if left[i] != right[i] {
                return false;
            }
            i += 1;
        }
        proof {
            assert(left@ =~= right@);
        }
        true
    }
}

/// The bytes of two files agree from a place on, compared in pieces.
pub open spec fn pieces_agree(left: Seq<u8>, right: Seq<u8>, from: int) -> bool
    decreases left.len() - from,
{
    if from < 0 || from >= left.len() {
        true
    } else {
        let rest = left.len() - from;
        let chunk = if rest < COMPARISON_CHUNK {
            rest
        } else {
            COMPARISON_CHUNK as int
        };
        left.subrange(from, from + chunk) == right.subrange(from, from + chunk) && pieces_agree(
            left,
            right,
            from + chunk,
        )
    }
}

/// Two files of the same length whose pieces all agree hold the same bytes, and only those.
pub proof fn law_equal_pieces_make_equal_files(left: Seq<u8>, right: Seq<u8>)
    requires
        left.len() == right.len(),
    ensures
        pieces_agree(left, right, 0) <==> left == right,
{
    lemma_agreement(left, right, 0);
    if pieces_agree(left, right, 0) {
        assert(left =~= right);
    }
}

proof fn lemma_agreement(left: Seq<u8>, right: Seq<u8>, from: int)
    requires
        left.len() == right.len(),
        0 <= from <= left.len(),
    ensures
        pieces_agree(left, right, from) <==> (forall|i: int|
            from <= i < left.len() ==> #[trigger] left[i] == right[i]),
    decreases left.len() - from,
{
    if from < left.len() {
        let rest = left.len() - from;
        let chunk = if rest < COMPARISON_CHUNK {
            rest
        } else {
            COMPARISON_CHUNK as int
        };
        lemma_agreement(left, right, from + chunk);
        let a = left.subrange(from, from + chunk);
        let b = right.subrange(from, from + chunk);
        if a == b {
            assert forall|i: int| from <= i < from + chunk implies left[i] == right[i] by {
                assert(a[i - from] == left[i]);
                assert(b[i - from] == right[i]);
            }
        }
        if forall|i: int| from <= i < left.len() ==> #[trigger] left[i] == right[i] {
            assert(a =~= b);
        }
    }
}

} // verus!
