//! The hash processor's per-cycle logic: given the bytes read for each
//! queued entry, record a digest for every entry whose read succeeded and
//! count the entries processed. Reading the files is the caller's side;
//! a failed read skips that one entry and the cycle goes on.

use vstd::prelude::*;
use crate::digest::{md5_hex, md5_hex_of};
use crate::records::FileRec;
use crate::store::{digest_recorded, MountStore};

verus! {

/// What one read attempt for a queued entry came to: the entry's path and
/// its bytes, absent when the read failed (for instance, the file vanished
/// between query and read).
pub struct ReadOutcome {
    pub path: String,
    pub bytes: Option<Vec<u8>>,
}

/// Model of one read attempt.
pub ghost struct ReadRec {
    pub path: Seq<char>,
    pub bytes: Option<Seq<u8>>,
}

impl View for ReadOutcome {
    type V = ReadRec;

    open spec fn view(&self) -> ReadRec {
        ReadRec {
            path: self.path@,
            bytes: match self.bytes {
                Option::Some(b) => Option::Some(b@),
                Option::None => Option::None,
            },
        }
    }
}

/// The table after handling one read attempt: a successful read records the
/// digest of what was read; a failed read changes nothing.
pub open spec fn cycle_step(s: Seq<FileRec>, r: ReadRec) -> Seq<FileRec> {
    match r.bytes {
        Option::Some(b) => digest_recorded(s, r.path, md5_hex_of(b)),
        Option::None => s,
    }
}

/// The table after one processor cycle over `reads`, in order.
pub open spec fn cycle_spec(s: Seq<FileRec>, reads: Seq<ReadRec>) -> Seq<FileRec>
    decreases reads.len(),
{
    if reads.len() == 0 {
        s
    } else {
        cycle_step(cycle_spec(s, reads.drop_last()), reads.last())
    }
}

/// How many of the read attempts succeeded, and so were processed.
pub open spec fn processed_count(reads: Seq<ReadRec>) -> int {
    reads.filter(|r: ReadRec| r.bytes is Some).len() as int
}

/// One step of `processed_count` along a prefix of `reads`.
pub proof fn lemma_processed_take_step(reads: Seq<ReadRec>, i: int)
    requires
        0 <= i < reads.len(),
    ensures
        processed_count(reads.take(i + 1)) == processed_count(reads.take(i)) + (
        if reads[i].bytes is Some {
            1int
        } else {
            0int
        }),
{
    reveal(Seq::filter);
    assert(reads.take(i + 1).drop_last() =~= reads.take(i));
    assert(reads.take(i + 1).last() == reads[i]);
}

impl MountStore {
    /// Record the digest of `path` computed from `bytes`, the content that
    /// was read for it; a no-op if the path is no longer recorded.
    pub fn record_file_digest(&mut self, path: &str, bytes: &Vec<u8>)
        requires
            old(self).wf(),
        ensures
            final(self).wf(),
            final(self)@ == digest_recorded(old(self)@, path@, md5_hex_of(bytes@)),
            final(self).meta == old(self).meta,
    {
        let hex = md5_hex(bytes);
        self.set_digest(path, hex);
    }

    /// One processor cycle: walk the read attempts in order, record a digest
    /// for each successful read, and report how many entries were processed.
    #[verifier::loop_isolation(false)]
    pub fn run_processor_cycle(&mut self, reads: &Vec<ReadOutcome>) -> (count: usize)
        requires
            old(self).wf(),
        ensures
            final(self).wf(),
            final(self)@ == cycle_spec(old(self)@, reads@.map_values(|r: ReadOutcome| r@)),
            count == processed_count(reads@.map_values(|r: ReadOutcome| r@)),
            final(self).meta == old(self).meta,
    {
        let ghost rviews: Seq<ReadRec> = reads@.map_values(|r: ReadOutcome| r@);
        let n: usize = reads.len();
        let mut count: usize = 0;
        let mut i: usize = 0;
        while i < n
            invariant
                0 <= i <= n,
                count <= i,
                self@ == cycle_spec(old(self)@, rviews.take(i as int)),
                count == processed_count(rviews.take(i as int)),
                self.wf(),
                self.meta == old(self).meta,
            decreases n - i,
        {
            proof {
                lemma_processed_take_step(rviews, i as int);
                assert(rviews.take(i as int + 1).drop_last() =~= rviews.take(i as int));
                assert(rviews.take(i as int + 1).last() == rviews[i as int]);
            }
            match &reads[i].bytes {
                Option::Some(b) => {
                    self.record_file_digest(reads[i].path.as_str(), b);
                    count += 1;
                },
                Option::None => {},
            }
            i += 1;
        }
        proof {
            assert(rviews.take(n as int) =~= rviews);
        }
        count
    }
}

} // verus!
