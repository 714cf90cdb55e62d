//! A random, sorted progress sequence ending at 100, driving a
//! simulated upgrade: a handful of positions drawn at random, handed
//! out in ascending order.

use std::collections::VecDeque;

use vstd::prelude::*;

verus! {

/// Relies on rand's `thread_rng` and `Rng::gen_range`: a uniformly
/// random value in `[lo, hi)`; only the range is promised, and the
/// range must be non-empty, as `gen_range` panics on an empty one.
#[verifier::external_body]
fn rand_range_usize(lo: usize, hi: usize) -> (r: usize)
    requires
        lo < hi,
    ensures
        lo <= r < hi,
{
    rand::Rng::gen_range(&mut rand::thread_rng(), lo..hi)
}

/// Relies on rand's `thread_rng` and `Rng::gen_range`, as
/// `rand_range_usize` does, for `u8` values.
#[verifier::external_body]
fn rand_range_u8(lo: u8, hi: u8) -> (r: u8)
    requires
        lo < hi,
    ensures
        lo <= r < hi,
{
    rand::Rng::gen_range(&mut rand::thread_rng(), lo..hi)
}

/// A progression: the queue of positions not yet handed out, ascending,
/// each between 1 and 100.
pub struct RandomProgression {
    pub positions: VecDeque<u8>,
}

/// An ascending sequence of positions, each between 1 and 100.
pub open spec fn valid_positions(s: Seq<u8>) -> bool {
    &&& forall|i: int, j: int| 0 <= i <= j < s.len() ==> s[i] <= s[j]
    &&& forall|i: int| 0 <= i < s.len() ==> 1 <= #[trigger] s[i] <= 100
}

impl RandomProgression {
    /// Draw a fresh progression: between one and nine random positions
    /// drawn from 1 to 98, in ascending order, then 100 as the final
    /// position.
    pub fn new() -> (r: RandomProgression)
        ensures
            2 <= r.positions@.len() <= 10,
            valid_positions(r.positions@),
            r.positions@.last() == 100,
            forall|i: int|
                0 <= i < r.positions@.len() - 1 ==> #[trigger] r.positions@[i] <= 98,
    {
        let count = rand_range_usize(1, 10);
        let mut drawn: Vec<u8> = Vec::new();
        let mut k: usize = 0;
        while k < count
            invariant
                k <= count < 10,
                drawn@.len() == k,
                forall|i: int, j: int| 0 <= i <= j < k ==> drawn@[i] <= drawn@[j],
                forall|i: int| 0 <= i < k ==> 1 <= #[trigger] drawn@[i] <= 98,
            decreases count - k,
        {
            let p = rand_range_u8(1, 99);
            let mut idx: usize = 0;
            while idx < drawn.len() && drawn[idx] <= p
                invariant
                    idx <= drawn@.len(),
                    forall|m: int| 0 <= m < idx ==> #[trigger] drawn@[m] <= p,
                decreases drawn@.len() - idx,
            {
                idx = idx + 1;
            }
            let ghost pre = drawn@;
            drawn.insert(idx, p);
            proof {
                pre.insert_ensures(idx as int, p);
                assert forall|i: int, j: int|
                    0 <= i <= j < drawn@.len() implies drawn@[i] <= drawn@[j] by {
                    if j > idx && i <= idx {
                        assert(drawn@[j] == pre[j - 1]);
                        assert(pre[idx as int] > p || idx == pre.len());
                    }
                }
            }
            k = k + 1;
        }
        drawn.push(100);
        let mut positions: VecDeque<u8> = VecDeque::new();
        let n = drawn.len();
        let mut m: usize = 0;
        while m < n
            invariant
                m <= n,
                n == drawn@.len(),
                positions@ == drawn@.take(m as int),
            decreases n - m,
        {
            positions.push_back(drawn[m]);
            proof {
                assert(drawn@.take(m + 1 as int) =~= drawn@.take(m as int).push(
                    drawn@[m as int],
                ));
            }
            m = m + 1;
        }
        proof {
            assert(drawn@.take(n as int) =~= drawn@);
        }
        RandomProgression { positions }
    }

    /// The next position of the progression, smallest first; `None`
    /// once all positions are handed out.
    pub fn next(&mut self) -> (r: Option<u8>)
        ensures
            old(self).positions@.len() == 0 ==> r is None && final(self).positions@ == old(self).positions@,
            old(self).positions@.len() > 0 ==> r == Some(old(self).positions@[0]) && final(self).positions@ == old(self).positions@.drop_first(),
    {
        self.positions.pop_front()
    }
}

impl Default for RandomProgression {
    fn default() -> (r: RandomProgression)
        ensures
            2 <= r.positions@.len() <= 10,
            valid_positions(r.positions@),
            r.positions@.last() == 100,
            forall|i: int|
                0 <= i < r.positions@.len() - 1 ==> #[trigger] r.positions@[i] <= 98,
    {
        RandomProgression::new()
    }
}

} // verus!
