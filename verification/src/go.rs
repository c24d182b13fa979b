//! Handing connections to executors: the first free executor takes the next
//! connection, and no more executors work at once than there are.

use crate::text::{bytes_eq, utf8};
use vstd::prelude::*;
use vstd::string::*;

verus! {

/// The number of busy executors among the first `n`.
pub open spec fn busy_count(start: Seq<bool>, n: int) -> int
    decreases n,
{
    if n <= 0 || n > start.len() {
        0
    } else {
        busy_count(start, n - 1) + if start[n - 1] {
            1int
        } else {
            0int
        }
    }
}

/// The place of the first free executor among the first `n`, if there is one.
pub open spec fn first_free(start: Seq<bool>, n: int) -> Option<int>
    decreases n,
{
    if n <= 0 || n > start.len() {
        None
    } else {
        match first_free(start, n - 1) {
            Some(i) => Some(i),
            None => if !start[n - 1] {
                Some(n - 1)
            } else {
                None
            },
        }
    }
}

proof fn lemma_all_busy(start: Seq<bool>, n: int)
    requires
        0 <= n <= start.len(),
        first_free(start, n).is_none(),
    ensures
        busy_count(start, n) == n,
    decreases n,
{
    if n > 0 {
        lemma_all_busy(start, n - 1);
    }
}

proof fn lemma_first_free_stays(start: Seq<bool>, i: int, n: int)
    requires
        0 <= i < n <= start.len(),
        first_free(start, i).is_none(),
        !start[i],
    ensures
        first_free(start, n) == Some(i),
    decreases n - i,
{
    if n > i + 1 {
        lemma_first_free_stays(start, i, n - 1);
    }
}

proof fn lemma_count_after_set(start: Seq<bool>, i: int, b: bool, n: int)
    requires
        0 <= i < start.len(),
        0 <= n <= start.len(),
    ensures
        busy_count(start.update(i, b), n) == busy_count(start, n) + if i < n {
            (if b {
                1int
            } else {
                0int
            }) - (if start[i] {
                1int
            } else {
                0int
            })
        } else {
            0int
        },
    decreases n,
{
    if n > 0 {
        lemma_count_after_set(start, i, b, n - 1);
    }
}

/// The executors of the service: which of them are busy.
pub struct Go {
    pub stop: bool,
    pub start: Vec<bool>,
    pub use_connection: usize,
}

impl Go {
    /// The count of busy executors is the number of those marked busy.
    pub open spec fn wf(&self) -> bool {
        self.use_connection == busy_count(self.start@, self.start@.len() as int)
    }

    /// A service with `max` idle executors.
    pub fn new(max: usize) -> (g: Go)
        ensures
            g.wf(),
            !g.stop,
            g.use_connection == 0,
            g.start@ == Seq::new(max as nat, |i: int| false),
    {
        let mut start: Vec<bool> = Vec::with_capacity(max);
        let mut i: usize = 0;
        while i < max
            invariant
                i <= max,
                start@ == Seq::new(i as nat, |j: int| false),
                busy_count(start@, i as int) == 0,
            decreases max - i,
        {
            let ghost before = start@;
            start.push(false);
            proof {
                assert(start@ =~= Seq::new((i + 1) as nat, |j: int| false));
                lemma_count_prefix(before, start@, i as int);
            }
            i += 1;
        }
        Go { stop: false, start, use_connection: 0 }
    }

    /// Hands the next connection to the first free executor and marks it
    /// busy; `None` where all are busy or the service is stopping.
    pub fn create_sender(&mut self) -> (picked: Option<usize>)
        requires
            old(self).wf(),
        ensures
            final(self).wf(),
            final(self).stop == old(self).stop,
            match picked {
                Some(i) => {
                    &&& !old(self).stop
                    &&& first_free(old(self).start@, old(self).start@.len() as int) == Some(
                        i as int,
                    )
                    &&& final(self).start@ == old(self).start@.update(i as int, true)
                    &&& final(self).use_connection == old(self).use_connection + 1
                },
                None => {
                    &&& *final(self) == *old(self)
                    &&& (old(self).stop || old(self).use_connection == old(self).start@.len())
                },
            },
    {
        if self.stop {
            return None;
        }
        let mut i: usize = 0;
        while i < self.start.len()
            invariant
                i <= self.start@.len(),
                *self == *old(self),
                !self.stop,
                self.wf(),
                first_free(self.start@, i as int).is_none(),
            decreases self.start@.len() - i,
        {
            if !self.start[i] {
                proof {
                    lemma_first_free_stays(self.start@, i as int, self.start@.len() as int);
                    lemma_count_after_set(self.start@, i as int, true, self.start@.len() as int);
                    lemma_count_bound(self.start@.update(i as int, true), self.start@.len() as int);
                }
                self.start.set(i, true);
                self.use_connection += 1;
                assert(self.start@ =~= old(self).start@.update(i as int, true));
                return Some(i);
            }
            i += 1;
        }
        proof {
            lemma_all_busy(self.start@, self.start@.len() as int);
        }
        None
    }

    /// Marks the executor `i` free again.
    pub fn release(&mut self, i: usize)
        requires
            old(self).wf(),
            i < old(self).start@.len(),
            old(self).start@[i as int],
        ensures
            final(self).wf(),
            final(self).stop == old(self).stop,
            final(self).start@ == old(self).start@.update(i as int, false),
            final(self).use_connection == old(self).use_connection - 1,
    {
        proof {
            lemma_count_after_set(self.start@, i as int, false, self.start@.len() as int);
            lemma_count_bound(self.start@.update(i as int, false), self.start@.len() as int);
        }
        self.start.set(i, false);
        self.use_connection -= 1;
        assert(self.start@ =~= old(self).start@.update(i as int, false));
    }

    /// Takes what came over the control port: the word `stop`, and nothing
    /// else, tells the service to stop.
    pub fn set_stop(&mut self, data: &[u8]) -> (stopped: bool)
        ensures
            stopped == (data@ == utf8("stop"@)),
            *final(self) == (Go { stop: old(self).stop || stopped, ..*old(self) }),
    {
        if bytes_eq(data, "stop".as_bytes()) {
            self.stop = true;
            true
        } else {
            false
        }
    }
}

proof fn lemma_count_bound(start: Seq<bool>, n: int)
    requires
        0 <= n <= start.len(),
    ensures
        0 <= busy_count(start, n) <= n,
    decreases n,
{
    if n > 0 {
        lemma_count_bound(start, n - 1);
    }
}

proof fn lemma_count_prefix(a: Seq<bool>, b: Seq<bool>, n: int)
    requires
        0 <= n <= a.len() <= b.len(),
        forall|i: int| 0 <= i < n ==> a[i] == b[i],
    ensures
        busy_count(a, n) == busy_count(b, n),
    decreases n,
{
    if n > 0 {
        lemma_count_prefix(a, b, n - 1);
    }
}

} // verus!
