use vstd::arithmetic::power2::{
    lemma2_to64, lemma2_to64_rest, lemma_pow2_pos, lemma_pow2_strictly_increases, lemma_pow2_unfold, pow2,
};
use vstd::prelude::*;

verus! {

/// `x`, or the largest `u64` where `x` does not fit.
pub open spec fn capped(x: nat) -> u64 {
    if x <= u64::MAX {
        x as u64
    } else {
        u64::MAX
    }
}

/// Seconds to wait after attempt number `attempt` (counted from 1) has failed:
/// one second after the first, doubling with each further attempt. The wait
/// is capped at the largest `u64` on purpose: from the 65th attempt on, the
/// doubling would not fit, and a schedule that long waits as good as forever.
pub open spec fn backoff_after(attempt: nat) -> u64 {
    if attempt == 0 {
        1
    } else {
        capped(pow2((attempt - 1) as nat))
    }
}

/// The retry schedule of one date's fetch: how many attempts were made, how
/// many are allowed, and the wait that a failure of the current attempt brings.
#[derive(Debug, Clone, Copy, PartialEq, Eq, Structural)]
pub struct Retry {
    pub max_retries: u8,
    pub attempt: u8,
    pub backoff_secs: u64,
}

impl Retry {
    pub open spec fn wf(self) -> bool {
        &&& self.attempt <= self.max_retries
        &&& self.backoff_secs == backoff_after(self.attempt as nat)
    }

    /// Whether another attempt is allowed.
    pub open spec fn can_start(self) -> bool {
        self.attempt < self.max_retries
    }

    /// The schedule once the next attempt has begun.
    pub open spec fn started(self) -> Retry {
        if self.can_start() {
            Retry {
                max_retries: self.max_retries,
                attempt: (self.attempt + 1) as u8,
                backoff_secs: backoff_after((self.attempt + 1) as nat),
            }
        } else {
            self
        }
    }

    /// The wait after the current attempt has failed: none after the last
    /// allowed attempt, nor before any attempt.
    pub open spec fn failure_delay(self) -> Option<u64> {
        if 1 <= self.attempt < self.max_retries {
            Some(backoff_after(self.attempt as nat))
        } else {
            None
        }
    }

    /// A schedule that allows `max_retries` attempts, none made yet.
    pub fn new(max_retries: u8) -> (r: Retry)
        ensures
            r.wf(),
            r == fresh(max_retries),
    {
        Retry { max_retries, attempt: 0, backoff_secs: 1 }
    }

    /// Begins the next attempt where one is left; returns whether it began.
    pub fn start_attempt(&mut self) -> (r: bool)
        requires
            old(self).wf(),
        ensures
            final(self).wf(),
            r == old(self).can_start(),
            *final(self) == old(self).started(),
    {
        if self.attempt < self.max_retries {
            if self.attempt >= 1 {
                proof {
                    lemma_backoff_step(self.attempt as nat);
                }
                if self.backoff_secs <= u64::MAX / 2 {
                    self.backoff_secs = self.backoff_secs * 2;
                } else {
                    self.backoff_secs = u64::MAX;
                }
            }
            proof {
                lemma2_to64();
            }
            self.attempt = self.attempt + 1;
            true
        } else {
            false
        }
    }

    /// After the current attempt has failed: how long to wait before the next
    /// one, or `None` where no attempt is left and the failure is final.
    pub fn after_failure(&self) -> (r: Option<u64>)
        requires
            self.wf(),
        ensures
            r == self.failure_delay(),
    {
        if 1 <= self.attempt && self.attempt < self.max_retries {
            Some(self.backoff_secs)
        } else {
            None
        }
    }
}

proof fn lemma_backoff_step(attempt: nat)
    requires
        attempt >= 1,
    ensures
        backoff_after(attempt + 1) == (if backoff_after(attempt) as nat * 2 <= u64::MAX {
            (backoff_after(attempt) * 2) as u64
        } else {
            u64::MAX
        }),
{
    lemma_pow2_pos((attempt - 1) as nat);
    lemma_pow2_unfold(attempt);
}

/// A schedule that allows `max_retries` attempts, none made yet.
pub open spec fn fresh(max_retries: u8) -> Retry {
    Retry { max_retries, attempt: 0, backoff_secs: 1 }
}

/// The schedule after `k` failed attempts in a row.
pub open spec fn after_failures(r: Retry, k: nat) -> Retry
    decreases k,
{
    if k == 0 {
        r
    } else {
        after_failures(r, (k - 1) as nat).started()
    }
}

/// The total wait spent on backoff during `k` failed attempts in a row.
pub open spec fn waited(r: Retry, k: nat) -> nat
    decreases k,
{
    if k == 0 {
        0
    } else {
        waited(r, (k - 1) as nat) + match after_failures(r, k).failure_delay() {
            Some(secs) => secs as nat,
            None => 0,
        }
    }
}

/// Failures before the last allowed attempt leave room for one more attempt,
/// and the waits between them add up to 1 + 2 + ... + 2^(k-1) seconds:
/// an endpoint that fails `k` times and then answers is reached on attempt k + 1.
pub proof fn lemma_backoff_total(max_retries: u8, k: nat)
    requires
        k < max_retries,
        k <= 64,
    ensures
        after_failures(fresh(max_retries), k).attempt == k,
        after_failures(fresh(max_retries), k).can_start(),
        waited(fresh(max_retries), k) == pow2(k) - 1,
    decreases k,
{
    lemma2_to64();
    lemma_attempts_bounded(max_retries, k);
    if k > 0 {
        lemma_backoff_total(max_retries, (k - 1) as nat);
        lemma_pow2_unfold(k);
        lemma_pow2_pos((k - 1) as nat);
        lemma2_to64_rest();
        if k - 1 < 63 {
            lemma_pow2_strictly_increases((k - 1) as nat, 63);
        }
        let s = after_failures(fresh(max_retries), k);
        assert(pow2((k - 1) as nat) <= u64::MAX);
        assert(s.failure_delay() == Some(pow2((k - 1) as nat) as u64));
    }
}

/// However many attempts fail, no more than `max_retries` are ever made, and
/// once `max_retries` have failed no further attempt is allowed.
pub proof fn lemma_attempts_bounded(max_retries: u8, k: nat)
    ensures
        after_failures(fresh(max_retries), k).wf(),
        after_failures(fresh(max_retries), k).max_retries == max_retries,
        after_failures(fresh(max_retries), k).attempt == if k <= max_retries {
            k
        } else {
            max_retries as nat
        },
        k >= max_retries ==> !after_failures(fresh(max_retries), k).can_start(),
    decreases k,
{
    if k > 0 {
        lemma_attempts_bounded(max_retries, (k - 1) as nat);
        let prev = after_failures(fresh(max_retries), (k - 1) as nat);
        assert(after_failures(fresh(max_retries), k) == prev.started());
    }
}

} // verus!
