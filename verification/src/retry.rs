//! Retrying downloads (which answers end the attempts, how long to wait between them, when a
//! partial download is resumed) and waiting for the update lock.
use vstd::prelude::*;
use crate::text::{decimal, decimal_text};
use vstd::string::StringExecFns;

verus! {

/// How many requests a download makes at most.
pub const MAX_ATTEMPTS: u32 = 4;

/// The answer to one request.
pub enum Outcome {
    /// A success status: the body can be read.
    Success,
    /// A client error status (4xx): asking again will not help (the error text).
    ClientError(String),
    /// A server error status or a transport error (the error text).
    Transient(String),
}

/// What to do after an answer.
pub enum RetryStep {
    /// Read the successful response.
    Proceed,
    /// Give up with this error.
    Fail(String),
    /// Wait this many milliseconds, then ask again.
    Wait(u64),
}

/// The progress of one download's attempts.
pub struct Retry {
    pub attempt: u32,
    pub delay_ms: u64,
}

/// Milliseconds waited before attempt `n + 1` (n = 0, 1, 2): 500, doubled each time, at most 4000.
pub open spec fn delay_before(n: nat) -> int
    decreases n,
{
    if n == 0 {
        500
    } else {
        let d = delay_before((n - 1) as nat) * 2;
        if d > 4000 {
            4000
        } else {
            d
        }
    }
}

impl Retry {
    /// No request made yet.
    pub fn new() -> (r: Retry)
        ensures
            r.attempt == 0,
            r.delay_ms == delay_before(0),
    {
        Retry { attempt: 0, delay_ms: 500 }
    }

    pub open spec fn valid(&self) -> bool {
        self.attempt < MAX_ATTEMPTS && self.delay_ms == delay_before(self.attempt as nat)
    }

    /// Decides what follows the answer to the current attempt: a success proceeds, a client
    /// error fails at once, a transient error waits and retries unless this was the fourth
    /// attempt, in which case it fails with that error.
    pub fn next(&mut self, outcome: Outcome) -> (step: RetryStep)
        requires
            old(self).valid(),
        ensures
            match outcome {
                Outcome::Success => step is Proceed && *final(self) == *old(self),
                Outcome::ClientError(e) => step == RetryStep::Fail(e) && *final(self) == *old(
                    self,
                ),
                Outcome::Transient(e) => if old(self).attempt + 1 < MAX_ATTEMPTS {
                    step == RetryStep::Wait(old(self).delay_ms) && final(self).attempt == old(
                        self,
                    ).attempt + 1 && final(self).valid()
                } else {
                    step == RetryStep::Fail(e) && *final(self) == *old(self)
                },
            },
    {
        match outcome {
            Outcome::Success => RetryStep::Proceed,
            Outcome::ClientError(e) => RetryStep::Fail(e),
            Outcome::Transient(e) => {
                if self.attempt + 1 < MAX_ATTEMPTS {
                    let wait = self.delay_ms;
                    self.attempt = self.attempt + 1;
                    self.delay_ms = if self.delay_ms * 2 > 4000 {
                        4000
                    } else {
                        self.delay_ms * 2
                    };
                    RetryStep::Wait(wait)
                } else {
                    RetryStep::Fail(e)
                }
            },
        }
    }
}

/// The waits between the four attempts are 500, 1000 and 2000 milliseconds.
pub proof fn lemma_backoff_schedule()
    ensures
        delay_before(0) == 500,
        delay_before(1) == 1000,
        delay_before(2) == 2000,
        delay_before(3) == 4000,
{
    reveal_with_fuel(delay_before, 4);
}

/// The `Range` header that resumes a download after `offset` bytes, if any.
pub fn range_header(offset: u64) -> (r: Option<String>)
    ensures
        offset == 0 ==> r is None,
        offset > 0 ==> (r matches Some(h) && h@ == "bytes="@ + decimal_text(offset as nat) + "-"@),
{
    if offset == 0 {
        None
    } else {
        let mut h = String::from_str("bytes=");
        let n = decimal(offset);
        h.append(n.as_str());
        h.append("-");
        Some(h)
    }
}

/// A download continues a partial file when bytes were already there and the server
/// answered 206 Partial Content.
pub fn is_resumed(offset: u64, status: u16) -> (r: bool)
    ensures
        r == (offset > 0 && status == 206),
{
    offset > 0 && status == 206
}

/// The wait before the `n`-th retry to take the update lock, in milliseconds: 100, doubling,
/// at most 1000.
pub open spec fn lock_delay_before(n: nat) -> int
    decreases n,
{
    if n == 0 {
        100
    } else {
        let d = lock_delay_before((n - 1) as nat) * 2;
        if d > 1000 {
            1000
        } else {
            d
        }
    }
}

/// What to do when the update lock is held by another process.
pub enum LockStep {
    /// The timeout has passed: give up.
    GiveUp(String),
    /// Sleep this many milliseconds and try again.
    Sleep(u64),
}

/// Waiting for the update lock: the retries made so far and the next wait.
pub struct LockWait {
    pub retries: u64,
    pub delay_ms: u64,
}

impl LockWait {
    /// No retry yet; the first wait is 100 ms.
    pub fn new() -> (w: LockWait)
        ensures
            w.retries == 0,
            w.delay_ms == lock_delay_before(0),
    {
        LockWait { retries: 0, delay_ms: 100 }
    }

    /// The wait is the one scheduled for the retries made.
    pub open spec fn valid(&self) -> bool {
        self.delay_ms == lock_delay_before(self.retries as nat)
    }

    /// The lock was busy after `elapsed_ms` of a `timeout_ms` budget: give up once the budget is
    /// spent, else sleep the scheduled wait (which then doubles, up to a second).
    pub fn busy(&mut self, elapsed_ms: u64, timeout_ms: u64) -> (step: LockStep)
        requires
            old(self).valid(),
            old(self).retries < u64::MAX,
        ensures
            elapsed_ms >= timeout_ms ==> (step matches LockStep::GiveUp(m) && m@
                == "update lock is busy"@) && *final(self) == *old(self),
            elapsed_ms < timeout_ms ==> step == LockStep::Sleep(old(self).delay_ms)
                && final(self).retries == old(self).retries + 1 && final(self).valid(),
    {
        if elapsed_ms >= timeout_ms {
            return LockStep::GiveUp(String::from_str("update lock is busy"));
        }
        let wait = self.delay_ms;
        self.retries = self.retries + 1;
        self.delay_ms = if self.delay_ms * 2 > 1000 {
            1000
        } else {
            self.delay_ms * 2
        };
        LockStep::Sleep(wait)
    }
}

/// The lock waits grow 100, 200, 400, 800 ms and stay at one second from then on.
pub proof fn lemma_lock_wait_schedule(n: nat)
    ensures
        lock_delay_before(0) == 100,
        lock_delay_before(1) == 200,
        lock_delay_before(2) == 400,
        lock_delay_before(3) == 800,
        n >= 4 ==> lock_delay_before(n) == 1000,
        100 <= lock_delay_before(n) <= 1000,
    decreases n,
{
    reveal_with_fuel(lock_delay_before, 5);
    if n > 0 {
        lemma_lock_wait_schedule((n - 1) as nat);
    }
}

} // verus!
