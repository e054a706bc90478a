//! Token-bucket rate limiter with per-call refill.
//!
//! Every admission attempt first restores `rate` tokens (capped at
//! `max_tokens`) and then spends the requested cost if enough tokens are
//! available. The refill happens on every call, admitted or not; this
//! per-attempt refill (rather than a wall-clock one) is the intended
//! behaviour and is pinned down by the contracts below.

use vstd::prelude::*;

verus! {

/// Rate-limiter state: `tokens` currently spendable, `rate` restored per
/// admission attempt, `max_tokens` the burst capacity.
pub struct TokenBucket {
    pub tokens: usize,
    pub rate: usize,
    pub max_tokens: usize,
}

impl TokenBucket {
    /// Well-formed bucket: the balance never exceeds the capacity, and one
    /// refill step cannot overflow the machine word.
    pub open spec fn wf(self) -> bool {
        self.tokens <= self.max_tokens
        && self.max_tokens + self.rate <= usize::MAX
    }

    /// Balance right after the unconditional refill step.
    pub open spec fn spec_refill(self) -> int {
        if self.tokens + self.rate > self.max_tokens {
            self.max_tokens as int
        } else {
            self.tokens + self.rate
        }
    }

    /// Whether an attempt with cost `n` is admitted.
    pub open spec fn spec_admits(self, n: int) -> bool {
        self.spec_refill() >= n
    }

    /// Balance after one attempt with cost `n`: refill, then spend on
    /// admission; on rejection the refilled balance is kept.
    pub open spec fn spec_tokens_after(self, n: int) -> int {
        if self.spec_admits(n) {
            self.spec_refill() - n
        } else {
            self.spec_refill()
        }
    }

    /// Whole state after one attempt with cost `n`.
    pub open spec fn spec_after(self, n: int) -> TokenBucket {
        TokenBucket { tokens: self.spec_tokens_after(n) as usize, ..self }
    }

    /// A fresh bucket starts full.
    pub fn new(rate: usize, max_tokens: usize) -> (r: TokenBucket)
        requires
            max_tokens + rate <= usize::MAX,
        ensures
            r.wf(),
            r.tokens == max_tokens,
            r.rate == rate,
            r.max_tokens == max_tokens,
    {
        TokenBucket { tokens: max_tokens, rate, max_tokens }
    }

    /// One admission attempt: refill, then spend `n` if the balance covers
    /// it. Returns whether the attempt was admitted. The balance moves to
    /// `spec_tokens_after(n)` whether or not admission succeeds.
    pub fn consume(&mut self, n: usize) -> (admitted: bool)
        requires
            old(self).wf(),
        ensures
            final(self).wf(),
            admitted == old(self).spec_admits(n as int),
            *final(self) == (old(self).spec_after(n as int)),
            final(self).rate == old(self).rate,
            final(self).max_tokens == old(self).max_tokens,
    {
        let refilled: usize = if self.tokens + self.rate > self.max_tokens {
            self.max_tokens
        } else {
            self.tokens + self.rate
        };
        self.tokens = refilled;
        if self.tokens >= n {
            self.tokens = self.tokens - n;
            true
        } else {
            false
        }
    }
}

} // verus!
