use vstd::prelude::*;
use std::collections::VecDeque;
use std::time::{Duration, Instant};
use crate::clock::{duration_from_nanos, nanos_between, nanos_duration, now};

verus! {

pub const NANOS_PER_SEC: u128 = 1_000_000_000;

/// Tokens earned in `elapsed_nanos` nanoseconds at `rate` tokens per second,
/// rounded down and capped at `u32::MAX`.
pub open spec fn refill_amount(elapsed_nanos: nat, rate: nat) -> nat {
    let earned = (elapsed_nanos * rate) / (NANOS_PER_SEC as nat);
    if earned > u32::MAX { u32::MAX as nat } else { earned }
}

/// Tokens after adding `added` to `tokens`, capped at `capacity`.
pub open spec fn refilled(tokens: nat, capacity: nat, added: nat) -> nat {
    if added == 0 {
        tokens
    } else if tokens + added > capacity {
        capacity
    } else {
        tokens + added
    }
}

proof fn lemma_no_rate_no_refill(elapsed_nanos: nat, rate: nat)
    ensures
        rate == 0 ==> refill_amount(elapsed_nanos, rate) == 0,
{
    if rate == 0 {
        assert(elapsed_nanos * rate == 0) by (nonlinear_arith)
            requires
                rate == 0,
        ;
    }
}

/// After a refill the bucket holds its old tokens plus the whole tokens
/// earned in the elapsed time (elapsed nanoseconds times the rate per second,
/// over 10^9), capped at its capacity: never more than the old tokens plus
/// the earned ones, and all of the earned ones when they fit.
pub proof fn law_refill_adds_earned_tokens(tokens: nat, capacity: nat, elapsed_nanos: nat, rate: nat)
    requires
        tokens <= capacity,
        capacity <= u32::MAX,
    ensures
        ({
            let earned = (elapsed_nanos * rate) / 1_000_000_000;
            let after = refilled(tokens, capacity, refill_amount(elapsed_nanos, rate));
            &&& after <= tokens + earned
            &&& after <= capacity
            &&& tokens + earned <= capacity ==> after == tokens + earned
            &&& tokens + earned > capacity ==> after == capacity
        }),
{
}

/// Token bucket that limits how often output may be produced.
#[derive(Debug)]
pub struct TokenBucket {
    capacity: u32,
    tokens: u32,
    refill_rate: u32,
    last_refill: Instant,
}

impl TokenBucket {
    pub closed spec fn capacity(&self) -> nat {
        self.capacity as nat
    }

    pub closed spec fn tokens(&self) -> nat {
        self.tokens as nat
    }

    /// Tokens per second.
    pub closed spec fn refill_rate(&self) -> nat {
        self.refill_rate as nat
    }

    #[verifier::type_invariant]
    spec fn inv(&self) -> bool {
        self.tokens <= self.capacity
    }

    /// `new` holds the tokens of `old` refilled with some amount (an amount the
    /// clock decides, and none when the rate is 0), minus `n` when at least `n`
    /// were there; `ok` says whether they were.
    pub open spec fn consumed(old: TokenBucket, new: TokenBucket, n: nat, ok: bool) -> bool {
        &&& new.capacity() == old.capacity()
        &&& new.refill_rate() == old.refill_rate()
        &&& exists|added: nat|
            {
                &&& (old.refill_rate() == 0 ==> added == 0)
                &&& ok == (refilled(old.tokens(), old.capacity(), added) >= n)
                &&& new.tokens() == if ok {
                    refilled(old.tokens(), old.capacity(), added) - n
                } else {
                    refilled(old.tokens(), old.capacity(), added) as int
                }
            }
    }

    /// A full bucket.
    pub fn new(capacity: u32, refill_rate: u32) -> (b: Self)
        ensures
            b.capacity() == capacity,
            b.tokens() == capacity,
            b.refill_rate() == refill_rate,
    {
        TokenBucket { capacity, tokens: capacity, refill_rate, last_refill: now() }
    }

    /// Adds the tokens earned in `elapsed_nanos` nanoseconds; when any were
    /// earned, `now` becomes the time of the last refill.
    pub fn refill_at(&mut self, now: Instant, elapsed_nanos: u128)
        ensures
            final(self).capacity() == old(self).capacity(),
            final(self).refill_rate() == old(self).refill_rate(),
            final(self).tokens() == refilled(
                old(self).tokens(),
                old(self).capacity(),
                refill_amount(elapsed_nanos as nat, old(self).refill_rate()),
            ),
            final(self).tokens() <= final(self).capacity(),
            ({
                let earned = (elapsed_nanos as nat * old(self).refill_rate()) / 1_000_000_000;
                final(self).tokens() == if old(self).tokens() + earned > old(self).capacity() {
                    old(self).capacity()
                } else {
                    old(self).tokens() + earned
                }
            }),
    {
        proof {
            use_type_invariant(&*self);
        }
        let rate = self.refill_rate as u128;
        let new_tokens: u32 = match elapsed_nanos.checked_mul(rate) {
            Some(p) => {
                let earned = p / NANOS_PER_SEC;
                if earned > u32::MAX as u128 {
                    u32::MAX
                } else {
                    earned as u32
                }
            },
            None => {
                proof {
                    let e = elapsed_nanos as nat;
                    let r = rate as nat;
                    assert(e * r > u128::MAX);
                    assert((e * r) / (NANOS_PER_SEC as nat) >= u32::MAX) by (nonlinear_arith)
                        requires
                            e * r > u128::MAX,
                    ;
                }
                u32::MAX
            },
        };
        if new_tokens > 0 {
            if new_tokens >= self.capacity - self.tokens {
                self.tokens = self.capacity;
            } else {
                self.tokens = self.tokens + new_tokens;
            }
            self.last_refill = now;
        }
        proof {
            law_refill_adds_earned_tokens(
                old(self).tokens(),
                old(self).capacity(),
                elapsed_nanos as nat,
                old(self).refill_rate(),
            );
        }
    }

    fn refill(&mut self)
        ensures
            TokenBucket::consumed(*old(self), *final(self), 0, true),
    {
        let t = now();
        let elapsed = nanos_between(&self.last_refill, &t);
        self.refill_at(t, elapsed);
        proof {
            let added = refill_amount(elapsed as nat, old(self).refill_rate());
            lemma_no_rate_no_refill(elapsed as nat, old(self).refill_rate());
            assert(old(self).refill_rate() == 0 ==> added == 0);
        }
    }

    /// Takes `tokens` tokens from the bucket after a refill with the elapsed
    /// time given, if that many are there.
    pub fn try_consume_after(&mut self, now: Instant, elapsed_nanos: u128, tokens: u32) -> (ok: bool)
        ensures
            final(self).capacity() == old(self).capacity(),
            final(self).refill_rate() == old(self).refill_rate(),
            ok == (refilled(
                old(self).tokens(),
                old(self).capacity(),
                refill_amount(elapsed_nanos as nat, old(self).refill_rate()),
            ) >= tokens),
            final(self).tokens() == if ok {
                refilled(
                    old(self).tokens(),
                    old(self).capacity(),
                    refill_amount(elapsed_nanos as nat, old(self).refill_rate()),
                ) - tokens
            } else {
                refilled(
                    old(self).tokens(),
                    old(self).capacity(),
                    refill_amount(elapsed_nanos as nat, old(self).refill_rate()),
                ) as int
            },
            final(self).tokens() <= final(self).capacity(),
    {
        self.refill_at(now, elapsed_nanos);
        self.take(tokens)
    }

    fn take(&mut self, tokens: u32) -> (ok: bool)
        ensures
            final(self).capacity() == old(self).capacity(),
            final(self).refill_rate() == old(self).refill_rate(),
            ok == (old(self).tokens() >= tokens),
            final(self).tokens() == if ok {
                old(self).tokens() - tokens
            } else {
                old(self).tokens() as int
            },
            final(self).tokens() <= final(self).capacity(),
    {
        proof {
            use_type_invariant(&*self);
        }
        if self.tokens >= tokens {
            self.tokens = self.tokens - tokens;
            true
        } else {
            false
        }
    }

    /// Refills by the time elapsed since the last refill, then takes `tokens`
    /// tokens if that many are there.
    pub fn try_consume(&mut self, tokens: u32) -> (ok: bool)
        ensures
            TokenBucket::consumed(*old(self), *final(self), tokens as nat, ok),
            final(self).tokens() <= final(self).capacity(),
    {
        let t = now();
        let elapsed = nanos_between(&self.last_refill, &t);
        let ok = self.try_consume_after(t, elapsed, tokens);
        proof {
            let added = refill_amount(elapsed as nat, old(self).refill_rate());
            lemma_no_rate_no_refill(elapsed as nat, old(self).refill_rate());
            assert(old(self).refill_rate() == 0 ==> added == 0);
        }
        ok
    }

    /// Nanoseconds to wait for `missing` more tokens at `rate` per second.
    pub open spec fn wait_nanos(missing: nat, rate: nat) -> nat {
        (missing * (NANOS_PER_SEC as nat)) / rate
    }

    /// Like `try_consume_after`, but answers `None` on success and, on failure,
    /// the nanoseconds to wait until the missing tokens have been earned.
    pub fn consume_or_wait_after(&mut self, now: Instant, elapsed_nanos: u128, tokens: u32) -> (r: Option<u64>)
        requires
            old(self).refill_rate() > 0 || tokens <= old(self).tokens(),
        ensures
            final(self).capacity() == old(self).capacity(),
            final(self).refill_rate() == old(self).refill_rate(),
            ({
                let mid = refilled(
                    old(self).tokens(),
                    old(self).capacity(),
                    refill_amount(elapsed_nanos as nat, old(self).refill_rate()),
                );
                &&& r is None <==> mid >= tokens
                &&& r is None ==> final(self).tokens() == mid - tokens
                &&& r matches Some(w) ==> final(self).tokens() == mid && w == TokenBucket::wait_nanos(
                    (tokens - mid) as nat,
                    old(self).refill_rate(),
                )
            }),
            final(self).tokens() <= final(self).capacity(),
    {
        self.refill_at(now, elapsed_nanos);
        if self.take(tokens) {
            None
        } else {
            proof {
                use_type_invariant(&*self);
                assert(self.refill_rate > 0);
            }
            let missing: u64 = (tokens - self.tokens) as u64;
            assert(missing * 1_000_000_000 <= u64::MAX) by (nonlinear_arith)
                requires
                    missing <= u32::MAX,
            ;
            let w = missing * 1_000_000_000 / (self.refill_rate as u64);
            Some(w)
        }
    }

    /// Refills by the time elapsed since the last refill, then takes `tokens`
    /// tokens if that many are there (`None`), or answers how long to wait for
    /// the missing ones (`Some`).
    pub fn consume_or_wait(&mut self, tokens: u32) -> (r: Option<Duration>)
        requires
            old(self).refill_rate() > 0 || tokens <= old(self).tokens(),
        ensures
            TokenBucket::consumed(*old(self), *final(self), tokens as nat, r is None),
            final(self).tokens() <= final(self).capacity(),
            r matches Some(d) ==> d == nanos_duration(
                TokenBucket::wait_nanos((tokens - final(self).tokens()) as nat, old(self).refill_rate()) as u64,
            ),
    {
        let t = now();
        let elapsed = nanos_between(&self.last_refill, &t);
        let r = self.consume_or_wait_after(t, elapsed, tokens);
        proof {
            let added = refill_amount(elapsed as nat, old(self).refill_rate());
            lemma_no_rate_no_refill(elapsed as nat, old(self).refill_rate());
            assert(old(self).refill_rate() == 0 ==> added == 0);
        }
        match r {
            None => None,
            Some(w) => Some(duration_from_nanos(w)),
        }
    }
}

/// Rate limiter for streamed output lines: a token bucket and a bounded queue
/// of waiting lines that drops the oldest line when full.
#[derive(Debug)]
pub struct StreamingRateLimiter {
    token_bucket: TokenBucket,
    output_queue: VecDeque<(Instant, String)>,
    max_queue_size: usize,
}

impl StreamingRateLimiter {
    pub closed spec fn bucket(&self) -> TokenBucket {
        self.token_bucket
    }

    /// The queued lines, oldest first.
    pub closed spec fn lines(&self) -> Seq<Seq<char>> {
        self.output_queue@.map_values(|e: (Instant, String)| e.1@)
    }

    pub closed spec fn max_queue_size(&self) -> nat {
        self.max_queue_size as nat
    }

    /// A limiter that allows `max_lines_per_second` lines per second with bursts
    /// of twice that, and an empty queue.
    pub fn new(max_lines_per_second: u32, max_queue_size: usize) -> (l: Self)
        requires
            2 * max_lines_per_second <= u32::MAX,
        ensures
            l.bucket().capacity() == 2 * max_lines_per_second,
            l.bucket().tokens() == 2 * max_lines_per_second,
            l.bucket().refill_rate() == max_lines_per_second,
            l.lines() == Seq::<Seq<char>>::empty(),
            l.max_queue_size() == max_queue_size,
    {
        let l = StreamingRateLimiter {
            token_bucket: TokenBucket::new(max_lines_per_second * 2, max_lines_per_second),
            output_queue: VecDeque::new(),
            max_queue_size,
        };
        assert(l.lines() =~= Seq::<Seq<char>>::empty());
        l
    }

    /// Takes one token from the bucket if one is there.
    pub fn should_allow_output(&mut self) -> (ok: bool)
        ensures
            TokenBucket::consumed(old(self).bucket(), final(self).bucket(), 1, ok),
            final(self).lines() == old(self).lines(),
            final(self).max_queue_size() == old(self).max_queue_size(),
    {
        self.token_bucket.try_consume(1)
    }

    /// Appends a line; when the queue is full, the oldest line is dropped first.
    /// Always answers `true`.
    pub fn queue_output(&mut self, output: String) -> (ok: bool)
        ensures
            ok,
            final(self).lines() == (if old(self).lines().len() >= old(self).max_queue_size()
                && old(self).lines().len() > 0 {
                old(self).lines().drop_first()
            } else {
                old(self).lines()
            }).push(output@),
            final(self).bucket() == old(self).bucket(),
            final(self).max_queue_size() == old(self).max_queue_size(),
    {
        let ghost before = self.output_queue@;
        if self.output_queue.len() >= self.max_queue_size {
            let _ = self.output_queue.pop_front();
        }
        let t = now();
        self.output_queue.push_back((t, output));
        proof {
            let want = (if old(self).lines().len() >= old(self).max_queue_size()
                && old(self).lines().len() > 0 {
                old(self).lines().drop_first()
            } else {
                old(self).lines()
            }).push(output@);
            assert(final(self).lines() =~= want);
        }
        true
    }

    /// The oldest line, when a token allows output and a line is waiting.
    pub fn get_next_output(&mut self) -> (r: Option<String>)
        ensures
            exists|ok: bool|
                {
                    &&& TokenBucket::consumed(old(self).bucket(), final(self).bucket(), 1, ok)
                    &&& (r is Some <==> (ok && old(self).lines().len() > 0))
                    &&& r matches Some(s) ==> s@ == old(self).lines()[0] && final(self).lines()
                        == old(self).lines().drop_first()
                    &&& r is None ==> final(self).lines() == old(self).lines()
                },
            final(self).max_queue_size() == old(self).max_queue_size(),
    {
        let ok = self.should_allow_output();
        let r = if ok {
            match self.output_queue.pop_front() {
                Some(entry) => {
                    proof {
                        assert(self.lines() =~= old(self).lines().drop_first());
                    }
                    Some(entry.1)
                },
                None => None,
            }
        } else {
            None
        };
        assert(TokenBucket::consumed(old(self).bucket(), self.bucket(), 1, ok));
        r
    }

    /// Number of waiting lines.
    pub fn queue_size(&self) -> (n: usize)
        ensures
            n == self.lines().len(),
    {
        self.output_queue.len()
    }

    /// Whether the queue holds at least `max_queue_size` lines.
    pub fn is_queue_full(&self) -> (full: bool)
        ensures
            full == (self.lines().len() >= self.max_queue_size()),
    {
        self.output_queue.len() >= self.max_queue_size
    }
}

} // verus!
