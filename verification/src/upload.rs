//! The upload pipeline: bounded retries with exponential backoff. The
//! storage call itself is a collaborator that the process makes outside the
//! library; everything decided here — which attempt comes next, how long to
//! back off, what the outcome of a whole attempt sequence is — is a
//! verified function of the policy and of what the storage returned.

use vstd::prelude::*;

use crate::frame::{spec_s3_key, CapturedFrame};

verus! {

/// Result of a successful upload.
#[derive(Debug, Clone)]
pub struct UploadResult {
    /// Storage key the object was uploaded under.
    pub key: String,
    /// ETag of the uploaded object.
    pub etag: String,
    /// Upload timestamp, in milliseconds since the Unix epoch.
    pub uploaded_at_ms: u64,
    /// Wall time of the whole attempt sequence, backoff included, in
    /// milliseconds.
    pub upload_duration_ms: u64,
    /// How many attempts were made, the successful one included.
    pub attempt_count: u32,
}

/// Terminal failure of an upload: the attempt budget is exhausted and the
/// frame is dropped; the last underlying error is carried along.
#[derive(Debug, Clone)]
pub struct UploadError {
    /// How many attempts were made.
    pub attempts: u32,
    /// The error of the last attempt.
    pub message: String,
}

/// What the storage returned for one attempt, and how long the call took.
#[derive(Debug)]
pub struct AttemptRecord {
    /// The etag on success, the underlying error on failure.
    pub result: Result<String, String>,
    /// Duration of this one call, in milliseconds.
    pub duration_ms: u64,
}

/// Two to the `e`.
pub open spec fn spec_pow2(e: nat) -> nat
    decreases e,
{
    if e == 0 {
        1
    } else {
        2 * spec_pow2((e - 1) as nat)
    }
}

/// The backoff delay before the attempt with the given zero-based index:
/// nothing before the first attempt, the base delay doubled `index` times
/// before every retry.
pub open spec fn spec_backoff_delay(base_delay_ms: nat, attempt_index: nat) -> nat {
    if attempt_index == 0 {
        0
    } else {
        base_delay_ms * spec_pow2(attempt_index)
    }
}

/// The backoff slept over a whole sequence of `n` attempts.
pub open spec fn spec_backoff_total(base_delay_ms: nat, n: nat) -> nat
    decreases n,
{
    if n == 0 {
        0
    } else {
        spec_backoff_total(base_delay_ms, (n - 1) as nat) + spec_backoff_delay(
            base_delay_ms,
            (n - 1) as nat,
        )
    }
}

/// The summed durations of the first `n` attempts.
pub open spec fn spec_durations_sum(oc: Seq<AttemptRecord>, n: int) -> int
    decreases n,
{
    if n <= 0 {
        0
    } else {
        spec_durations_sum(oc, n - 1) + oc[n - 1].duration_ms
    }
}

/// The index of the first successful attempt at or after `i`, bounded by
/// `max`: `max` itself when every attempt in range fails.
pub open spec fn spec_first_ok_from(oc: Seq<AttemptRecord>, i: int, max: int) -> int
    decreases max - i,
{
    if i >= max {
        max
    } else if oc[i].result is Ok {
        i
    } else {
        spec_first_ok_from(oc, i + 1, max)
    }
}

/// The index of the first successful attempt, `max` when all fail.
pub open spec fn spec_first_ok(oc: Seq<AttemptRecord>, max: int) -> int {
    spec_first_ok_from(oc, 0, max)
}

/// How many attempts a run makes: up to and including the first success,
/// or the whole budget when every attempt fails.
pub open spec fn spec_attempts_made(oc: Seq<AttemptRecord>, max: int) -> int {
    if spec_first_ok(oc, max) < max {
        spec_first_ok(oc, max) + 1
    } else {
        max
    }
}

/// A storage that fails every attempt in the budget exhausts the whole
/// budget: exactly `max` calls are made and none succeeds.
pub proof fn lemma_all_failures_exhaust(oc: Seq<AttemptRecord>, i: int, max: int)
    requires
        0 <= i <= max,
        forall|j: int| i <= j < max ==> #[trigger] oc[j].result is Err,
    ensures
        spec_first_ok_from(oc, i, max) == max,
    decreases max - i,
{
    if i < max {
        lemma_all_failures_exhaust(oc, i + 1, max);
    }
}

/// The first success is never past the budget, and everything before it
/// failed.
pub proof fn lemma_first_ok_bounds(oc: Seq<AttemptRecord>, i: int, max: int)
    requires
        0 <= i <= max,
    ensures
        i <= spec_first_ok_from(oc, i, max) <= max,
        spec_first_ok_from(oc, i, max) < max ==> oc[spec_first_ok_from(oc, i, max)].result
            is Ok,
        forall|j: int| i <= j < spec_first_ok_from(oc, i, max) ==> #[trigger] oc[j].result is Err,
    decreases max - i,
{
    if i < max && !(oc[i].result is Ok) {
        lemma_first_ok_bounds(oc, i + 1, max);
    }
}

/// Two to the `e`, as executable code.
pub fn pow2_u64(e: u32) -> (r: u64)
    requires
        spec_pow2(e as nat) <= u64::MAX,
    ensures
        r == spec_pow2(e as nat),
{
    let mut r: u64 = 1;
    let mut i: u32 = 0;
    while i < e
        invariant
            i <= e,
            r == spec_pow2(i as nat),
            spec_pow2(e as nat) <= u64::MAX,
        decreases e - i,
    {
        proof {
            lemma_pow2_monotone(i as nat + 1, e as nat);
        }
        r = 2 * r;
        i = i + 1;
    }
    r
}

/// Powers of two grow monotonically.
pub proof fn lemma_pow2_monotone(a: nat, b: nat)
    requires
        a <= b,
    ensures
        spec_pow2(a) <= spec_pow2(b),
    decreases b - a,
{
    if a < b {
        lemma_pow2_monotone(a, (b - 1) as nat);
    }
}

/// The upload policy: where frames go and how stubbornly. The network
/// client that executes single attempts stays outside the library.
#[derive(Debug, Clone)]
pub struct S3Uploader {
    /// Bucket objects are put into.
    pub bucket: String,
    /// Key prefix for uploaded frames.
    pub prefix: Option<String>,
    /// Attempt budget per upload.
    pub retry_attempts: u32,
    /// Base backoff delay in milliseconds.
    pub base_delay_ms: u64,
}

impl S3Uploader {
    /// A policy for the given bucket and prefix, with the default budget
    /// of three attempts and a 100 ms base delay.
    pub fn new(bucket: String, prefix: Option<String>) -> (r: Self)
        ensures
            r.bucket == bucket,
            r.prefix == prefix,
            r.retry_attempts == 3,
            r.base_delay_ms == 100,
    {
        S3Uploader { bucket, prefix, retry_attempts: 3, base_delay_ms: 100 }
    }

    /// The same policy with another attempt budget.
    pub fn with_retry_attempts(self, attempts: u32) -> (r: Self)
        ensures
            r.bucket == self.bucket,
            r.prefix == self.prefix,
            r.retry_attempts == attempts,
            r.base_delay_ms == self.base_delay_ms,
    {
        S3Uploader { retry_attempts: attempts, ..self }
    }

    /// The storage key a frame is uploaded under.
    pub fn frame_key(&self, frame: &CapturedFrame) -> (r: String)
        ensures
            r@ == spec_s3_key(
                match self.prefix {
                    Some(p) => Some(p@),
                    None => None,
                },
                frame.timestamp_ms as int,
            ),
    {
        match &self.prefix {
            Some(p) => frame.s3_key(Some(p.as_str())),
            None => frame.s3_key(None),
        }
    }

    /// The backoff slept before the attempt with the given zero-based
    /// index: nothing before the first, the base delay doubled `index`
    /// times before every retry.
    pub fn delay_before_attempt(&self, attempt_index: u32) -> (r: u64)
        requires
            self.base_delay_ms * spec_pow2(attempt_index as nat) <= u64::MAX,
        ensures
            r == spec_backoff_delay(self.base_delay_ms as nat, attempt_index as nat),
    {
        if attempt_index == 0 || self.base_delay_ms == 0 {
            0
        } else {
            proof {
                assert(spec_pow2(attempt_index as nat) <= self.base_delay_ms * spec_pow2(
                    attempt_index as nat,
                )) by (nonlinear_arith)
                    requires
                        self.base_delay_ms >= 1,
                        spec_pow2(attempt_index as nat) >= 0,
                ;
            }
            let p = pow2_u64(attempt_index);
            self.base_delay_ms * p
        }
    }
}

/// What to do after a failed attempt: back off and try again, or give the
/// frame up.
#[derive(Debug, Clone, Copy, PartialEq, Eq, Structural)]
pub enum RetryDecision {
    /// Sleep this long, then make the next attempt.
    Retry { delay_ms: u64 },
    /// The budget is exhausted: drop the frame.
    GiveUp,
}

impl S3Uploader {
    /// Decide the next move after `attempts_made` attempts have all
    /// failed: retry with the scheduled backoff while the budget has room,
    /// give up once it is spent.
    pub fn after_failure(&self, attempts_made: u32) -> (r: RetryDecision)
        requires
            attempts_made >= 1,
            attempts_made < self.retry_attempts ==> self.base_delay_ms * spec_pow2(
                attempts_made as nat,
            ) <= u64::MAX,
        ensures
            attempts_made < self.retry_attempts ==> r == (RetryDecision::Retry {
                delay_ms: spec_backoff_delay(
                    self.base_delay_ms as nat,
                    attempts_made as nat,
                ) as u64,
            }),
            attempts_made >= self.retry_attempts ==> r == RetryDecision::GiveUp,
    {
        if attempts_made < self.retry_attempts {
            RetryDecision::Retry { delay_ms: self.delay_before_attempt(attempts_made) }
        } else {
            RetryDecision::GiveUp
        }
    }
}

/// The outcome of one whole upload given what the storage returned for
/// each attempt: the attempts run in order, each retry preceded by its
/// backoff, until the first success or the end of the budget. On success
/// the reported duration is the whole sequence's wall time, backoff
/// included; on terminal failure the last error is carried out and the
/// caller drops the frame.
pub fn upload_from_attempts(
    outcomes: &Vec<AttemptRecord>,
    max_attempts: u32,
    base_delay_ms: u64,
    key: &str,
    uploaded_at_ms: u64,
) -> (r: Result<UploadResult, UploadError>)
    requires
        max_attempts >= 1,
        outcomes@.len() >= max_attempts,
        spec_durations_sum(outcomes@, max_attempts as int) + spec_backoff_total(
            base_delay_ms as nat,
            max_attempts as nat,
        ) <= u64::MAX,
    ensures
        ({
            let f = spec_first_ok(outcomes@, max_attempts as int);
            let n = spec_attempts_made(outcomes@, max_attempts as int);
            &&& (r is Ok <==> f < max_attempts)
            &&& (r matches Ok(u) ==> {
                &&& u.key@ == key@
                &&& u.etag == outcomes@[f].result->Ok_0
                &&& u.uploaded_at_ms == uploaded_at_ms
                &&& u.attempt_count == n
                &&& u.upload_duration_ms == spec_durations_sum(outcomes@, n)
                    + spec_backoff_total(base_delay_ms as nat, n as nat)
            })
            &&& (r matches Err(e) ==> {
                &&& e.attempts == max_attempts
                &&& e.message == outcomes@[max_attempts - 1].result->Err_0
            })
        }),
{
    proof {
        lemma_first_ok_bounds(outcomes@, 0, max_attempts as int);
    }
    let ghost f = spec_first_ok(outcomes@, max_attempts as int);
    let mut elapsed: u64 = 0;
    let mut i: u32 = 0;
    loop
        invariant_except_break
            elapsed == spec_durations_sum(outcomes@, i as int) + spec_backoff_total(
                base_delay_ms as nat,
                i as nat,
            ),
        invariant
            0 <= i < max_attempts,
            max_attempts >= 1,
            outcomes@.len() >= max_attempts,
            f == spec_first_ok(outcomes@, max_attempts as int),
            f == spec_first_ok_from(outcomes@, i as int, max_attempts as int),
            i <= f,
            spec_durations_sum(outcomes@, max_attempts as int) + spec_backoff_total(
                base_delay_ms as nat,
                max_attempts as nat,
            ) <= u64::MAX,
        ensures
            0 <= i < max_attempts,
            f == spec_first_ok(outcomes@, max_attempts as int),
            i == if f < max_attempts {
                f
            } else {
                max_attempts as int - 1
            },
            elapsed == spec_durations_sum(outcomes@, i as int + 1) + spec_backoff_total(
                base_delay_ms as nat,
                (i + 1) as nat,
            ),
        decreases max_attempts - i,
    {
        proof {
            lemma_sums_monotone(outcomes@, base_delay_ms as nat, i as int + 1, max_attempts as int);
            lemma_durations_sum_nonneg(outcomes@, i as int);
            if i >= 1 {
                lemma_backoff_within_total(base_delay_ms as nat, i as nat, max_attempts as nat);
            }
        }
        let delay: u64 = if i == 0 || base_delay_ms == 0 {
            proof {
                if i >= 1 {
                    assert(base_delay_ms as nat * spec_pow2(i as nat) == 0) by (nonlinear_arith)
                        requires
                            base_delay_ms == 0,
                    ;
                }
            }
            0
        } else {
            proof {
                assert(spec_pow2(i as nat) <= base_delay_ms * spec_pow2(i as nat))
                    by (nonlinear_arith)
                    requires
                        base_delay_ms >= 1,
                        spec_pow2(i as nat) >= 0,
                ;
            }
            let p = pow2_u64(i);
            base_delay_ms * p
        };
        proof {
            assert(spec_backoff_total(base_delay_ms as nat, (i + 1) as nat) == spec_backoff_total(
                base_delay_ms as nat,
                i as nat,
            ) + spec_backoff_delay(base_delay_ms as nat, i as nat));
        }
        elapsed = elapsed + delay + outcomes[i as usize].duration_ms;
        if let Ok(_) = &outcomes[i as usize].result {
            break ;
        }
        if i == max_attempts - 1 {
            break ;
        }
        proof {
            lemma_first_ok_bounds(outcomes@, i as int + 1, max_attempts as int);
        }
        i = i + 1;
    }
    // One more attempt than the index was consumed.
    let made = i + 1;
    match &outcomes[i as usize].result {
        Ok(etag) => Ok(
            UploadResult {
                key: key.to_owned(),
                etag: etag.clone(),
                uploaded_at_ms,
                upload_duration_ms: elapsed,
                attempt_count: made,
            },
        ),
        Err(message) => Err(UploadError { attempts: max_attempts, message: message.clone() }),
    }
}

/// The successful results among a batch of upload outcomes, in order.
pub open spec fn spec_batch_successes(rs: Seq<Result<UploadResult, UploadError>>) -> Seq<
    UploadResult,
>
    decreases rs.len(),
{
    if rs.len() == 0 {
        Seq::empty()
    } else {
        spec_batch_successes(rs.drop_last()) + if rs.last() is Ok {
            seq![rs.last()->Ok_0]
        } else {
            Seq::empty()
        }
    }
}

/// Fold a batch of per-frame upload outcomes, as a batch upload reports
/// them: the successful results in order, and how many frames failed and
/// were dropped.
pub fn collect_batch(results: Vec<Result<UploadResult, UploadError>>) -> (r: (
    Vec<UploadResult>,
    usize,
))
    ensures
        r.0@ == spec_batch_successes(results@),
        r.0@.len() + r.1 == results@.len(),
{
    let mut oks: Vec<UploadResult> = Vec::new();
    let mut failures: usize = 0;
    let n = results.len();
    let ghost all = results@;
    let mut remaining = results;
    let mut i: usize = 0;
    proof {
        assert(all.subrange(0, 0) =~= Seq::<Result<UploadResult, UploadError>>::empty());
    }
    while i < n
        invariant
            i <= n,
            n == all.len(),
            remaining@ == all.subrange(i as int, n as int),
            oks@ == spec_batch_successes(all.subrange(0, i as int)),
            oks@.len() + failures == i,
        decreases n - i,
    {
        let item = remaining.remove(0);
        proof {
            assert(all.subrange(i as int, n as int)[0] == all[i as int]);
            assert(remaining@ =~= all.subrange(i as int + 1, n as int));
            assert(all.subrange(0, i as int + 1).drop_last() =~= all.subrange(0, i as int));
            assert(all.subrange(0, i as int + 1).last() == all[i as int]);
        }
        match item {
            Ok(u) => {
                oks.push(u);
            },
            Err(_) => {
                failures = failures + 1;
            },
        }
        i = i + 1;
    }
    proof {
        assert(all.subrange(0, n as int) =~= all);
    }
    (oks, failures)
}

/// Attempt-duration and backoff sums grow with the attempt count.
proof fn lemma_sums_monotone(oc: Seq<AttemptRecord>, base: nat, a: int, b: int)
    requires
        0 <= a <= b,
    ensures
        spec_durations_sum(oc, a) <= spec_durations_sum(oc, b),
        spec_backoff_total(base, a as nat) <= spec_backoff_total(base, b as nat),
    decreases b - a,
{
    if a < b {
        lemma_sums_monotone(oc, base, a + 1, b);
        lemma_durations_sum_nonneg(oc, a);
    }
}

/// Summed durations are never negative.
proof fn lemma_durations_sum_nonneg(oc: Seq<AttemptRecord>, n: int)
    ensures
        spec_durations_sum(oc, n) >= 0,
    decreases n,
{
    if n > 0 {
        lemma_durations_sum_nonneg(oc, n - 1);
    }
}

/// One backoff delay is contained in the backoff total that includes it.
proof fn lemma_backoff_within_total(base: nat, i: nat, max: nat)
    requires
        1 <= i < max,
    ensures
        base * spec_pow2(i) <= spec_backoff_total(base, max),
        spec_backoff_total(base, (i + 1) as nat) == spec_backoff_total(base, i) + base
            * spec_pow2(i),
    decreases max - i,
{
    assert(spec_backoff_delay(base, i) == base * spec_pow2(i));
    if i + 1 == max {
        lemma_backoff_total_nonneg(base, i);
    } else {
        lemma_backoff_within_total(base, i, (max - 1) as nat);
        lemma_backoff_delay_nonneg(base, (max - 1) as nat);
    }
}

/// Backoff totals are never negative.
proof fn lemma_backoff_total_nonneg(base: nat, n: nat)
    ensures
        spec_backoff_total(base, n) >= 0,
{
}

/// Backoff delays are never negative.
proof fn lemma_backoff_delay_nonneg(base: nat, i: nat)
    ensures
        spec_backoff_delay(base, i) >= 0,
{
}

} // verus!
