use vstd::prelude::*;

use crate::common::error::{Error, ErrorView};

verus! {

/// How many times to try reconnecting, and how long to wait after a failure.
pub struct ReconnectionManager {
    pub max_retries: u32,
    pub retry_delay: std::time::Duration,
}

/// What to do next while reconnecting.
pub enum ReconnectStep {
    /// Make another attempt.
    Attempt,
    /// Stop with this error.
    GiveUp(Error),
}

impl ReconnectionManager {
    pub fn new(max_retries: u32, retry_delay: std::time::Duration) -> (m: Self)
        ensures
            m.max_retries == max_retries,
            m.retry_delay == retry_delay,
    {
        Self { max_retries, retry_delay }
    }

    /// The step after `failed` attempts have failed (each followed by the delay):
    /// another attempt while fewer than `max_retries` have been made, else give up
    /// with an internal error.
    pub fn next_step(&self, failed: u32) -> (s: ReconnectStep)
        ensures
            will_attempt(self.max_retries as nat, failed as nat) ==> s is Attempt,
            !will_attempt(self.max_retries as nat, failed as nat) ==> (s matches ReconnectStep::GiveUp(e) && e@
                == ErrorView::Internal("Max reconnection retries exceeded"@)),
    {
        if failed < self.max_retries {
            ReconnectStep::Attempt
        } else {
            ReconnectStep::GiveUp(Error::Internal("Max reconnection retries exceeded".to_owned()))
        }
    }
}

/// Whether reconnecting makes another attempt after `failed` failures.
pub open spec fn will_attempt(max_retries: nat, failed: nat) -> bool {
    failed < max_retries
}

/// The run of the retry loop that [`ReconnectionManager::next_step`] drives, after
/// `failed` failures, when the next attempts turn out as `outcomes`: how many
/// attempts it makes, and whether it ends in success. It attempts while
/// `next_step` says so, and stops at the first success.
pub open spec fn retry_run(max_retries: nat, failed: nat, outcomes: Seq<bool>) -> (nat, bool)
    decreases outcomes.len(),
{
    if !will_attempt(max_retries, failed) || outcomes.len() == 0 {
        (0, false)
    } else if outcomes[0] {
        (1, true)
    } else {
        let rest = retry_run(max_retries, failed + 1, outcomes.drop_first());
        (rest.0 + 1, rest.1)
    }
}

/// The attempts that reconnecting makes when the attempts succeed or fail as
/// `outcomes` says: up to the first success, and never more than `max_retries`.
pub open spec fn attempts_made(max_retries: nat, outcomes: Seq<bool>) -> nat
    decreases outcomes.len(),
{
    if max_retries == 0 || outcomes.len() == 0 {
        0
    } else if outcomes[0] {
        1
    } else {
        1 + attempts_made((max_retries - 1) as nat, outcomes.drop_first())
    }
}

/// Reconnecting succeeds exactly when one of the first `max_retries` attempts does.
pub open spec fn reconnects(max_retries: nat, outcomes: Seq<bool>) -> bool
    decreases outcomes.len(),
{
    if max_retries == 0 || outcomes.len() == 0 {
        false
    } else if outcomes[0] {
        true
    } else {
        reconnects((max_retries - 1) as nat, outcomes.drop_first())
    }
}

/// Reconnecting makes at most `max_retries` attempts, and succeeds when some attempt
/// among them succeeds.
pub proof fn lemma_attempts_bounded(max_retries: nat, outcomes: Seq<bool>)
    ensures
        attempts_made(max_retries, outcomes) <= max_retries,
        attempts_made(max_retries, outcomes) <= outcomes.len(),
        reconnects(max_retries, outcomes) <==> exists|i: int|
            0 <= i < max_retries && i < outcomes.len() && #[trigger] outcomes[i],
    decreases outcomes.len(),
{
    if max_retries > 0 && outcomes.len() > 0 && !outcomes[0] {
        let rest = outcomes.drop_first();
        lemma_attempts_bounded((max_retries - 1) as nat, rest);
        if reconnects(max_retries, outcomes) {
            let i = choose|i: int| 0 <= i < max_retries - 1 && i < rest.len() && #[trigger] rest[i];
            assert(outcomes[i + 1]);
        }
        if exists|i: int| 0 <= i < max_retries && i < outcomes.len() && #[trigger] outcomes[i] {
            let i = choose|i: int| 0 <= i < max_retries && i < outcomes.len() && #[trigger] outcomes[i];
            assert(i > 0);
            assert(rest[i - 1]);
        }
    } else if max_retries > 0 && outcomes.len() > 0 {
        assert(outcomes[0]);
    }
}

proof fn lemma_retry_run_counts(max_retries: nat, failed: nat, outcomes: Seq<bool>)
    requires
        failed <= max_retries,
    ensures
        retry_run(max_retries, failed, outcomes) == (
            attempts_made((max_retries - failed) as nat, outcomes),
            reconnects((max_retries - failed) as nat, outcomes),
        ),
    decreases outcomes.len(),
{
    if will_attempt(max_retries, failed) && outcomes.len() > 0 && !outcomes[0] {
        lemma_retry_run_counts(max_retries, failed + 1, outcomes.drop_first());
        assert((max_retries - (failed + 1)) as nat == ((max_retries - failed) as nat - 1) as nat);
    }
}

/// The retry loop driven by [`ReconnectionManager::next_step`], given outcomes for
/// at least `max_retries` attempts: when the first success is attempt `k + 1` with
/// `k < max_retries`, it makes exactly `k + 1` attempts and succeeds; when none of
/// the first `max_retries` attempts succeeds, it makes exactly `max_retries`
/// attempts (none for 0) and gives up.
pub proof fn lemma_retry_loop(max_retries: nat, outcomes: Seq<bool>)
    requires
        outcomes.len() >= max_retries,
    ensures
        forall|k: int|
            0 <= k < max_retries && #[trigger] outcomes[k] && (forall|j: int| 0 <= j < k ==> !outcomes[j])
                ==> retry_run(max_retries, 0, outcomes) == ((k + 1) as nat, true),
        (forall|j: int| 0 <= j < max_retries ==> !outcomes[j]) ==> retry_run(max_retries, 0, outcomes)
            == (max_retries, false),
    decreases max_retries,
{
    lemma_retry_run_counts(max_retries, 0, outcomes);
    lemma_attempts_bounded(max_retries, outcomes);
    if max_retries > 0 && !outcomes[0] {
        let rest = outcomes.drop_first();
        lemma_retry_loop((max_retries - 1) as nat, rest);
        lemma_retry_run_counts((max_retries - 1) as nat, 0, rest);
        assert forall|k: int|
            0 <= k < max_retries && #[trigger] outcomes[k] && (forall|j: int| 0 <= j < k ==> !outcomes[j])
                implies retry_run(max_retries, 0, outcomes) == ((k + 1) as nat, true) by {
            assert(k > 0);
            assert(rest[k - 1] == outcomes[k]);
            assert forall|j: int| 0 <= j < k - 1 implies !rest[j] by {
                assert(rest[j] == outcomes[j + 1]);
            }
        }
        if forall|j: int| 0 <= j < max_retries ==> !outcomes[j] {
            assert forall|j: int| 0 <= j < max_retries - 1 implies !rest[j] by {
                assert(rest[j] == outcomes[j + 1]);
            }
        }
    }
}

} // verus!
