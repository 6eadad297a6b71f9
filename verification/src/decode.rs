//! The incremental decode loop, as a verified state machine.
//!
//! A generation session owns one growing fused embedding sequence and one
//! key/value cache. Each step feeds the decoder a window of the sequence
//! (`next_step`), samples one token from the resulting logits, and records
//! it (`push_token`). With caching on, the first step is the prefill over
//! the whole sequence and every later step feeds exactly the one new
//! embedding; with caching off, every step re-evaluates the whole growing
//! sequence from position zero. The session never runs past its step
//! budget, and stops exactly at the step that samples the end-of-sequence
//! token.
use vstd::prelude::*;

verus! {

/// One decoder evaluation: feed the embeddings of the fused sequence at
/// positions `[offset, offset + count)`, with a key/value cache already
/// holding the keys and values of positions `[0, position)`.
#[derive(Clone, Copy, Debug, PartialEq, Eq, Structural)]
pub struct StepPlan {
    pub offset: usize,
    pub count: usize,
    pub position: usize,
}

/// What recording a sampled token did to the session.
#[derive(Clone, Copy, Debug, PartialEq, Eq, Structural)]
pub enum StepOutcome {
    /// The session is still running: evaluate another step.
    Continue,
    /// The sampled token was the end-of-sequence id: generation ends here.
    StoppedEos,
    /// The step budget `max_new_tokens` is exhausted.
    StoppedBudget,
}

/// One autoregressive generation session: the mutable state the decode
/// loop threads from step to step. The key/value cache is modelled by
/// `cached`, the number of absolute positions whose keys and values it
/// holds: it is written once per position, append-only, and discarded with
/// the session.
pub struct GenSession {
    /// Length of the fused embedding sequence the session started from.
    pub prefill_len: usize,
    /// Step budget: at most this many tokens are sampled.
    pub max_new_tokens: usize,
    /// Sampling this token id terminates generation.
    pub eos_id: u32,
    /// Whether the key/value cache is reused across steps.
    pub use_cache: bool,
    /// Current length of the fused embedding sequence.
    pub seq_len: usize,
    /// Positions `[0, cached)` are held by the key/value cache.
    pub cached: usize,
    /// Every token sampled so far, in order of emission.
    pub emitted: Vec<u32>,
    /// The session reached its terminal state.
    pub done: bool,
}

impl GenSession {
    /// Session invariant: the sequence grew by one embedding per emitted
    /// token, the cache holds exactly the positions of every embedding the
    /// decoder has consumed, the budget is respected, and the session is
    /// done exactly on end-of-sequence or budget exhaustion. No token
    /// before the last one is the end-of-sequence id.
    pub open spec fn wf(&self) -> bool {
        &&& self.prefill_len >= 1
        &&& self.prefill_len + self.max_new_tokens <= usize::MAX
        &&& self.seq_len == self.prefill_len + self.emitted@.len()
        &&& self.emitted@.len() <= self.max_new_tokens
        &&& (self.use_cache ==> self.cached == if self.emitted@.len() == 0 {
            0int
        } else {
            self.seq_len - 1
        })
        &&& (!self.use_cache ==> self.cached == 0)
        &&& (self.done <==> (self.emitted@.len() == self.max_new_tokens || (self.emitted@.len()
            >= 1 && self.emitted@.last() == self.eos_id)))
        &&& (forall|j: int| 0 <= j < self.emitted@.len() - 1 ==> self.emitted@[j] != self.eos_id)
    }

    /// The window of the fused sequence the next step will feed to the
    /// decoder, as (offset, count).
    pub open spec fn spec_next_window(&self) -> (int, int) {
        if self.use_cache && self.emitted@.len() > 0 {
            (self.seq_len - 1, 1int)
        } else {
            (0int, self.seq_len as int)
        }
    }

    /// Opens a session over a fused embedding sequence of `prefill_len`
    /// embeddings. A fresh cache and sequence are created per session.
    pub fn new(prefill_len: usize, max_new_tokens: usize, eos_id: u32, use_cache: bool) -> (s:
        GenSession)
        requires
            prefill_len >= 1,
            prefill_len + max_new_tokens <= usize::MAX,
        ensures
            s.wf(),
            s.prefill_len == prefill_len,
            s.max_new_tokens == max_new_tokens,
            s.eos_id == eos_id,
            s.use_cache == use_cache,
            s.seq_len == prefill_len,
            s.cached == 0,
            s.emitted@.len() == 0,
            s.done == (max_new_tokens == 0),
    {
        GenSession {
            prefill_len,
            max_new_tokens,
            eos_id,
            use_cache,
            seq_len: prefill_len,
            cached: 0,
            emitted: Vec::new(),
            done: max_new_tokens == 0,
        }
    }

    /// What the next decoder evaluation must be: the input window resumes
    /// exactly where the cache ends, and together cache and input cover
    /// every position of the current sequence, `[0, seq_len)`, once.
    pub fn next_step(&self) -> (plan: StepPlan)
        requires
            self.wf(),
            !self.done,
        ensures
            (plan.offset as int, plan.count as int) == self.spec_next_window(),
            plan.position == self.cached,
            plan.offset == plan.position,
            plan.offset + plan.count == self.seq_len,
            plan.count >= 1,
    {
        if self.use_cache && self.emitted.len() > 0 {
            StepPlan { offset: self.seq_len - 1, count: 1, position: self.cached }
        } else {
            StepPlan { offset: 0, count: self.seq_len, position: self.cached }
        }
    }

    /// Records the token sampled from the last step's logits: appends its
    /// embedding to the fused sequence, extends the cache by exactly the
    /// window that step fed (write-once, append-only), and terminates on
    /// the end-of-sequence id or on budget exhaustion, whichever is first.
    pub fn push_token(&mut self, token: u32) -> (outcome: StepOutcome)
        requires
            old(self).wf(),
            !old(self).done,
        ensures
            final(self).wf(),
            final(self).prefill_len == old(self).prefill_len,
            final(self).max_new_tokens == old(self).max_new_tokens,
            final(self).eos_id == old(self).eos_id,
            final(self).use_cache == old(self).use_cache,
            final(self).emitted@ == old(self).emitted@.push(token),
            final(self).seq_len == old(self).seq_len + 1,
            final(self).use_cache ==> final(self).cached == old(self).cached
                + old(self).spec_next_window().1,
            final(self).done <==> (token == old(self).eos_id || old(self).emitted@.len() + 1
                == old(self).max_new_tokens),
            outcome is StoppedEos <==> token == old(self).eos_id,
            outcome is StoppedBudget <==> (token != old(self).eos_id && old(self).emitted@.len()
                + 1 == old(self).max_new_tokens),
            outcome is Continue <==> !final(self).done,
    {
        if self.use_cache {
            if self.emitted.len() == 0 {
                self.cached = self.seq_len;
            } else {
                self.cached = self.cached + 1;
            }
        }
        self.emitted.push(token);
        self.seq_len = self.seq_len + 1;
        let eos = token == self.eos_id;
        let budget = self.emitted.len() == self.max_new_tokens;
        self.done = eos || budget;
        if eos {
            StepOutcome::StoppedEos
        } else if budget {
            StepOutcome::StoppedBudget
        } else {
            StepOutcome::Continue
        }
    }
}

/// Termination law: a session never emits more than `max_new_tokens`
/// tokens; it is done exactly when the budget is exhausted or the last
/// emitted token is the end-of-sequence id; and the end-of-sequence id
/// never occurs before the last emitted token, so generation stops at the
/// step that samples it, never later.
pub proof fn lemma_termination(s: GenSession)
    requires
        s.wf(),
    ensures
        s.emitted@.len() <= s.max_new_tokens,
        s.done <==> (s.emitted@.len() == s.max_new_tokens || (s.emitted@.len() >= 1
            && s.emitted@.last() == s.eos_id)),
        forall|j: int| 0 <= j < s.emitted@.len() - 1 ==> s.emitted@[j] != s.eos_id,
{
}

/// Cache equivalence law, scheduling half: a cached and an uncached
/// session that started from the same fused sequence and have recorded the
/// same tokens agree on the sequence so far, and their next steps evaluate
/// the same information. The uncached step feeds positions `[0, seq_len)`
/// at position offset 0; the cached step feeds exactly the suffix its
/// cache does not hold, `[cached, seq_len)`, so cache plus input again
/// cover `[0, seq_len)` once, and both steps read logits at the final
/// position `seq_len - 1`. The decoder being a deterministic, pure
/// function of the embeddings at positions `[0, seq_len)`, both modes see
/// identical logits at every step and — under the same seeded sampling
/// policy — sample the identical token sequence.
pub proof fn lemma_cache_equivalence(c: GenSession, u: GenSession)
    requires
        c.wf(),
        u.wf(),
        c.use_cache,
        !u.use_cache,
        c.prefill_len == u.prefill_len,
        c.emitted@ == u.emitted@,
    ensures
        c.seq_len == u.seq_len,
        u.spec_next_window() == (0int, u.seq_len as int),
        c.spec_next_window().0 == c.cached,
        c.spec_next_window().0 + c.spec_next_window().1 == c.seq_len,
        c.spec_next_window().0 + c.spec_next_window().1 == u.spec_next_window().0
            + u.spec_next_window().1,
{
}

} // verus!
