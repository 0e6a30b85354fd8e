use vstd::prelude::*;
use vstd::string::StringExecFns;

use crate::codec::decode_ids;
use crate::error::GenerationError;
use crate::sampler::{
    candidate_at, draw_below, effective_width, is_best, lemma_first_is_best, select_drawn,
    selectable,
};
use tokenizers::Tokenizer;

verus! {

/// What a generation run holds at a given moment.
pub ghost struct GenerationState {
    /// The token sequence: the seed, then one token per completed step.
    pub tokens: Seq<u32>,
    /// The output text: the decoded seed, then one fragment per completed step.
    pub text: Seq<char>,
    /// The length of the seed.
    pub seed_len: nat,
    /// How many steps the run makes.
    pub budget: nat,
    /// How many of the best candidates each step draws from.
    pub top_k: nat,
}

impl GenerationState {
    /// The state of a run that can still make or has made all of its steps.
    pub open spec fn wf(self) -> bool {
        &&& self.seed_len >= 1
        &&& self.top_k >= 1
        &&& self.seed_len <= self.tokens.len() <= self.seed_len + self.budget
        &&& self.seed_len + self.budget <= usize::MAX
    }

    /// How many steps have been completed.
    pub open spec fn steps(self) -> int {
        self.tokens.len() - self.seed_len
    }

    /// The run has made all of its steps.
    pub open spec fn finished(self) -> bool {
        self.steps() == self.budget
    }

    /// `next` follows from `self` by one step: one token is appended, the text grows
    /// by a fragment, and the configuration stays as it was.
    pub open spec fn step_to(self, next: GenerationState) -> bool {
        &&& !self.finished()
        &&& next.tokens.len() == self.tokens.len() + 1
        &&& next.tokens.take(self.tokens.len() as int) == self.tokens
        &&& next.text.len() >= self.text.len()
        &&& next.text.take(self.text.len() as int) == self.text
        &&& next.seed_len == self.seed_len
        &&& next.budget == self.budget
        &&& next.top_k == self.top_k
    }
}

/// A generation run: the token sequence grows by one sampled token per step, and
/// the decoded text of each token is appended to the output, until the budget of
/// steps is spent. Scoring the sequence at each step is the caller's part.
pub struct Generation {
    tokens: Vec<u32>,
    text: String,
    seed_len: usize,
    budget: usize,
    top_k: usize,
}

impl View for Generation {
    type V = GenerationState;

    closed spec fn view(&self) -> GenerationState {
        GenerationState {
            tokens: self.tokens@,
            text: self.text@,
            seed_len: self.seed_len as nat,
            budget: self.budget as nat,
            top_k: self.top_k as nat,
        }
    }
}

impl Generation {
    /// Starts a run from a seed sequence and the text it decodes to.
    /// The seed must not be empty, and each step must draw from at least one candidate.
    pub fn start(seed: Vec<u32>, seed_text: String, budget: usize, top_k: usize) -> (res: Result<
        Generation,
        GenerationError,
    >)
        requires
            seed@.len() + budget <= usize::MAX,
        ensures
            seed@.len() == 0 ==> res == Err::<Generation, GenerationError>(
                GenerationError::InvalidInput,
            ),
            seed@.len() > 0 && top_k == 0 ==> res == Err::<Generation, GenerationError>(
                GenerationError::InvalidConfiguration,
            ),
            seed@.len() > 0 && top_k > 0 ==> res is Ok,
            res matches Ok(g) ==> g@ == (GenerationState {
                tokens: seed@,
                text: seed_text@,
                seed_len: seed@.len(),
                budget: budget as nat,
                top_k: top_k as nat,
            }),
            res matches Ok(g) ==> g@.wf(),
    {
        if seed.len() == 0 {
            return Err(GenerationError::InvalidInput);
        }
        if top_k == 0 {
            return Err(GenerationError::InvalidConfiguration);
        }
        let seed_len = seed.len();
        Ok(Generation { tokens: seed, text: seed_text, seed_len, budget, top_k })
    }

    /// Starts a run from a seed sequence and what the codec made of it: the decoded
    /// text becomes the output so far, and a failed decoding is a decoding error that
    /// carries the codec's message.
    pub fn start_decoded(
        seed: Vec<u32>,
        decoded: Result<String, String>,
        budget: usize,
        top_k: usize,
    ) -> (res: Result<Generation, GenerationError>)
        requires
            seed@.len() + budget <= usize::MAX,
        ensures
            seed@.len() == 0 ==> res == Err::<Generation, GenerationError>(
                GenerationError::InvalidInput,
            ),
            seed@.len() > 0 && top_k == 0 ==> res == Err::<Generation, GenerationError>(
                GenerationError::InvalidConfiguration,
            ),
            seed@.len() > 0 && top_k > 0 ==> (decoded matches Err(msg) ==> res == Err::<
                Generation,
                GenerationError,
            >(GenerationError::DecodingError(msg))),
            seed@.len() > 0 && top_k > 0 ==> (decoded matches Ok(seed_text) ==> (res matches Ok(g)
                && g@ == (GenerationState {
                tokens: seed@,
                text: seed_text@,
                seed_len: seed@.len(),
                budget: budget as nat,
                top_k: top_k as nat,
            }))),
            res matches Ok(g) ==> g@.wf(),
    {
        if seed.len() == 0 {
            return Err(GenerationError::InvalidInput);
        }
        if top_k == 0 {
            return Err(GenerationError::InvalidConfiguration);
        }
        match decoded {
            Err(msg) => Err(GenerationError::DecodingError(msg)),
            Ok(seed_text) => Generation::start(seed, seed_text, budget, top_k),
        }
    }

    /// Starts a run from a seed sequence, with the seed's decoding as the output so far.
    /// Past the checks on the seed and the width, only the codec can make it fail.
    pub fn begin(seed: Vec<u32>, budget: usize, top_k: usize, codec: &Tokenizer) -> (res: Result<
        Generation,
        GenerationError,
    >)
        requires
            seed@.len() + budget <= usize::MAX,
        ensures
            seed@.len() == 0 ==> res == Err::<Generation, GenerationError>(
                GenerationError::InvalidInput,
            ),
            seed@.len() > 0 && top_k == 0 ==> res == Err::<Generation, GenerationError>(
                GenerationError::InvalidConfiguration,
            ),
            seed@.len() > 0 && top_k > 0 ==> (res is Ok || (res matches Err(e)
                && e is DecodingError)),
            res matches Ok(g) ==> g@.wf() && g@.tokens == seed@ && g@.seed_len == seed@.len()
                && g@.budget == budget && g@.top_k == top_k,
    {
        if seed.len() == 0 {
            return Err(GenerationError::InvalidInput);
        }
        if top_k == 0 {
            return Err(GenerationError::InvalidConfiguration);
        }
        let decoded = decode_ids(codec, &seed);
        Generation::start_decoded(seed, decoded, budget, top_k)
    }

    /// Whether the run has steps left, each of which needs the scores of the current sequence.
    pub fn needs_scores(&self) -> (r: bool)
        requires
            self@.wf(),
        ensures
            r == !self@.finished(),
    {
        self.tokens.len() - self.seed_len < self.budget
    }

    /// The token sequence so far.
    pub fn tokens(&self) -> (r: &Vec<u32>)
        ensures
            r@ == self@.tokens,
    {
        &self.tokens
    }

    /// The output text so far.
    pub fn text(&self) -> (r: &String)
        ensures
            r@ == self@.text,
    {
        &self.text
    }

    /// Ends the run and hands back the output text.
    pub fn into_text(self) -> (r: String)
        ensures
            r@ == self@.text,
    {
        self.text
    }

    /// How many of the best candidates each step draws from.
    pub fn top_k(&self) -> (r: usize)
        ensures
            r == self@.top_k,
    {
        self.top_k
    }

    /// The token that a step picks from `scores` for the draw `draw`, taken below
    /// `min(top_k, |scores|)`. An empty score vector is refused, and so is a
    /// candidate whose index is no token id.
    pub fn pick(&self, scores: &Vec<i64>, draw: usize) -> (res: Result<u32, GenerationError>)
        requires
            self@.wf(),
            effective_width(scores@, self@.top_k) > 0 ==> draw < effective_width(
                scores@,
                self@.top_k,
            ),
        ensures
            scores@.len() == 0 ==> res == Err::<u32, GenerationError>(
                GenerationError::InvalidConfiguration,
            ),
            res matches Ok(t) ==> candidate_at(scores@, draw as int, t as usize),
            res matches Err(e) ==> (scores@.len() == 0 && e == GenerationError::InvalidConfiguration)
                || (e is DecodingError && exists|i: usize|
                candidate_at(scores@, draw as int, i) && i > u32::MAX),
    {
        match select_drawn(scores, self.top_k, draw) {
            Err(e) => Err(e),
            Ok(i) => {
                if i > 4294967295 {
                    Err(GenerationError::DecodingError("candidate index is no token id".to_owned()))
                } else {
                    Ok(i as u32)
                }
            },
        }
    }

    /// Completes a step: appends `token` to the sequence and `fragment` to the text.
    pub fn record(&mut self, token: u32, fragment: &str)
        requires
            old(self)@.wf(),
            !old(self)@.finished(),
        ensures
            final(self)@ == (GenerationState {
                tokens: old(self)@.tokens.push(token),
                text: old(self)@.text + fragment@,
                ..old(self)@
            }),
            final(self)@.wf(),
            old(self)@.step_to(final(self)@),
    {
        self.tokens.push(token);
        self.text.append(fragment);
        assert(self@.tokens.take(old(self)@.tokens.len() as int) =~= old(self)@.tokens);
        assert(self@.text.take(old(self)@.text.len() as int) =~= old(self)@.text);
    }

    /// Completes a step with the picked `token` and what the codec made of it: the
    /// decoded text is recorded with the token, and a failed decoding is a decoding
    /// error that carries the codec's message and leaves the run as it was.
    pub fn finish_step(&mut self, token: u32, decoded: Result<String, String>) -> (res: Result<
        u32,
        GenerationError,
    >)
        requires
            old(self)@.wf(),
            !old(self)@.finished(),
        ensures
            final(self)@.wf(),
            decoded matches Err(msg) ==> res == Err::<u32, GenerationError>(
                GenerationError::DecodingError(msg),
            ) && final(self)@ == old(self)@,
            decoded matches Ok(fragment) ==> res == Ok::<u32, GenerationError>(token)
                && final(self)@ == (GenerationState {
                tokens: old(self)@.tokens.push(token),
                text: old(self)@.text + fragment@,
                ..old(self)@
            }),
            res is Ok ==> old(self)@.step_to(final(self)@),
    {
        match decoded {
            Err(msg) => Err(GenerationError::DecodingError(msg)),
            Ok(fragment) => {
                self.record(token, fragment.as_str());
                Ok(token)
            },
        }
    }

    /// Makes one step with the draw `draw`: picks a token from `scores`, decodes it
    /// alone, and records both. On failure the run is left as it was; on a non-empty
    /// score vector only the decoding can fail.
    pub fn advance_drawn(&mut self, scores: &Vec<i64>, draw: usize, codec: &Tokenizer) -> (res:
        Result<u32, GenerationError>)
        requires
            old(self)@.wf(),
            !old(self)@.finished(),
            effective_width(scores@, old(self)@.top_k) > 0 ==> draw < effective_width(
                scores@,
                old(self)@.top_k,
            ),
        ensures
            final(self)@.wf(),
            scores@.len() == 0 ==> res == Err::<u32, GenerationError>(
                GenerationError::InvalidConfiguration,
            ),
            scores@.len() > 0 ==> (res is Ok || (res matches Err(e) && e is DecodingError)),
            res is Err ==> final(self)@ == old(self)@,
            res matches Ok(t) ==> candidate_at(scores@, draw as int, t as usize),
            res matches Ok(t) ==> final(self)@.tokens == old(self)@.tokens.push(t),
            res is Ok ==> old(self)@.step_to(final(self)@),
    {
        let token = match self.pick(scores, draw) {
            Err(e) => return Err(e),
            Ok(t) => t,
        };
        let decoded = decode_ids(codec, &vec![token]);
        self.finish_step(token, decoded)
    }

    /// Makes one step: picks a token uniformly among the `top_k` best candidates of
    /// `scores`, decodes it alone, and records both. On failure the run is left as it
    /// was; on a non-empty score vector only the decoding can fail.
    pub fn advance(&mut self, scores: &Vec<i64>, codec: &Tokenizer) -> (res: Result<
        u32,
        GenerationError,
    >)
        requires
            old(self)@.wf(),
            !old(self)@.finished(),
        ensures
            final(self)@.wf(),
            scores@.len() == 0 ==> res == Err::<u32, GenerationError>(
                GenerationError::InvalidConfiguration,
            ),
            scores@.len() > 0 ==> (res is Ok || (res matches Err(e) && e is DecodingError)),
            res is Err ==> final(self)@ == old(self)@,
            res matches Ok(t) ==> selectable(scores@, old(self)@.top_k, t as usize),
            res matches Ok(t) ==> (old(self)@.top_k == 1 ==> is_best(scores@, t as usize)),
            res matches Ok(t) ==> final(self)@.tokens == old(self)@.tokens.push(t),
            res is Ok ==> old(self)@.step_to(final(self)@),
    {
        if scores.len() == 0 {
            return Err(GenerationError::InvalidConfiguration);
        }
        let width = if self.top_k < scores.len() {
            self.top_k
        } else {
            scores.len()
        };
        let draw = draw_below(width);
        let res = self.advance_drawn(scores, draw, codec);
        proof {
            if let Ok(t) = res {
                if self@.top_k == 1 {
                    lemma_first_is_best(scores@, t as usize);
                }
            }
        }
        res
    }
}

/// Each completed step appends exactly one token, counts as exactly one step, and
/// keeps the run well formed.
pub proof fn lemma_step_appends_one(s: GenerationState, next: GenerationState)
    requires
        s.wf(),
        s.step_to(next),
    ensures
        next.wf(),
        next.tokens.len() == s.tokens.len() + 1,
        next.steps() == s.steps() + 1,
{
}

/// Along a run made one step at a time, the `n`-th state has made `n` steps and
/// still starts with the seed.
proof fn lemma_trace_prefix(trace: Seq<GenerationState>, n: int)
    requires
        0 <= n < trace.len(),
        trace[0].wf(),
        trace[0].steps() == 0,
        forall|i: int| 0 <= i < trace.len() - 1 ==> #[trigger] trace[i].step_to(trace[i + 1]),
    ensures
        trace[n].steps() == n,
        trace[n].seed_len == trace[0].seed_len,
        trace[n].budget == trace[0].budget,
        trace[n].tokens.take(trace[0].seed_len as int) == trace[0].tokens,
    decreases n,
{
    if n == 0 {
        assert(trace[0].tokens.take(trace[0].seed_len as int) =~= trace[0].tokens);
    } else {
        lemma_trace_prefix(trace, n - 1);
        let i = n - 1;
        assert(trace[i].step_to(trace[i + 1]));
        let prev = trace[n - 1].tokens;
        let cur = trace[n].tokens;
        assert(cur.take(prev.len() as int) == prev);
        assert(cur.take(trace[0].seed_len as int) =~= prev.take(trace[0].seed_len as int));
    }
}

/// A run that starts with no step made and ends with its budget spent, one step at
/// a time, makes exactly `budget` steps, one score request each, and keeps its seed
/// at the front of the sequence. A budget of zero thus asks for no scores at all.
pub proof fn lemma_run_takes_budget_steps(trace: Seq<GenerationState>)
    requires
        trace.len() >= 1,
        trace[0].wf(),
        trace[0].steps() == 0,
        forall|i: int| 0 <= i < trace.len() - 1 ==> #[trigger] trace[i].step_to(trace[i + 1]),
        trace.last().finished(),
    ensures
        trace.len() - 1 == trace[0].budget,
        trace.last().tokens.len() == trace[0].tokens.len() + trace[0].budget,
        trace.last().tokens.take(trace[0].seed_len as int) == trace[0].tokens,
{
    let n = trace.len() - 1;
    lemma_trace_prefix(trace, n);
    if n > trace[0].budget {
        let b = trace[0].budget as int;
        lemma_trace_prefix(trace, b);
        assert(trace[b].step_to(trace[b + 1]));
    }
}

} // verus!
