//! Building requests for the chat-completions service and deciding what to
//! do with each reply: which models to try, what reasoning effort to ask
//! for, when to wait and retry, and when to give up.
use vstd::prelude::*;
use crate::errors::RewriteError;
use crate::prompts::{build_system_prompt, system_prompt_text, RewriteStyle};
use crate::text::{contains, contains_spec, parse_u64, parse_u64_spec, string_views};

verus! {

// ---------------------------------------------------------------------------
// Reasoning effort
// ---------------------------------------------------------------------------

/// The reasoning effort asked for on the command line.
#[derive(Clone, Copy, Debug, PartialEq, Eq, Structural)]
pub enum ReasoningEffort {
    /// Low for gpt-oss models, none asked for otherwise.
    Auto,
    /// No reasoning (low for gpt-oss models, which require it).
    Off,
    Low,
    Medium,
    High,
}

/// The reasoning effort sent in a request; reasoning text is always excluded
/// from the reply.
#[derive(Clone, Copy, Debug, PartialEq, Eq, Structural)]
pub enum ReasoningLevel {
    Off,
    Low,
    Medium,
    High,
}

/// The name of a level as the service expects it.
pub open spec fn level_name(level: ReasoningLevel) -> Seq<char> {
    match level {
        ReasoningLevel::Off => "none"@,
        ReasoningLevel::Low => "low"@,
        ReasoningLevel::Medium => "medium"@,
        ReasoningLevel::High => "high"@,
    }
}

impl ReasoningLevel {
    /// The name of this level as the service expects it.
    pub fn name(&self) -> (r: &'static str)
        ensures
            r@ == level_name(*self),
    {
        match self {
            ReasoningLevel::Off => "none",
            ReasoningLevel::Low => "low",
            ReasoningLevel::Medium => "medium",
            ReasoningLevel::High => "high",
        }
    }
}

/// The model is a gpt-oss model, which does not accept "no reasoning".
pub open spec fn is_gpt_oss(model: Seq<char>) -> bool {
    contains_spec(model, "gpt-oss"@)
}

/// The reasoning setting of a request: low when low was forced or for a
/// gpt-oss model under `Auto` or `Off`; nothing under `Auto` for other
/// models; else the level asked for.
pub open spec fn reasoning_spec(model: Seq<char>, effort: ReasoningEffort, force_low: bool) -> Option<ReasoningLevel> {
    if force_low {
        Some(ReasoningLevel::Low)
    } else {
        match effort {
            ReasoningEffort::Auto => if is_gpt_oss(model) { Some(ReasoningLevel::Low) } else { None },
            ReasoningEffort::Off => if is_gpt_oss(model) {
                Some(ReasoningLevel::Low)
            } else {
                Some(ReasoningLevel::Off)
            },
            ReasoningEffort::Low => Some(ReasoningLevel::Low),
            ReasoningEffort::Medium => Some(ReasoningLevel::Medium),
            ReasoningEffort::High => Some(ReasoningLevel::High),
        }
    }
}

/// The reasoning setting for a request to `model`.
pub fn reasoning_setting(model: &str, effort: ReasoningEffort, force_low: bool) -> (r: Option<ReasoningLevel>)
    ensures
        r == reasoning_spec(model@, effort, force_low),
        force_low ==> r == Some(ReasoningLevel::Low),
        is_gpt_oss(model@) ==> r != Some(ReasoningLevel::Off),
{
    if force_low {
        return Some(ReasoningLevel::Low);
    }
    let gpt_oss = contains(model, "gpt-oss");
    match effort {
        ReasoningEffort::Auto => if gpt_oss { Some(ReasoningLevel::Low) } else { None },
        ReasoningEffort::Off => if gpt_oss { Some(ReasoningLevel::Low) } else { Some(ReasoningLevel::Off) },
        ReasoningEffort::Low => Some(ReasoningLevel::Low),
        ReasoningEffort::Medium => Some(ReasoningLevel::Medium),
        ReasoningEffort::High => Some(ReasoningLevel::High),
    }
}

// ---------------------------------------------------------------------------
// Requests
// ---------------------------------------------------------------------------

/// What a request holds besides the sampling settings (temperature and
/// penalties), which the caller adds.
pub struct ChatRequest {
    pub model: String,
    pub max_tokens: u32,
    pub system_prompt: String,
    pub user_prompt: String,
    pub reasoning: Option<ReasoningLevel>,
}

/// The request that asks `model` to rewrite `prompt` in `style`.
pub fn build_openrouter_body(
    prompt: &str,
    style: RewriteStyle,
    model: &str,
    max_tokens: u32,
    effort: ReasoningEffort,
    force_low_reasoning: bool,
) -> (r: ChatRequest)
    ensures
        r.model@ == model@,
        r.max_tokens == max_tokens,
        r.system_prompt@ == system_prompt_text(style),
        r.user_prompt@ == prompt@,
        r.reasoning == reasoning_spec(model@, effort, force_low_reasoning),
{
    ChatRequest {
        model: model.to_owned(),
        max_tokens,
        system_prompt: build_system_prompt(style),
        user_prompt: prompt.to_owned(),
        reasoning: reasoning_setting(model, effort, force_low_reasoning),
    }
}

// ---------------------------------------------------------------------------
// Models to try
// ---------------------------------------------------------------------------

/// The models to try: the primary one, then each fallback that is not
/// already in the list.
pub open spec fn candidates_spec(primary: Seq<char>, fallbacks: Seq<Seq<char>>) -> Seq<Seq<char>>
    decreases fallbacks.len(),
{
    if fallbacks.len() == 0 {
        seq![primary]
    } else {
        let prev = candidates_spec(primary, fallbacks.drop_last());
        if prev.contains(fallbacks.last()) {
            prev
        } else {
            prev.push(fallbacks.last())
        }
    }
}

fn string_in(list: &Vec<String>, s: &String) -> (r: bool)
    ensures
        r == string_views(list@).contains(s@),
{
    let mut i: usize = 0;
    while i < list.len()
        invariant
            i <= list@.len(),
            forall|k: int| 0 <= k < i ==> list@[k]@ != s@,
        decreases list@.len() - i,
    {
        if list[i] == *s {
            assert(string_views(list@)[i as int] == s@);
            return true;
        }
        i = i + 1;
    }
    assert forall|k: int| 0 <= k < string_views(list@).len() implies string_views(list@)[k] != s@ by {
        assert(string_views(list@)[k] == list@[k]@);
    }
    false
}

/// The models to try, in order: `primary`, then the fallbacks, each once.
pub fn model_candidates(primary: &String, fallbacks: &Vec<String>) -> (r: Vec<String>)
    ensures
        string_views(r@) == candidates_spec(primary@, string_views(fallbacks@)),
{
    let mut models: Vec<String> = Vec::new();
    models.push(primary.clone());
    assert(string_views(models@) =~= seq![primary@]);
    assert(string_views(fallbacks@).take(0) =~= Seq::<Seq<char>>::empty());
    let mut i: usize = 0;
    while i < fallbacks.len()
        invariant
            i <= fallbacks@.len(),
            string_views(models@) == candidates_spec(primary@, string_views(fallbacks@).take(i as int)),
        decreases fallbacks@.len() - i,
    {
        let ghost fv = string_views(fallbacks@);
        proof {
            assert(fv.take(i + 1).drop_last() =~= fv.take(i as int));
            assert(fv.take(i + 1).last() == fallbacks@[i as int]@);
        }
        if !string_in(&models, &fallbacks[i]) {
            let ghost prev = models@;
            models.push(fallbacks[i].clone());
            assert(string_views(models@) =~= string_views(prev).push(fallbacks@[i as int]@));
        }
        i = i + 1;
    }
    assert(string_views(fallbacks@).take(fallbacks@.len() as int) =~= string_views(fallbacks@));
    models
}

/// The models to try begin with the primary one, hold each model once, hold
/// every fallback, and hold nothing else.
pub proof fn lemma_candidates(primary: Seq<char>, fallbacks: Seq<Seq<char>>)
    ensures
        candidates_spec(primary, fallbacks).len() >= 1,
        candidates_spec(primary, fallbacks)[0] == primary,
        candidates_spec(primary, fallbacks).no_duplicates(),
        forall|k: int| 0 <= k < fallbacks.len() ==> candidates_spec(primary, fallbacks).contains(
            #[trigger] fallbacks[k],
        ),
        forall|m: Seq<char>| #[trigger] candidates_spec(primary, fallbacks).contains(m) ==> m == primary
            || fallbacks.contains(m),
    decreases fallbacks.len(),
{
    let c = candidates_spec(primary, fallbacks);
    if fallbacks.len() == 0 {
        assert(seq![primary].no_duplicates());
        assert forall|m: Seq<char>| #[trigger] c.contains(m) implies m == primary || fallbacks.contains(m) by {
            let k = choose|k: int| 0 <= k < c.len() && c[k] == m;
        }
    } else {
        let f = fallbacks.drop_last();
        let prev = candidates_spec(primary, f);
        lemma_candidates(primary, f);
        assert forall|k: int| 0 <= k < fallbacks.len() implies c.contains(#[trigger] fallbacks[k]) by {
            if k < f.len() {
                assert(f[k] == fallbacks[k]);
                assert(prev.contains(f[k]));
                if !prev.contains(fallbacks.last()) {
                    let j = choose|j: int| 0 <= j < prev.len() && prev[j] == f[k];
                    assert(prev.push(fallbacks.last())[j] == f[k]);
                }
            } else {
                if !prev.contains(fallbacks.last()) {
                    assert(prev.push(fallbacks.last())[prev.len() as int] == fallbacks.last());
                }
            }
        }
        assert forall|m: Seq<char>| #[trigger] c.contains(m) implies m == primary || fallbacks.contains(m) by {
            let j = choose|j: int| 0 <= j < c.len() && c[j] == m;
            if j < prev.len() {
                assert(c[j] == prev[j]);
                assert(prev.contains(m));
                if m != primary {
                    let k = choose|k: int| 0 <= k < f.len() && f[k] == m;
                    assert(fallbacks[k] == m);
                }
            } else {
                assert(m == fallbacks.last());
                assert(fallbacks[fallbacks.len() - 1] == m);
            }
        }
        if !prev.contains(fallbacks.last()) {
            assert forall|a: int, b: int| 0 <= a < c.len() && 0 <= b < c.len() && a != b implies c[a] != c[b] by {
                if a < prev.len() && b < prev.len() {
                } else if a < prev.len() {
                    assert(c[b] == fallbacks.last());
                    assert(c[a] == prev[a]);
                } else if b < prev.len() {
                    assert(c[a] == fallbacks.last());
                    assert(c[b] == prev[b]);
                }
            }
        }
        assert(c[0] == primary);
    }
}

// ---------------------------------------------------------------------------
// Replies
// ---------------------------------------------------------------------------

/// What the service answered, as plain values.
pub struct HttpReply {
    /// The status code.
    pub status: u16,
    /// The status as the HTTP library writes it, such as "429 Too Many
    /// Requests".
    pub status_text: String,
    /// The response body.
    pub body: String,
    /// The `retry-after` header, where it is present and visible ASCII.
    pub retry_after: Option<String>,
}

/// What to do after a reply.
pub enum ReplyAction {
    /// The request succeeded: read the body as the rewrite.
    Accept,
    /// Rate limited: wait `seconds`, then send the request again.
    /// `announced_seconds` is what the service asked for.
    Wait { seconds: u64, announced_seconds: u64, attempt: u32 },
    /// The model requires reasoning: send the request again with low effort.
    RetryWithLowReasoning,
    /// Give up on this model.
    Fail(RewriteError),
}

/// The retries made so far for one model.
pub struct ReplyState {
    pub attempts: u32,
    pub force_low_reasoning: bool,
}

/// The status is a success (2xx).
pub open spec fn is_success(status: u16) -> bool {
    200 <= status <= 299
}

/// The seconds the service asks to wait: the `retry-after` header read as a
/// number, 30 when it is missing or no number.
pub open spec fn announced_wait(retry_after: Option<String>) -> u64 {
    match retry_after {
        Some(h) => match parse_u64_spec(h@) {
            Some(n) => n,
            None => 30,
        },
        None => 30,
    }
}

/// The marker of a refusal that only reasoning models give.
pub open spec fn reasoning_required(reply: HttpReply) -> bool {
    reply.status == 400 && contains_spec(reply.body@, "Reasoning is mandatory"@)
}

/// How many more retries a state allows: each wait uses one of the allowed
/// rate-limit retries, and low reasoning is forced at most once.
pub open spec fn retry_budget(st: ReplyState, retries_allowed: u32) -> int {
    (retries_allowed - st.attempts) + (if st.force_low_reasoning { 0int } else { 1int })
}

impl ReplyState {
    /// No retries made yet.
    pub fn new() -> (r: ReplyState)
        ensures
            r.attempts == 0,
            !r.force_low_reasoning,
    {
        ReplyState { attempts: 0, force_low_reasoning: false }
    }

    /// Decides what to do after `reply`, allowing `retries_allowed` waits
    /// after rate limiting.
    pub fn on_reply(&mut self, retries_allowed: u32, reply: &HttpReply) -> (r: ReplyAction)
        ensures
            is_success(reply.status) ==> r is Accept && *final(self) == *old(self),
            !is_success(reply.status) && reply.status == 429 && old(self).attempts < retries_allowed
                ==> r == (ReplyAction::Wait {
                    seconds: if announced_wait(reply.retry_after) <= 60 {
                        announced_wait(reply.retry_after)
                    } else {
                        60
                    },
                    announced_seconds: announced_wait(reply.retry_after),
                    attempt: (old(self).attempts + 1) as u32,
                }) && final(self).attempts == old(self).attempts + 1
                    && final(self).force_low_reasoning == old(self).force_low_reasoning,
            !is_success(reply.status) && !(reply.status == 429 && old(self).attempts < retries_allowed)
                && reasoning_required(*reply) && !old(self).force_low_reasoning
                ==> r is RetryWithLowReasoning && final(self).force_low_reasoning
                    && final(self).attempts == old(self).attempts,
            !is_success(reply.status) && !(reply.status == 429 && old(self).attempts < retries_allowed)
                && !(reasoning_required(*reply) && !old(self).force_low_reasoning)
                ==> *final(self) == *old(self) && (if reply.status == 402 {
                    r matches ReplyAction::Fail(RewriteError::PaymentRequired { body }) && body@ == reply.body@
                } else {
                    r matches ReplyAction::Fail(RewriteError::RequestFailed { status, body })
                        && status@ == reply.status_text@ && body@ == reply.body@
                }),
            // every wait is at most a minute
            r matches ReplyAction::Wait { seconds, .. } ==> seconds <= 60,
            // a retry uses up part of a budget that nothing refills
            old(self).attempts <= retries_allowed ==> final(self).attempts <= retries_allowed,
            (r is Wait || r is RetryWithLowReasoning) && old(self).attempts <= retries_allowed
                ==> 0 <= retry_budget(*final(self), retries_allowed) < retry_budget(*old(self), retries_allowed),
    {
        if 200 <= reply.status && reply.status <= 299 {
            return ReplyAction::Accept;
        }
        if reply.status == 429 && self.attempts < retries_allowed {
            self.attempts = self.attempts + 1;
            let announced: u64 = match &reply.retry_after {
                Some(h) => match parse_u64(h.as_str()) {
                    Some(n) => n,
                    None => 30,
                },
                None => 30,
            };
            let seconds = if announced <= 60 { announced } else { 60 };
            return ReplyAction::Wait { seconds, announced_seconds: announced, attempt: self.attempts };
        }
        if reply.status == 400 && contains(reply.body.as_str(), "Reasoning is mandatory")
            && !self.force_low_reasoning {
            self.force_low_reasoning = true;
            return ReplyAction::RetryWithLowReasoning;
        }
        if reply.status == 402 {
            return ReplyAction::Fail(RewriteError::PaymentRequired { body: reply.body.clone() });
        }
        ReplyAction::Fail(
            RewriteError::RequestFailed { status: reply.status_text.clone(), body: reply.body.clone() },
        )
    }
}

/// The API key: the one given on the command line, else the one from the
/// environment.
pub fn select_api_key(from_args: Option<String>, from_env: Option<String>) -> (r: Result<String, RewriteError>)
    ensures
        from_args matches Some(k) ==> r == Ok::<String, RewriteError>(k),
        from_args is None ==> (from_env matches Some(k) ==> r == Ok::<String, RewriteError>(k)),
        from_args is None && from_env is None ==> r matches Err(RewriteError::MissingApiKey),
{
    match from_args {
        Some(k) => Ok(k),
        None => match from_env {
            Some(k) => Ok(k),
            None => Err(RewriteError::MissingApiKey),
        },
    }
}


/// The models to try for the first `k` fallbacks are the start of the models
/// to try for all of them: a later fallback never goes before an earlier one.
pub proof fn lemma_candidates_prefix(primary: Seq<char>, fallbacks: Seq<Seq<char>>, k: int)
    requires
        0 <= k <= fallbacks.len(),
    ensures
        candidates_spec(primary, fallbacks.take(k)).len() <= candidates_spec(primary, fallbacks).len(),
        candidates_spec(primary, fallbacks).take(candidates_spec(primary, fallbacks.take(k)).len() as int)
            == candidates_spec(primary, fallbacks.take(k)),
    decreases fallbacks.len(),
{
    let all = candidates_spec(primary, fallbacks);
    if k == fallbacks.len() {
        assert(fallbacks.take(k) =~= fallbacks);
        assert(all.take(all.len() as int) =~= all);
    } else {
        let f = fallbacks.drop_last();
        lemma_candidates_prefix(primary, f, k);
        assert(f.take(k) =~= fallbacks.take(k));
        let prev = candidates_spec(primary, f);
        let small = candidates_spec(primary, fallbacks.take(k));
        assert(prev.take(small.len() as int) == small);
        if !prev.contains(fallbacks.last()) {
            assert(all == prev.push(fallbacks.last()));
            assert(all.take(small.len() as int) =~= prev.take(small.len() as int));
        }
    }
}

/// A fallback that is neither the primary model nor an earlier fallback is
/// tried next, after the models before it.
pub proof fn lemma_candidates_new_appended(primary: Seq<char>, fallbacks: Seq<Seq<char>>, i: int)
    requires
        0 <= i < fallbacks.len(),
        fallbacks[i] != primary,
        !fallbacks.take(i).contains(fallbacks[i]),
    ensures
        candidates_spec(primary, fallbacks.take(i + 1)) == candidates_spec(primary, fallbacks.take(i)).push(
            fallbacks[i],
        ),
{
    let f = fallbacks.take(i + 1);
    assert(f.drop_last() =~= fallbacks.take(i));
    assert(f.last() == fallbacks[i]);
    lemma_candidates(primary, fallbacks.take(i));
}

/// With distinct fallbacks that differ from the primary model, the models to
/// try are the primary one followed by the fallbacks in their given order.
pub proof fn lemma_candidates_distinct(primary: Seq<char>, fallbacks: Seq<Seq<char>>)
    requires
        fallbacks.no_duplicates(),
        !fallbacks.contains(primary),
    ensures
        candidates_spec(primary, fallbacks) == seq![primary] + fallbacks,
    decreases fallbacks.len(),
{
    if fallbacks.len() == 0 {
        assert(seq![primary] + fallbacks =~= seq![primary]);
    } else {
        let f = fallbacks.drop_last();
        assert(f.no_duplicates());
        assert(!f.contains(primary)) by {
            if f.contains(primary) {
                let j = choose|j: int| 0 <= j < f.len() && f[j] == primary;
                assert(fallbacks[j] == primary);
            }
        }
        lemma_candidates_distinct(primary, f);
        let prev = seq![primary] + f;
        let x = fallbacks.last();
        assert(!prev.contains(x)) by {
            if prev.contains(x) {
                let j = choose|j: int| 0 <= j < prev.len() && prev[j] == x;
                if j == 0 {
                    assert(fallbacks[fallbacks.len() - 1] == primary);
                } else {
                    assert(fallbacks[j - 1] == x);
                    assert(fallbacks[j - 1] == fallbacks[fallbacks.len() - 1]);
                }
            }
        }
        assert(prev.push(x) =~= seq![primary] + fallbacks);
    }
}


/// The level names the service expects, as written.
pub proof fn lemma_level_names()
    ensures
        level_name(ReasoningLevel::Off) == "none"@,
        level_name(ReasoningLevel::Low) == "low"@,
        level_name(ReasoningLevel::Medium) == "medium"@,
        level_name(ReasoningLevel::High) == "high"@,
{
}

} // verus!
