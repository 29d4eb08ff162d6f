//! Completion requests and the values that a streamed completion carries.

use vstd::prelude::*;

use crate::float_bits::{
    in_closed, in_open_closed, is_in_closed, is_in_open_closed, HUNDRED_BITS, NEG_HUNDRED_BITS,
    NEG_TWO_BITS, ONE_BITS, TWO_BITS, ZERO_BITS,
};
use crate::IsEngine;

verus! {

/// The completion engines.
#[derive(Clone, Copy, Debug, PartialEq, Eq, Structural)]
pub enum Engine {
    /// GPT-J, 6 billion parameters.
    GPTJ6B,
    /// Boris, GPT-J tuned for French.
    Boris6B,
    /// Fairseq GPT, 13 billion parameters.
    FairseqGPT13B,
    /// GPT-NeoX, 20 billion parameters.
    GPTNeoX20B,
}

/// The identifier of each engine in request paths.
pub open spec fn engine_id(e: Engine) -> Seq<char> {
    match e {
        Engine::GPTJ6B => "gptj_6B"@,
        Engine::Boris6B => "boris_6B"@,
        Engine::FairseqGPT13B => "fairseq_gpt_13B"@,
        Engine::GPTNeoX20B => "gptneox_20B"@,
    }
}

impl Engine {
    /// The identifier of the engine in request paths.
    pub fn id(&self) -> (r: &'static str)
        ensures
            r@ == engine_id(*self),
    {
        match self {
            Engine::GPTJ6B => "gptj_6B",
            Engine::Boris6B => "boris_6B",
            Engine::FairseqGPT13B => "fairseq_gpt_13B",
            Engine::GPTNeoX20B => "gptneox_20B",
        }
    }
}

impl IsEngine for Engine {
    open spec fn path_id(&self) -> Seq<char> {
        engine_id(*self)
    }

    fn is_completion(&self) -> bool {
        true
    }

    fn name(&self) -> &'static str {
        self.id()
    }
}

/// The `text` field as it arrives: a single string or an array of strings.
pub enum TextField {
    Single(String),
    Many(Vec<String>),
}

/// The views of a sequence of strings.
pub open spec fn strings_view(v: Seq<String>) -> Seq<Seq<char>> {
    v.map_values(|s: String| s@)
}

/// The texts that a `text` field holds, in the array form.
pub open spec fn text_items(t: TextField) -> Seq<Seq<char>> {
    match t {
        TextField::Single(s) => seq![s@],
        TextField::Many(v) => strings_view(v@),
    }
}

/// Brings a `text` field to the array form.
pub fn normalize_text(t: TextField) -> (r: Vec<String>)
    ensures
        strings_view(r@) == text_items(t),
{
    match t {
        TextField::Single(s) => {
            let r = vec![s];
            assert(strings_view(r@) =~= text_items(t));
            r
        },
        TextField::Many(v) => v,
    }
}

/// A bare string and a one-element array holding it normalize alike.
pub proof fn lemma_scalar_and_array_agree(s: String, v: Vec<String>)
    requires
        v@.len() == 1,
        v@[0]@ == s@,
    ensures
        text_items(TextField::Single(s)) == text_items(TextField::Many(v)),
{
    assert(text_items(TextField::Single(s)) =~= text_items(TextField::Many(v)));
}

/// One decoded value of a completion stream.
#[derive(Debug)]
pub struct ResponseChunk {
    /// The completed texts.
    pub text: Vec<String>,
    /// This is the last answer.
    pub reached_end: bool,
    /// The prompt was truncated because it was too large.
    pub truncated_prompt: Option<bool>,
    /// Number of input tokens.
    pub input_tokens: Option<u32>,
    /// Total number of generated tokens.
    pub output_tokens: Option<u32>,
}

impl ResponseChunk {
    /// Builds a chunk from its wire fields, with `text` normalized.
    pub fn from_wire(
        text: TextField,
        reached_end: bool,
        truncated_prompt: Option<bool>,
        input_tokens: Option<u32>,
        output_tokens: Option<u32>,
    ) -> (r: ResponseChunk)
        ensures
            strings_view(r.text@) == text_items(text),
            r.reached_end == reached_end,
            r.truncated_prompt == truncated_prompt,
            r.input_tokens == input_tokens,
            r.output_tokens == output_tokens,
    {
        ResponseChunk {
            text: normalize_text(text),
            reached_end,
            truncated_prompt,
            input_tokens,
            output_tokens,
        }
    }
}


/// A request parameter that validation can reject.
#[derive(Clone, Copy, Debug, PartialEq, Eq, Structural)]
pub enum Field {
    Prompt,
    Stop,
    N,
    TopK,
    TopP,
    LogitBias,
    PresencePenalty,
    FrequencyPenalty,
    TypicalP,
}

/// Why a request could not be built.
#[derive(Debug)]
pub enum BuildError {
    /// A required field was never set.
    UninitializedField(Field),
    /// These set fields are out of their documented ranges, in field order.
    ValidationError(Vec<Field>),
}

/// A completion request, assembled field by field and validated as a whole
/// by `build`. Floating-point parameters are IEEE-754 bit patterns
/// (`f64::to_bits`).
#[derive(Debug)]
pub struct RequestBuilder {
    pub prompt: Option<String>,
    pub max_tokens: Option<u32>,
    pub stream: Option<bool>,
    pub stop: Option<Vec<String>>,
    pub n: Option<u32>,
    pub temperature: Option<u64>,
    pub top_k: Option<u32>,
    pub top_p: Option<u64>,
    pub logit_bias: Option<Vec<(String, u64)>>,
    pub presence_penalty: Option<u64>,
    pub frequency_penalty: Option<u64>,
    pub repetition_penalty: Option<u64>,
    pub typical_p: Option<u64>,
}

/// A validated completion request.
#[derive(Debug)]
pub struct Request {
    /// The text to complete; it is not repeated in the output.
    pub prompt: String,
    /// Maximum number of tokens to generate.
    pub max_tokens: Option<u32>,
    /// Stream the output as several JSON answers.
    pub stream: Option<bool>,
    /// Stop when one of these strings is generated; at most 5.
    pub stop: Option<Vec<String>>,
    /// Number of completions, 1 to 16.
    pub n: Option<u32>,
    /// Sampling temperature (bits).
    pub temperature: Option<u64>,
    /// Pick among the `top_k` likeliest tokens, 1 to 1000.
    pub top_k: Option<u32>,
    /// Nucleus sampling threshold in [0, 1] (bits).
    pub top_p: Option<u64>,
    /// Bias per token index, each in [-100, 100] (bits).
    pub logit_bias: Option<Vec<(String, u64)>>,
    /// Presence penalty in [-2, 2] (bits).
    pub presence_penalty: Option<u64>,
    /// Frequency penalty in [-2, 2] (bits).
    pub frequency_penalty: Option<u64>,
    /// Repetition penalty (bits).
    pub repetition_penalty: Option<u64>,
    /// Typical sampling threshold in (0, 1] (bits).
    pub typical_p: Option<u64>,
}

/// An optional integer is unset or within `[lo, hi]`.
pub open spec fn opt_u32_within(v: Option<u32>, lo: u32, hi: u32) -> bool {
    match v {
        Some(x) => lo <= x && x <= hi,
        None => true,
    }
}

/// An optional float is unset or within `[lo, hi]`.
pub open spec fn opt_f64_closed(v: Option<u64>, lo: u64, hi: u64) -> bool {
    match v {
        Some(x) => in_closed(x, lo, hi),
        None => true,
    }
}

/// An optional float is unset or within `(lo, hi]`.
pub open spec fn opt_f64_open_closed(v: Option<u64>, lo: u64, hi: u64) -> bool {
    match v {
        Some(x) => in_open_closed(x, lo, hi),
        None => true,
    }
}

/// `f` when `bad` holds, nothing otherwise.
pub open spec fn flag(bad: bool, f: Field) -> Seq<Field> {
    if bad {
        seq![f]
    } else {
        Seq::empty()
    }
}

/// Every field of `b` that is out of range, in field order.
pub open spec fn violations(b: RequestBuilder) -> Seq<Field> {
    flag(b.stop matches Some(v) && v@.len() > 5, Field::Stop)
        + flag(!opt_u32_within(b.n, 1, 16), Field::N)
        + flag(!opt_u32_within(b.top_k, 1, 1000), Field::TopK)
        + flag(!opt_f64_closed(b.top_p, ZERO_BITS, ONE_BITS), Field::TopP)
        + flag(b.logit_bias matches Some(m) && !biases_within(m@), Field::LogitBias)
        + flag(!opt_f64_closed(b.presence_penalty, NEG_TWO_BITS, TWO_BITS), Field::PresencePenalty)
        + flag(!opt_f64_closed(b.frequency_penalty, NEG_TWO_BITS, TWO_BITS), Field::FrequencyPenalty)
        + flag(!opt_f64_open_closed(b.typical_p, ZERO_BITS, ONE_BITS), Field::TypicalP)
}

/// Every bias lies in [-100, 100].
pub open spec fn biases_within(m: Seq<(String, u64)>) -> bool {
    forall|i: int| 0 <= i < m.len() ==> in_closed(#[trigger] m[i].1, NEG_HUNDRED_BITS, HUNDRED_BITS)
}

fn all_biases_within(m: &Vec<(String, u64)>) -> (r: bool)
    ensures
        r == biases_within(m@),
{
    let mut i: usize = 0;
    while i < m.len()
        invariant
            i <= m@.len(),
            forall|j: int| 0 <= j < i ==> in_closed(#[trigger] m@[j].1, NEG_HUNDRED_BITS, HUNDRED_BITS),
        decreases m@.len() - i,
    {
        if !is_in_closed(m[i].1, NEG_HUNDRED_BITS, HUNDRED_BITS) {
            return false;
        }
        i = i + 1;
    }
    true
}

fn u32_within(v: Option<u32>, lo: u32, hi: u32) -> (r: bool)
    ensures
        r == opt_u32_within(v, lo, hi),
{
    match v {
        Some(x) => lo <= x && x <= hi,
        None => true,
    }
}

fn f64_closed(v: Option<u64>, lo: u64, hi: u64) -> (r: bool)
    ensures
        r == opt_f64_closed(v, lo, hi),
{
    match v {
        Some(x) => is_in_closed(x, lo, hi),
        None => true,
    }
}

fn f64_open_closed(v: Option<u64>, lo: u64, hi: u64) -> (r: bool)
    ensures
        r == opt_f64_open_closed(v, lo, hi),
{
    match v {
        Some(x) => is_in_open_closed(x, lo, hi),
        None => true,
    }
}

/// Appends `f` to `out` when `bad` holds.
fn push_if(out: &mut Vec<Field>, bad: bool, f: Field)
    ensures
        final(out)@ == old(out)@ + flag(bad, f),
{
    if bad {
        out.push(f);
    }
    assert(final(out)@ =~= old(out)@ + flag(bad, f));
}

impl RequestBuilder {
    /// A builder with no field set.
    pub fn new() -> (r: RequestBuilder)
        ensures
            r.prompt is None && r.max_tokens is None && r.stream is None && r.stop is None,
            r.n is None && r.temperature is None && r.top_k is None && r.top_p is None,
            r.logit_bias is None && r.presence_penalty is None,
            r.frequency_penalty is None && r.repetition_penalty is None && r.typical_p is None,
    {
        RequestBuilder {
            prompt: None,
            max_tokens: None,
            stream: None,
            stop: None,
            n: None,
            temperature: None,
            top_k: None,
            top_p: None,
            logit_bias: None,
            presence_penalty: None,
            frequency_penalty: None,
            repetition_penalty: None,
            typical_p: None,
        }
    }

    /// Checks every set field against its documented range: at most 5
    /// `stop` strings, `n` in 1..=16, `top_k` in 1..=1000, `top_p` in
    /// [0, 1], each logit bias in [-100, 100], both penalties in [-2, 2] and
    /// `typical_p` in (0, 1]. All violations are reported, in field order.
    pub fn validate(&self) -> (r: Result<(), BuildError>)
        ensures
            r is Ok <==> violations(*self).len() == 0,
            r is Err ==> (r matches Err(BuildError::ValidationError(fs)) && fs@ == violations(*self)),
    {
        let mut bad: Vec<Field> = Vec::new();
        let stop_bad = match &self.stop {
            Some(v) => v.len() > 5,
            None => false,
        };
        push_if(&mut bad, stop_bad, Field::Stop);
        push_if(&mut bad, !u32_within(self.n, 1, 16), Field::N);
        push_if(&mut bad, !u32_within(self.top_k, 1, 1000), Field::TopK);
        push_if(&mut bad, !f64_closed(self.top_p, ZERO_BITS, ONE_BITS), Field::TopP);
        let bias_bad = match &self.logit_bias {
            Some(m) => !all_biases_within(m),
            None => false,
        };
        push_if(&mut bad, bias_bad, Field::LogitBias);
        push_if(&mut bad, !f64_closed(self.presence_penalty, NEG_TWO_BITS, TWO_BITS), Field::PresencePenalty);
        push_if(&mut bad, !f64_closed(self.frequency_penalty, NEG_TWO_BITS, TWO_BITS), Field::FrequencyPenalty);
        push_if(&mut bad, !f64_open_closed(self.typical_p, ZERO_BITS, ONE_BITS), Field::TypicalP);
        assert(bad@ =~= violations(*self));
        if bad.len() == 0 {
            Ok(())
        } else {
            Err(BuildError::ValidationError(bad))
        }
    }

    /// Validates, then requires `prompt`; on success the request carries
    /// the builder's fields unchanged.
    pub fn build(self) -> (r: Result<Request, BuildError>)
        ensures
            violations(self).len() > 0 ==> (r matches Err(BuildError::ValidationError(fs)) && fs@ == violations(self)),
            violations(self).len() == 0 && self.prompt is None ==> (r matches Err(BuildError::UninitializedField(f)) && f == Field::Prompt),
            r is Ok <==> violations(self).len() == 0 && self.prompt is Some,
            r matches Ok(q) ==> (Some(q.prompt) == self.prompt && q.max_tokens == self.max_tokens
                && q.stream == self.stream && q.stop == self.stop && q.n == self.n
                && q.temperature == self.temperature && q.top_k == self.top_k && q.top_p == self.top_p
                && q.logit_bias == self.logit_bias && q.presence_penalty == self.presence_penalty
                && q.frequency_penalty == self.frequency_penalty
                && q.repetition_penalty == self.repetition_penalty && q.typical_p == self.typical_p),
    {
        match self.validate() {
            Err(e) => Err(e),
            Ok(()) => match self.prompt {
                None => Err(BuildError::UninitializedField(Field::Prompt)),
                Some(prompt) => Ok(Request {
                    prompt,
                    max_tokens: self.max_tokens,
                    stream: self.stream,
                    stop: self.stop,
                    n: self.n,
                    temperature: self.temperature,
                    top_k: self.top_k,
                    top_p: self.top_p,
                    logit_bias: self.logit_bias,
                    presence_penalty: self.presence_penalty,
                    frequency_penalty: self.frequency_penalty,
                    repetition_penalty: self.repetition_penalty,
                    typical_p: self.typical_p,
                }),
            },
        }
    }
}

impl RequestBuilder {
    /// Sets `prompt`.
    pub fn prompt(self, v: String) -> (r: RequestBuilder)
        ensures
            r == (RequestBuilder { prompt: Some(v), ..self }),
    {
        RequestBuilder { prompt: Some(v), ..self }
    }

    /// Sets `max_tokens`.
    pub fn max_tokens(self, v: u32) -> (r: RequestBuilder)
        ensures
            r == (RequestBuilder { max_tokens: Some(v), ..self }),
    {
        RequestBuilder { max_tokens: Some(v), ..self }
    }

    /// Sets `stream`.
    pub fn stream(self, v: bool) -> (r: RequestBuilder)
        ensures
            r == (RequestBuilder { stream: Some(v), ..self }),
    {
        RequestBuilder { stream: Some(v), ..self }
    }

    /// Sets `stop`.
    pub fn stop(self, v: Vec<String>) -> (r: RequestBuilder)
        ensures
            r == (RequestBuilder { stop: Some(v), ..self }),
    {
        RequestBuilder { stop: Some(v), ..self }
    }

    /// Sets `n`.
    pub fn n(self, v: u32) -> (r: RequestBuilder)
        ensures
            r == (RequestBuilder { n: Some(v), ..self }),
    {
        RequestBuilder { n: Some(v), ..self }
    }

    /// Sets `temperature` (IEEE-754 bits).
    pub fn temperature(self, v: u64) -> (r: RequestBuilder)
        ensures
            r == (RequestBuilder { temperature: Some(v), ..self }),
    {
        RequestBuilder { temperature: Some(v), ..self }
    }

    /// Sets `top_k`.
    pub fn top_k(self, v: u32) -> (r: RequestBuilder)
        ensures
            r == (RequestBuilder { top_k: Some(v), ..self }),
    {
        RequestBuilder { top_k: Some(v), ..self }
    }

    /// Sets `top_p` (IEEE-754 bits).
    pub fn top_p(self, v: u64) -> (r: RequestBuilder)
        ensures
            r == (RequestBuilder { top_p: Some(v), ..self }),
    {
        RequestBuilder { top_p: Some(v), ..self }
    }

    /// Sets `logit_bias` (biases as IEEE-754 bits).
    pub fn logit_bias(self, v: Vec<(String, u64)>) -> (r: RequestBuilder)
        ensures
            r == (RequestBuilder { logit_bias: Some(v), ..self }),
    {
        RequestBuilder { logit_bias: Some(v), ..self }
    }

    /// Sets `presence_penalty` (IEEE-754 bits).
    pub fn presence_penalty(self, v: u64) -> (r: RequestBuilder)
        ensures
            r == (RequestBuilder { presence_penalty: Some(v), ..self }),
    {
        RequestBuilder { presence_penalty: Some(v), ..self }
    }

    /// Sets `frequency_penalty` (IEEE-754 bits).
    pub fn frequency_penalty(self, v: u64) -> (r: RequestBuilder)
        ensures
            r == (RequestBuilder { frequency_penalty: Some(v), ..self }),
    {
        RequestBuilder { frequency_penalty: Some(v), ..self }
    }

    /// Sets `repetition_penalty` (IEEE-754 bits).
    pub fn repetition_penalty(self, v: u64) -> (r: RequestBuilder)
        ensures
            r == (RequestBuilder { repetition_penalty: Some(v), ..self }),
    {
        RequestBuilder { repetition_penalty: Some(v), ..self }
    }

    /// Sets `typical_p` (IEEE-754 bits).
    pub fn typical_p(self, v: u64) -> (r: RequestBuilder)
        ensures
            r == (RequestBuilder { typical_p: Some(v), ..self }),
    {
        RequestBuilder { typical_p: Some(v), ..self }
    }
}

impl Default for RequestBuilder {
    fn default() -> (r: RequestBuilder)
        ensures
            r.prompt is None && r.max_tokens is None && r.stream is None && r.stop is None,
            r.n is None && r.temperature is None && r.top_k is None && r.top_p is None,
            r.logit_bias is None && r.presence_penalty is None,
            r.frequency_penalty is None && r.repetition_penalty is None && r.typical_p is None,
    {
        RequestBuilder::new()
    }
}

} // verus!
