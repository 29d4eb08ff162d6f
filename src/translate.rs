//! Translation requests and answers.

use vstd::prelude::*;
use vstd::string::StringExecFns;

use crate::IsEngine;

verus! {

/// The translation engines.
#[derive(Clone, Copy, Debug, PartialEq, Eq, Structural)]
pub enum Engine {
    /// M2M100, 1.2 billion parameters, 100 languages.
    M2M10012B,
}

/// The identifier of each engine in request paths.
pub open spec fn engine_id(e: Engine) -> Seq<char> {
    match e {
        Engine::M2M10012B => "m2m100_1_2B"@,
    }
}

impl Engine {
    /// The identifier of the engine in request paths.
    pub fn id(&self) -> (r: &'static str)
        ensures
            r@ == engine_id(*self),
    {
        match self {
            Engine::M2M10012B => "m2m100_1_2B",
        }
    }
}

impl IsEngine for Engine {
    open spec fn path_id(&self) -> Seq<char> {
        engine_id(*self)
    }

    fn is_translation(&self) -> bool {
        true
    }

    fn name(&self) -> &'static str {
        self.id()
    }
}

/// A request parameter that validation can reject.
#[derive(Clone, Copy, Debug, PartialEq, Eq, Structural)]
pub enum Field {
    Text,
    SourceLang,
    TargetLang,
    NumBeams,
}

/// Why a request could not be built.
#[derive(Debug)]
pub enum BuildError {
    /// A required field was never set.
    UninitializedField(Field),
    /// These set fields are out of their documented ranges, in field order.
    ValidationError(Vec<Field>),
}

/// A translation request, assembled field by field and validated by `build`.
#[derive(Debug)]
pub struct RequestBuilder {
    pub text: Option<Vec<String>>,
    pub source_lang: Option<String>,
    pub target_lang: Option<String>,
    pub num_beams: Option<u32>,
    pub split_sentences: Option<bool>,
}

/// A validated translation request.
#[derive(Debug)]
pub struct Request {
    /// Independent texts to translate, 1 to 64 of them.
    pub text: Vec<String>,
    /// ISO code of the source language (2 or 3 bytes), or "auto".
    pub source_lang: String,
    /// ISO code of the target language (2 or 3 bytes).
    pub target_lang: String,
    /// Number of beams, 1 to 5.
    pub num_beams: Option<u32>,
    /// Split each text into sentences first.
    pub split_sentences: Option<bool>,
}

/// One translated text.
#[derive(Debug)]
pub struct Translation {
    /// The translated text.
    pub text: String,
    /// ISO code of the detected source language.
    pub detected_source_lang: String,
}

/// A translation answer.
#[derive(Debug)]
pub struct Response {
    /// One translation per input text.
    pub translations: Vec<Translation>,
    /// Total number of input tokens.
    pub input_tokens: u32,
    /// Total number of generated tokens.
    pub output_tokens: u32,
}

/// Length in bytes of the UTF-8 encoding of `s`.
pub open spec fn byte_len(s: Seq<char>) -> nat {
    vstd::utf8::encode_utf8(s).len()
}

/// A language code of two or three bytes.
pub open spec fn is_lang_code(s: Seq<char>) -> bool {
    byte_len(s) == 2 || byte_len(s) == 3
}

/// `f` when `bad` holds, nothing otherwise.
pub open spec fn flag(bad: bool, f: Field) -> Seq<Field> {
    if bad {
        seq![f]
    } else {
        Seq::empty()
    }
}

/// Every set field of `b` that is out of range, in field order.
pub open spec fn violations(b: RequestBuilder) -> Seq<Field> {
    flag(b.text matches Some(t) && !(1 <= t@.len() <= 64), Field::Text)
        + flag(b.source_lang matches Some(s) && !(is_lang_code(s@) || s@ == "auto"@), Field::SourceLang)
        + flag(b.target_lang matches Some(s) && !is_lang_code(s@), Field::TargetLang)
        + flag(b.num_beams matches Some(k) && !(1 <= k <= 5), Field::NumBeams)
}

fn push_if(out: &mut Vec<Field>, bad: bool, f: Field)
    ensures
        final(out)@ == old(out)@ + flag(bad, f),
{
    if bad {
        out.push(f);
    }
    assert(final(out)@ =~= old(out)@ + flag(bad, f));
}

fn lang_code(s: &String) -> (r: bool)
    ensures
        r == is_lang_code(s@),
{
    let n = s.as_str().as_bytes().len();
    n == 2 || n == 3
}

impl RequestBuilder {
    /// A builder with no field set.
    pub fn new() -> (r: RequestBuilder)
        ensures
            r.text is None && r.source_lang is None && r.target_lang is None,
            r.num_beams is None && r.split_sentences is None,
    {
        RequestBuilder { text: None, source_lang: None, target_lang: None, num_beams: None, split_sentences: None }
    }

    /// Checks every set field: 1 to 64 texts, a source language code of two
    /// or three bytes or "auto", a target language code of two or three
    /// bytes, and 1 to 5 beams. All violations are reported, in field order.
    pub fn validate(&self) -> (r: Result<(), BuildError>)
        ensures
            r is Ok <==> violations(*self).len() == 0,
            r is Err ==> (r matches Err(BuildError::ValidationError(fs)) && fs@ == violations(*self)),
    {
        let mut bad: Vec<Field> = Vec::new();
        let text_bad = match &self.text {
            Some(t) => !(1 <= t.len() && t.len() <= 64),
            None => false,
        };
        push_if(&mut bad, text_bad, Field::Text);
        let auto = String::from_str("auto");
        let source_bad = match &self.source_lang {
            Some(s) => !(lang_code(s) || *s == auto),
            None => false,
        };
        push_if(&mut bad, source_bad, Field::SourceLang);
        let target_bad = match &self.target_lang {
            Some(s) => !lang_code(s),
            None => false,
        };
        push_if(&mut bad, target_bad, Field::TargetLang);
        let beams_bad = match self.num_beams {
            Some(k) => !(1 <= k && k <= 5),
            None => false,
        };
        push_if(&mut bad, beams_bad, Field::NumBeams);
        assert(bad@ =~= violations(*self));
        if bad.len() == 0 {
            Ok(())
        } else {
            Err(BuildError::ValidationError(bad))
        }
    }

    /// Validates, then requires `text`, `source_lang` and `target_lang`, in
    /// that order; on success the request carries the builder's fields.
    pub fn build(self) -> (r: Result<Request, BuildError>)
        ensures
            violations(self).len() > 0 ==> (r matches Err(BuildError::ValidationError(fs)) && fs@ == violations(self)),
            violations(self).len() == 0 && self.text is None ==> (r matches Err(BuildError::UninitializedField(f)) && f == Field::Text),
            violations(self).len() == 0 && self.text is Some && self.source_lang is None ==> (r matches Err(BuildError::UninitializedField(f)) && f == Field::SourceLang),
            violations(self).len() == 0 && self.text is Some && self.source_lang is Some && self.target_lang is None ==> (r matches Err(BuildError::UninitializedField(f)) && f == Field::TargetLang),
            r is Ok <==> violations(self).len() == 0 && self.text is Some && self.source_lang is Some && self.target_lang is Some,
            r matches Ok(q) ==> (Some(q.text) == self.text && Some(q.source_lang) == self.source_lang
                && Some(q.target_lang) == self.target_lang && q.num_beams == self.num_beams
                && q.split_sentences == self.split_sentences),
    {
        match self.validate() {
            Err(e) => Err(e),
            Ok(()) => match (self.text, self.source_lang, self.target_lang) {
                (None, _, _) => Err(BuildError::UninitializedField(Field::Text)),
                (Some(_), None, _) => Err(BuildError::UninitializedField(Field::SourceLang)),
                (Some(_), Some(_), None) => Err(BuildError::UninitializedField(Field::TargetLang)),
                (Some(text), Some(source_lang), Some(target_lang)) => Ok(Request {
                    text,
                    source_lang,
                    target_lang,
                    num_beams: self.num_beams,
                    split_sentences: self.split_sentences,
                }),
            },
        }
    }
}

impl RequestBuilder {
    /// Sets `text`.
    pub fn text(self, v: Vec<String>) -> (r: RequestBuilder)
        ensures
            r == (RequestBuilder { text: Some(v), ..self }),
    {
        RequestBuilder { text: Some(v), ..self }
    }

    /// Sets `source_lang`.
    pub fn source_lang(self, v: String) -> (r: RequestBuilder)
        ensures
            r == (RequestBuilder { source_lang: Some(v), ..self }),
    {
        RequestBuilder { source_lang: Some(v), ..self }
    }

    /// Sets `target_lang`.
    pub fn target_lang(self, v: String) -> (r: RequestBuilder)
        ensures
            r == (RequestBuilder { target_lang: Some(v), ..self }),
    {
        RequestBuilder { target_lang: Some(v), ..self }
    }

    /// Sets `num_beams`.
    pub fn num_beams(self, v: u32) -> (r: RequestBuilder)
        ensures
            r == (RequestBuilder { num_beams: Some(v), ..self }),
    {
        RequestBuilder { num_beams: Some(v), ..self }
    }

    /// Sets `split_sentences`.
    pub fn split_sentences(self, v: bool) -> (r: RequestBuilder)
        ensures
            r == (RequestBuilder { split_sentences: Some(v), ..self }),
    {
        RequestBuilder { split_sentences: Some(v), ..self }
    }
}

impl Default for RequestBuilder {
    fn default() -> (r: RequestBuilder)
        ensures
            r.text is None && r.source_lang is None && r.target_lang is None,
            r.num_beams is None && r.split_sentences is None,
    {
        RequestBuilder::new()
    }
}

} // verus!
