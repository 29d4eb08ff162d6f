//! Tokenization requests and answers.

use vstd::prelude::*;

verus! {

/// A tokenization request.
#[derive(Debug)]
pub struct Request {
    /// The text to tokenize.
    pub text: String,
}

/// A tokenization answer.
#[derive(Debug)]
pub struct Response {
    /// Token indexes of the input text.
    pub tokens: Vec<u32>,
}

impl Request {
    /// A request for `text`.
    pub fn new(text: String) -> (r: Request)
        ensures
            r.text == text,
    {
        Request { text }
    }
}

/// Why a request could not be built.
#[derive(Debug, PartialEq, Eq, Structural)]
pub enum BuildError {
    /// `text` was never set.
    UninitializedText,
}

/// A tokenization request, assembled field by field.
#[derive(Debug)]
pub struct RequestBuilder {
    pub text: Option<String>,
}

impl RequestBuilder {
    /// A builder with no field set.
    pub fn new() -> (r: RequestBuilder)
        ensures
            r.text is None,
    {
        RequestBuilder { text: None }
    }

    /// Sets `text`.
    pub fn text(self, v: String) -> (r: RequestBuilder)
        ensures
            r.text == Some(v),
    {
        RequestBuilder { text: Some(v) }
    }

    /// The request, once `text` is set.
    pub fn build(self) -> (r: Result<Request, BuildError>)
        ensures
            r is Err <==> self.text is None,
            r matches Ok(q) ==> Some(q.text) == self.text,
    {
        match self.text {
            Some(text) => Ok(Request { text }),
            None => Err(BuildError::UninitializedText),
        }
    }
}

impl Default for RequestBuilder {
    fn default() -> (r: RequestBuilder)
        ensures
            r.text is None,
    {
        RequestBuilder::new()
    }
}

} // verus!
