//! Errors of kernel generation.

use vstd::prelude::*;

verus! {

/// Why a kernel could not be generated.
#[derive(Debug)]
pub enum CodegenError {
    UnsupportedKernelBody(String),
    NonTensorReturnType(String),
    NonTensorParamType(String),
}

/// Model of [`CodegenError`].
pub enum Fail {
    UnsupportedKernelBody(Seq<char>),
    NonTensorReturnType(Seq<char>),
    NonTensorParamType(Seq<char>),
}

impl View for CodegenError {
    type V = Fail;

    open spec fn view(&self) -> Fail {
        match self {
            CodegenError::UnsupportedKernelBody(s) => Fail::UnsupportedKernelBody(s@),
            CodegenError::NonTensorReturnType(s) => Fail::NonTensorReturnType(s@),
            CodegenError::NonTensorParamType(s) => Fail::NonTensorParamType(s@),
        }
    }
}

impl Fail {
    /// The message shown to the user.
    pub open spec fn text(self) -> Seq<char> {
        match self {
            Fail::UnsupportedKernelBody(s) => "unsupported kernel body: "@ + s,
            Fail::NonTensorReturnType(s) => "kernel must return a tensor, got: "@ + s,
            Fail::NonTensorParamType(s) => "kernel param must be a tensor, got: "@ + s,
        }
    }
}

impl CodegenError {
    /// Renders the error for the user.
    pub fn render(&self) -> (r: String)
        ensures
            r@ == self@.text(),
    {
        match self {
            CodegenError::UnsupportedKernelBody(s) => "unsupported kernel body: ".to_string().concat(
                s.as_str(),
            ),
            CodegenError::NonTensorReturnType(s) => {
                "kernel must return a tensor, got: ".to_string().concat(s.as_str())
            },
            CodegenError::NonTensorParamType(s) => {
                "kernel param must be a tensor, got: ".to_string().concat(s.as_str())
            },
        }
    }
}

/// Whether a text was produced as a model says.
pub open spec fn produces(r: Result<String, CodegenError>, goal: Result<Seq<char>, Fail>) -> bool {
    match r {
        Ok(s) => goal == Ok::<Seq<char>, Fail>(s@),
        Err(e) => goal == Err::<Seq<char>, Fail>(e@),
    }
}

/// Builds an error from one piece of text.
pub(crate) fn bad_body(msg: &str) -> (r: CodegenError)
    ensures
        r@ == Fail::UnsupportedKernelBody(msg@),
{
    CodegenError::UnsupportedKernelBody(msg.to_string())
}

/// Builds an error from two pieces of text.
pub(crate) fn bad_body_at(head: &str, tail: &str) -> (r: CodegenError)
    ensures
        r@ == Fail::UnsupportedKernelBody(head@ + tail@),
{
    CodegenError::UnsupportedKernelBody(head.to_string().concat(tail))
}

} // verus!
