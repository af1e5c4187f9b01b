//! What can go wrong on the way from a graph to a kernel.

use vstd::prelude::*;
use vstd::string::*;

use crate::ir::dtype::IrError;

verus! {

#[derive(Debug)]
pub enum CodegenError {
    Ir(IrError),
    Msg(String),
}

/// An error as a mathematical value.
#[verifier::ext_equal]
pub ghost enum ErrorV {
    Ir(IrError),
    Msg(Seq<char>),
}

impl View for CodegenError {
    type V = ErrorV;

    open spec fn view(&self) -> ErrorV {
        match *self {
            CodegenError::Ir(e) => ErrorV::Ir(e),
            CodegenError::Msg(m) => ErrorV::Msg(m@),
        }
    }
}

impl CodegenError {
    /// The text of the error.
    pub fn message(&self) -> (r: String)
        ensures
            r@ == (match self@ {
                ErrorV::Ir(IrError::BadTensorId) => "bad tensor id"@,
                ErrorV::Ir(IrError::ShapeMismatch) => "shape / dtype mismatch"@,
                ErrorV::Ir(IrError::BadAxis) => "bad reduce axis"@,
                ErrorV::Msg(m) => m,
            }),
    {
        match self {
            CodegenError::Ir(e) => String::from_str(e.message()),
            CodegenError::Msg(m) => m.clone(),
        }
    }
}

/// An error that carries a fixed message.
pub fn msg(text: &str) -> (r: CodegenError)
    ensures
        r@ == ErrorV::Msg(text@),
{
    CodegenError::Msg(String::from_str(text))
}

/// A message error as a mathematical value.
pub open spec fn msg_v(text: &str) -> ErrorV {
    ErrorV::Msg(text@)
}

} // verus!
