//! Code generation failures.

use vstd::prelude::*;

verus! {

/// A failure that aborts code generation.
#[derive(Debug, PartialEq, Eq)]
pub enum CodegenError {
    /// A `defined` type names no declared typedef.
    UnresolvedReference { referrer: String, name: String },
    /// A primitive type name is not in the primitive table.
    UnknownPrimitive { referrer: String, name: String },
    /// Two instructions carry the same discriminant.
    DuplicateDiscriminant { first: String, second: String },
    /// An instruction carries no discriminant.
    MissingDiscriminant { instruction: String },
    /// An instruction's discriminant is neither one nor eight bytes wide, or
    /// not as wide as the first instruction's.
    DiscriminantWidth { instruction: String },
}

/// What a [`CodegenError`] says, over mathematical values.
pub ghost enum CodegenFault {
    UnresolvedReference { referrer: Seq<char>, name: Seq<char> },
    UnknownPrimitive { referrer: Seq<char>, name: Seq<char> },
    DuplicateDiscriminant { first: Seq<char>, second: Seq<char> },
    MissingDiscriminant { instruction: Seq<char> },
    DiscriminantWidth { instruction: Seq<char> },
}

impl View for CodegenError {
    type V = CodegenFault;

    open spec fn view(&self) -> CodegenFault {
        match self {
            CodegenError::UnresolvedReference { referrer, name } => CodegenFault::UnresolvedReference {
                referrer: referrer@,
                name: name@,
            },
            CodegenError::UnknownPrimitive { referrer, name } => CodegenFault::UnknownPrimitive {
                referrer: referrer@,
                name: name@,
            },
            CodegenError::DuplicateDiscriminant { first, second } => CodegenFault::DuplicateDiscriminant {
                first: first@,
                second: second@,
            },
            CodegenError::MissingDiscriminant { instruction } => CodegenFault::MissingDiscriminant {
                instruction: instruction@,
            },
            CodegenError::DiscriminantWidth { instruction } => CodegenFault::DiscriminantWidth {
                instruction: instruction@,
            },
        }
    }
}

/// The view of a text-producing result.
pub open spec fn text_result(r: Result<String, CodegenError>) -> Result<Seq<char>, CodegenFault> {
    match r {
        Ok(s) => Ok(s@),
        Err(e) => Err(e@),
    }
}

} // verus!
