//! What can be wrong with the declarations of a module.

use proc_macro2::Span;
use vstd::prelude::*;
use vstd::string::*;
use crate::parse::{AbiName, ForeignItemType};

verus! {

/// One thing that is wrong with a module's declarations.
#[derive(Debug)]
#[allow(inconsistent_fields)]
pub enum ParseError {
    /// A block has no language tag: `extern {}`.
    AbiNameMissing { extern_token: Span },
    /// A block's tag is neither `Rust` nor `Swift`.
    AbiNameInvalid { abi_name: AbiName },
    /// A type is declared under the name of a built-in type.
    DeclaredBuiltInType { ty: ForeignItemType },
    /// A function takes `self` without a type in a block that does not
    /// declare exactly one type.
    AmbiguousSelf { self_: Span },
    /// A parameter or a result names a type that nothing declares.
    UndeclaredType { ty: String, span: Span },
    /// A function is tied to a type that is not declared: by its attribute,
    /// or by the type of its `self`.
    AssociatedTypeNotFound { ty: String, span: Span },
    /// An initializer has no result to take its type from.
    InitializerWithoutReturnType { func: Span },
    /// An initializer returns something that is known and is no declared
    /// type by its path: a built-in type, or a reference or a pointer.
    InitializerReturnsNoDeclaredType { ty: String, span: Span },
}

/// The diagnostics of one pass over a module, in the order in which they
/// were found. Nothing is ever taken out.
#[derive(Debug)]
pub struct ParseErrors {
    errors: Vec<ParseError>,
}

impl View for ParseErrors {
    type V = Seq<ParseError>;

    closed spec fn view(&self) -> Seq<ParseError> {
        self.errors@
    }
}

impl ParseErrors {
    pub fn new() -> (errors: ParseErrors)
        ensures
            errors@ == Seq::<ParseError>::empty(),
    {
        ParseErrors { errors: Vec::new() }
    }

    /// Adds a diagnostic behind those found so far.
    pub fn push(&mut self, error: ParseError)
        ensures
            final(self)@ == old(self)@.push(error),
    {
        self.errors.push(error);
    }

    pub fn len(&self) -> (n: usize)
        ensures
            n == self@.len(),
    {
        self.errors.len()
    }

    pub fn is_empty(&self) -> (empty: bool)
        ensures
            empty == (self@.len() == 0),
    {
        self.errors.len() == 0
    }

    /// The diagnostic found as number `at`, counted from 0.
    pub fn get(&self, at: usize) -> (found: Option<&ParseError>)
        ensures
            found == if at < self@.len() {
                Some(&self@[at as int])
            } else {
                None
            },
    {
        if at < self.errors.len() {
            Some(&self.errors[at])
        } else {
            None
        }
    }

    /// Hands out the diagnostics in the order in which they were found.
    pub fn into_vec(self) -> (all: Vec<ParseError>)
        ensures
            all@ == self@,
    {
        self.errors
    }
}

} // verus!
