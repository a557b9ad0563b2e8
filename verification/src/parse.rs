//! The declarations of a bridge module as they are written down, and the
//! passes that resolve them.

use proc_macro2::Span;
use vstd::prelude::*;
use vstd::string::*;
use crate::text::str_eq;

pub mod parse_extern_mod;
pub mod type_declarations;

verus! {

/// `proc_macro2::Span`, a location in the source as the tokenizer hands it
/// out. Nothing is said of what such a value holds: the library carries it
/// from a declaration into the diagnostics about that declaration and never
/// looks inside.
#[verifier::external_type_specification]
#[verifier::external_body]
pub struct ExSpan(proc_macro2::Span);

/// The language that owns the items of a declaration block.
#[derive(Clone, Copy, Debug, PartialEq, Eq, Structural)]
pub enum HostLang {
    Rust,
    Swift,
}

/// The language that a block's tag names, if it names one.
pub open spec fn host_lang_of(abi_name: Seq<char>) -> Option<HostLang> {
    if abi_name == "Rust"@ {
        Some(HostLang::Rust)
    } else if abi_name == "Swift"@ {
        Some(HostLang::Swift)
    } else {
        None
    }
}

impl HostLang {
    pub fn is_rust(self) -> (b: bool)
        ensures
            b == (self == HostLang::Rust),
    {
        match self {
            HostLang::Rust => true,
            HostLang::Swift => false,
        }
    }

    pub fn is_swift(self) -> (b: bool)
        ensures
            b == (self == HostLang::Swift),
    {
        match self {
            HostLang::Rust => false,
            HostLang::Swift => true,
        }
    }

    /// Reads a block's tag: `Rust` and `Swift` are the two languages.
    pub fn from_abi_name(abi_name: &str) -> (lang: Option<HostLang>)
        ensures
            lang == host_lang_of(abi_name@),
    {
        if str_eq(abi_name, "Rust") {
            Some(HostLang::Rust)
        } else if str_eq(abi_name, "Swift") {
            Some(HostLang::Swift)
        } else {
            None
        }
    }
}

/// How a type is written: as a path, behind `&` or `&mut`, behind `*const`
/// or `*mut`, or in another form, such as a tuple, an array or a slice.
#[derive(Clone, Copy, Debug, PartialEq, Eq, Structural)]
pub enum TypeRefKind {
    Path,
    Reference { mutable: bool },
    Pointer { mutable: bool },
    Other,
}

/// A type as a parameter or a result names it. `target` is the text of the
/// path, of what the reference or pointer leads to, or of the whole type
/// where it has another form.
#[derive(Debug)]
pub struct TypeRef {
    pub kind: TypeRefKind,
    pub target: String,
    pub span: Span,
}

/// A parameter with its type written out.
#[derive(Debug)]
pub struct PatType {
    pub ident: String,
    pub ty: TypeRef,
}

/// A receiver without a type: `self`, `&self` or `&mut self`.
#[derive(Clone, Copy, Debug)]
pub struct Receiver {
    pub reference: bool,
    pub mutable: bool,
    pub span: Span,
}

/// A parameter: the receiver without a type, or a name with its type.
#[derive(Debug)]
pub enum FnArg {
    Receiver(Receiver),
    Typed(PatType),
}

/// An annotation on a function, not yet decoded: `key` or `key = value`.
#[derive(Debug)]
pub struct Attribute {
    pub key: String,
    pub value: Option<String>,
    pub span: Span,
}

/// A function declaration.
#[derive(Debug)]
pub struct ForeignItemFn {
    pub attrs: Vec<Attribute>,
    pub ident: String,
    pub inputs: Vec<FnArg>,
    pub output: Option<TypeRef>,
    pub span: Span,
}

/// A type declaration.
#[derive(Debug)]
pub struct ForeignItemType {
    pub ident: String,
    pub span: Span,
}

impl Clone for ForeignItemType {
    fn clone(&self) -> (r: Self)
        ensures
            r == *self,
    {
        ForeignItemType { ident: self.ident.clone(), span: self.span }
    }
}

/// One item of a declaration block. Items that are neither a type nor a
/// function are skipped by every pass.
#[derive(Debug)]
pub enum ForeignItem {
    Type(ForeignItemType),
    Fn(ForeignItemFn),
    Other,
}

/// The text of a block's language tag.
#[derive(Debug)]
pub struct AbiName {
    pub value: String,
    pub span: Span,
}

/// The head of a declaration block: the keyword and, if written, the tag.
#[derive(Debug)]
pub struct Abi {
    pub extern_token: Span,
    pub name: Option<AbiName>,
}

/// A declaration block: its head and its items in source order.
#[derive(Debug)]
pub struct ItemForeignMod {
    pub abi: Abi,
    pub items: Vec<ForeignItem>,
}

/// A module: its name and its declaration blocks in source order.
#[derive(Debug)]
pub struct ItemMod {
    pub ident: String,
    pub blocks: Vec<ItemForeignMod>,
}

} // verus!
