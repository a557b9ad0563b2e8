//! The annotations that a function declaration may carry.

use proc_macro2::Span;
use vstd::prelude::*;
use vstd::string::*;
use crate::parse::Attribute;
use crate::text::str_eq;

verus! {

/// One annotation, decoded.
#[derive(Debug)]
pub enum FunctionAttr {
    /// `associated_to = Name`: the function belongs to the type `Name`.
    AssociatedTo(String),
    /// `swift_name = "name"`: the function's name on the other side.
    SwiftName(String),
    /// `init`: the function makes a value of the type it returns.
    Init,
}

/// Why an annotation cannot be decoded.
#[derive(Clone, Copy, Debug, PartialEq, Eq, Structural)]
pub enum AttributeErrorKind {
    /// The key is none of `associated_to`, `swift_name`, `init`.
    UnknownKey,
    /// The key asks for a value and none is given.
    MissingValue,
    /// The key takes no value and one is given.
    UnexpectedValue,
}

/// An annotation that cannot be decoded. It ends the pass at once.
#[derive(Debug)]
pub struct AttributeError {
    pub kind: AttributeErrorKind,
    pub key: String,
    pub span: Span,
}

/// What an annotation decodes to.
pub open spec fn attr_of(attr: Attribute) -> Result<FunctionAttr, AttributeError> {
    if attr.key@ == "associated_to"@ {
        match attr.value {
            Some(name) => Ok(FunctionAttr::AssociatedTo(name)),
            None => Err(attr_error(AttributeErrorKind::MissingValue, attr)),
        }
    } else if attr.key@ == "swift_name"@ {
        match attr.value {
            Some(name) => Ok(FunctionAttr::SwiftName(name)),
            None => Err(attr_error(AttributeErrorKind::MissingValue, attr)),
        }
    } else if attr.key@ == "init"@ {
        match attr.value {
            Some(_) => Err(attr_error(AttributeErrorKind::UnexpectedValue, attr)),
            None => Ok(FunctionAttr::Init),
        }
    } else {
        Err(attr_error(AttributeErrorKind::UnknownKey, attr))
    }
}

pub open spec fn attr_error(kind: AttributeErrorKind, attr: Attribute) -> AttributeError {
    AttributeError { kind, key: attr.key, span: attr.span }
}

impl FunctionAttr {
    /// Decodes one annotation.
    pub fn parse(attr: &Attribute) -> (decoded: Result<FunctionAttr, AttributeError>)
        ensures
            decoded == attr_of(*attr),
    {
        let key = attr.key.as_str();
        if str_eq(key, "associated_to") {
            match &attr.value {
                Some(name) => Ok(FunctionAttr::AssociatedTo(name.clone())),
                None => Err(FunctionAttr::error(AttributeErrorKind::MissingValue, attr)),
            }
        } else if str_eq(key, "swift_name") {
            match &attr.value {
                Some(name) => Ok(FunctionAttr::SwiftName(name.clone())),
                None => Err(FunctionAttr::error(AttributeErrorKind::MissingValue, attr)),
            }
        } else if str_eq(key, "init") {
            match &attr.value {
                Some(_) => Err(FunctionAttr::error(AttributeErrorKind::UnexpectedValue, attr)),
                None => Ok(FunctionAttr::Init),
            }
        } else {
            Err(FunctionAttr::error(AttributeErrorKind::UnknownKey, attr))
        }
    }

    fn error(kind: AttributeErrorKind, attr: &Attribute) -> (error: AttributeError)
        ensures
            error == attr_error(kind, *attr),
    {
        AttributeError { kind, key: attr.key.clone(), span: attr.span }
    }
}

/// What the annotations of one function say, taken together.
#[derive(Debug)]
pub struct FunctionAttributes {
    pub associated_to: Option<String>,
    pub is_initializer: bool,
    pub swift_name: Option<String>,
}

impl FunctionAttributes {
    /// What a function without annotations says: nothing.
    pub open spec fn empty() -> FunctionAttributes {
        FunctionAttributes { associated_to: None, is_initializer: false, swift_name: None }
    }

    /// These attributes after one more annotation. A later annotation of a
    /// kind replaces an earlier one.
    pub open spec fn with(self, attrib: FunctionAttr) -> FunctionAttributes {
        match attrib {
            FunctionAttr::AssociatedTo(name) => FunctionAttributes {
                associated_to: Some(name),
                ..self
            },
            FunctionAttr::SwiftName(name) => FunctionAttributes { swift_name: Some(name), ..self },
            FunctionAttr::Init => FunctionAttributes { is_initializer: true, ..self },
        }
    }

    pub fn store_attrib(&mut self, attrib: FunctionAttr)
        ensures
            *final(self) == old(self).with(attrib),
    {
        match attrib {
            FunctionAttr::AssociatedTo(name) => {
                self.associated_to = Some(name);
            },
            FunctionAttr::SwiftName(name) => {
                self.swift_name = Some(name);
            },
            FunctionAttr::Init => {
                self.is_initializer = true;
            },
        }
    }
}

impl Default for FunctionAttributes {
    fn default() -> (attributes: FunctionAttributes)
        ensures
            attributes == FunctionAttributes::empty(),
    {
        FunctionAttributes { associated_to: None, is_initializer: false, swift_name: None }
    }
}

/// What a function's annotations say, read in order; the first one that
/// cannot be decoded ends the reading.
pub open spec fn attributes_of(attrs: Seq<Attribute>) -> Result<FunctionAttributes, AttributeError>
    decreases attrs.len(),
{
    if attrs.len() == 0 {
        Ok(FunctionAttributes::empty())
    } else {
        match attributes_of(attrs.drop_last()) {
            Err(error) => Err(error),
            Ok(attributes) => match attr_of(attrs.last()) {
                Err(error) => Err(error),
                Ok(attrib) => Ok(attributes.with(attrib)),
            },
        }
    }
}

/// Decodes the annotations of one function.
pub fn parse_attributes(attrs: &Vec<Attribute>) -> (decoded: Result<
    FunctionAttributes,
    AttributeError,
>)
    ensures
        decoded == attributes_of(attrs@),
{
    let mut attributes = FunctionAttributes::default();
    let mut at: usize = 0;
    assert(attrs@.take(0) =~= Seq::<Attribute>::empty());
    while at < attrs.len()
        invariant
            at <= attrs@.len(),
            attributes_of(attrs@.take(at as int)) == Ok::<FunctionAttributes, AttributeError>(
                attributes,
            ),
        decreases attrs@.len() - at,
    {
        proof {
            assert(attrs@.take(at + 1).drop_last() =~= attrs@.take(at as int));
            assert(attrs@.take(at + 1).last() == attrs@[at as int]);
        }
        match FunctionAttr::parse(&attrs[at]) {
            Ok(attrib) => {
                attributes.store_attrib(attrib);
            },
            Err(error) => {
                proof {
                    lemma_attributes_fail(attrs@, at + 1);
                }
                return Err(error);
            },
        }
        at += 1;
    }
    assert(attrs@.take(at as int) =~= attrs@);
    Ok(attributes)
}

/// Once the reading has failed, more annotations do not change the failure.
pub proof fn lemma_attributes_fail(attrs: Seq<Attribute>, upto: int)
    requires
        0 <= upto <= attrs.len(),
        attributes_of(attrs.take(upto)) is Err,
    ensures
        attributes_of(attrs) == attributes_of(attrs.take(upto)),
    decreases attrs.len(),
{
    if upto == attrs.len() {
        assert(attrs.take(upto) =~= attrs);
    } else {
        assert(attrs.drop_last().take(upto) =~= attrs.take(upto));
        lemma_attributes_fail(attrs.drop_last(), upto);
    }
}

} // verus!
