//! The pass over one declaration block.
//!
//! A block without a language tag, or with a tag that names no language,
//! yields one diagnostic and nothing else. In any other block the types are
//! declared first, in source order, so that a function may use a type that
//! the block declares further down; then the functions are resolved, in
//! source order.

use proc_macro2::Span;
use vstd::prelude::*;
use vstd::string::*;
use crate::bridged_type::{
    bridged_type_of, built_in_of, BridgedType, ForeignBridgedType, OpaqueForeignType,
};
use crate::errors::{ParseError, ParseErrors};
use crate::parse::parse_extern_mod::function_attributes::{
    attributes_of, parse_attributes, AttributeError, FunctionAttributes,
};
use crate::parse::type_declarations::{Registry, TypeDeclarations};
use crate::parse::{
    host_lang_of, FnArg, ForeignItem, ForeignItemFn, ForeignItemType, HostLang, ItemForeignMod,
    TypeRef, TypeRefKind,
};
use crate::parsed_extern_fn::ParsedExternFn;
use crate::text::str_eq;

pub mod block_lemmas;
pub mod function_attributes;

verus! {

/// A type that a function names and that nothing has declared so far. A
/// block further down may still declare it.
#[derive(Debug)]
pub struct MaybeUndeclaredType {
    pub ty: String,
    pub span: Span,
}

/// What the pass over a module has gathered at some point.
pub struct ParserState {
    pub errors: Seq<ParseError>,
    pub types: Registry,
    pub functions: Seq<ParsedExternFn>,
    pub maybe_undeclared_types: Seq<MaybeUndeclaredType>,
}

/// The type declarations among `items`, in source order.
pub open spec fn types_in(items: Seq<ForeignItem>) -> Seq<ForeignItemType>
    decreases items.len(),
{
    if items.len() == 0 {
        Seq::empty()
    } else {
        match items.last() {
            ForeignItem::Type(ty) => types_in(items.drop_last()).push(ty),
            _ => types_in(items.drop_last()),
        }
    }
}

/// The function declarations among `items`, in source order.
pub open spec fn fns_in(items: Seq<ForeignItem>) -> Seq<ForeignItemFn>
    decreases items.len(),
{
    if items.len() == 0 {
        Seq::empty()
    } else {
        match items.last() {
            ForeignItem::Fn(func) => fns_in(items.drop_last()).push(func),
            _ => fns_in(items.drop_last()),
        }
    }
}

/// The declared type that a type declaration of a block in `host_lang` makes.
pub open spec fn opaque_of(ty: ForeignItemType, host_lang: HostLang) -> ForeignBridgedType {
    ForeignBridgedType::Opaque(OpaqueForeignType { ty, host_lang })
}

/// Whether `name` is the name of a built-in type, whatever a module
/// declares.
pub open spec fn is_built_in_name(name: Seq<char>) -> bool {
    built_in_of(name, Map::empty()) is Some
}

/// The diagnostics after one type declaration: a name that the built-in
/// types use yields one.
pub open spec fn errors_after_type(errors: Seq<ParseError>, ty: ForeignItemType) -> Seq<
    ParseError,
> {
    if is_built_in_name(ty.ident@) {
        errors.push(ParseError::DeclaredBuiltInType { ty })
    } else {
        errors
    }
}

/// `types` after one type declaration of a block in `host_lang`: the type is
/// declared, unless its name is that of a built-in type.
pub open spec fn types_after_type(
    types: Registry,
    ty: ForeignItemType,
    host_lang: HostLang,
) -> Registry {
    if is_built_in_name(ty.ident@) {
        types
    } else {
        types.insert(ty.ident@, opaque_of(ty, host_lang))
    }
}

/// The state and the block's own registry after the type declarations
/// `decls` of a block in `host_lang`. Each is declared in both registries,
/// or else yields a diagnostic.
pub open spec fn declare_types(
    state: ParserState,
    local: Registry,
    decls: Seq<ForeignItemType>,
    host_lang: HostLang,
) -> (ParserState, Registry)
    decreases decls.len(),
{
    if decls.len() == 0 {
        (state, local)
    } else {
        let (before, local_before) = declare_types(state, local, decls.drop_last(), host_lang);
        let ty = decls.last();
        (
            ParserState {
                errors: errors_after_type(before.errors, ty),
                types: types_after_type(before.types, ty, host_lang),
                ..before
            },
            types_after_type(local_before, ty, host_lang),
        )
    }
}

/// Whether nothing that is known so far stands behind the name `ty`: no
/// built-in type and no declared type.
pub open spec fn is_undeclared(ty: TypeRef, types: Map<Seq<char>, ForeignBridgedType>) -> bool {
    bridged_type_of(ty.target@, types) is None
}

/// What is noted down about a type that nothing stands behind.
pub open spec fn noted(ty: TypeRef) -> MaybeUndeclaredType {
    MaybeUndeclaredType { ty: ty.target, span: ty.span }
}

/// `pending` after the type `ty` has been looked at.
pub open spec fn note_type(
    pending: Seq<MaybeUndeclaredType>,
    ty: TypeRef,
    types: Map<Seq<char>, ForeignBridgedType>,
) -> Seq<MaybeUndeclaredType> {
    if is_undeclared(ty, types) {
        pending.push(noted(ty))
    } else {
        pending
    }
}

/// `pending` after the types of the parameters `inputs` have been looked
/// at, in order. A receiver without a type names no type.
pub open spec fn note_inputs(
    pending: Seq<MaybeUndeclaredType>,
    inputs: Seq<FnArg>,
    types: Map<Seq<char>, ForeignBridgedType>,
) -> Seq<MaybeUndeclaredType>
    decreases inputs.len(),
{
    if inputs.len() == 0 {
        pending
    } else {
        let before = note_inputs(pending, inputs.drop_last(), types);
        match inputs.last() {
            FnArg::Typed(arg) => note_type(before, arg.ty, types),
            FnArg::Receiver(_) => before,
        }
    }
}

/// `pending` after the types that `func` names have been looked at: those
/// of its parameters, then that of its result.
pub open spec fn note_signature(
    pending: Seq<MaybeUndeclaredType>,
    func: ForeignItemFn,
    types: Map<Seq<char>, ForeignBridgedType>,
) -> Seq<MaybeUndeclaredType> {
    let after_inputs = note_inputs(pending, func.inputs@, types);
    match func.output {
        Some(ty) => note_type(after_inputs, ty, types),
        None => after_inputs,
    }
}

/// The declared type under `name`, or the diagnostic that there is none.
pub open spec fn declared_type(
    name: String,
    span: Span,
    types: Map<Seq<char>, ForeignBridgedType>,
) -> Result<Option<ForeignBridgedType>, ParseError> {
    if types.contains_key(name@) {
        Ok(Some(types[name@]))
    } else {
        Err(ParseError::AssociatedTypeNotFound { ty: name, span })
    }
}

/// The type that a function without a receiver belongs to. An
/// `associated_to` names it. Else an initializer belongs to the declared
/// type that it returns by its path. Where it returns a type that nothing
/// stands behind so far, the initializer belongs to no type for now: the
/// end of the pass over the module ties it to the type if a block further
/// down declares it, and reports the type as undeclared if none does. Any
/// other function is free.
pub open spec fn associated_type_without_receiver(
    func: ForeignItemFn,
    attributes: FunctionAttributes,
    types: Map<Seq<char>, ForeignBridgedType>,
) -> Result<Option<ForeignBridgedType>, ParseError> {
    match attributes.associated_to {
        Some(name) => declared_type(name, func.span, types),
        None => if attributes.is_initializer {
            match func.output {
                None => Err(ParseError::InitializerWithoutReturnType { func: func.span }),
                Some(ty) => if ty.kind == TypeRefKind::Path && types.contains_key(ty.target@) {
                    Ok(Some(types[ty.target@]))
                } else if is_undeclared(ty, types) {
                    Ok(None)
                } else {
                    Err(ParseError::InitializerReturnsNoDeclaredType { ty: ty.target, span: ty.span })
                },
            }
        } else {
            Ok(None)
        },
    }
}

/// The type that a function belongs to, or the diagnostic that says why
/// none could be found.
///
/// A receiver without a type stands for the one type that the block
/// declares; where the block declares none or several, nothing tells which
/// is meant. A parameter `self` with a type names the type. Any other first
/// parameter is no receiver.
pub open spec fn associated_type_of(
    first: Option<FnArg>,
    func: ForeignItemFn,
    attributes: FunctionAttributes,
    local: Registry,
    types: Map<Seq<char>, ForeignBridgedType>,
) -> Result<Option<ForeignBridgedType>, ParseError> {
    match first {
        Some(FnArg::Receiver(receiver)) => if local.order.len() == 1 {
            Ok(Some(local.map[local.order[0]]))
        } else {
            Err(ParseError::AmbiguousSelf { self_: receiver.span })
        },
        Some(FnArg::Typed(arg)) => if arg.ident@ == "self"@ {
            declared_type(arg.ty.target, arg.ty.span, types)
        } else {
            associated_type_without_receiver(func, attributes, types)
        },
        None => associated_type_without_receiver(func, attributes, types),
    }
}

/// The first parameter of `func`.
pub open spec fn first_input(func: ForeignItemFn) -> Option<FnArg> {
    if func.inputs@.len() > 0 {
        Some(func.inputs@[0])
    } else {
        None
    }
}

/// The parameter that `first` leads to.
pub open spec fn arg_of(first: Option<&FnArg>) -> Option<FnArg> {
    match first {
        Some(arg) => Some(*arg),
        None => None,
    }
}

/// The state after the function `func` of a block in `host_lang`, or the
/// annotation of `func` that cannot be decoded; then the state stays as it
/// was.
pub open spec fn parse_fn(
    state: ParserState,
    local: Registry,
    func: ForeignItemFn,
    host_lang: HostLang,
) -> Result<ParserState, AttributeError> {
    match attributes_of(func.attrs@) {
        Err(error) => Err(error),
        Ok(attributes) => {
            let associated = associated_type_of(
                first_input(func),
                func,
                attributes,
                local,
                state.types.map,
            );
            Ok(
                ParserState {
                    errors: match associated {
                        Ok(_) => state.errors,
                        Err(error) => state.errors.push(error),
                    },
                    types: state.types,
                    functions: state.functions.push(
                        ParsedExternFn {
                            func,
                            associated_type: match associated {
                                Ok(ty) => ty,
                                Err(_) => None,
                            },
                            is_initializer: attributes.is_initializer,
                            host_lang,
                            swift_name_override: attributes.swift_name,
                        },
                    ),
                    maybe_undeclared_types: note_signature(
                        state.maybe_undeclared_types,
                        func,
                        state.types.map,
                    ),
                },
            )
        },
    }
}

/// The state after the functions `funcs` of a block in `host_lang`, in
/// order. The first annotation that cannot be decoded ends the pass: the
/// state then holds what the functions before it gave.
pub open spec fn parse_fns(
    state: ParserState,
    local: Registry,
    funcs: Seq<ForeignItemFn>,
    host_lang: HostLang,
) -> (ParserState, Option<AttributeError>)
    decreases funcs.len(),
{
    if funcs.len() == 0 {
        (state, None)
    } else {
        let (before, failure) = parse_fns(state, local, funcs.drop_last(), host_lang);
        match failure {
            Some(_) => (before, failure),
            None => match parse_fn(before, local, funcs.last(), host_lang) {
                Ok(after) => (after, None),
                Err(error) => (before, Some(error)),
            },
        }
    }
}

/// `state` with one more diagnostic.
pub open spec fn with_error(state: ParserState, error: ParseError) -> ParserState {
    ParserState { errors: state.errors.push(error), ..state }
}

/// The state after the block `foreign_mod`, and the annotation that ended
/// the pass, if one did.
pub open spec fn parse_block(state: ParserState, foreign_mod: ItemForeignMod) -> (
    ParserState,
    Option<AttributeError>,
) {
    match foreign_mod.abi.name {
        None => (
            with_error(
                state,
                ParseError::AbiNameMissing { extern_token: foreign_mod.abi.extern_token },
            ),
            None,
        ),
        Some(abi_name) => match host_lang_of(abi_name.value@) {
            None => (with_error(state, ParseError::AbiNameInvalid { abi_name }), None),
            Some(host_lang) => {
                let (declared, local) = declare_types(
                    state,
                    Registry::empty(),
                    types_in(foreign_mod.items@),
                    host_lang,
                );
                parse_fns(declared, local, fns_in(foreign_mod.items@), host_lang)
            },
        },
    }
}

/// The pass over one declaration block. It adds to what the blocks before
/// it have given: the diagnostics, the declared types of the whole module,
/// the functions, and the types that nothing has declared so far.
pub struct ForeignModParser<'a> {
    pub errors: &'a mut ParseErrors,
    /// The types that the blocks of the module declare, this one and those
    /// before it.
    pub all_type_declarations: &'a mut TypeDeclarations,
    pub functions: &'a mut Vec<ParsedExternFn>,
    pub maybe_undeclared_types: &'a mut Vec<MaybeUndeclaredType>,
}

/// Parts the items of a block: the type declarations and the function
/// declarations, each with the last of the source on top.
fn split_items(items: Vec<ForeignItem>) -> (parts: (Vec<ForeignItemType>, Vec<ForeignItemFn>))
    ensures
        parts.0@.reverse() == types_in(items@),
        parts.1@.reverse() == fns_in(items@),
{
    let ghost all = items@;
    let mut items = items;
    let mut types: Vec<ForeignItemType> = Vec::new();
    let mut funcs: Vec<ForeignItemFn> = Vec::new();
    assert(types@.reverse() =~= Seq::<ForeignItemType>::empty());
    assert(funcs@.reverse() =~= Seq::<ForeignItemFn>::empty());
    while items.len() > 0
        invariant
            types_in(all) == types_in(items@) + types@.reverse(),
            fns_in(all) == fns_in(items@) + funcs@.reverse(),
        decreases items@.len(),
    {
        let ghost before = items@;
        let ghost types_before = types@;
        let ghost funcs_before = funcs@;
        let item = items.pop().unwrap();
        assert(items@ =~= before.drop_last());
        match item {
            ForeignItem::Type(ty) => {
                types.push(ty);
                assert(types@.reverse() =~= seq![ty] + types_before.reverse());
                assert(types_in(items@).push(ty) + types_before.reverse() =~= types_in(items@)
                    + types@.reverse());
            },
            ForeignItem::Fn(func) => {
                funcs.push(func);
                assert(funcs@.reverse() =~= seq![func] + funcs_before.reverse());
                assert(fns_in(items@).push(func) + funcs_before.reverse() =~= fns_in(items@)
                    + funcs@.reverse());
            },
            ForeignItem::Other => {},
        }
    }
    assert(types_in(items@) + types@.reverse() =~= types@.reverse());
    assert(fns_in(items@) + funcs@.reverse() =~= funcs@.reverse());
    (types, funcs)
}

impl<'a> ForeignModParser<'a> {
    /// Parses one declaration block.
    ///
    /// The outcome is `Err` where an annotation of a function cannot be
    /// decoded; what the items before that function gave stays.
    #[verifier::loop_isolation(false)]
    pub fn parse(self, foreign_mod: ItemForeignMod) -> (outcome: Result<(), AttributeError>)
        ensures
            ({
                let before = ParserState {
                    errors: old(self.errors)@,
                    types: old(self.all_type_declarations)@,
                    functions: old(self.functions)@,
                    maybe_undeclared_types: old(self.maybe_undeclared_types)@,
                };
                let (after, failure) = parse_block(before, foreign_mod);
                &&& final(self.errors)@ == after.errors
                &&& final(self.all_type_declarations)@ == after.types
                &&& final(self.functions)@ == after.functions
                &&& final(self.maybe_undeclared_types)@ == after.maybe_undeclared_types
                &&& outcome == match failure {
                    Some(error) => Err::<(), AttributeError>(error),
                    None => Ok(()),
                }
            }),
    {
        let ForeignModParser { errors, all_type_declarations, functions, maybe_undeclared_types } =
            self;
        let ghost start = ParserState {
            errors: errors@,
            types: all_type_declarations@,
            functions: functions@,
            maybe_undeclared_types: maybe_undeclared_types@,
        };
        let ItemForeignMod { abi, items } = foreign_mod;
        let abi_name = match abi.name {
            Some(abi_name) => abi_name,
            None => {
                errors.push(ParseError::AbiNameMissing { extern_token: abi.extern_token });
                return Ok(());
            },
        };
        let host_lang = match HostLang::from_abi_name(abi_name.value.as_str()) {
            Some(host_lang) => host_lang,
            None => {
                errors.push(ParseError::AbiNameInvalid { abi_name });
                return Ok(());
            },
        };
        let ghost decls = types_in(items@);
        let ghost funcs = fns_in(items@);
        let (mut types_left, mut fns_left) = split_items(items);

        let mut local_type_declarations = TypeDeclarations::new();
        let ghost mut done: int = 0;
        assert(decls.take(0) =~= Seq::<ForeignItemType>::empty());
        assert(types_left@.reverse().skip(0) =~= types_left@.reverse());
        while types_left.len() > 0
            invariant
                0 <= done <= decls.len(),
                types_left@.reverse() == decls.skip(done),
                declare_types(start, Registry::empty(), decls.take(done), host_lang) == (
                    ParserState {
                        errors: errors@,
                        types: all_type_declarations@,
                        functions: functions@,
                        maybe_undeclared_types: maybe_undeclared_types@,
                    },
                    local_type_declarations@,
                ),
            decreases types_left@.len(),
        {
            let ghost left_before = types_left@;
            let foreign_ty = types_left.pop().unwrap();
            proof {
                lemma_pop_reversed(left_before, decls, done);
                assert(decls.take(done + 1).drop_last() =~= decls.take(done));
                assert(decls.take(done + 1).last() == foreign_ty);
                done = done + 1;
            }
            Self::declare_type(
                errors,
                all_type_declarations,
                &mut local_type_declarations,
                foreign_ty,
                host_lang,
            );
        }
        assert(decls.take(done) =~= decls);
        let ghost declared = ParserState {
            errors: errors@,
            types: all_type_declarations@,
            functions: functions@,
            maybe_undeclared_types: maybe_undeclared_types@,
        };
        let ghost local = local_type_declarations@;

        let ghost mut parsed: int = 0;
        assert(funcs.take(0) =~= Seq::<ForeignItemFn>::empty());
        assert(fns_left@.reverse().skip(0) =~= fns_left@.reverse());
        while fns_left.len() > 0
            invariant
                0 <= parsed <= funcs.len(),
                fns_left@.reverse() == funcs.skip(parsed),
                local == local_type_declarations@,
                parse_fns(declared, local, funcs.take(parsed), host_lang) == (
                    ParserState {
                        errors: errors@,
                        types: all_type_declarations@,
                        functions: functions@,
                        maybe_undeclared_types: maybe_undeclared_types@,
                    },
                    None::<AttributeError>,
                ),
            decreases fns_left@.len(),
        {
            let ghost left_before = fns_left@;
            let ghost reached = ParserState {
                errors: errors@,
                types: all_type_declarations@,
                functions: functions@,
                maybe_undeclared_types: maybe_undeclared_types@,
            };
            let func = fns_left.pop().unwrap();
            proof {
                lemma_pop_reversed(left_before, funcs, parsed);
                assert(funcs.take(parsed + 1).drop_last() =~= funcs.take(parsed));
                assert(funcs.take(parsed + 1).last() == func);
                parsed = parsed + 1;
            }
            match Self::parse_function(
                errors,
                all_type_declarations,
                functions,
                maybe_undeclared_types,
                &local_type_declarations,
                func,
                host_lang,
            ) {
                Ok(()) => {},
                Err(error) => {
                    proof {
                        assert(parse_fn(reached, local, func, host_lang) is Err);
                        assert(parse_fns(declared, local, funcs.take(parsed), host_lang) == (
                            reached,
                            Some(error),
                        ));
                        lemma_parse_fns_fail(declared, local, funcs, host_lang, parsed);
                    }
                    return Err(error);
                },
            }
        }
        assert(funcs.take(parsed) =~= funcs);
        Ok(())
    }

    /// Declares one type of a block in `host_lang`: in the registry of the
    /// module and in that of the block.
    pub fn declare_type(
        errors: &mut ParseErrors,
        all_type_declarations: &mut TypeDeclarations,
        local_type_declarations: &mut TypeDeclarations,
        foreign_ty: ForeignItemType,
        host_lang: HostLang,
    )
        ensures
            final(errors)@ == errors_after_type(old(errors)@, foreign_ty),
            final(all_type_declarations)@ == types_after_type(
                old(all_type_declarations)@,
                foreign_ty,
                host_lang,
            ),
            final(local_type_declarations)@ == types_after_type(
                old(local_type_declarations)@,
                foreign_ty,
                host_lang,
            ),
    {
        let built_in = BridgedType::built_in_with_str(
            foreign_ty.ident.as_str(),
            &TypeDeclarations::new(),
        );
        if built_in.is_some() {
            errors.push(ParseError::DeclaredBuiltInType { ty: foreign_ty });
            return ;
        }
        let ty_name = foreign_ty.ident.clone();
        let foreign_type = OpaqueForeignType { ty: foreign_ty, host_lang };
        all_type_declarations.insert(
            ty_name.clone(),
            ForeignBridgedType::Opaque(foreign_type.clone()),
        );
        local_type_declarations.insert(ty_name, ForeignBridgedType::Opaque(foreign_type));
    }

    /// Resolves one function of a block in `host_lang`.
    pub fn parse_function(
        errors: &mut ParseErrors,
        all_type_declarations: &TypeDeclarations,
        functions: &mut Vec<ParsedExternFn>,
        maybe_undeclared_types: &mut Vec<MaybeUndeclaredType>,
        local_type_declarations: &TypeDeclarations,
        func: ForeignItemFn,
        host_lang: HostLang,
    ) -> (outcome: Result<(), AttributeError>)
        ensures
            ({
                let before = ParserState {
                    errors: old(errors)@,
                    types: all_type_declarations@,
                    functions: old(functions)@,
                    maybe_undeclared_types: old(maybe_undeclared_types)@,
                };
                let after = ParserState {
                    errors: final(errors)@,
                    types: all_type_declarations@,
                    functions: final(functions)@,
                    maybe_undeclared_types: final(maybe_undeclared_types)@,
                };
                match parse_fn(before, local_type_declarations@, func, host_lang) {
                    Ok(next) => outcome == Ok::<(), AttributeError>(()) && after == next,
                    Err(error) => outcome == Err::<(), AttributeError>(error) && after == before,
                }
            }),
    {
        let attributes = match parse_attributes(&func.attrs) {
            Ok(attributes) => attributes,
            Err(error) => {
                return Err(error);
            },
        };
        let ghost pending = maybe_undeclared_types@;
        let ghost types = all_type_declarations@.map;
        let mut at: usize = 0;
        assert(func.inputs@.take(0) =~= Seq::<FnArg>::empty());
        while at < func.inputs.len()
            invariant
                at <= func.inputs@.len(),
                types == all_type_declarations@.map,
                maybe_undeclared_types@ == note_inputs(pending, func.inputs@.take(at as int), types),
            decreases func.inputs@.len() - at,
        {
            proof {
                assert(func.inputs@.take(at + 1).drop_last() =~= func.inputs@.take(at as int));
                assert(func.inputs@.take(at + 1).last() == func.inputs@[at as int]);
            }
            match &func.inputs[at] {
                FnArg::Typed(pat_ty) => {
                    Self::maybe_push_undeclared_ty(
                        all_type_declarations,
                        maybe_undeclared_types,
                        &pat_ty.ty,
                    );
                },
                FnArg::Receiver(_) => {},
            }
            at += 1;
        }
        assert(func.inputs@.take(at as int) =~= func.inputs@);
        match &func.output {
            Some(ty) => {
                Self::maybe_push_undeclared_ty(all_type_declarations, maybe_undeclared_types, ty);
            },
            None => {},
        }
        let first = if func.inputs.len() > 0 {
            Some(&func.inputs[0])
        } else {
            None
        };
        let associated_type = Self::get_associated_type(
            errors,
            all_type_declarations,
            first,
            &func,
            &attributes,
            local_type_declarations,
        );
        functions.push(
            ParsedExternFn {
                func,
                associated_type,
                is_initializer: attributes.is_initializer,
                host_lang,
                swift_name_override: attributes.swift_name,
            },
        );
        Ok(())
    }

    /// Notes `ty` down where nothing that is known so far stands behind its
    /// name.
    pub fn maybe_push_undeclared_ty(
        all_type_declarations: &TypeDeclarations,
        maybe_undeclared_types: &mut Vec<MaybeUndeclaredType>,
        ty: &TypeRef,
    )
        ensures
            final(maybe_undeclared_types)@ == note_type(
                old(maybe_undeclared_types)@,
                *ty,
                all_type_declarations@.map,
            ),
    {
        let ty_string = ty.target.as_str();
        if !all_type_declarations.contains_key(ty_string) && BridgedType::built_in_with_str(
            ty_string,
            all_type_declarations,
        ).is_none() {
            maybe_undeclared_types.push(
                MaybeUndeclaredType { ty: ty.target.clone(), span: ty.span },
            );
        }
    }

    /// Finds the type that a function belongs to. Where none can be found
    /// for a reason that the author should hear of, the result is `None` and
    /// one diagnostic is added.
    pub fn get_associated_type(
        errors: &mut ParseErrors,
        all_type_declarations: &TypeDeclarations,
        first: Option<&FnArg>,
        func: &ForeignItemFn,
        attributes: &FunctionAttributes,
        local_type_declarations: &TypeDeclarations,
    ) -> (associated_type: Option<ForeignBridgedType>)
        ensures
            match associated_type_of(
                arg_of(first),
                *func,
                *attributes,
                local_type_declarations@,
                all_type_declarations@.map,
            ) {
                Ok(ty) => associated_type == ty && final(errors)@ == old(errors)@,
                Err(error) => associated_type is None && final(errors)@ == old(errors)@.push(error),
            },
        decreases
            (if first is Some {
                1nat
            } else {
                0nat
            }),
    {
        match first {
            Some(FnArg::Receiver(recv)) => {
                if local_type_declarations.len() == 1 {
                    let mut declared = local_type_declarations.types();
                    declared.pop()
                } else {
                    errors.push(ParseError::AmbiguousSelf { self_: recv.span });
                    None
                }
            },
            Some(FnArg::Typed(arg)) => {
                if str_eq(arg.ident.as_str(), "self") {
                    Self::get_declared_type(errors, all_type_declarations, &arg.ty.target, arg.ty.span)
                } else {
                    Self::get_associated_type(
                        errors,
                        all_type_declarations,
                        None,
                        func,
                        attributes,
                        local_type_declarations,
                    )
                }
            },
            None => {
                match &attributes.associated_to {
                    Some(associated_to) => Self::get_declared_type(
                        errors,
                        all_type_declarations,
                        associated_to,
                        func.span,
                    ),
                    None => {
                        if attributes.is_initializer {
                            match &func.output {
                                None => {
                                    errors.push(
                                        ParseError::InitializerWithoutReturnType {
                                            func: func.span,
                                        },
                                    );
                                    None
                                },
                                Some(ty) => {
                                    let declared = match ty.kind {
                                        TypeRefKind::Path => all_type_declarations.get(
                                            ty.target.as_str(),
                                        ),
                                        _ => None,
                                    };
                                    match declared {
                                        Some(declared) => Some(declared.clone()),
                                        None => {
                                            let name = ty.target.as_str();
                                            if all_type_declarations.contains_key(name)
                                                || BridgedType::built_in_with_str(
                                                name,
                                                all_type_declarations,
                                            ).is_some() {
                                                errors.push(
                                                    ParseError::InitializerReturnsNoDeclaredType {
                                                        ty: ty.target.clone(),
                                                        span: ty.span,
                                                    },
                                                );
                                            }
                                            None
                                        },
                                    }
                                },
                            }
                        } else {
                            None
                        }
                    },
                }
            },
        }
    }

    /// Looks up the type that a function is tied to by name.
    fn get_declared_type(
        errors: &mut ParseErrors,
        all_type_declarations: &TypeDeclarations,
        name: &String,
        span: Span,
    ) -> (found: Option<ForeignBridgedType>)
        ensures
            match declared_type(*name, span, all_type_declarations@.map) {
                Ok(ty) => found == ty && final(errors)@ == old(errors)@,
                Err(error) => found is None && final(errors)@ == old(errors)@.push(error),
            },
    {
        match all_type_declarations.get(name.as_str()) {
            Some(ty) => Some(ty.clone()),
            None => {
                errors.push(ParseError::AssociatedTypeNotFound { ty: name.clone(), span });
                None
            },
        }
    }
}

/// A stack that holds the rest of `all` from `done` on, with the last on
/// top of the first: its top is the next of `all`, and what lies under it is
/// the rest behind that.
pub proof fn lemma_pop_reversed<A>(stack: Seq<A>, all: Seq<A>, done: int)
    requires
        0 <= done <= all.len(),
        stack.len() > 0,
        stack.reverse() == all.skip(done),
    ensures
        done < all.len(),
        all[done] == stack.last(),
        stack.drop_last().reverse() == all.skip(done + 1),
{
    assert(stack.reverse().len() == stack.len());
    assert(stack.reverse()[0] == stack.last());
    assert(all.skip(done)[0] == all[done]);
    assert forall|i: int| 0 <= i < stack.len() - 1 implies stack.drop_last().reverse()[i]
        == all.skip(done + 1)[i] by {
        assert(stack.drop_last().reverse()[i] == stack.reverse()[i + 1]);
        assert(all.skip(done)[i + 1] == all.skip(done + 1)[i]);
    }
    assert(stack.drop_last().reverse() =~= all.skip(done + 1));
}

/// Once the pass has ended on an annotation, the functions behind it change
/// nothing.
pub proof fn lemma_parse_fns_fail(
    state: ParserState,
    local: Registry,
    funcs: Seq<ForeignItemFn>,
    host_lang: HostLang,
    upto: int,
)
    requires
        0 <= upto <= funcs.len(),
        parse_fns(state, local, funcs.take(upto), host_lang).1 is Some,
    ensures
        parse_fns(state, local, funcs, host_lang) == parse_fns(
            state,
            local,
            funcs.take(upto),
            host_lang,
        ),
    decreases funcs.len(),
{
    if upto == funcs.len() {
        assert(funcs.take(upto) =~= funcs);
    } else {
        assert(funcs.drop_last().take(upto) =~= funcs.take(upto));
        lemma_parse_fns_fail(state, local, funcs.drop_last(), host_lang, upto);
    }
}

} // verus!
