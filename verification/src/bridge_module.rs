//! A whole bridge module, resolved.

use vstd::prelude::*;
use vstd::string::*;
use crate::bridged_type::{bridged_type_of, BridgedType, ForeignBridgedType};
use crate::errors::{ParseError, ParseErrors};
use crate::parse::parse_extern_mod::function_attributes::{
    attributes_of, parse_attributes, AttributeError,
};
use crate::parse::parse_extern_mod::block_lemmas::{
    lemma_no_built_in_name_is_declared, no_built_in_names,
};
use crate::parse::parse_extern_mod::{
    lemma_pop_reversed, parse_block, ForeignModParser, MaybeUndeclaredType, ParserState,
};
use crate::parse::type_declarations::{Registry, TypeDeclarations};
use crate::parse::{FnArg, ForeignItemFn, ItemForeignMod, ItemMod, TypeRefKind};
use crate::text::str_eq;
use crate::parsed_extern_fn::ParsedExternFn;

pub mod undeclared_types;

verus! {

/// The types and the functions of a module.
#[derive(Debug)]
pub struct SwiftBridgeModule {
    pub name: String,
    pub types: TypeDeclarations,
    pub functions: Vec<ParsedExternFn>,
}

/// A module as far as it could be resolved, and everything that was found
/// wrong with it. Only a module without diagnostics is fit for use.
#[derive(Debug)]
pub struct SwiftBridgeModuleAndErrors {
    pub module: SwiftBridgeModule,
    pub errors: ParseErrors,
}

/// The state before the first block.
pub open spec fn initial_state() -> ParserState {
    ParserState {
        errors: Seq::empty(),
        types: Registry::empty(),
        functions: Seq::empty(),
        maybe_undeclared_types: Seq::empty(),
    }
}

/// The state after the blocks `blocks`, in order. An annotation that cannot
/// be decoded ends the pass in its block.
pub open spec fn parse_blocks(state: ParserState, blocks: Seq<ItemForeignMod>) -> (
    ParserState,
    Option<AttributeError>,
)
    decreases blocks.len(),
{
    if blocks.len() == 0 {
        (state, None)
    } else {
        let (before, failure) = parse_blocks(state, blocks.drop_last());
        match failure {
            Some(_) => (before, failure),
            None => parse_block(before, blocks.last()),
        }
    }
}

/// `errors` and, behind them, one diagnostic for each type of `pending`
/// that nothing stands behind after all: no built-in type and no type that
/// any block of the module declares.
pub open spec fn with_undeclared(
    errors: Seq<ParseError>,
    pending: Seq<MaybeUndeclaredType>,
    types: Map<Seq<char>, ForeignBridgedType>,
) -> Seq<ParseError>
    decreases pending.len(),
{
    if pending.len() == 0 {
        errors
    } else {
        let before = with_undeclared(errors, pending.drop_last(), types);
        let last = pending.last();
        if bridged_type_of(last.ty@, types) is None {
            before.push(ParseError::UndeclaredType { ty: last.ty, span: last.span })
        } else {
            before
        }
    }
}

/// The diagnostics of a module whose blocks left `state`.
pub open spec fn module_errors(state: ParserState) -> Seq<ParseError> {
    with_undeclared(state.errors, state.maybe_undeclared_types, state.types.map)
}

/// The name of the type that `func` is to make, where `func` is an
/// initializer that is tied to its type by nothing but the path that it
/// returns: it has no receiver and no `associated_to`.
pub open spec fn awaited_type(func: ForeignItemFn) -> Option<Seq<char>> {
    if func.inputs@.len() > 0 && takes_self(func.inputs@[0]) {
        None
    } else {
        match (attributes_of(func.attrs@), func.output) {
            (Ok(attributes), Some(ty)) => if attributes.associated_to is None
                && attributes.is_initializer && ty.kind == TypeRefKind::Path {
                Some(ty.target@)
            } else {
                None
            },
            _ => None,
        }
    }
}

/// Whether a parameter is a receiver, with or without a type.
pub open spec fn takes_self(arg: FnArg) -> bool {
    match arg {
        FnArg::Receiver(_) => true,
        FnArg::Typed(typed) => typed.ident@ == "self"@,
    }
}

/// `function` as the module hands it out. An initializer whose type was
/// declared only after the initializer was read belongs to that type after
/// all.
pub open spec fn bound(
    function: ParsedExternFn,
    types: Map<Seq<char>, ForeignBridgedType>,
) -> ParsedExternFn {
    match awaited_type(function.func) {
        Some(name) => if function.associated_type is None && types.contains_key(name) {
            ParsedExternFn { associated_type: Some(types[name]), ..function }
        } else {
            function
        },
        None => function,
    }
}

/// The functions as the module hands them out.
pub open spec fn bound_all(
    functions: Seq<ParsedExternFn>,
    types: Map<Seq<char>, ForeignBridgedType>,
) -> Seq<ParsedExternFn> {
    Seq::new(functions.len(), |i: int| bound(functions[i], types))
}

/// The name of the type that an initializer is to make, if it is tied to
/// its type by nothing but the path that it returns.
fn get_awaited_type(func: &ForeignItemFn) -> (name: Option<String>)
    ensures
        match awaited_type(*func) {
            Some(awaited) => name matches Some(found) && found@ == awaited,
            None => name is None,
        },
{
    if func.inputs.len() > 0 {
        match &func.inputs[0] {
            FnArg::Receiver(_) => {
                return None;
            },
            FnArg::Typed(typed) => {
                if str_eq(typed.ident.as_str(), "self") {
                    return None;
                }
            },
        }
    }
    match (parse_attributes(&func.attrs), &func.output) {
        (Ok(attributes), Some(ty)) => {
            let by_path = match ty.kind {
                TypeRefKind::Path => true,
                _ => false,
            };
            if attributes.associated_to.is_none() && attributes.is_initializer && by_path {
                Some(ty.target.clone())
            } else {
                None
            }
        },
        _ => None,
    }
}

/// Ties an initializer to its type where the type was declared only after
/// the initializer was read.
fn bind_initializer(function: ParsedExternFn, types: &TypeDeclarations) -> (tied: ParsedExternFn)
    ensures
        tied == bound(function, types@.map),
{
    if function.associated_type.is_some() {
        return function;
    }
    let name = match get_awaited_type(&function.func) {
        Some(name) => name,
        None => {
            return function;
        },
    };
    let found = match types.get(name.as_str()) {
        Some(found) => found.clone(),
        None => {
            return function;
        },
    };
    let ParsedExternFn { func, associated_type: _, is_initializer, host_lang, swift_name_override } =
        function;
    ParsedExternFn {
        func,
        associated_type: Some(found),
        is_initializer,
        host_lang,
        swift_name_override,
    }
}

/// Ties every initializer to its type that was read before its type was
/// declared.
fn bind_initializers(functions: Vec<ParsedExternFn>, types: &TypeDeclarations) -> (tied: Vec<
    ParsedExternFn,
>)
    ensures
        tied@ == bound_all(functions@, types@.map),
{
    let ghost all = functions@;
    let mut left = reversed(functions);
    let mut tied: Vec<ParsedExternFn> = Vec::new();
    let ghost mut done: int = 0;
    assert(left@.reverse() =~= all.skip(0)) by {
        assert(all.reverse().reverse() =~= all);
    }
    while left.len() > 0
        invariant
            0 <= done <= all.len(),
            left@.reverse() == all.skip(done),
            tied@.len() == done,
            forall|i: int| 0 <= i < done ==> tied@[i] == bound(all[i], types@.map),
        decreases left@.len(),
    {
        let ghost left_before = left@;
        let function = left.pop().unwrap();
        proof {
            lemma_pop_reversed(left_before, all, done);
            done = done + 1;
        }
        tied.push(bind_initializer(function, types));
    }
    assert(tied@ =~= bound_all(all, types@.map));
    tied
}

/// Turns a vector round.
fn reversed<T>(items: Vec<T>) -> (turned: Vec<T>)
    ensures
        turned@ == items@.reverse(),
{
    let ghost all = items@;
    let mut items = items;
    let mut turned: Vec<T> = Vec::new();
    while items.len() > 0
        invariant
            items@.len() + turned@.len() == all.len(),
            items@ == all.take(items@.len() as int),
            forall|i: int| 0 <= i < turned@.len() ==> turned@[i] == all[all.len() - 1 - i],
        decreases items@.len(),
    {
        let item = items.pop().unwrap();
        turned.push(item);
    }
    assert(turned@ =~= all.reverse());
    turned
}

impl SwiftBridgeModule {
    /// Resolves a module: its blocks in order, then the types that were
    /// named before anything declared them, then the initializers that were
    /// read before their type was declared.
    ///
    /// The outcome is `Err` where an annotation of a function cannot be
    /// decoded. Anything else that is wrong is a diagnostic beside the
    /// module.
    #[verifier::loop_isolation(false)]
    pub fn parse(item_mod: ItemMod) -> (outcome: Result<
        SwiftBridgeModuleAndErrors,
        AttributeError,
    >)
        ensures
            ({
                let (state, failure) = parse_blocks(initial_state(), item_mod.blocks@);
                match failure {
                    Some(error) => outcome == Err::<SwiftBridgeModuleAndErrors, AttributeError>(
                        error,
                    ),
                    None => {
                        &&& outcome matches Ok(parsed)
                        &&& parsed.module.name == item_mod.ident
                        &&& parsed.module.types@ == state.types
                        &&& parsed.module.functions@ == bound_all(
                            state.functions,
                            state.types.map,
                        )
                        &&& parsed.errors@ == module_errors(state)
                    },
                }
            }),
    {
        let ItemMod { ident, blocks } = item_mod;
        let ghost all = blocks@;
        let mut errors = ParseErrors::new();
        let mut all_type_declarations = TypeDeclarations::new();
        let mut functions: Vec<ParsedExternFn> = Vec::new();
        let mut maybe_undeclared_types: Vec<MaybeUndeclaredType> = Vec::new();

        let mut blocks_left = reversed(blocks);
        let ghost mut done: int = 0;
        assert(all.take(0) =~= Seq::<ItemForeignMod>::empty());
        assert(blocks_left@.reverse() =~= all.skip(0)) by {
            assert(all.reverse().reverse() =~= all);
        }
        while blocks_left.len() > 0
            invariant
                0 <= done <= all.len(),
                blocks_left@.reverse() == all.skip(done),
                parse_blocks(initial_state(), all.take(done)) == (
                    ParserState {
                        errors: errors@,
                        types: all_type_declarations@,
                        functions: functions@,
                        maybe_undeclared_types: maybe_undeclared_types@,
                    },
                    None::<AttributeError>,
                ),
            decreases blocks_left@.len(),
        {
            let ghost left_before = blocks_left@;
            let foreign_mod = blocks_left.pop().unwrap();
            proof {
                lemma_pop_reversed(left_before, all, done);
                assert(all.take(done + 1).drop_last() =~= all.take(done));
                assert(all.take(done + 1).last() == foreign_mod);
                done = done + 1;
            }
            let parser = ForeignModParser {
                errors: &mut errors,
                all_type_declarations: &mut all_type_declarations,
                functions: &mut functions,
                maybe_undeclared_types: &mut maybe_undeclared_types,
            };
            match parser.parse(foreign_mod) {
                Ok(()) => {},
                Err(error) => {
                    proof {
                        assert(parse_blocks(initial_state(), all.take(done)).1 == Some(error));
                        lemma_parse_blocks_fail(initial_state(), all, done);
                    }
                    return Err(error);
                },
            }
        }
        assert(all.take(done) =~= all);

        let ghost found = errors@;
        let ghost types = all_type_declarations@.map;
        let mut at: usize = 0;
        assert(maybe_undeclared_types@.take(0) =~= Seq::<MaybeUndeclaredType>::empty());
        while at < maybe_undeclared_types.len()
            invariant
                at <= maybe_undeclared_types@.len(),
                errors@ == with_undeclared(found, maybe_undeclared_types@.take(at as int), types),
            decreases maybe_undeclared_types@.len() - at,
        {
            proof {
                assert(maybe_undeclared_types@.take(at + 1).drop_last()
                    =~= maybe_undeclared_types@.take(at as int));
                assert(maybe_undeclared_types@.take(at + 1).last() == maybe_undeclared_types@[at as int]);
            }
            let pending = &maybe_undeclared_types[at];
            if BridgedType::new_with_str(pending.ty.as_str(), &all_type_declarations).is_none() {
                errors.push(
                    ParseError::UndeclaredType { ty: pending.ty.clone(), span: pending.span },
                );
            }
            at += 1;
        }
        assert(maybe_undeclared_types@.take(at as int) =~= maybe_undeclared_types@);
        let functions = bind_initializers(functions, &all_type_declarations);
        Ok(
            SwiftBridgeModuleAndErrors {
                module: SwiftBridgeModule { name: ident, types: all_type_declarations, functions },
                errors,
            },
        )
    }
}

/// Once the pass has ended on an annotation, the blocks behind it change
/// nothing.
pub proof fn lemma_parse_blocks_fail(state: ParserState, blocks: Seq<ItemForeignMod>, upto: int)
    requires
        0 <= upto <= blocks.len(),
        parse_blocks(state, blocks.take(upto)).1 is Some,
    ensures
        parse_blocks(state, blocks) == parse_blocks(state, blocks.take(upto)),
    decreases blocks.len(),
{
    if upto == blocks.len() {
        assert(blocks.take(upto) =~= blocks);
    } else {
        assert(blocks.drop_last().take(upto) =~= blocks.take(upto));
        lemma_parse_blocks_fail(state, blocks.drop_last(), upto);
    }
}

/// What the end of the pass does to the functions: it drops none, adds
/// none and keeps their order; it leaves a function that belongs to a type
/// with that type; and it changes nothing of a function but the type that
/// it belongs to.
pub proof fn lemma_bound_functions(
    functions: Seq<ParsedExternFn>,
    types: Map<Seq<char>, ForeignBridgedType>,
)
    ensures
        bound_all(functions, types).len() == functions.len(),
        forall|i: int|
            0 <= i < functions.len() ==> {
                let before = functions[i];
                let after = #[trigger] bound_all(functions, types)[i];
                &&& after.func == before.func
                &&& after.is_initializer == before.is_initializer
                &&& after.host_lang == before.host_lang
                &&& after.swift_name_override == before.swift_name_override
                &&& before.associated_type is Some ==> after.associated_type
                    == before.associated_type
                &&& awaited_type(before.func) is None ==> after == before
            },
{
}

/// An initializer without a receiver and without `associated_to` that
/// returns a declared type by its path belongs to that type, wherever in
/// the module the type is declared: also in a block further down.
pub proof fn lemma_initializer_finds_its_type(
    function: ParsedExternFn,
    types: Map<Seq<char>, ForeignBridgedType>,
)
    requires
        awaited_type(function.func) is Some,
        types.contains_key(awaited_type(function.func)->0),
    ensures
        bound(function, types).associated_type is Some,
        function.associated_type is None ==> bound(function, types).associated_type == Some(
            types[awaited_type(function.func)->0],
        ),
{
}

/// No module declares a type under the name of a built-in type.
pub proof fn lemma_module_declares_no_built_in_name(blocks: Seq<ItemForeignMod>)
    ensures
        no_built_in_names(parse_blocks(initial_state(), blocks).0.types.map),
    decreases blocks.len(),
{
    if blocks.len() > 0 {
        lemma_module_declares_no_built_in_name(blocks.drop_last());
        lemma_no_built_in_name_is_declared(
            parse_blocks(initial_state(), blocks.drop_last()).0,
            blocks.last(),
        );
    }
}

/// Whether nothing stands behind a noted type after all.
pub open spec fn stays_undeclared(
    pending: MaybeUndeclaredType,
    types: Map<Seq<char>, ForeignBridgedType>,
) -> bool {
    bridged_type_of(pending.ty@, types) is None
}

/// The diagnostic about a type that nothing stands behind.
pub open spec fn undeclared(pending: MaybeUndeclaredType) -> ParseError {
    ParseError::UndeclaredType { ty: pending.ty, span: pending.span }
}

/// The end of the pass yields one diagnostic, `UndeclaredType`, for each
/// noted type that nothing stands behind after all, under the name as it
/// was written and in the order in which the types were noted, and no
/// other.
pub proof fn lemma_undeclared_types(
    errors: Seq<ParseError>,
    pending: Seq<MaybeUndeclaredType>,
    types: Map<Seq<char>, ForeignBridgedType>,
)
    ensures
        with_undeclared(errors, pending, types) == errors + pending.filter(
            |noted: MaybeUndeclaredType| stays_undeclared(noted, types),
        ).map_values(|noted: MaybeUndeclaredType| undeclared(noted)),
    decreases pending.len(),
{
    reveal(Seq::filter);
    let pred = |noted: MaybeUndeclaredType| stays_undeclared(noted, types);
    let make = |noted: MaybeUndeclaredType| undeclared(noted);
    if pending.len() == 0 {
        assert(errors + pending.filter(pred).map_values(make) =~= errors);
    } else {
        let rest = pending.drop_last();
        lemma_undeclared_types(errors, rest, types);
        if pred(pending.last()) {
            assert(pending.filter(pred) == rest.filter(pred).push(pending.last()));
            assert(errors + pending.filter(pred).map_values(make) =~= (errors + rest.filter(
                pred,
            ).map_values(make)).push(make(pending.last())));
        } else {
            assert(pending.filter(pred) == rest.filter(pred));
        }
    }
}

} // verus!
