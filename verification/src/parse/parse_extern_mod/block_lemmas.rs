//! What holds of the pass over a block, whatever the block.

use vstd::prelude::*;
use crate::bridged_type::ForeignBridgedType;
use crate::errors::ParseError;
use crate::parse::parse_extern_mod::function_attributes::attributes_of;
use crate::parse::parse_extern_mod::{
    associated_type_of, declare_types, first_input, fns_in, is_built_in_name, is_undeclared,
    note_inputs, note_signature, noted, opaque_of, parse_block, parse_fn, parse_fns, types_in,
    MaybeUndeclaredType, ParserState,
};
use crate::parse::type_declarations::Registry;
use crate::parse::{
    host_lang_of, FnArg, ForeignItemFn, ForeignItemType, HostLang, ItemForeignMod, TypeRef,
};

verus! {

/// A block without a language tag yields exactly one diagnostic,
/// `AbiNameMissing`, and nothing else: no function and no type comes of it.
pub proof fn lemma_block_without_abi_name(state: ParserState, foreign_mod: ItemForeignMod)
    requires
        foreign_mod.abi.name is None,
    ensures
        parse_block(state, foreign_mod).1 is None,
        parse_block(state, foreign_mod).0.errors == state.errors.push(
            ParseError::AbiNameMissing { extern_token: foreign_mod.abi.extern_token },
        ),
        parse_block(state, foreign_mod).0.functions == state.functions,
        parse_block(state, foreign_mod).0.types == state.types,
        parse_block(state, foreign_mod).0.maybe_undeclared_types == state.maybe_undeclared_types,
{
}

/// A block whose language tag is neither `Rust` nor `Swift` yields exactly
/// one diagnostic, `AbiNameInvalid` with the tag as it was written, and
/// nothing else.
pub proof fn lemma_block_with_invalid_abi_name(state: ParserState, foreign_mod: ItemForeignMod)
    requires
        foreign_mod.abi.name is Some,
        foreign_mod.abi.name->0.value@ != "Rust"@,
        foreign_mod.abi.name->0.value@ != "Swift"@,
    ensures
        parse_block(state, foreign_mod).1 is None,
        parse_block(state, foreign_mod).0.errors == state.errors.push(
            ParseError::AbiNameInvalid { abi_name: foreign_mod.abi.name->0 },
        ),
        parse_block(state, foreign_mod).0.functions == state.functions,
        parse_block(state, foreign_mod).0.types == state.types,
        parse_block(state, foreign_mod).0.maybe_undeclared_types == state.maybe_undeclared_types,
{
}

/// The registry of a block holds the names that the block declares and
/// that are no names of built-in types, each once. A block with one such
/// declaration holds that type alone; a block that declares two such names
/// holds more than one.
pub proof fn lemma_block_registry(
    state: ParserState,
    decls: Seq<ForeignItemType>,
    host_lang: HostLang,
)
    ensures
        ({
            let local = declare_types(state, Registry::empty(), decls, host_lang).1;
            &&& local.wf()
            &&& forall|i: int|
                0 <= i < decls.len() ==> (local.map.contains_key(#[trigger] decls[i].ident@)
                    <==> !uses_built_in_name(decls[i]))
            &&& decls.len() == 0 ==> local.order.len() == 0
            &&& decls.len() == 1 && !uses_built_in_name(decls[0]) ==> local.order
                == seq![decls[0].ident@] && local.map[decls[0].ident@] == opaque_of(
                decls[0],
                host_lang,
            )
            &&& (exists|i: int, j: int|
                0 <= i < decls.len() && 0 <= j < decls.len() && !uses_built_in_name(decls[i])
                    && !uses_built_in_name(decls[j]) && decls[i].ident@ != decls[j].ident@)
                ==> local.order.len() > 1
        }),
    decreases decls.len(),
{
    let local = declare_types(state, Registry::empty(), decls, host_lang).1;
    if decls.len() == 0 {
        assert(Registry::empty().order.no_duplicates());
    } else {
        let rest = decls.drop_last();
        let ty = decls.last();
        let before = declare_types(state, Registry::empty(), rest, host_lang).1;
        lemma_block_registry(state, rest, host_lang);
        lemma_local_names(state, decls, host_lang);
        before.lemma_insert_wf(ty.ident@, opaque_of(ty, host_lang));
        assert forall|i: int| 0 <= i < decls.len() implies (local.map.contains_key(
            #[trigger] decls[i].ident@,
        ) <==> !uses_built_in_name(decls[i])) by {
            let name = decls[i].ident@;
            assert(local.map.contains_key(name) ==> !is_built_in_name(name));
            if i < rest.len() {
                assert(rest[i] == decls[i]);
                assert(before.map.contains_key(rest[i].ident@) <==> !uses_built_in_name(rest[i]));
            }
        }
        if decls.len() == 1 && !uses_built_in_name(decls[0]) {
            assert(rest.len() == 0);
            assert(local.order =~= seq![decls[0].ident@]);
        }
        if exists|i: int, j: int|
            0 <= i < decls.len() && 0 <= j < decls.len() && !uses_built_in_name(decls[i])
                && !uses_built_in_name(decls[j]) && decls[i].ident@ != decls[j].ident@ {
            let (i, j) = choose|i: int, j: int|
                0 <= i < decls.len() && 0 <= j < decls.len() && !uses_built_in_name(decls[i])
                    && !uses_built_in_name(decls[j]) && decls[i].ident@ != decls[j].ident@;
            let a = decls[i].ident@;
            let b = decls[j].ident@;
            assert(local.map.contains_key(a));
            assert(local.map.contains_key(b));
            assert(local.order.contains(a));
            assert(local.order.contains(b));
            let x = choose|x: int| 0 <= x < local.order.len() && local.order[x] == a;
            let y = choose|y: int| 0 <= y < local.order.len() && local.order[y] == b;
            assert(x != y);
        }
    }
}

/// Whether no name of `types` is the name of a built-in type.
pub open spec fn no_built_in_names(types: Map<Seq<char>, ForeignBridgedType>) -> bool {
    forall|name: Seq<char>| types.contains_key(name) ==> !is_built_in_name(name)
}

proof fn lemma_local_names(state: ParserState, decls: Seq<ForeignItemType>, host_lang: HostLang)
    ensures
        no_built_in_names(declare_types(state, Registry::empty(), decls, host_lang).1.map),
    decreases decls.len(),
{
    if decls.len() > 0 {
        lemma_local_names(state, decls.drop_last(), host_lang);
    }
}

/// No pass over a block brings the name of a built-in type into the
/// registry of the module: a declared type never stands in the way of a
/// built-in one.
pub proof fn lemma_no_built_in_name_is_declared(state: ParserState, foreign_mod: ItemForeignMod)
    requires
        no_built_in_names(state.types.map),
    ensures
        no_built_in_names(parse_block(state, foreign_mod).0.types.map),
{
    match foreign_mod.abi.name {
        Some(abi_name) => match host_lang_of(abi_name.value@) {
            Some(host_lang) => {
                let decls = types_in(foreign_mod.items@);
                let (declared, local) = declare_types(state, Registry::empty(), decls, host_lang);
                lemma_declared_names(state, Registry::empty(), decls, host_lang);
                lemma_fns_declare_nothing(declared, local, fns_in(foreign_mod.items@), host_lang);
            },
            None => {},
        },
        None => {},
    }
}

proof fn lemma_declared_names(
    state: ParserState,
    local: Registry,
    decls: Seq<ForeignItemType>,
    host_lang: HostLang,
)
    requires
        no_built_in_names(state.types.map),
    ensures
        no_built_in_names(declare_types(state, local, decls, host_lang).0.types.map),
    decreases decls.len(),
{
    if decls.len() > 0 {
        lemma_declared_names(state, local, decls.drop_last(), host_lang);
    }
}

/// The functions of a block declare no type.
pub proof fn lemma_fns_declare_nothing(
    state: ParserState,
    local: Registry,
    funcs: Seq<ForeignItemFn>,
    host_lang: HostLang,
)
    ensures
        parse_fns(state, local, funcs, host_lang).0.types == state.types,
    decreases funcs.len(),
{
    if funcs.len() > 0 {
        lemma_fns_declare_nothing(state, local, funcs.drop_last(), host_lang);
    }
}

/// A function that takes `self` without a type belongs to the one type that
/// its block declares. Where the block declares none or several, the
/// function belongs to no type and one diagnostic, `AmbiguousSelf`, says so.
pub proof fn lemma_implicit_receiver(
    state: ParserState,
    local: Registry,
    func: ForeignItemFn,
    host_lang: HostLang,
)
    requires
        func.inputs@.len() > 0,
        func.inputs@[0] is Receiver,
        attributes_of(func.attrs@) is Ok,
    ensures
        parse_fn(state, local, func, host_lang) is Ok,
        ({
            let after = parse_fn(state, local, func, host_lang)->Ok_0;
            let resolved = after.functions.last();
            &&& after.functions == state.functions.push(resolved)
            &&& resolved.func == func
            &&& local.order.len() == 1 ==> {
                &&& resolved.associated_type == Some(local.map[local.order[0]])
                &&& after.errors == state.errors
            }
            &&& local.order.len() != 1 ==> {
                &&& resolved.associated_type is None
                &&& after.errors == state.errors.push(
                    ParseError::AmbiguousSelf { self_: func.inputs@[0]->Receiver_0.span },
                )
            }
        }),
{
}

/// Whether a type declaration uses the name of a built-in type.
pub open spec fn uses_built_in_name(ty: ForeignItemType) -> bool {
    is_built_in_name(ty.ident@)
}

/// The diagnostic about a type declaration that uses the name of a built-in
/// type.
pub open spec fn declared_built_in(ty: ForeignItemType) -> ParseError {
    ParseError::DeclaredBuiltInType { ty }
}

/// The type declarations of a block yield one diagnostic,
/// `DeclaredBuiltInType`, for each declaration that uses the name of a
/// built-in type, in source order, and no other.
pub proof fn lemma_declared_built_in_types(
    state: ParserState,
    local: Registry,
    decls: Seq<ForeignItemType>,
    host_lang: HostLang,
)
    ensures
        declare_types(state, local, decls, host_lang).0.errors == state.errors + decls.filter(
            |ty: ForeignItemType| uses_built_in_name(ty),
        ).map_values(|ty: ForeignItemType| declared_built_in(ty)),
        declare_types(state, local, decls, host_lang).0.functions == state.functions,
        declare_types(state, local, decls, host_lang).0.maybe_undeclared_types
            == state.maybe_undeclared_types,
    decreases decls.len(),
{
    reveal(Seq::filter);
    let pred = |ty: ForeignItemType| uses_built_in_name(ty);
    let make = |ty: ForeignItemType| declared_built_in(ty);
    if decls.len() == 0 {
        assert(state.errors + decls.filter(pred).map_values(make) =~= state.errors);
    } else {
        let rest = decls.drop_last();
        lemma_declared_built_in_types(state, local, rest, host_lang);
        let before = declare_types(state, local, rest, host_lang).0;
        if pred(decls.last()) {
            assert(decls.filter(pred) == rest.filter(pred).push(decls.last()));
            assert(state.errors + decls.filter(pred).map_values(make) =~= (state.errors
                + rest.filter(pred).map_values(make)).push(make(decls.last())));
        } else {
            assert(decls.filter(pred) == rest.filter(pred));
        }
    }
}

/// The types that the parameters `inputs` name, in order.
pub open spec fn input_types(inputs: Seq<FnArg>) -> Seq<TypeRef>
    decreases inputs.len(),
{
    if inputs.len() == 0 {
        Seq::empty()
    } else {
        match inputs.last() {
            FnArg::Typed(arg) => input_types(inputs.drop_last()).push(arg.ty),
            FnArg::Receiver(_) => input_types(inputs.drop_last()),
        }
    }
}

/// The types that `func` names: those of its parameters, in order, then
/// that of its result.
pub open spec fn named_types(func: ForeignItemFn) -> Seq<TypeRef> {
    match func.output {
        Some(ty) => input_types(func.inputs@).push(ty),
        None => input_types(func.inputs@),
    }
}

/// Of the types that a function names, one is noted down for each that
/// nothing stands behind, under the name as it was written and in the order
/// of the signature; a name that stands there twice is noted twice.
pub proof fn lemma_noted_types(
    pending: Seq<MaybeUndeclaredType>,
    func: ForeignItemFn,
    types: Map<Seq<char>, ForeignBridgedType>,
)
    ensures
        note_signature(pending, func, types) == pending + named_types(func).filter(
            |ty: TypeRef| is_undeclared(ty, types),
        ).map_values(|ty: TypeRef| noted(ty)),
{
    reveal(Seq::filter);
    let pred = |ty: TypeRef| is_undeclared(ty, types);
    let make = |ty: TypeRef| noted(ty);
    lemma_noted_inputs(pending, func.inputs@, types);
    let inputs = input_types(func.inputs@);
    match func.output {
        Some(ty) => {
            let all = inputs.push(ty);
            assert(all.drop_last() =~= inputs);
            if pred(ty) {
                assert(all.filter(pred) == inputs.filter(pred).push(ty));
                assert(pending + all.filter(pred).map_values(make) =~= (pending + inputs.filter(
                    pred,
                ).map_values(make)).push(make(ty)));
            } else {
                assert(all.filter(pred) == inputs.filter(pred));
            }
        },
        None => {},
    }
}

proof fn lemma_noted_inputs(
    pending: Seq<MaybeUndeclaredType>,
    inputs: Seq<FnArg>,
    types: Map<Seq<char>, ForeignBridgedType>,
)
    ensures
        note_inputs(pending, inputs, types) == pending + input_types(inputs).filter(
            |ty: TypeRef| is_undeclared(ty, types),
        ).map_values(|ty: TypeRef| noted(ty)),
    decreases inputs.len(),
{
    reveal(Seq::filter);
    let pred = |ty: TypeRef| is_undeclared(ty, types);
    let make = |ty: TypeRef| noted(ty);
    if inputs.len() == 0 {
        assert(pending + input_types(inputs).filter(pred).map_values(make) =~= pending);
    } else {
        let rest = inputs.drop_last();
        lemma_noted_inputs(pending, rest, types);
        match inputs.last() {
            FnArg::Typed(arg) => {
                let all = input_types(rest).push(arg.ty);
                assert(all.drop_last() =~= input_types(rest));
                if pred(arg.ty) {
                    assert(all.filter(pred) == input_types(rest).filter(pred).push(arg.ty));
                    assert(pending + all.filter(pred).map_values(make) =~= (pending + input_types(
                        rest,
                    ).filter(pred).map_values(make)).push(make(arg.ty)));
                } else {
                    assert(all.filter(pred) == input_types(rest).filter(pred));
                }
            },
            FnArg::Receiver(_) => {},
        }
    }
}

/// The type that a function of a block belongs to, given what the block's
/// own registry and the registry of the module hold.
pub open spec fn resolved_type(
    func: ForeignItemFn,
    local: Registry,
    types: Map<Seq<char>, ForeignBridgedType>,
) -> Option<ForeignBridgedType>
    recommends
        attributes_of(func.attrs@) is Ok,
{
    match associated_type_of(
        first_input(func),
        func,
        attributes_of(func.attrs@)->Ok_0,
        local,
        types,
    ) {
        Ok(ty) => ty,
        Err(_) => None,
    }
}

/// Where no annotation ends the pass, every function of a block yields one
/// record, in source order and behind the records that were there. The
/// functions declare no type, so each is resolved against the same
/// registries.
pub proof fn lemma_block_functions(
    state: ParserState,
    local: Registry,
    funcs: Seq<ForeignItemFn>,
    host_lang: HostLang,
)
    requires
        parse_fns(state, local, funcs, host_lang).1 is None,
    ensures
        ({
            let after = parse_fns(state, local, funcs, host_lang).0;
            &&& after.types == state.types
            &&& after.functions.len() == state.functions.len() + funcs.len()
            &&& after.functions.take(state.functions.len() as int) == state.functions
            &&& forall|k: int|
                0 <= k < funcs.len() ==> {
                    let record = #[trigger] after.functions[state.functions.len() + k];
                    &&& attributes_of(funcs[k].attrs@) is Ok
                    &&& record.func == funcs[k]
                    &&& record.host_lang == host_lang
                    &&& record.is_initializer == attributes_of(funcs[k].attrs@)->Ok_0.is_initializer
                    &&& record.swift_name_override == attributes_of(
                        funcs[k].attrs@,
                    )->Ok_0.swift_name
                    &&& record.associated_type == resolved_type(funcs[k], local, state.types.map)
                }
        }),
    decreases funcs.len(),
{
    let after = parse_fns(state, local, funcs, host_lang).0;
    if funcs.len() == 0 {
        assert(after.functions.take(state.functions.len() as int) =~= state.functions);
    } else {
        let rest = funcs.drop_last();
        let before = parse_fns(state, local, rest, host_lang).0;
        lemma_block_functions(state, local, rest, host_lang);
        assert(after.functions.take(state.functions.len() as int) =~= before.functions.take(
            state.functions.len() as int,
        ));
        assert forall|k: int| 0 <= k < funcs.len() implies {
            let record = #[trigger] after.functions[state.functions.len() + k];
            &&& attributes_of(funcs[k].attrs@) is Ok
            &&& record.func == funcs[k]
            &&& record.host_lang == host_lang
            &&& record.is_initializer == attributes_of(funcs[k].attrs@)->Ok_0.is_initializer
            &&& record.swift_name_override == attributes_of(funcs[k].attrs@)->Ok_0.swift_name
            &&& record.associated_type == resolved_type(funcs[k], local, state.types.map)
        } by {
            if k < rest.len() {
                assert(rest[k] == funcs[k]);
                assert(after.functions[state.functions.len() + k]
                    == before.functions[state.functions.len() + k]);
            }
        }
    }
}

/// In a block that is read to its end, a function that takes `self` without
/// a type belongs to the type that the block declares, where it declares
/// exactly one; where it declares two under different names, the function
/// belongs to no type. A declaration under the name of a built-in type
/// declares nothing.
pub proof fn lemma_implicit_receiver_in_block(
    state: ParserState,
    foreign_mod: ItemForeignMod,
    host_lang: HostLang,
    k: int,
)
    requires
        foreign_mod.abi.name is Some,
        host_lang_of(foreign_mod.abi.name->0.value@) == Some(host_lang),
        parse_block(state, foreign_mod).1 is None,
        0 <= k < fns_in(foreign_mod.items@).len(),
        first_input(fns_in(foreign_mod.items@)[k]) matches Some(first) && first is Receiver,
    ensures
        ({
            let decls = types_in(foreign_mod.items@);
            let after = parse_block(state, foreign_mod).0;
            let record = after.functions[state.functions.len() + k];
            &&& state.functions.len() + k < after.functions.len()
            &&& record.func == fns_in(foreign_mod.items@)[k]
            &&& decls.len() == 1 && !uses_built_in_name(decls[0]) ==> record.associated_type
                == Some(opaque_of(decls[0], host_lang))
            &&& (exists|i: int, j: int|
                0 <= i < decls.len() && 0 <= j < decls.len() && !uses_built_in_name(decls[i])
                    && !uses_built_in_name(decls[j]) && decls[i].ident@ != decls[j].ident@)
                ==> record.associated_type is None
        }),
{
    let decls = types_in(foreign_mod.items@);
    let funcs = fns_in(foreign_mod.items@);
    let (declared, local) = declare_types(state, Registry::empty(), decls, host_lang);
    lemma_block_registry(state, decls, host_lang);
    lemma_declared_built_in_types(state, Registry::empty(), decls, host_lang);
    lemma_block_functions(declared, local, funcs, host_lang);
    let after = parse_fns(declared, local, funcs, host_lang).0;
    assert(after.functions[declared.functions.len() + k].func == funcs[k]);
}

} // verus!
