//! Which types of a module come out as undeclared.
//!
//! A type that a function names is looked up when the function is read,
//! against what has been declared by then, and noted down where nothing
//! stands behind it. At the end of the pass each noted type is looked up
//! once more, against everything that the module declares. Declarations
//! only ever add names, so a type that was found when it was read is found
//! at the end as well: the types that come out as undeclared are exactly
//! those that the signatures name and that nothing stands behind at the end.

use vstd::prelude::*;
use crate::bridge_module::{initial_state, module_errors, parse_blocks, with_undeclared};
use crate::bridged_type::bridgeable_result::{lemma_result_branches_len, result_branches};
use crate::bridged_type::{bridged_type_of, built_in_of, result_of, ForeignBridgedType};
use crate::errors::ParseError;
use crate::parse::parse_extern_mod::block_lemmas::{
    input_types, lemma_fns_declare_nothing, named_types,
};
use crate::parse::parse_extern_mod::{
    declare_types, fns_in, is_undeclared, note_inputs, note_signature, note_type, parse_block,
    parse_fns, types_in, MaybeUndeclaredType, ParserState,
};
use crate::parse::type_declarations::Registry;
use crate::parse::{
    host_lang_of, FnArg, ForeignItemFn, ForeignItemType, HostLang, ItemForeignMod, TypeRef,
};

verus! {

/// Whether `wider` holds every name that `types` holds.
pub open spec fn names_within(
    types: Map<Seq<char>, ForeignBridgedType>,
    wider: Map<Seq<char>, ForeignBridgedType>,
) -> bool {
    forall|name: Seq<char>| types.contains_key(name) ==> wider.contains_key(name)
}

/// A type that is found among some declarations is found among more.
pub proof fn lemma_found_among_more(
    text: Seq<char>,
    types: Map<Seq<char>, ForeignBridgedType>,
    wider: Map<Seq<char>, ForeignBridgedType>,
)
    requires
        names_within(types, wider),
    ensures
        bridged_type_of(text, types) is Some ==> bridged_type_of(text, wider) is Some,
        built_in_of(text, types) is Some ==> built_in_of(text, wider) is Some,
        result_of(text, types) is Some ==> result_of(text, wider) is Some,
    decreases text.len(),
{
    lemma_result_branches_len(text);
    match result_branches(text) {
        Some((ok, err)) => {
            lemma_found_among_more(ok, types, wider);
            lemma_found_among_more(err, types, wider);
        },
        None => {},
    }
}

/// The types that the functions `funcs` name, in order.
pub open spec fn types_named_by(funcs: Seq<ForeignItemFn>) -> Seq<TypeRef>
    decreases funcs.len(),
{
    if funcs.len() == 0 {
        Seq::empty()
    } else {
        types_named_by(funcs.drop_last()) + named_types(funcs.last())
    }
}

/// The types that the functions of a block name. A block whose tag names no
/// language is not read, so it names none.
pub open spec fn types_named_in_block(foreign_mod: ItemForeignMod) -> Seq<TypeRef> {
    match foreign_mod.abi.name {
        Some(abi_name) => if host_lang_of(abi_name.value@) is Some {
            types_named_by(fns_in(foreign_mod.items@))
        } else {
            Seq::empty()
        },
        None => Seq::empty(),
    }
}

/// The types that the functions of a module name: block by block, and in
/// each block function by function in source order.
pub open spec fn types_named_in(blocks: Seq<ItemForeignMod>) -> Seq<TypeRef>
    decreases blocks.len(),
{
    if blocks.len() == 0 {
        Seq::empty()
    } else {
        types_named_in(blocks.drop_last()) + types_named_in_block(blocks.last())
    }
}

/// `errors` and, behind them, one diagnostic for each of `named` that
/// nothing in `types` stands behind.
pub open spec fn with_undeclared_among(
    errors: Seq<ParseError>,
    named: Seq<TypeRef>,
    types: Map<Seq<char>, ForeignBridgedType>,
) -> Seq<ParseError>
    decreases named.len(),
{
    if named.len() == 0 {
        errors
    } else {
        let before = with_undeclared_among(errors, named.drop_last(), types);
        let last = named.last();
        if is_undeclared(last, types) {
            before.push(ParseError::UndeclaredType { ty: last.target, span: last.span })
        } else {
            before
        }
    }
}

/// What was noted down gives the diagnostics that the types `named` give,
/// looked up in `types`.
pub open spec fn noted_as_named(
    pending: Seq<MaybeUndeclaredType>,
    named: Seq<TypeRef>,
    types: Map<Seq<char>, ForeignBridgedType>,
) -> bool {
    with_undeclared(Seq::empty(), pending, types) == with_undeclared_among(
        Seq::empty(),
        named,
        types,
    )
}

proof fn lemma_note_one(
    pending: Seq<MaybeUndeclaredType>,
    named: Seq<TypeRef>,
    ty: TypeRef,
    now: Map<Seq<char>, ForeignBridgedType>,
    end: Map<Seq<char>, ForeignBridgedType>,
)
    requires
        names_within(now, end),
        noted_as_named(pending, named, end),
    ensures
        noted_as_named(note_type(pending, ty, now), named.push(ty), end),
{
    assert(named.push(ty).drop_last() =~= named);
    lemma_found_among_more(ty.target@, now, end);
    if is_undeclared(ty, now) {
        assert(note_type(pending, ty, now).drop_last() =~= pending);
    }
}

proof fn lemma_note_inputs(
    pending: Seq<MaybeUndeclaredType>,
    named: Seq<TypeRef>,
    inputs: Seq<FnArg>,
    now: Map<Seq<char>, ForeignBridgedType>,
    end: Map<Seq<char>, ForeignBridgedType>,
)
    requires
        names_within(now, end),
        noted_as_named(pending, named, end),
    ensures
        noted_as_named(note_inputs(pending, inputs, now), named + input_types(inputs), end),
    decreases inputs.len(),
{
    if inputs.len() == 0 {
        assert(named + input_types(inputs) =~= named);
    } else {
        let rest = inputs.drop_last();
        lemma_note_inputs(pending, named, rest, now, end);
        match inputs.last() {
            FnArg::Typed(arg) => {
                lemma_note_one(
                    note_inputs(pending, rest, now),
                    named + input_types(rest),
                    arg.ty,
                    now,
                    end,
                );
                assert((named + input_types(rest)).push(arg.ty) =~= named + input_types(inputs));
            },
            FnArg::Receiver(_) => {},
        }
    }
}

proof fn lemma_note_signature(
    pending: Seq<MaybeUndeclaredType>,
    named: Seq<TypeRef>,
    func: ForeignItemFn,
    now: Map<Seq<char>, ForeignBridgedType>,
    end: Map<Seq<char>, ForeignBridgedType>,
)
    requires
        names_within(now, end),
        noted_as_named(pending, named, end),
    ensures
        noted_as_named(note_signature(pending, func, now), named + named_types(func), end),
{
    lemma_note_inputs(pending, named, func.inputs@, now, end);
    match func.output {
        Some(ty) => {
            lemma_note_one(
                note_inputs(pending, func.inputs@, now),
                named + input_types(func.inputs@),
                ty,
                now,
                end,
            );
            assert((named + input_types(func.inputs@)).push(ty) =~= named + named_types(func));
        },
        None => {},
    }
}

proof fn lemma_note_fns(
    state: ParserState,
    local: Registry,
    funcs: Seq<ForeignItemFn>,
    host_lang: HostLang,
    named: Seq<TypeRef>,
    end: Map<Seq<char>, ForeignBridgedType>,
)
    requires
        parse_fns(state, local, funcs, host_lang).1 is None,
        names_within(state.types.map, end),
        noted_as_named(state.maybe_undeclared_types, named, end),
    ensures
        parse_fns(state, local, funcs, host_lang).0.types == state.types,
        noted_as_named(
            parse_fns(state, local, funcs, host_lang).0.maybe_undeclared_types,
            named + types_named_by(funcs),
            end,
        ),
    decreases funcs.len(),
{
    if funcs.len() == 0 {
        assert(named + types_named_by(funcs) =~= named);
    } else {
        let rest = funcs.drop_last();
        let before = parse_fns(state, local, rest, host_lang).0;
        lemma_note_fns(state, local, rest, host_lang, named, end);
        lemma_note_signature(
            before.maybe_undeclared_types,
            named + types_named_by(rest),
            funcs.last(),
            before.types.map,
            end,
        );
        assert((named + types_named_by(rest)) + named_types(funcs.last()) =~= named
            + types_named_by(funcs));
    }
}

/// Declaring types adds names and takes none away, and notes nothing down.
proof fn lemma_declare_types_adds_names(
    state: ParserState,
    local: Registry,
    decls: Seq<ForeignItemType>,
    host_lang: HostLang,
)
    ensures
        names_within(state.types.map, declare_types(state, local, decls, host_lang).0.types.map),
        declare_types(state, local, decls, host_lang).0.maybe_undeclared_types
            == state.maybe_undeclared_types,
    decreases decls.len(),
{
    if decls.len() > 0 {
        lemma_declare_types_adds_names(state, local, decls.drop_last(), host_lang);
    }
}

proof fn lemma_note_block(
    state: ParserState,
    foreign_mod: ItemForeignMod,
    named: Seq<TypeRef>,
    end: Map<Seq<char>, ForeignBridgedType>,
)
    requires
        parse_block(state, foreign_mod).1 is None,
        names_within(parse_block(state, foreign_mod).0.types.map, end),
        noted_as_named(state.maybe_undeclared_types, named, end),
    ensures
        names_within(state.types.map, parse_block(state, foreign_mod).0.types.map),
        noted_as_named(
            parse_block(state, foreign_mod).0.maybe_undeclared_types,
            named + types_named_in_block(foreign_mod),
            end,
        ),
{
    let here = types_named_in_block(foreign_mod);
    match foreign_mod.abi.name {
        Some(abi_name) => match host_lang_of(abi_name.value@) {
            Some(host_lang) => {
                let decls = types_in(foreign_mod.items@);
                let funcs = fns_in(foreign_mod.items@);
                let (declared, local) = declare_types(state, Registry::empty(), decls, host_lang);
                lemma_declare_types_adds_names(state, Registry::empty(), decls, host_lang);
                lemma_fns_declare_nothing(declared, local, funcs, host_lang);
                lemma_note_fns(declared, local, funcs, host_lang, named, end);
            },
            None => {
                assert(named + here =~= named);
            },
        },
        None => {
            assert(named + here =~= named);
        },
    }
}

proof fn lemma_note_blocks(
    blocks: Seq<ItemForeignMod>,
    end: Map<Seq<char>, ForeignBridgedType>,
)
    requires
        parse_blocks(initial_state(), blocks).1 is None,
        names_within(parse_blocks(initial_state(), blocks).0.types.map, end),
    ensures
        noted_as_named(
            parse_blocks(initial_state(), blocks).0.maybe_undeclared_types,
            types_named_in(blocks),
            end,
        ),
    decreases blocks.len(),
{
    if blocks.len() > 0 {
        let rest = blocks.drop_last();
        let before = parse_blocks(initial_state(), rest).0;
        lemma_block_adds_names(before, blocks.last());
        lemma_note_blocks(rest, end);
        lemma_note_block(before, blocks.last(), types_named_in(rest), end);
    }
}

/// A block adds names to the registry and takes none away.
proof fn lemma_block_adds_names(state: ParserState, foreign_mod: ItemForeignMod)
    ensures
        names_within(state.types.map, parse_block(state, foreign_mod).0.types.map),
{
    match foreign_mod.abi.name {
        Some(abi_name) => match host_lang_of(abi_name.value@) {
            Some(host_lang) => {
                let decls = types_in(foreign_mod.items@);
                let (declared, local) = declare_types(state, Registry::empty(), decls, host_lang);
                lemma_declare_types_adds_names(state, Registry::empty(), decls, host_lang);
                lemma_fns_declare_nothing(declared, local, fns_in(foreign_mod.items@), host_lang);
            },
            None => {},
        },
        None => {},
    }
}

proof fn lemma_undeclared_behind(
    errors: Seq<ParseError>,
    pending: Seq<MaybeUndeclaredType>,
    named: Seq<TypeRef>,
    types: Map<Seq<char>, ForeignBridgedType>,
)
    ensures
        with_undeclared(errors, pending, types) == errors + with_undeclared(
            Seq::empty(),
            pending,
            types,
        ),
        with_undeclared_among(errors, named, types) == errors + with_undeclared_among(
            Seq::empty(),
            named,
            types,
        ),
    decreases pending.len() + named.len(),
{
    let none = Seq::<ParseError>::empty();
    if pending.len() == 0 {
        assert(errors + none =~= errors);
    } else {
        lemma_undeclared_behind(errors, pending.drop_last(), Seq::empty(), types);
        let before = with_undeclared(none, pending.drop_last(), types);
        let last = ParseError::UndeclaredType { ty: pending.last().ty, span: pending.last().span };
        assert(errors + before.push(last) =~= (errors + before).push(last));
    }
    if named.len() == 0 {
        assert(errors + none =~= errors);
    } else {
        lemma_undeclared_behind(errors, Seq::empty(), named.drop_last(), types);
        let before = with_undeclared_among(none, named.drop_last(), types);
        let last = ParseError::UndeclaredType { ty: named.last().target, span: named.last().span };
        assert(errors + before.push(last) =~= (errors + before).push(last));
    }
}

/// Of the types that the functions of a module name, exactly those come out
/// as undeclared that neither a built-in type nor any declaration of the
/// module stands behind, wherever in the module the declaration is written:
/// one diagnostic for each time such a type is named, under the name as it
/// was written and in the order in which the functions were read, behind
/// the diagnostics of the blocks.
pub proof fn lemma_module_undeclared_types(blocks: Seq<ItemForeignMod>)
    requires
        parse_blocks(initial_state(), blocks).1 is None,
    ensures
        ({
            let state = parse_blocks(initial_state(), blocks).0;
            module_errors(state) == with_undeclared_among(
                state.errors,
                types_named_in(blocks),
                state.types.map,
            )
        }),
{
    let state = parse_blocks(initial_state(), blocks).0;
    lemma_note_blocks(blocks, state.types.map);
    lemma_undeclared_behind(
        state.errors,
        state.maybe_undeclared_types,
        types_named_in(blocks),
        state.types.map,
    );
}

} // verus!
