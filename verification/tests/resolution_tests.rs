use proc_macro2::Span;
use swift_bridge_ir::bridge_module::SwiftBridgeModule;
use swift_bridge_ir::errors::{ParseError, ParseErrors};
use swift_bridge_ir::parse::parse_extern_mod::function_attributes::AttributeErrorKind;
use swift_bridge_ir::parse::parse_extern_mod::{ForeignModParser, MaybeUndeclaredType};
use swift_bridge_ir::parse::type_declarations::TypeDeclarations;
use swift_bridge_ir::parse::{
    Abi, AbiName, Attribute, FnArg, ForeignItem, ForeignItemFn, ForeignItemType, HostLang,
    ItemForeignMod, ItemMod, PatType, Receiver, TypeRef, TypeRefKind,
};
use swift_bridge_ir::parsed_extern_fn::ParsedExternFn;

fn span() -> Span {
    Span::call_site()
}

fn block(tag: Option<&str>, items: Vec<ForeignItem>) -> ItemForeignMod {
    ItemForeignMod {
        abi: Abi {
            extern_token: span(),
            name: tag.map(|tag| AbiName { value: tag.to_string(), span: span() }),
        },
        items,
    }
}

fn module(blocks: Vec<ItemForeignMod>) -> ItemMod {
    ItemMod { ident: "ffi".to_string(), blocks }
}

fn ty(name: &str) -> ForeignItem {
    ForeignItem::Type(ForeignItemType { ident: name.to_string(), span: span() })
}

fn path(target: &str) -> TypeRef {
    TypeRef { kind: TypeRefKind::Path, target: target.to_string(), span: span() }
}

fn reference(target: &str) -> TypeRef {
    TypeRef {
        kind: TypeRefKind::Reference { mutable: false },
        target: target.to_string(),
        span: span(),
    }
}

fn pointer(target: &str) -> TypeRef {
    TypeRef { kind: TypeRefKind::Pointer { mutable: true }, target: target.to_string(), span: span() }
}

fn other(target: &str) -> TypeRef {
    TypeRef { kind: TypeRefKind::Other, target: target.to_string(), span: span() }
}

fn arg(name: &str, ty: TypeRef) -> FnArg {
    FnArg::Typed(PatType { ident: name.to_string(), ty })
}

fn receiver() -> FnArg {
    FnArg::Receiver(Receiver { reference: true, mutable: false, span: span() })
}

fn attr(key: &str, value: Option<&str>) -> Attribute {
    Attribute { key: key.to_string(), value: value.map(str::to_string), span: span() }
}

fn func(
    name: &str,
    attrs: Vec<Attribute>,
    inputs: Vec<FnArg>,
    output: Option<TypeRef>,
) -> ForeignItem {
    ForeignItem::Fn(ForeignItemFn { attrs, ident: name.to_string(), inputs, output, span: span() })
}

struct Parsed {
    name: String,
    types: TypeDeclarations,
    functions: Vec<ParsedExternFn>,
    errors: Vec<ParseError>,
}

fn parse(blocks: Vec<ItemForeignMod>) -> Parsed {
    let parsed = SwiftBridgeModule::parse(module(blocks)).unwrap();
    Parsed {
        name: parsed.module.name,
        types: parsed.module.types,
        functions: parsed.module.functions,
        errors: parsed.errors.into_vec(),
    }
}

fn associated(function: &ParsedExternFn) -> Option<String> {
    function.associated_type.as_ref().map(|ty| ty.unwrap_opaque().ty.ident.clone())
}

fn undeclared(errors: &[ParseError]) -> Vec<String> {
    errors
        .iter()
        .map(|error| match error {
            ParseError::UndeclaredType { ty, .. } => ty.clone(),
            other => panic!("{:?}", other),
        })
        .collect()
}

#[test]
fn a_module_keeps_its_name() {
    let parsed = parse(vec![]);
    assert_eq!(parsed.name, "ffi");
    assert_eq!(parsed.types.len(), 0);
    assert!(parsed.functions.is_empty());
    assert!(parsed.errors.is_empty());
}

#[test]
fn a_block_without_a_tag_gives_one_diagnostic_and_nothing_else() {
    let parsed = parse(vec![block(
        None,
        vec![ty("Foo"), func("bar", vec![], vec![arg("x", path("Nope"))], None)],
    )]);
    assert_eq!(parsed.errors.len(), 1);
    assert!(matches!(parsed.errors[0], ParseError::AbiNameMissing { .. }));
    assert!(parsed.functions.is_empty());
    assert_eq!(parsed.types.len(), 0);
}

#[test]
fn a_block_with_an_unknown_tag_gives_one_diagnostic_with_the_tag() {
    for tag in ["SomeAbi", "rust", "C", "", "Rust ", "swift"] {
        let parsed =
            parse(vec![block(Some(tag), vec![ty("Foo"), func("bar", vec![], vec![], None)])]);
        assert_eq!(parsed.errors.len(), 1);
        match &parsed.errors[0] {
            ParseError::AbiNameInvalid { abi_name } => assert_eq!(abi_name.value, tag),
            _ => panic!(),
        }
        assert!(parsed.functions.is_empty());
        assert_eq!(parsed.types.len(), 0);
    }
}

#[test]
fn the_blocks_behind_a_bad_block_are_still_read() {
    let parsed = parse(vec![
        block(None, vec![]),
        block(Some("SomeAbi"), vec![]),
        block(Some("Swift"), vec![ty("Foo"), func("bar", vec![], vec![receiver()], None)]),
    ]);
    assert_eq!(parsed.errors.len(), 2);
    assert!(matches!(parsed.errors[0], ParseError::AbiNameMissing { .. }));
    assert!(matches!(parsed.errors[1], ParseError::AbiNameInvalid { .. }));
    assert_eq!(parsed.functions.len(), 1);
    assert_eq!(parsed.functions[0].host_lang, HostLang::Swift);
    assert_eq!(associated(&parsed.functions[0]).as_deref(), Some("Foo"));
    assert_eq!(parsed.types.get("Foo").unwrap().unwrap_opaque().host_lang, HostLang::Swift);
}

#[test]
fn an_implicit_receiver_is_the_one_type_of_the_block() {
    let parsed = parse(vec![block(
        Some("Rust"),
        vec![func("bar", vec![], vec![receiver()], None), ty("Foo")],
    )]);
    assert!(parsed.errors.is_empty());
    assert_eq!(parsed.functions.len(), 1);
    assert_eq!(associated(&parsed.functions[0]).as_deref(), Some("Foo"));
    assert_eq!(parsed.functions[0].host_lang, HostLang::Rust);
    assert!(!parsed.functions[0].is_initializer);
}

#[test]
fn an_implicit_receiver_among_several_types_is_ambiguous() {
    let parsed = parse(vec![block(
        Some("Rust"),
        vec![ty("A"), ty("B"), func("bar", vec![], vec![receiver()], None)],
    )]);
    assert_eq!(parsed.errors.len(), 1);
    assert!(matches!(parsed.errors[0], ParseError::AmbiguousSelf { .. }));
    assert_eq!(parsed.functions.len(), 1);
    assert!(parsed.functions[0].associated_type.is_none());
}

#[test]
fn an_implicit_receiver_without_a_type_in_the_block_is_ambiguous() {
    let parsed = parse(vec![
        block(Some("Rust"), vec![ty("A")]),
        block(Some("Rust"), vec![func("bar", vec![], vec![receiver()], None)]),
    ]);
    assert_eq!(parsed.errors.len(), 1);
    assert!(matches!(parsed.errors[0], ParseError::AmbiguousSelf { .. }));
    assert!(parsed.functions[0].associated_type.is_none());
}

#[test]
fn a_type_declared_twice_in_a_block_is_one_type() {
    let parsed = parse(vec![block(
        Some("Rust"),
        vec![ty("A"), ty("A"), func("bar", vec![], vec![receiver()], None)],
    )]);
    assert!(parsed.errors.is_empty());
    assert_eq!(associated(&parsed.functions[0]).as_deref(), Some("A"));
    assert_eq!(parsed.types.len(), 1);
}

#[test]
fn each_declaration_under_a_built_in_name_gives_one_diagnostic() {
    let parsed = parse(vec![block(
        Some("Rust"),
        vec![ty("u8"), ty("Foo"), ty("bool"), ty("()"), ty("u8")],
    )]);
    assert_eq!(parsed.errors.len(), 4);
    let names: Vec<String> = parsed
        .errors
        .iter()
        .map(|error| match error {
            ParseError::DeclaredBuiltInType { ty } => ty.ident.clone(),
            _ => panic!(),
        })
        .collect();
    assert_eq!(names, vec!["u8", "bool", "()", "u8"]);
}

#[test]
fn a_declaration_under_a_built_in_name_declares_nothing() {
    let parsed = parse(vec![block(
        Some("Rust"),
        vec![ty("u8"), ty("Foo"), func("bar", vec![], vec![receiver()], None)],
    )]);
    assert!(!parsed.types.contains_key("u8"));
    assert!(parsed.types.contains_key("Foo"));
    assert_eq!(parsed.types.len(), 1);
    assert_eq!(parsed.errors.len(), 1);
    assert_eq!(associated(&parsed.functions[0]).as_deref(), Some("Foo"));
}

#[test]
fn a_block_that_declares_only_built_in_names_has_no_type_for_self() {
    let parsed = parse(vec![block(
        Some("Rust"),
        vec![ty("u8"), func("bar", vec![], vec![receiver()], None)],
    )]);
    assert_eq!(parsed.errors.len(), 2);
    assert!(matches!(parsed.errors[0], ParseError::DeclaredBuiltInType { .. }));
    assert!(matches!(parsed.errors[1], ParseError::AmbiguousSelf { .. }));
    assert!(parsed.functions[0].associated_type.is_none());
}

#[test]
fn each_undeclared_type_of_a_signature_gives_one_diagnostic() {
    let parsed = parse(vec![block(
        Some("Rust"),
        vec![
            ty("Known"),
            func(
                "f",
                vec![],
                vec![
                    arg("a", path("A")),
                    arg("k", path("Known")),
                    arg("b", reference("B")),
                    arg("n", path("u8")),
                    arg("c", pointer("C")),
                ],
                Some(path("D")),
            ),
        ],
    )]);
    assert_eq!(undeclared(&parsed.errors), vec!["A", "B", "C", "D"]);
    assert_eq!(parsed.functions.len(), 1);
}

#[test]
fn two_parameters_of_one_undeclared_type_give_two_diagnostics() {
    let parsed = parse(vec![block(
        Some("Rust"),
        vec![func("bar", vec![], vec![arg("bazz", path("Bar")), arg("other", path("Bar"))], None)],
    )]);
    assert_eq!(undeclared(&parsed.errors), vec!["Bar", "Bar"]);
}

#[test]
fn a_result_of_known_types_is_declared() {
    let parsed = parse(vec![block(
        Some("Rust"),
        vec![
            ty("Foo"),
            func("f", vec![], vec![arg("a", path("Result < Foo , () >"))], Some(path("()"))),
            func("g", vec![], vec![], Some(path("Result < Bar , () >"))),
        ],
    )]);
    assert_eq!(undeclared(&parsed.errors), vec!["Result < Bar , () >"]);
}

#[test]
fn a_result_of_a_type_of_a_later_block_is_declared() {
    let parsed = parse(vec![
        block(Some("Rust"), vec![func("f", vec![], vec![], Some(path("Result < Foo , () >")))]),
        block(Some("Rust"), vec![ty("Foo")]),
    ]);
    assert!(parsed.errors.is_empty());
}

#[test]
fn an_initializer_belongs_to_a_type_of_an_earlier_block() {
    let parsed = parse(vec![
        block(Some("Rust"), vec![ty("Foo")]),
        block(
            Some("Rust"),
            vec![func("make", vec![attr("init", None)], vec![], Some(path("Foo")))],
        ),
    ]);
    assert!(parsed.errors.is_empty());
    assert_eq!(parsed.functions.len(), 1);
    assert!(parsed.functions[0].is_initializer);
    assert_eq!(associated(&parsed.functions[0]).as_deref(), Some("Foo"));
}

#[test]
fn an_initializer_that_returns_a_reference_gives_a_diagnostic() {
    let parsed = parse(vec![block(
        Some("Rust"),
        vec![ty("Foo"), func("make", vec![attr("init", None)], vec![], Some(reference("Foo")))],
    )]);
    assert_eq!(parsed.errors.len(), 1);
    match &parsed.errors[0] {
        ParseError::InitializerReturnsNoDeclaredType { ty, .. } => assert_eq!(ty, "Foo"),
        _ => panic!(),
    }
    assert!(parsed.functions[0].is_initializer);
    assert!(parsed.functions[0].associated_type.is_none());
}

#[test]
fn an_initializer_that_returns_a_built_in_type_gives_a_diagnostic() {
    for name in ["u8", "()", "Result < () , () >"] {
        let parsed = parse(vec![block(
            Some("Rust"),
            vec![func("make", vec![attr("init", None)], vec![], Some(path(name)))],
        )]);
        assert_eq!(parsed.errors.len(), 1);
        match &parsed.errors[0] {
            ParseError::InitializerReturnsNoDeclaredType { ty, .. } => assert_eq!(ty, name),
            _ => panic!(),
        }
        assert_eq!(parsed.functions.len(), 1);
        assert!(parsed.functions[0].associated_type.is_none());
    }
}

#[test]
fn an_initializer_belongs_to_a_type_of_a_later_block() {
    let parsed = parse(vec![
        block(
            Some("Rust"),
            vec![
                func("make", vec![attr("init", None)], vec![arg("n", path("u8"))], Some(path("Foo"))),
                func("free", vec![], vec![], Some(path("Foo"))),
                func("lost", vec![attr("init", None)], vec![], Some(path("Bar"))),
            ],
        ),
        block(Some("Swift"), vec![ty("Foo")]),
    ]);
    assert_eq!(undeclared(&parsed.errors), vec!["Bar"]);
    assert!(parsed.functions[0].is_initializer);
    assert_eq!(associated(&parsed.functions[0]).as_deref(), Some("Foo"));
    assert_eq!(
        parsed.functions[0].associated_type.as_ref().unwrap().unwrap_opaque().host_lang,
        HostLang::Swift
    );
    assert_eq!(parsed.functions[0].host_lang, HostLang::Rust);
    assert!(parsed.functions[1].associated_type.is_none());
    assert!(parsed.functions[2].associated_type.is_none());
}

#[test]
fn within_one_block_pass_an_initializer_is_not_tied_to_a_later_type() {
    let mut errors = ParseErrors::new();
    let mut all_type_declarations = TypeDeclarations::new();
    let mut functions: Vec<ParsedExternFn> = vec![];
    let mut maybe_undeclared_types: Vec<MaybeUndeclaredType> = vec![];
    ForeignModParser {
        errors: &mut errors,
        all_type_declarations: &mut all_type_declarations,
        functions: &mut functions,
        maybe_undeclared_types: &mut maybe_undeclared_types,
    }
    .parse(block(
        Some("Rust"),
        vec![func("make", vec![attr("init", None)], vec![], Some(path("Foo")))],
    ))
    .unwrap();
    assert!(functions[0].associated_type.is_none());
    assert!(errors.is_empty());
    assert_eq!(maybe_undeclared_types[0].ty, "Foo");
}

#[test]
fn an_initializer_without_a_result_gives_a_diagnostic() {
    let parsed = parse(vec![block(
        Some("Rust"),
        vec![ty("Foo"), func("make", vec![attr("init", None)], vec![], None)],
    )]);
    assert_eq!(parsed.errors.len(), 1);
    assert!(matches!(parsed.errors[0], ParseError::InitializerWithoutReturnType { .. }));
    assert_eq!(parsed.functions.len(), 1);
    assert!(parsed.functions[0].is_initializer);
    assert!(parsed.functions[0].associated_type.is_none());
}

#[test]
fn a_function_tied_to_an_undeclared_type_gives_a_diagnostic() {
    let parsed = parse(vec![block(
        Some("Rust"),
        vec![func("bar", vec![attr("associated_to", Some("Foo"))], vec![], None)],
    )]);
    assert_eq!(parsed.errors.len(), 1);
    match &parsed.errors[0] {
        ParseError::AssociatedTypeNotFound { ty, .. } => assert_eq!(ty, "Foo"),
        _ => panic!(),
    }
    assert!(parsed.functions[0].associated_type.is_none());
}

#[test]
fn a_typed_self_of_an_undeclared_type_gives_two_diagnostics() {
    let parsed = parse(vec![block(
        Some("Rust"),
        vec![func("bar", vec![], vec![arg("self", path("Foo"))], None)],
    )]);
    assert_eq!(parsed.errors.len(), 2);
    match &parsed.errors[0] {
        ParseError::AssociatedTypeNotFound { ty, .. } => assert_eq!(ty, "Foo"),
        _ => panic!(),
    }
    match &parsed.errors[1] {
        ParseError::UndeclaredType { ty, .. } => assert_eq!(ty, "Foo"),
        _ => panic!(),
    }
}

#[test]
fn a_typed_self_names_its_type_among_several() {
    let parsed = parse(vec![
        block(Some("Rust"), vec![ty("A")]),
        block(
            Some("Rust"),
            vec![
                ty("B"),
                ty("C"),
                func("a", vec![], vec![arg("self", path("A"))], None),
                func("b", vec![], vec![arg("self", reference("B"))], None),
                func("c", vec![], vec![arg("self", pointer("C"))], None),
            ],
        ),
    ]);
    assert!(parsed.errors.is_empty());
    let found: Vec<Option<String>> = parsed.functions.iter().map(associated).collect();
    assert_eq!(
        found,
        vec![Some("A".to_string()), Some("B".to_string()), Some("C".to_string())]
    );
}

#[test]
fn a_first_parameter_that_is_not_self_is_no_receiver() {
    let parsed = parse(vec![block(
        Some("Rust"),
        vec![
            ty("Foo"),
            func("free", vec![], vec![arg("this", path("Foo"))], None),
            func(
                "tied",
                vec![attr("associated_to", Some("Foo"))],
                vec![arg("n", path("u8"))],
                None,
            ),
            func("plain", vec![], vec![], None),
        ],
    )]);
    assert!(parsed.errors.is_empty());
    let found: Vec<Option<String>> = parsed.functions.iter().map(associated).collect();
    assert_eq!(found, vec![None, Some("Foo".to_string()), None]);
}

#[test]
fn an_explicit_type_wins_over_an_initializer() {
    let parsed = parse(vec![block(
        Some("Rust"),
        vec![
            ty("A"),
            ty("B"),
            func(
                "make",
                vec![attr("init", None), attr("associated_to", Some("A"))],
                vec![],
                Some(path("B")),
            ),
        ],
    )]);
    assert!(parsed.errors.is_empty());
    assert!(parsed.functions[0].is_initializer);
    assert_eq!(associated(&parsed.functions[0]).as_deref(), Some("A"));
}

#[test]
fn the_name_on_the_other_side_is_kept() {
    let parsed = parse(vec![block(
        Some("Rust"),
        vec![
            func("bar", vec![attr("swift_name", Some("makeBar"))], vec![], None),
            func("baz", vec![], vec![], None),
        ],
    )]);
    assert_eq!(parsed.functions[0].swift_name_override.as_deref(), Some("makeBar"));
    assert_eq!(parsed.functions[0].func.ident, "bar");
    assert!(parsed.functions[1].swift_name_override.is_none());
}

#[test]
fn types_are_declared_before_functions_are_resolved() {
    let parsed = parse(vec![block(
        Some("Rust"),
        vec![
            func("second", vec![], vec![arg("self", path("Late"))], None),
            ForeignItem::Other,
            func("third", vec![], vec![], Some(path("Late"))),
            ty("Late"),
        ],
    )]);
    assert!(parsed.errors.is_empty());
    let names: Vec<&str> = parsed.functions.iter().map(|f| f.func.ident.as_str()).collect();
    assert_eq!(names, vec!["second", "third"]);
    assert_eq!(associated(&parsed.functions[0]).as_deref(), Some("Late"));
}

#[test]
fn functions_and_types_keep_their_source_order() {
    let parsed = parse(vec![
        block(
            Some("Rust"),
            vec![func("a", vec![], vec![], None), ty("X"), func("b", vec![], vec![], None), ty("Y")],
        ),
        block(Some("Swift"), vec![ty("Z"), func("c", vec![], vec![], None)]),
    ]);
    let functions: Vec<&str> = parsed.functions.iter().map(|f| f.func.ident.as_str()).collect();
    assert_eq!(functions, vec!["a", "b", "c"]);
    let types: Vec<String> =
        parsed.types.types().iter().map(|ty| ty.unwrap_opaque().ty.ident.clone()).collect();
    assert_eq!(types, vec!["X", "Y", "Z"]);
}

#[test]
fn diagnostics_come_in_the_order_in_which_they_were_found() {
    let parsed = parse(vec![
        block(
            Some("Rust"),
            vec![
                func("a", vec![], vec![receiver()], Some(path("Nope"))),
                ty("u8"),
                ty("Foo"),
                ty("Bar"),
            ],
        ),
        block(None, vec![]),
    ]);
    assert_eq!(parsed.errors.len(), 4);
    assert!(matches!(parsed.errors[0], ParseError::DeclaredBuiltInType { .. }));
    assert!(matches!(parsed.errors[1], ParseError::AmbiguousSelf { .. }));
    assert!(matches!(parsed.errors[2], ParseError::AbiNameMissing { .. }));
    assert!(matches!(parsed.errors[3], ParseError::UndeclaredType { .. }));
}

#[test]
fn an_annotation_that_cannot_be_decoded_ends_the_pass() {
    let outcome = SwiftBridgeModule::parse(module(vec![block(
        Some("Rust"),
        vec![func("bar", vec![attr("bogus", None)], vec![], None)],
    )]));
    let error = outcome.unwrap_err();
    assert_eq!(error.kind, AttributeErrorKind::UnknownKey);
    assert_eq!(error.key, "bogus");
}

#[test]
fn what_stood_before_a_bad_annotation_stays() {
    let mut errors = ParseErrors::new();
    let mut all_type_declarations = TypeDeclarations::new();
    let mut functions: Vec<ParsedExternFn> = vec![];
    let mut maybe_undeclared_types: Vec<MaybeUndeclaredType> = vec![];
    let outcome = ForeignModParser {
        errors: &mut errors,
        all_type_declarations: &mut all_type_declarations,
        functions: &mut functions,
        maybe_undeclared_types: &mut maybe_undeclared_types,
    }
    .parse(block(
        Some("Rust"),
        vec![
            func("first", vec![], vec![arg("x", path("Nope"))], None),
            func("second", vec![attr("init", Some("x"))], vec![arg("y", path("Nada"))], None),
            func("third", vec![], vec![], None),
            ty("u8"),
            ty("Foo"),
        ],
    ));
    let error = outcome.unwrap_err();
    assert_eq!(error.kind, AttributeErrorKind::UnexpectedValue);
    assert_eq!(error.key, "init");
    assert_eq!(functions.len(), 1);
    assert_eq!(functions[0].func.ident, "first");
    assert_eq!(errors.len(), 1);
    assert!(matches!(errors.get(0), Some(ParseError::DeclaredBuiltInType { .. })));
    assert!(errors.get(1).is_none());
    assert!(all_type_declarations.contains_key("Foo"));
    assert!(!all_type_declarations.contains_key("u8"));
    assert_eq!(maybe_undeclared_types.len(), 1);
    assert_eq!(maybe_undeclared_types[0].ty, "Nope");
}

#[test]
fn a_block_adds_to_what_the_blocks_before_it_gave() {
    let mut errors = ParseErrors::new();
    errors.push(ParseError::AbiNameMissing { extern_token: span() });
    let mut all_type_declarations = TypeDeclarations::new();
    let mut functions: Vec<ParsedExternFn> = vec![];
    let mut maybe_undeclared_types: Vec<MaybeUndeclaredType> = vec![];
    ForeignModParser {
        errors: &mut errors,
        all_type_declarations: &mut all_type_declarations,
        functions: &mut functions,
        maybe_undeclared_types: &mut maybe_undeclared_types,
    }
    .parse(block(Some("Rust"), vec![ty("Foo")]))
    .unwrap();
    ForeignModParser {
        errors: &mut errors,
        all_type_declarations: &mut all_type_declarations,
        functions: &mut functions,
        maybe_undeclared_types: &mut maybe_undeclared_types,
    }
    .parse(block(
        Some("Swift"),
        vec![func("f", vec![], vec![arg("self", path("Foo")), arg("n", path("Later"))], None)],
    ))
    .unwrap();
    assert_eq!(errors.len(), 1);
    assert!(!errors.is_empty());
    assert_eq!(functions.len(), 1);
    assert_eq!(associated(&functions[0]).as_deref(), Some("Foo"));
    assert_eq!(functions[0].host_lang, HostLang::Swift);
    assert_eq!(maybe_undeclared_types.len(), 1);
    assert_eq!(maybe_undeclared_types[0].ty, "Later");
}

#[test]
fn the_language_of_a_block_is_read_from_its_tag() {
    assert_eq!(HostLang::from_abi_name("Rust"), Some(HostLang::Rust));
    assert_eq!(HostLang::from_abi_name("Swift"), Some(HostLang::Swift));
    assert_eq!(HostLang::from_abi_name("rust"), None);
    assert_eq!(HostLang::from_abi_name(""), None);
    assert!(HostLang::Rust.is_rust());
    assert!(!HostLang::Rust.is_swift());
    assert!(HostLang::Swift.is_swift());
    assert!(!HostLang::Swift.is_rust());
}

#[test]
fn a_type_of_another_form_does_not_stop_the_block() {
    let parsed = parse(vec![block(
        Some("Rust"),
        vec![
            func("a", vec![], vec![arg("pair", other("(A , B)"))], Some(other("()"))),
            func("b", vec![], vec![arg("items", other("[u8 ; 4]"))], Some(other("[Foo]"))),
            func("c", vec![], vec![], Some(path("u8"))),
            ty("Foo"),
        ],
    )]);
    assert_eq!(undeclared(&parsed.errors), vec!["(A , B)", "[u8 ; 4]", "[Foo]"]);
    let names: Vec<&str> = parsed.functions.iter().map(|f| f.func.ident.as_str()).collect();
    assert_eq!(names, vec!["a", "b", "c"]);
}

#[test]
fn how_a_type_is_written_is_kept() {
    let parsed = parse(vec![block(
        Some("Rust"),
        vec![
            ty("Foo"),
            func(
                "f",
                vec![],
                vec![
                    FnArg::Receiver(Receiver { reference: true, mutable: true, span: span() }),
                    arg(
                        "x",
                        TypeRef {
                            kind: TypeRefKind::Reference { mutable: true },
                            target: "Foo".to_string(),
                            span: span(),
                        },
                    ),
                ],
                None,
            ),
        ],
    )]);
    assert!(parsed.errors.is_empty());
    let func = &parsed.functions[0].func;
    match &func.inputs[0] {
        FnArg::Receiver(receiver) => {
            assert!(receiver.reference);
            assert!(receiver.mutable);
        }
        _ => panic!(),
    }
    match &func.inputs[1] {
        FnArg::Typed(typed) => {
            assert_eq!(typed.ty.kind, TypeRefKind::Reference { mutable: true })
        }
        _ => panic!(),
    }
}
