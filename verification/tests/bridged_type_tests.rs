use proc_macro2::{Span, TokenStream};
use swift_bridge_ir::bridged_type::bridgeable_result::BuiltInResult;
use swift_bridge_ir::bridged_type::{
    BridgedType, ForeignBridgedType, OpaqueForeignType, PayloadLayout, Primitive, TypePosition,
};
use swift_bridge_ir::parse::type_declarations::TypeDeclarations;
use swift_bridge_ir::parse::{ForeignItemType, HostLang};

fn opaque(name: &str, host_lang: HostLang) -> OpaqueForeignType {
    OpaqueForeignType {
        ty: ForeignItemType { ident: name.to_string(), span: Span::call_site() },
        host_lang,
    }
}

fn declared(names: &[&str]) -> TypeDeclarations {
    let mut types = TypeDeclarations::new();
    for name in names {
        types.insert(
            name.to_string(),
            ForeignBridgedType::Opaque(opaque(name, HostLang::Rust)),
        );
    }
    types
}

fn result(ok_ty: BridgedType, err_ty: BridgedType) -> BuiltInResult {
    BuiltInResult { ok_ty: Box::new(ok_ty), err_ty: Box::new(err_ty) }
}

fn foo() -> BridgedType {
    BridgedType::Foreign(ForeignBridgedType::Opaque(opaque("Foo", HostLang::Rust)))
}

fn as_tokens_print_it(text: &str) -> String {
    text.parse::<TokenStream>().unwrap().to_string()
}

const ALL_PRIMITIVES: [(Primitive, &str, &str, &str); 13] = [
    (Primitive::U8, "u8", "UInt8", "uint8_t"),
    (Primitive::I8, "i8", "Int8", "int8_t"),
    (Primitive::U16, "u16", "UInt16", "uint16_t"),
    (Primitive::I16, "i16", "Int16", "int16_t"),
    (Primitive::U32, "u32", "UInt32", "uint32_t"),
    (Primitive::I32, "i32", "Int32", "int32_t"),
    (Primitive::U64, "u64", "UInt64", "uint64_t"),
    (Primitive::I64, "i64", "Int64", "int64_t"),
    (Primitive::Usize, "usize", "UInt", "uintptr_t"),
    (Primitive::Isize, "isize", "Int", "intptr_t"),
    (Primitive::F32, "f32", "Float", "float"),
    (Primitive::F64, "f64", "Double", "double"),
    (Primitive::Bool, "bool", "Bool", "bool"),
];

#[test]
fn primitives_are_read_by_their_names() {
    for (primitive, rust, swift, c) in ALL_PRIMITIVES {
        assert_eq!(Primitive::with_str(rust), Some(primitive));
        assert_eq!(primitive.to_rust_type_path(), rust);
        assert_eq!(primitive.to_swift_type(), swift);
        assert_eq!(primitive.to_c_type(), c);
    }
    assert_eq!(Primitive::with_str("u128"), None);
    assert_eq!(Primitive::with_str("U8"), None);
    assert_eq!(Primitive::with_str(""), None);
    assert_eq!(Primitive::with_str("u8 "), None);
}

#[test]
fn type_names_are_read() {
    let types = declared(&["Foo"]);
    assert!(matches!(BridgedType::new_with_str("()", &types), Some(BridgedType::Null)));
    assert!(matches!(
        BridgedType::new_with_str("u32", &types),
        Some(BridgedType::Primitive(Primitive::U32))
    ));
    match BridgedType::new_with_str("Foo", &types) {
        Some(BridgedType::Foreign(ForeignBridgedType::Opaque(found))) => {
            assert_eq!(found.ty.ident, "Foo");
            assert_eq!(found.host_lang, HostLang::Rust);
        }
        _ => panic!(),
    }
    assert!(BridgedType::new_with_str("Bar", &types).is_none());
    assert!(BridgedType::new_with_str("", &types).is_none());
    assert!(matches!(
        BridgedType::new_with_str("Result < Foo , () >", &types),
        Some(BridgedType::Result(_))
    ));
}

#[test]
fn a_declared_type_is_no_built_in_type() {
    let types = declared(&["Foo"]);
    assert!(BridgedType::built_in_with_str("Foo", &types).is_none());
    assert!(BridgedType::built_in_with_str("u8", &types).is_some());
    assert!(BridgedType::built_in_with_str("()", &types).is_some());
    assert!(BridgedType::built_in_with_str("Result < Foo , u8 >", &types).is_some());
    assert!(BridgedType::built_in_with_str("Result < Bar , u8 >", &types).is_none());
}

#[test]
fn a_built_in_name_wins_over_a_declaration() {
    let types = declared(&["u8"]);
    assert!(matches!(
        BridgedType::new_with_str("u8", &types),
        Some(BridgedType::Primitive(Primitive::U8))
    ));
}

#[test]
fn result_branches_are_read() {
    let types = declared(&["Foo"]);
    let result = BuiltInResult::from_str_tokens("Result < u8 , Foo >", &types).unwrap();
    assert!(matches!(*result.ok_ty, BridgedType::Primitive(Primitive::U8)));
    match &*result.err_ty {
        BridgedType::Foreign(ForeignBridgedType::Opaque(found)) => {
            assert_eq!(found.ty.ident, "Foo")
        }
        _ => panic!(),
    }
}

#[test]
fn result_branches_may_be_spaced_in_any_way() {
    let types = TypeDeclarations::new();
    for text in ["Result < (),u8 >", "Result <   ()  ,\tu8 >", "Result < () , u8 >"] {
        let result = BuiltInResult::from_str_tokens(text, &types).unwrap();
        assert!(result.ok_ty.is_null());
        assert!(matches!(*result.err_ty, BridgedType::Primitive(Primitive::U8)));
    }
}

#[test]
fn a_result_needs_two_branches() {
    let types = TypeDeclarations::new();
    assert!(BuiltInResult::from_str_tokens("Result < u8 >", &types).is_none());
    assert!(BuiltInResult::from_str_tokens("Result < >", &types).is_none());
    assert!(BuiltInResult::from_str_tokens("", &types).is_none());
}

#[test]
fn a_result_needs_known_branches() {
    let types = declared(&["Foo"]);
    assert!(BuiltInResult::from_str_tokens("Result < Bar , u8 >", &types).is_none());
    assert!(BuiltInResult::from_str_tokens("Result < u8 , Bar >", &types).is_none());
    assert!(BuiltInResult::from_str_tokens("Result < , u8 >", &types).is_none());
    assert!(BuiltInResult::from_str_tokens("Result < Foo , u8 >", &types).is_some());
}

#[test]
fn what_follows_a_second_comma_is_not_read() {
    let types = TypeDeclarations::new();
    let result = BuiltInResult::from_str_tokens("Result < u8 , i8 , u16 >", &types).unwrap();
    assert!(matches!(*result.ok_ty, BridgedType::Primitive(Primitive::U8)));
    assert!(matches!(*result.err_ty, BridgedType::Primitive(Primitive::I8)));
}

#[test]
fn the_head_and_the_tail_of_a_result_may_be_missing() {
    let types = TypeDeclarations::new();
    let result = BuiltInResult::from_str_tokens("u8 , i8", &types).unwrap();
    assert!(matches!(*result.ok_ty, BridgedType::Primitive(Primitive::U8)));
    assert!(matches!(*result.err_ty, BridgedType::Primitive(Primitive::I8)));
}

#[test]
fn a_result_within_a_result_is_cut_at_the_commas() {
    let types = TypeDeclarations::new();
    assert!(BuiltInResult::from_str_tokens("Result < Result < u8 , i8 > , u16 >", &types)
        .is_none());
    assert!(BuiltInResult::from_str_tokens("Result < u16 , Result < u8 , i8 > >", &types)
        .is_none());
}

#[test]
fn is_null_is_for_no_value_only() {
    assert!(BridgedType::Null.is_null());
    assert!(!BridgedType::Primitive(Primitive::Bool).is_null());
    assert!(!foo().is_null());
    assert!(!BridgedType::Result(result(BridgedType::Null, BridgedType::Null)).is_null());
}

#[test]
fn rust_type_paths() {
    assert_eq!(BridgedType::Null.to_rust_type_path(), "()");
    assert_eq!(BridgedType::Primitive(Primitive::I64).to_rust_type_path(), "i64");
    assert_eq!(foo().to_rust_type_path(), "super :: Foo");
    assert_eq!(
        result(BridgedType::Null, BridgedType::Null).to_rust_type_path(),
        "Result < () , () >"
    );
    assert_eq!(
        result(foo(), BridgedType::Primitive(Primitive::U8)).to_rust_type_path(),
        "Result < super :: Foo , u8 >"
    );
    assert_eq!(
        BridgedType::Result(result(
            BridgedType::Result(result(BridgedType::Null, foo())),
            BridgedType::Null
        ))
        .to_rust_type_path(),
        "Result < Result < () , super :: Foo > , () >"
    );
}

#[test]
fn a_rust_type_path_reads_back_as_the_type() {
    let types = TypeDeclarations::new();
    let ty = result(BridgedType::Primitive(Primitive::U8), BridgedType::Null);
    let read = BuiltInResult::from_str_tokens(&ty.to_rust_type_path(), &types).unwrap();
    assert!(matches!(*read.ok_ty, BridgedType::Primitive(Primitive::U8)));
    assert!(read.err_ty.is_null());
}

#[test]
fn swift_types() {
    let types = TypeDeclarations::new();
    let pos = TypePosition::FnReturn(HostLang::Rust);
    assert_eq!(BridgedType::Null.to_swift_type(pos, &types), "()");
    assert_eq!(BridgedType::Primitive(Primitive::Usize).to_swift_type(pos, &types), "UInt");
    assert_eq!(foo().to_swift_type(pos, &types), "Foo");
    assert_eq!(
        result(BridgedType::Null, BridgedType::Null).to_swift_type(pos, &types),
        "RustResult<(), ()>"
    );
    assert_eq!(
        result(foo(), BridgedType::Primitive(Primitive::Bool)).to_swift_type(pos, &types),
        "RustResult<Foo, Bool>"
    );
}

#[test]
fn the_swift_type_of_a_declared_type_goes_by_its_position() {
    let rust = opaque("Foo", HostLang::Rust);
    let swift = opaque("Foo", HostLang::Swift);
    for lang in [HostLang::Rust] {
        assert_eq!(rust.to_swift_type(TypePosition::FnArg(lang)), "Foo");
        assert_eq!(rust.to_swift_type(TypePosition::FnReturn(lang)), "Foo");
        assert_eq!(swift.to_swift_type(TypePosition::FnArg(lang)), "Foo");
        assert_eq!(swift.to_swift_type(TypePosition::FnReturn(lang)), "Foo");
    }
    assert_eq!(rust.to_swift_type(TypePosition::SharedStructField), "Foo");
    assert_eq!(swift.to_swift_type(TypePosition::SharedStructField), "Foo");
    assert_eq!(
        rust.to_swift_type(TypePosition::FnArg(HostLang::Swift)),
        "UnsafeMutableRawPointer"
    );
    assert_eq!(
        rust.to_swift_type(TypePosition::FnReturn(HostLang::Swift)),
        "UnsafeMutableRawPointer"
    );
    assert_eq!(
        swift.to_swift_type(TypePosition::FnArg(HostLang::Swift)),
        "__private__PointerToSwiftType"
    );
    assert_eq!(
        swift.to_swift_type(TypePosition::FnReturn(HostLang::Swift)),
        "__private__PointerToSwiftType"
    );
}

#[test]
fn c_types() {
    assert_eq!(BridgedType::Null.to_c_type(), "void");
    assert_eq!(BridgedType::Primitive(Primitive::U16).to_c_type(), "uint16_t");
    assert_eq!(foo().to_c_type(), "void*");
    assert_eq!(
        result(BridgedType::Null, BridgedType::Null).to_c(),
        "struct __private__ResultvoidAndvoid"
    );
    assert_eq!(
        result(BridgedType::Primitive(Primitive::U8), foo()).to_c(),
        "struct __private__Resultuint8_tAndvoid*"
    );
    assert_eq!(
        result(BridgedType::Primitive(Primitive::U8), foo()).ffi_name(),
        "__private__Resultuint8_tAndvoid*"
    );
    assert_eq!(
        BridgedType::Result(result(BridgedType::Null, BridgedType::Null)).to_c_type(),
        "struct __private__ResultvoidAndvoid"
    );
}

#[test]
fn swift_expressions_to_the_boundary() {
    let pos = TypePosition::FnArg(HostLang::Rust);
    assert_eq!(BridgedType::Null.convert_swift_expression_to_ffi_type("ok", pos), "nil");
    assert_eq!(
        BridgedType::Primitive(Primitive::U8).convert_swift_expression_to_ffi_type("ok", pos),
        "ok"
    );
    assert_eq!(
        foo().convert_swift_expression_to_ffi_type("err", pos),
        "{err.isOwned = false; return err.ptr;}()"
    );
    assert_eq!(
        result(BridgedType::Null, BridgedType::Null)
            .convert_swift_expression_to_ffi_compatible("val", pos),
        "{ switch val { case .Ok(let ok): return __private__ResultvoidAndvoid(is_ok: true, ok_or_err: nil) case .Err(let err): return __private__ResultvoidAndvoid(is_ok: false, ok_or_err: nil) } }()"
    );
    assert_eq!(
        result(foo(), BridgedType::Null).convert_swift_expression_to_ffi_compatible("arg", pos),
        "{ switch arg { case .Ok(let ok): return __private__Resultvoid*Andvoid(is_ok: true, ok_or_err: {ok.isOwned = false; return ok.ptr;}()) case .Err(let err): return __private__Resultvoid*Andvoid(is_ok: false, ok_or_err: nil) } }()"
    );
}

fn u8_ty() -> BridgedType {
    BridgedType::Primitive(Primitive::U8)
}

#[test]
fn the_record_of_two_pointers_is_for_branches_that_cross_as_a_pointer() {
    for ty in [
        result(BridgedType::Null, BridgedType::Null),
        result(foo(), BridgedType::Null),
        result(BridgedType::Null, foo()),
        result(foo(), foo()),
    ] {
        assert_eq!(ty.layout(), PayloadLayout::Pointer);
        assert_eq!(ty.rust_record_name(), "ResultPtrAndPtr");
        assert_eq!(
            ty.to_ffi_compatible_rust_type("swift_bridge"),
            "swift_bridge :: result :: ResultPtrAndPtr"
        );
    }
    assert_eq!(
        result(foo(), BridgedType::Null).to_ffi_compatible_rust_type("crate :: support"),
        "crate :: support :: result :: ResultPtrAndPtr"
    );
}

#[test]
fn a_branch_that_is_no_pointer_gives_the_record_another_name() {
    let cases = [
        (result(u8_ty(), u8_ty()), "ResultU8AndU8"),
        (result(u8_ty(), foo()), "ResultU8AndPtr"),
        (result(BridgedType::Null, BridgedType::Primitive(Primitive::Bool)), "ResultPtrAndBool"),
        (result(BridgedType::Primitive(Primitive::F64), BridgedType::Null), "ResultF64AndPtr"),
        (
            result(BridgedType::Result(result(BridgedType::Null, foo())), u8_ty()),
            "ResultResultPtrAndPtrAndU8",
        ),
        (
            result(foo(), BridgedType::Result(result(BridgedType::Null, foo()))),
            "ResultPtrAndResultPtrAndPtr",
        ),
    ];
    for (ty, name) in cases {
        assert_eq!(ty.layout(), PayloadLayout::Union);
        assert_eq!(ty.rust_record_name(), name);
        assert_eq!(
            ty.to_ffi_compatible_rust_type("swift_bridge"),
            format!("swift_bridge :: result :: {}", name)
        );
    }
}

#[test]
fn every_primitive_gives_its_part_to_the_name_of_a_record() {
    for (primitive, rust, _, _) in ALL_PRIMITIVES {
        let part = primitive.to_record_name_part();
        assert_eq!(part.to_lowercase(), rust);
        assert_eq!(BridgedType::Primitive(primitive).to_record_name_part(), part);
        assert!(!BridgedType::Primitive(primitive).is_pointer_sized());
    }
    assert_eq!(BridgedType::Null.to_record_name_part(), "Ptr");
    assert_eq!(foo().to_record_name_part(), "Ptr");
    assert!(BridgedType::Null.is_pointer_sized());
    assert!(foo().is_pointer_sized());
    assert!(!BridgedType::Result(result(BridgedType::Null, BridgedType::Null)).is_pointer_sized());
}

#[test]
fn payloads_to_rust() {
    assert_eq!(BridgedType::Null.convert_ffi_payload_to_rust_value("arg . ok_or_err"), "()");
    assert_eq!(u8_ty().convert_ffi_payload_to_rust_value("arg . ok_or_err"), "arg . ok_or_err");
    assert_eq!(
        foo().convert_ffi_payload_to_rust_value("arg . ok_or_err"),
        "unsafe { * Box :: from_raw (arg . ok_or_err as * mut super :: Foo) }"
    );
    assert_eq!(
        foo().convert_ffi_result_ok_value_to_rust_value("arg", PayloadLayout::Pointer),
        "unsafe { * Box :: from_raw (arg . ok_or_err as * mut super :: Foo) }"
    );
    assert_eq!(
        foo().convert_ffi_result_err_value_to_rust_value("arg", PayloadLayout::Pointer),
        "unsafe { * Box :: from_raw (arg . ok_or_err as * mut super :: Foo) }"
    );
    assert_eq!(
        u8_ty().convert_ffi_result_ok_value_to_rust_value("arg", PayloadLayout::Union),
        "(unsafe { arg . ok_or_err . ok })"
    );
    assert_eq!(
        u8_ty().convert_ffi_result_err_value_to_rust_value("arg", PayloadLayout::Union),
        "(unsafe { arg . ok_or_err . err })"
    );
    assert_eq!(
        BridgedType::Null.convert_ffi_result_ok_value_to_rust_value("arg", PayloadLayout::Union),
        "()"
    );
}

#[test]
fn boundary_values_to_rust() {
    assert_eq!(
        result(BridgedType::Null, BridgedType::Null).convert_ffi_value_to_rust_value("arg"),
        "if arg . is_ok { std :: result :: Result :: Ok (()) } else { std :: result :: Result :: Err (()) }"
    );
    assert_eq!(
        result(BridgedType::Null, foo()).convert_ffi_value_to_rust_value("arg"),
        "if arg . is_ok { std :: result :: Result :: Ok (()) } else { std :: result :: Result :: Err (unsafe { * Box :: from_raw (arg . ok_or_err as * mut super :: Foo) }) }"
    );
    assert_eq!(
        result(foo(), BridgedType::Null).convert_ffi_value_to_rust_value("arg"),
        "if arg . is_ok { std :: result :: Result :: Ok (unsafe { * Box :: from_raw (arg . ok_or_err as * mut super :: Foo) }) } else { std :: result :: Result :: Err (()) }"
    );
    assert_eq!(
        result(u8_ty(), foo()).convert_ffi_value_to_rust_value("arg"),
        "if arg . is_ok { std :: result :: Result :: Ok ((unsafe { arg . ok_or_err . ok })) } else { std :: result :: Result :: Err (unsafe { * Box :: from_raw ((unsafe { arg . ok_or_err . err }) as * mut super :: Foo) }) }"
    );
    assert_eq!(
        result(BridgedType::Result(result(BridgedType::Null, BridgedType::Null)), u8_ty())
            .convert_ffi_value_to_rust_value("arg"),
        "if arg . is_ok { std :: result :: Result :: Ok (if (unsafe { arg . ok_or_err . ok }) . is_ok { std :: result :: Result :: Ok (()) } else { std :: result :: Result :: Err (()) }) } else { std :: result :: Result :: Err ((unsafe { arg . ok_or_err . err })) }"
    );
}

#[test]
fn rust_values_to_payloads() {
    assert_eq!(
        BridgedType::Null.convert_rust_value_to_ffi_payload("ok", "swift_bridge"),
        "std :: ptr :: null_mut ()"
    );
    assert_eq!(u8_ty().convert_rust_value_to_ffi_payload("ok", "swift_bridge"), "ok");
    assert_eq!(
        foo().convert_rust_value_to_ffi_payload("err", "swift_bridge"),
        "Box :: into_raw (Box :: new (err)) as * mut std :: ffi :: c_void"
    );
}

#[test]
fn rust_values_to_the_boundary() {
    assert_eq!(
        result(BridgedType::Null, BridgedType::Null)
            .convert_rust_expression_to_ffi_type("val", "swift_bridge"),
        "match val { Ok (ok) => swift_bridge :: result :: ResultPtrAndPtr { is_ok : true , ok_or_err : std :: ptr :: null_mut () } , Err (err) => swift_bridge :: result :: ResultPtrAndPtr { is_ok : false , ok_or_err : std :: ptr :: null_mut () } }"
    );
    assert_eq!(
        result(foo(), BridgedType::Null).convert_rust_expression_to_ffi_type("val", "swift_bridge"),
        "match val { Ok (ok) => swift_bridge :: result :: ResultPtrAndPtr { is_ok : true , ok_or_err : Box :: into_raw (Box :: new (ok)) as * mut std :: ffi :: c_void } , Err (err) => swift_bridge :: result :: ResultPtrAndPtr { is_ok : false , ok_or_err : std :: ptr :: null_mut () } }"
    );
    assert_eq!(
        result(BridgedType::Null, foo()).convert_rust_expression_to_ffi_type("val", "swift_bridge"),
        "match val { Ok (ok) => swift_bridge :: result :: ResultPtrAndPtr { is_ok : true , ok_or_err : std :: ptr :: null_mut () } , Err (err) => swift_bridge :: result :: ResultPtrAndPtr { is_ok : false , ok_or_err : Box :: into_raw (Box :: new (err)) as * mut std :: ffi :: c_void } }"
    );
    assert_eq!(
        result(u8_ty(), foo()).convert_rust_expression_to_ffi_type("val", "swift_bridge"),
        "match val { Ok (ok) => swift_bridge :: result :: ResultU8AndPtr { is_ok : true , ok_or_err : swift_bridge :: result :: ResultU8AndPtrPayload { ok : ok } } , Err (err) => swift_bridge :: result :: ResultU8AndPtr { is_ok : false , ok_or_err : swift_bridge :: result :: ResultU8AndPtrPayload { err : Box :: into_raw (Box :: new (err)) as * mut std :: ffi :: c_void } } }"
    );
}

#[test]
fn what_the_body_makes_is_what_the_signature_names() {
    for ty in [
        result(BridgedType::Null, BridgedType::Null),
        result(foo(), BridgedType::Null),
        result(u8_ty(), foo()),
        result(BridgedType::Result(result(BridgedType::Null, foo())), u8_ty()),
    ] {
        let record = ty.to_ffi_compatible_rust_type("swift_bridge");
        let body = ty.convert_rust_expression_to_ffi_type("val", "swift_bridge");
        assert!(body.starts_with(&format!("match val {{ Ok (ok) => {} {{ is_ok : true , ", record)));
        assert!(body.contains(&format!(" , Err (err) => {} {{ is_ok : false , ", record)));
        assert_eq!(body.matches("match val ").count(), 1);
    }
}

#[test]
fn rust_text_is_spaced_as_tokens_print() {
    let null_foo = result(BridgedType::Null, foo());
    let u8_foo = result(u8_ty(), foo());
    let nested = result(BridgedType::Result(result(BridgedType::Null, foo())), u8_ty());
    for text in [
        null_foo.to_rust_type_path(),
        null_foo.to_ffi_compatible_rust_type("swift_bridge"),
        null_foo.convert_ffi_value_to_rust_value("arg"),
        null_foo.convert_rust_expression_to_ffi_type("val", "swift_bridge"),
        u8_foo.to_ffi_compatible_rust_type("swift_bridge"),
        u8_foo.convert_ffi_value_to_rust_value("arg"),
        u8_foo.convert_rust_expression_to_ffi_type("val", "swift_bridge"),
        nested.convert_ffi_value_to_rust_value("arg"),
        nested.convert_rust_expression_to_ffi_type("val", "swift_bridge"),
        foo().to_rust_type_path(),
    ] {
        assert_eq!(as_tokens_print_it(&text), text);
        assert!(syn::parse_str::<syn::Expr>(&text).is_ok() || syn::parse_str::<syn::Type>(&text).is_ok());
    }
}

#[test]
fn a_type_as_tokens_print_it_is_read() {
    let types = declared(&["Foo"]);
    let text = as_tokens_print_it("Result<Foo, ()>");
    let result = BuiltInResult::from_str_tokens(&text, &types).unwrap();
    assert!(matches!(*result.ok_ty, BridgedType::Foreign(_)));
    assert!(result.err_ty.is_null());
}
