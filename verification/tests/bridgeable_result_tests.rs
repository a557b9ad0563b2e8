use proc_macro2::TokenStream;
use swift_bridge_ir::bridged_type::bridgeable_result::BuiltInResult;
use swift_bridge_ir::parse::type_declarations::TypeDeclarations;

fn tokens_to_string(source: &str) -> String {
    source.parse::<TokenStream>().unwrap().to_string()
}

/// Verify that we can parse a `Result<(), ()>`
#[test]
fn result_from_null_type() {
    let tokens = tokens_to_string("Result<(), ()>");

    let result = BuiltInResult::from_str_tokens(&tokens, &TypeDeclarations::new()).unwrap();

    assert!(result.ok_ty.is_null());
    assert!(result.err_ty.is_null());
}
