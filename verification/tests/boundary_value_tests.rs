use proc_macro2::Span;
use swift_bridge_ir::bridged_type::boundary_value::{HostValue, Payload, ResultRecord};
use swift_bridge_ir::bridged_type::bridgeable_result::BuiltInResult;
use swift_bridge_ir::bridged_type::{BridgedType, ForeignBridgedType, OpaqueForeignType, Primitive};
use swift_bridge_ir::parse::{ForeignItemType, HostLang};

fn opaque(name: &str) -> BridgedType {
    BridgedType::Foreign(ForeignBridgedType::Opaque(OpaqueForeignType {
        ty: ForeignItemType { ident: name.to_string(), span: Span::call_site() },
        host_lang: HostLang::Rust,
    }))
}

fn u8_ty() -> BridgedType {
    BridgedType::Primitive(Primitive::U8)
}

fn result(ok_ty: BridgedType, err_ty: BridgedType) -> BuiltInResult {
    BuiltInResult { ok_ty: Box::new(ok_ty), err_ty: Box::new(err_ty) }
}

fn round_trip(ty: &BuiltInResult, value: Result<HostValue, HostValue>) {
    let record = BuiltInResult::to_ffi_value(&value);
    assert_eq!(ty.from_ffi_value(&record), Some(value));
}

#[test]
fn unit_unit_round_trip() {
    let ty = result(BridgedType::Null, BridgedType::Null);
    round_trip(&ty, Ok(HostValue::Null));
    round_trip(&ty, Err(HostValue::Null));
}

#[test]
fn opaque_unit_round_trip() {
    let ty = result(opaque("Foo"), BridgedType::Null);
    round_trip(&ty, Ok(HostValue::Opaque(0x1000)));
    round_trip(&ty, Err(HostValue::Null));
}

#[test]
fn unit_opaque_round_trip() {
    let ty = result(BridgedType::Null, opaque("Foo"));
    round_trip(&ty, Ok(HostValue::Null));
    round_trip(&ty, Err(HostValue::Opaque(usize::MAX)));
}

#[test]
fn opaque_opaque_round_trip() {
    let ty = result(opaque("Foo"), opaque("Bar"));
    round_trip(&ty, Ok(HostValue::Opaque(8)));
    round_trip(&ty, Err(HostValue::Opaque(16)));
}

#[test]
fn primitive_round_trip() {
    let ty = result(u8_ty(), opaque("Foo"));
    round_trip(&ty, Ok(HostValue::Primitive(255)));
    round_trip(&ty, Err(HostValue::Opaque(16)));
    let ty = result(BridgedType::Null, u8_ty());
    round_trip(&ty, Ok(HostValue::Null));
    round_trip(&ty, Err(HostValue::Primitive(0)));
}

#[test]
fn nested_round_trip() {
    let inner = result(opaque("Foo"), u8_ty());
    let ty = result(BridgedType::Result(inner), BridgedType::Null);
    round_trip(&ty, Ok(HostValue::Result(Box::new(Ok(HostValue::Opaque(64))))));
    round_trip(&ty, Ok(HostValue::Result(Box::new(Err(HostValue::Primitive(7))))));
    round_trip(&ty, Err(HostValue::Null));
}

#[test]
fn the_record_holds_the_flag_and_the_payload() {
    assert_eq!(
        BuiltInResult::to_ffi_value(&Ok(HostValue::Opaque(0x1000))),
        ResultRecord { is_ok: true, ok_or_err: Payload::Pointer(0x1000) }
    );
    assert_eq!(
        BuiltInResult::to_ffi_value(&Err(HostValue::Null)),
        ResultRecord { is_ok: false, ok_or_err: Payload::Pointer(0) }
    );
    assert_eq!(
        BuiltInResult::to_ffi_value(&Ok(HostValue::Primitive(9))),
        ResultRecord { is_ok: true, ok_or_err: Payload::Primitive(9) }
    );
    assert_eq!(
        BuiltInResult::to_ffi_value(&Err(HostValue::Result(Box::new(Ok(HostValue::Null))))),
        ResultRecord {
            is_ok: false,
            ok_or_err: Payload::Record(Box::new(ResultRecord {
                is_ok: true,
                ok_or_err: Payload::Pointer(0)
            }))
        }
    );
    assert_eq!(HostValue::Opaque(3).to_payload(), Payload::Pointer(3));
}

#[test]
fn the_flag_alone_tells_the_branch() {
    let ty = result(BridgedType::Null, opaque("Foo"));
    assert_eq!(
        ty.from_ffi_value(&ResultRecord { is_ok: true, ok_or_err: Payload::Pointer(0x2000) }),
        Some(Ok(HostValue::Null))
    );
    assert_eq!(
        ty.from_ffi_value(&ResultRecord { is_ok: false, ok_or_err: Payload::Pointer(0x2000) }),
        Some(Err(HostValue::Opaque(0x2000)))
    );
}

#[test]
fn a_record_of_another_form_carries_no_value() {
    let ty = result(u8_ty(), opaque("Foo"));
    assert_eq!(
        ty.from_ffi_value(&ResultRecord { is_ok: true, ok_or_err: Payload::Pointer(1) }),
        None
    );
    assert_eq!(
        ty.from_ffi_value(&ResultRecord { is_ok: false, ok_or_err: Payload::Primitive(1) }),
        None
    );
    assert_eq!(
        ty.from_ffi_value(&ResultRecord { is_ok: true, ok_or_err: Payload::Primitive(1) }),
        Some(Ok(HostValue::Primitive(1)))
    );
    assert_eq!(u8_ty().value_from_payload(&Payload::Pointer(0)), None);
    assert_eq!(
        BridgedType::Result(result(u8_ty(), u8_ty())).value_from_payload(&Payload::Primitive(0)),
        None
    );
}
