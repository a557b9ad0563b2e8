//! The types that can cross the boundary and how each is written on either
//! side of it.

use vstd::prelude::*;
use vstd::string::*;
use crate::bridged_type::bridgeable_result::{result_branches, BuiltInResult};
use crate::parse::type_declarations::TypeDeclarations;
use crate::parse::{ForeignItemType, HostLang};
use crate::text::{has_at, occurs_at, str_eq};

pub mod boundary_value;
pub mod bridgeable_result;

verus! {

/// A declared type of which only a handle crosses the boundary.
#[derive(Debug)]
pub struct OpaqueForeignType {
    pub ty: ForeignItemType,
    pub host_lang: HostLang,
}

impl Clone for OpaqueForeignType {
    fn clone(&self) -> (r: Self)
        ensures
            r == *self,
    {
        OpaqueForeignType { ty: self.ty.clone(), host_lang: self.host_lang }
    }
}

/// A type that a bridge module declares.
#[derive(Debug)]
pub enum ForeignBridgedType {
    Opaque(OpaqueForeignType),
}

impl Clone for ForeignBridgedType {
    fn clone(&self) -> (r: Self)
        ensures
            r == *self,
    {
        match self {
            ForeignBridgedType::Opaque(opaque) => ForeignBridgedType::Opaque(opaque.clone()),
        }
    }
}

impl OpaqueForeignType {
    /// The type's path in Rust, seen from the module that holds the glue.
    pub open spec fn rust_type_path_text(self) -> Seq<char> {
        "super :: "@ + self.ty.ident@
    }

    /// The type's name in Swift. Where a function of Swift's takes or gives
    /// the type, only a pointer stands there.
    pub open spec fn swift_type_text(self, type_pos: TypePosition) -> Seq<char> {
        match type_pos {
            TypePosition::FnArg(HostLang::Swift) | TypePosition::FnReturn(HostLang::Swift) => {
                match self.host_lang {
                    HostLang::Rust => "UnsafeMutableRawPointer"@,
                    HostLang::Swift => "__private__PointerToSwiftType"@,
                }
            },
            _ => self.ty.ident@,
        }
    }

    /// The Swift expression that hands the handle of `expression` over and
    /// leaves the value with the other side.
    pub open spec fn swift_to_ffi_text(self, expression: Seq<char>) -> Seq<char> {
        "{"@ + expression + ".isOwned = false; return "@ + expression + ".ptr;}()"@
    }

    /// The Rust expression that takes the value back from the pointer
    /// `payload`.
    pub open spec fn ffi_payload_to_rust_text(self, payload: Seq<char>) -> Seq<char> {
        "unsafe { * Box :: from_raw ("@ + payload + " as * mut super :: "@ + self.ty.ident@
            + ") }"@
    }

    /// The Rust expression that puts `value` where it stays and hands out
    /// the pointer to it.
    pub open spec fn rust_to_ffi_payload_text(value: Seq<char>) -> Seq<char> {
        "Box :: into_raw (Box :: new ("@ + value + ")) as * mut std :: ffi :: c_void"@
    }

    pub fn to_rust_type_path(&self) -> (path: String)
        ensures
            path@ == self.rust_type_path_text(),
    {
        String::from_str("super :: ").concat(self.ty.ident.as_str())
    }

    pub fn to_swift_type(&self, type_pos: TypePosition) -> (name: String)
        ensures
            name@ == self.swift_type_text(type_pos),
    {
        match type_pos {
            TypePosition::FnArg(HostLang::Swift) | TypePosition::FnReturn(HostLang::Swift) => {
                match self.host_lang {
                    HostLang::Rust => String::from_str("UnsafeMutableRawPointer"),
                    HostLang::Swift => String::from_str("__private__PointerToSwiftType"),
                }
            },
            _ => self.ty.ident.clone(),
        }
    }

    pub fn convert_swift_expression_to_ffi_type(&self, expression: &str) -> (converted: String)
        ensures
            converted@ == self.swift_to_ffi_text(expression@),
    {
        let mut converted = String::from_str("{");
        converted.append(expression);
        converted.append(".isOwned = false; return ");
        converted.append(expression);
        converted.append(".ptr;}()");
        converted
    }

    pub fn convert_ffi_payload_to_rust_value(&self, payload: &str) -> (converted: String)
        ensures
            converted@ == self.ffi_payload_to_rust_text(payload@),
    {
        let mut converted = String::from_str("unsafe { * Box :: from_raw (");
        converted.append(payload);
        converted.append(" as * mut super :: ");
        converted.append(self.ty.ident.as_str());
        converted.append(") }");
        converted
    }

    pub fn convert_rust_value_to_ffi_payload(value: &str) -> (converted: String)
        ensures
            converted@ == Self::rust_to_ffi_payload_text(value@),
    {
        let mut converted = String::from_str("Box :: into_raw (Box :: new (");
        converted.append(value);
        converted.append(")) as * mut std :: ffi :: c_void");
        converted
    }
}

impl ForeignBridgedType {
    /// The opaque type that this declaration is.
    pub fn unwrap_opaque(&self) -> (opaque: &OpaqueForeignType)
        ensures
            *self == ForeignBridgedType::Opaque(*opaque),
    {
        match self {
            ForeignBridgedType::Opaque(opaque) => opaque,
        }
    }
}

/// Where a type stands: as a parameter or as the result of a function that
/// the given language owns, or as a field of a shared struct.
#[derive(Clone, Copy, Debug, PartialEq, Eq, Structural)]
pub enum TypePosition {
    FnArg(HostLang),
    FnReturn(HostLang),
    SharedStructField,
}

/// The types that cross the boundary as they are: the numbers and `bool`.
#[derive(Clone, Copy, Debug, PartialEq, Eq, Structural)]
pub enum Primitive {
    U8,
    I8,
    U16,
    I16,
    U32,
    I32,
    U64,
    I64,
    Usize,
    Isize,
    F32,
    F64,
    Bool,
}

/// The primitive type that `name` names, if it names one.
pub open spec fn primitive_of(name: Seq<char>) -> Option<Primitive> {
    if name == "u8"@ {
        Some(Primitive::U8)
    } else if name == "i8"@ {
        Some(Primitive::I8)
    } else if name == "u16"@ {
        Some(Primitive::U16)
    } else if name == "i16"@ {
        Some(Primitive::I16)
    } else if name == "u32"@ {
        Some(Primitive::U32)
    } else if name == "i32"@ {
        Some(Primitive::I32)
    } else if name == "u64"@ {
        Some(Primitive::U64)
    } else if name == "i64"@ {
        Some(Primitive::I64)
    } else if name == "usize"@ {
        Some(Primitive::Usize)
    } else if name == "isize"@ {
        Some(Primitive::Isize)
    } else if name == "f32"@ {
        Some(Primitive::F32)
    } else if name == "f64"@ {
        Some(Primitive::F64)
    } else if name == "bool"@ {
        Some(Primitive::Bool)
    } else {
        None
    }
}

impl Primitive {
    /// The type's name in Rust.
    pub open spec fn rust_name(self) -> Seq<char> {
        match self {
            Primitive::U8 => "u8"@,
            Primitive::I8 => "i8"@,
            Primitive::U16 => "u16"@,
            Primitive::I16 => "i16"@,
            Primitive::U32 => "u32"@,
            Primitive::I32 => "i32"@,
            Primitive::U64 => "u64"@,
            Primitive::I64 => "i64"@,
            Primitive::Usize => "usize"@,
            Primitive::Isize => "isize"@,
            Primitive::F32 => "f32"@,
            Primitive::F64 => "f64"@,
            Primitive::Bool => "bool"@,
        }
    }

    /// The type's name in Swift.
    pub open spec fn swift_name(self) -> Seq<char> {
        match self {
            Primitive::U8 => "UInt8"@,
            Primitive::I8 => "Int8"@,
            Primitive::U16 => "UInt16"@,
            Primitive::I16 => "Int16"@,
            Primitive::U32 => "UInt32"@,
            Primitive::I32 => "Int32"@,
            Primitive::U64 => "UInt64"@,
            Primitive::I64 => "Int64"@,
            Primitive::Usize => "UInt"@,
            Primitive::Isize => "Int"@,
            Primitive::F32 => "Float"@,
            Primitive::F64 => "Double"@,
            Primitive::Bool => "Bool"@,
        }
    }

    /// The type's name in a C header.
    pub open spec fn c_name(self) -> Seq<char> {
        match self {
            Primitive::U8 => "uint8_t"@,
            Primitive::I8 => "int8_t"@,
            Primitive::U16 => "uint16_t"@,
            Primitive::I16 => "int16_t"@,
            Primitive::U32 => "uint32_t"@,
            Primitive::I32 => "int32_t"@,
            Primitive::U64 => "uint64_t"@,
            Primitive::I64 => "int64_t"@,
            Primitive::Usize => "uintptr_t"@,
            Primitive::Isize => "intptr_t"@,
            Primitive::F32 => "float"@,
            Primitive::F64 => "double"@,
            Primitive::Bool => "bool"@,
        }
    }

    /// The part that the type gives to the name of a record.
    pub open spec fn record_name_part(self) -> Seq<char> {
        match self {
            Primitive::U8 => "U8"@,
            Primitive::I8 => "I8"@,
            Primitive::U16 => "U16"@,
            Primitive::I16 => "I16"@,
            Primitive::U32 => "U32"@,
            Primitive::I32 => "I32"@,
            Primitive::U64 => "U64"@,
            Primitive::I64 => "I64"@,
            Primitive::Usize => "Usize"@,
            Primitive::Isize => "Isize"@,
            Primitive::F32 => "F32"@,
            Primitive::F64 => "F64"@,
            Primitive::Bool => "Bool"@,
        }
    }

    pub fn to_record_name_part(self) -> (part: &'static str)
        ensures
            part@ == self.record_name_part(),
    {
        match self {
            Primitive::U8 => "U8",
            Primitive::I8 => "I8",
            Primitive::U16 => "U16",
            Primitive::I16 => "I16",
            Primitive::U32 => "U32",
            Primitive::I32 => "I32",
            Primitive::U64 => "U64",
            Primitive::I64 => "I64",
            Primitive::Usize => "Usize",
            Primitive::Isize => "Isize",
            Primitive::F32 => "F32",
            Primitive::F64 => "F64",
            Primitive::Bool => "Bool",
        }
    }

    pub fn to_rust_type_path(self) -> (path: &'static str)
        ensures
            path@ == self.rust_name(),
    {
        match self {
            Primitive::U8 => "u8",
            Primitive::I8 => "i8",
            Primitive::U16 => "u16",
            Primitive::I16 => "i16",
            Primitive::U32 => "u32",
            Primitive::I32 => "i32",
            Primitive::U64 => "u64",
            Primitive::I64 => "i64",
            Primitive::Usize => "usize",
            Primitive::Isize => "isize",
            Primitive::F32 => "f32",
            Primitive::F64 => "f64",
            Primitive::Bool => "bool",
        }
    }

    pub fn to_swift_type(self) -> (name: &'static str)
        ensures
            name@ == self.swift_name(),
    {
        match self {
            Primitive::U8 => "UInt8",
            Primitive::I8 => "Int8",
            Primitive::U16 => "UInt16",
            Primitive::I16 => "Int16",
            Primitive::U32 => "UInt32",
            Primitive::I32 => "Int32",
            Primitive::U64 => "UInt64",
            Primitive::I64 => "Int64",
            Primitive::Usize => "UInt",
            Primitive::Isize => "Int",
            Primitive::F32 => "Float",
            Primitive::F64 => "Double",
            Primitive::Bool => "Bool",
        }
    }

    pub fn to_c_type(self) -> (name: &'static str)
        ensures
            name@ == self.c_name(),
    {
        match self {
            Primitive::U8 => "uint8_t",
            Primitive::I8 => "int8_t",
            Primitive::U16 => "uint16_t",
            Primitive::I16 => "int16_t",
            Primitive::U32 => "uint32_t",
            Primitive::I32 => "int32_t",
            Primitive::U64 => "uint64_t",
            Primitive::I64 => "int64_t",
            Primitive::Usize => "uintptr_t",
            Primitive::Isize => "intptr_t",
            Primitive::F32 => "float",
            Primitive::F64 => "double",
            Primitive::Bool => "bool",
        }
    }

    /// Reads the name of a primitive type.
    pub fn with_str(name: &str) -> (found: Option<Primitive>)
        ensures
            found == primitive_of(name@),
    {
        if str_eq(name, "u8") {
            Some(Primitive::U8)
        } else if str_eq(name, "i8") {
            Some(Primitive::I8)
        } else if str_eq(name, "u16") {
            Some(Primitive::U16)
        } else if str_eq(name, "i16") {
            Some(Primitive::I16)
        } else if str_eq(name, "u32") {
            Some(Primitive::U32)
        } else if str_eq(name, "i32") {
            Some(Primitive::I32)
        } else if str_eq(name, "u64") {
            Some(Primitive::U64)
        } else if str_eq(name, "i64") {
            Some(Primitive::I64)
        } else if str_eq(name, "usize") {
            Some(Primitive::Usize)
        } else if str_eq(name, "isize") {
            Some(Primitive::Isize)
        } else if str_eq(name, "f32") {
            Some(Primitive::F32)
        } else if str_eq(name, "f64") {
            Some(Primitive::F64)
        } else if str_eq(name, "bool") {
            Some(Primitive::Bool)
        } else {
            None
        }
    }
}

/// How the payload of a record holds the value of a branch: as the one
/// pointer that the payload is, or in the field of the branch where the
/// payload is a union of the two.
#[derive(Clone, Copy, Debug, PartialEq, Eq, Structural)]
pub enum PayloadLayout {
    Pointer,
    Union,
}

/// The Rust expression for the payload of the `Ok` branch of the record
/// `expression`.
pub open spec fn ok_payload_text(expression: Seq<char>, layout: PayloadLayout) -> Seq<char> {
    match layout {
        PayloadLayout::Pointer => expression + " . ok_or_err"@,
        PayloadLayout::Union => "(unsafe { "@ + expression + " . ok_or_err . ok })"@,
    }
}

/// The Rust expression for the payload of the `Err` branch of the record
/// `expression`.
pub open spec fn err_payload_text(expression: Seq<char>, layout: PayloadLayout) -> Seq<char> {
    match layout {
        PayloadLayout::Pointer => expression + " . ok_or_err"@,
        PayloadLayout::Union => "(unsafe { "@ + expression + " . ok_or_err . err })"@,
    }
}

/// A type that can cross the boundary.
#[derive(Debug)]
pub enum BridgedType {
    /// `()`: no value.
    Null,
    Primitive(Primitive),
    Foreign(ForeignBridgedType),
    Result(BuiltInResult),
}

/// The built-in type that `text` names, if it names one. The branches of a
/// `Result` may be declared types, which `types` holds.
pub open spec fn built_in_of(
    text: Seq<char>,
    types: Map<Seq<char>, ForeignBridgedType>,
) -> Option<BridgedType>
    decreases text.len(), 1nat,
{
    if occurs_at(text, 0, "Result < "@) {
        match result_of(text, types) {
            Some(result) => Some(BridgedType::Result(result)),
            None => None,
        }
    } else if text == "()"@ {
        Some(BridgedType::Null)
    } else {
        match primitive_of(text) {
            Some(primitive) => Some(BridgedType::Primitive(primitive)),
            None => None,
        }
    }
}

/// The type that `text` names: a built-in type, or else the type that
/// `types` holds under that name.
pub open spec fn bridged_type_of(
    text: Seq<char>,
    types: Map<Seq<char>, ForeignBridgedType>,
) -> Option<BridgedType>
    decreases text.len(), 2nat,
{
    match built_in_of(text, types) {
        Some(ty) => Some(ty),
        None => if types.contains_key(text) {
            Some(BridgedType::Foreign(types[text]))
        } else {
            None
        },
    }
}

/// The `Result` that `text` names: both of its branches name a type.
pub open spec fn result_of(
    text: Seq<char>,
    types: Map<Seq<char>, ForeignBridgedType>,
) -> Option<BuiltInResult>
    decreases text.len(), 0nat,
    when true
    via result_of_decreases
{
    match result_branches(text) {
        Some((ok, err)) => match (bridged_type_of(ok, types), bridged_type_of(err, types)) {
            (Some(ok_ty), Some(err_ty)) => Some(
                BuiltInResult { ok_ty: Box::new(ok_ty), err_ty: Box::new(err_ty) },
            ),
            _ => None,
        },
        None => None,
    }
}

#[via_fn]
proof fn result_of_decreases(text: Seq<char>, types: Map<Seq<char>, ForeignBridgedType>) {
    crate::bridged_type::bridgeable_result::lemma_result_branches_len(text);
}

impl BridgedType {
    /// How the type is written in Rust.
    pub open spec fn rust_type_path_text(self) -> Seq<char>
        decreases self,
    {
        match self {
            BridgedType::Null => "()"@,
            BridgedType::Primitive(primitive) => primitive.rust_name(),
            BridgedType::Foreign(ForeignBridgedType::Opaque(opaque)) => opaque.rust_type_path_text(),
            BridgedType::Result(result) => result.rust_type_path_text(),
        }
    }

    /// How the type is written in Swift where it stands at `type_pos`.
    pub open spec fn swift_type_text(self, type_pos: TypePosition) -> Seq<char>
        decreases self,
    {
        match self {
            BridgedType::Null => "()"@,
            BridgedType::Primitive(primitive) => primitive.swift_name(),
            BridgedType::Foreign(ForeignBridgedType::Opaque(opaque)) => opaque.swift_type_text(
                type_pos,
            ),
            BridgedType::Result(result) => result.swift_type_text(type_pos),
        }
    }

    /// How the type is written in a C header: of a declared type only a
    /// pointer crosses.
    pub open spec fn c_type_text(self) -> Seq<char>
        decreases self,
    {
        match self {
            BridgedType::Null => "void"@,
            BridgedType::Primitive(primitive) => primitive.c_name(),
            BridgedType::Foreign(_) => "void*"@,
            BridgedType::Result(result) => result.c_text(),
        }
    }

    /// The Swift expression that turns the value of `expression` into what
    /// crosses the boundary. A primitive crosses as it is; for no value,
    /// nothing crosses.
    pub open spec fn swift_to_ffi_text(
        self,
        expression: Seq<char>,
        type_pos: TypePosition,
    ) -> Seq<char>
        decreases self,
    {
        match self {
            BridgedType::Null => "nil"@,
            BridgedType::Primitive(_) => expression,
            BridgedType::Foreign(ForeignBridgedType::Opaque(opaque)) => opaque.swift_to_ffi_text(
                expression,
            ),
            BridgedType::Result(result) => result.swift_to_ffi_text(expression, type_pos),
        }
    }

    /// Whether a value of the type crosses as one pointer: no value as the
    /// null pointer, a value of a declared type as its handle.
    pub open spec fn crosses_as_pointer(self) -> bool {
        self is Null || self is Foreign
    }

    /// The part that the type gives to the name of a record that holds a
    /// value of it: `Ptr` where the value crosses as a pointer, the name of
    /// the nested record for a `Result`.
    pub open spec fn record_name_part(self) -> Seq<char>
        decreases self,
    {
        match self {
            BridgedType::Null => "Ptr"@,
            BridgedType::Primitive(primitive) => primitive.record_name_part(),
            BridgedType::Foreign(_) => "Ptr"@,
            BridgedType::Result(result) => result.rust_record_name_text(),
        }
    }

    /// The Rust expression that takes a value of the type out of the
    /// payload `payload`: nothing for no value, the payload itself for a
    /// primitive, the value behind the pointer for a declared type, and for
    /// a `Result` what its record converts to.
    pub open spec fn ffi_payload_to_rust_text(self, payload: Seq<char>) -> Seq<char>
        decreases self,
    {
        match self {
            BridgedType::Null => "()"@,
            BridgedType::Primitive(_) => payload,
            BridgedType::Foreign(ForeignBridgedType::Opaque(opaque)) => {
                opaque.ffi_payload_to_rust_text(payload)
            },
            BridgedType::Result(result) => result.ffi_to_rust_text(payload),
        }
    }

    /// The Rust expression that turns `value`, a value of the type, into
    /// what the payload of a record holds: the null pointer for no value,
    /// the value itself for a primitive, a pointer to the value for a
    /// declared type, and for a `Result` its own record.
    pub open spec fn rust_to_ffi_payload_text(
        self,
        value: Seq<char>,
        swift_bridge_path: Seq<char>,
    ) -> Seq<char>
        decreases self,
    {
        match self {
            BridgedType::Null => "std :: ptr :: null_mut ()"@,
            BridgedType::Primitive(_) => value,
            BridgedType::Foreign(_) => OpaqueForeignType::rust_to_ffi_payload_text(value),
            BridgedType::Result(result) => result.rust_to_ffi_text(value, swift_bridge_path),
        }
    }

    pub fn to_rust_type_path(&self) -> (path: String)
        ensures
            path@ == self.rust_type_path_text(),
        decreases self,
    {
        match self {
            BridgedType::Null => String::from_str("()"),
            BridgedType::Primitive(primitive) => String::from_str(primitive.to_rust_type_path()),
            BridgedType::Foreign(ForeignBridgedType::Opaque(opaque)) => opaque.to_rust_type_path(),
            BridgedType::Result(result) => result.to_rust_type_path(),
        }
    }

    pub fn to_swift_type(&self, type_pos: TypePosition, types: &TypeDeclarations) -> (name: String)
        ensures
            name@ == self.swift_type_text(type_pos),
        decreases self,
    {
        match self {
            BridgedType::Null => String::from_str("()"),
            BridgedType::Primitive(primitive) => String::from_str(primitive.to_swift_type()),
            BridgedType::Foreign(ForeignBridgedType::Opaque(opaque)) => opaque.to_swift_type(type_pos),
            BridgedType::Result(result) => result.to_swift_type(type_pos, types),
        }
    }

    pub fn to_c_type(&self) -> (name: String)
        ensures
            name@ == self.c_type_text(),
        decreases self,
    {
        match self {
            BridgedType::Null => String::from_str("void"),
            BridgedType::Primitive(primitive) => String::from_str(primitive.to_c_type()),
            BridgedType::Foreign(_) => String::from_str("void*"),
            BridgedType::Result(result) => result.to_c(),
        }
    }

    pub fn convert_swift_expression_to_ffi_type(
        &self,
        expression: &str,
        type_pos: TypePosition,
    ) -> (converted: String)
        ensures
            converted@ == self.swift_to_ffi_text(expression@, type_pos),
        decreases self,
    {
        match self {
            BridgedType::Null => String::from_str("nil"),
            BridgedType::Primitive(_) => String::from_str(expression),
            BridgedType::Foreign(ForeignBridgedType::Opaque(opaque)) => {
                opaque.convert_swift_expression_to_ffi_type(expression)
            },
            BridgedType::Result(result) => result.convert_swift_expression_to_ffi_compatible(
                expression,
                type_pos,
            ),
        }
    }

    /// Whether a value of the type crosses as one pointer.
    pub fn is_pointer_sized(&self) -> (pointer: bool)
        ensures
            pointer == self.crosses_as_pointer(),
    {
        match self {
            BridgedType::Null => true,
            BridgedType::Foreign(_) => true,
            _ => false,
        }
    }

    pub fn to_record_name_part(&self) -> (part: String)
        ensures
            part@ == self.record_name_part(),
        decreases self,
    {
        match self {
            BridgedType::Null => String::from_str("Ptr"),
            BridgedType::Primitive(primitive) => String::from_str(primitive.to_record_name_part()),
            BridgedType::Foreign(_) => String::from_str("Ptr"),
            BridgedType::Result(result) => result.rust_record_name(),
        }
    }

    /// The Rust expression that takes a value of the type out of a payload.
    pub fn convert_ffi_payload_to_rust_value(&self, payload: &str) -> (converted: String)
        ensures
            converted@ == self.ffi_payload_to_rust_text(payload@),
        decreases self, 0nat,
    {
        match self {
            BridgedType::Null => String::from_str("()"),
            BridgedType::Primitive(_) => String::from_str(payload),
            BridgedType::Foreign(ForeignBridgedType::Opaque(opaque)) => {
                opaque.convert_ffi_payload_to_rust_value(payload)
            },
            BridgedType::Result(result) => result.convert_ffi_value_to_rust_value(payload),
        }
    }

    /// The Rust expression that turns a value of the type into what the
    /// payload of a record holds.
    pub fn convert_rust_value_to_ffi_payload(&self, value: &str, swift_bridge_path: &str) -> (converted:
        String)
        ensures
            converted@ == self.rust_to_ffi_payload_text(value@, swift_bridge_path@),
        decreases self,
    {
        match self {
            BridgedType::Null => String::from_str("std :: ptr :: null_mut ()"),
            BridgedType::Primitive(_) => String::from_str(value),
            BridgedType::Foreign(_) => OpaqueForeignType::convert_rust_value_to_ffi_payload(value),
            BridgedType::Result(result) => result.convert_rust_expression_to_ffi_type(
                value,
                swift_bridge_path,
            ),
        }
    }

    /// The Rust expression that takes the `Ok` value, a value of this type,
    /// out of the record `expression`.
    pub fn convert_ffi_result_ok_value_to_rust_value(
        &self,
        expression: &str,
        layout: PayloadLayout,
    ) -> (converted: String)
        ensures
            converted@ == self.ffi_payload_to_rust_text(ok_payload_text(expression@, layout)),
        decreases self, 1nat,
    {
        let payload = match layout {
            PayloadLayout::Pointer => String::from_str(expression).concat(" . ok_or_err"),
            PayloadLayout::Union => String::from_str("(unsafe { ").concat(expression).concat(
                " . ok_or_err . ok })",
            ),
        };
        self.convert_ffi_payload_to_rust_value(payload.as_str())
    }

    /// The Rust expression that takes the `Err` value, a value of this type,
    /// out of the record `expression`.
    pub fn convert_ffi_result_err_value_to_rust_value(
        &self,
        expression: &str,
        layout: PayloadLayout,
    ) -> (converted: String)
        ensures
            converted@ == self.ffi_payload_to_rust_text(err_payload_text(expression@, layout)),
        decreases self, 1nat,
    {
        let payload = match layout {
            PayloadLayout::Pointer => String::from_str(expression).concat(" . ok_or_err"),
            PayloadLayout::Union => String::from_str("(unsafe { ").concat(expression).concat(
                " . ok_or_err . err })",
            ),
        };
        self.convert_ffi_payload_to_rust_value(payload.as_str())
    }

    /// Reads the name of a built-in type.
    pub fn built_in_with_str(text: &str, types: &TypeDeclarations) -> (found: Option<BridgedType>)
        ensures
            found == built_in_of(text@, types@.map),
        decreases text@.len(), 1nat,
    {
        if has_at(text, 0, "Result < ") {
            match BuiltInResult::from_str_tokens(text, types) {
                Some(result) => Some(BridgedType::Result(result)),
                None => None,
            }
        } else if str_eq(text, "()") {
            Some(BridgedType::Null)
        } else {
            match Primitive::with_str(text) {
                Some(primitive) => Some(BridgedType::Primitive(primitive)),
                None => None,
            }
        }
    }

    /// Reads the name of a type: a built-in type, or else one that `types`
    /// holds.
    pub fn new_with_str(text: &str, types: &TypeDeclarations) -> (found: Option<BridgedType>)
        ensures
            found == bridged_type_of(text@, types@.map),
        decreases text@.len(), 2nat,
    {
        match BridgedType::built_in_with_str(text, types) {
            Some(ty) => Some(ty),
            None => match types.get(text) {
                Some(declared) => Some(BridgedType::Foreign(declared.clone())),
                None => None,
            },
        }
    }

    /// Whether this is `()`.
    pub fn is_null(&self) -> (null: bool)
        ensures
            null == (*self == BridgedType::Null),
    {
        match self {
            BridgedType::Null => true,
            _ => false,
        }
    }
}

} // verus!
