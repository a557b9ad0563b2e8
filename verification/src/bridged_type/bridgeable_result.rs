//! `Result<T, E>` at the boundary.
//!
//! A result crosses as one record: the flag `is_ok`, which tells the branch,
//! and the payload `ok_or_err`, which holds the value of either branch. The
//! record is a type of the support library's module `result`, named after
//! what its branches are. Where both branches cross as a pointer, the
//! payload is that pointer and the record is `ResultPtrAndPtr`. Any other
//! record has a union for its payload, with the fields `ok` and `err`; the
//! union is named as the record is, with `Payload` behind.

use vstd::prelude::*;
use vstd::string::*;
use crate::bridged_type::{
    err_payload_text, ok_payload_text, result_of, BridgedType, PayloadLayout, Primitive,
    TypePosition,
};
use crate::parse::type_declarations::TypeDeclarations;
use crate::text::{
    find, find_from, is_ident, is_ident_char, lemma_find, occurs_at, lemma_strip_len, lemma_trim_len, strip_prefixes,
    strip_suffixes, trim, trim_end_matches, trim_start_matches, trim_whitespace,
};

verus! {

/// `Result<T, E>`. On the other side it is a `RustResult<T, E>`, a type of
/// its own there.
#[derive(Debug)]
pub struct BuiltInResult {
    pub ok_ty: Box<BridgedType>,
    pub err_ty: Box<BridgedType>,
}

/// The texts of the two branches of `Result < A , B >`: what stands before
/// the first comma and what stands between it and the next, each without
/// the white space around it. Without a comma there are no two branches.
pub open spec fn result_branches(text: Seq<char>) -> Option<(Seq<char>, Seq<char>)> {
    let inner = strip_suffixes(strip_prefixes(text, "Result < "@), " >"@);
    let comma = find(inner, ',');
    if comma < inner.len() {
        let rest = inner.skip(comma + 1);
        Some((trim(inner.take(comma)), trim(rest.take(find(rest, ',')))))
    } else {
        None
    }
}

/// Each branch text is shorter than the text it was taken from.
pub proof fn lemma_result_branches_len(text: Seq<char>)
    ensures
        result_branches(text) matches Some((ok, err)) ==> ok.len() < text.len() && err.len()
            < text.len(),
{
    let inner = strip_suffixes(strip_prefixes(text, "Result < "@), " >"@);
    lemma_strip_len(text, "Result < "@);
    lemma_strip_len(strip_prefixes(text, "Result < "@), " >"@);
    let comma = find(inner, ',');
    lemma_find(inner, ',');
    if comma < inner.len() {
        let rest = inner.skip(comma + 1);
        lemma_find(rest, ',');
        lemma_trim_len(inner.take(comma));
        lemma_trim_len(rest.take(find(rest, ',')));
    }
}

impl BuiltInResult {
    /// How the type is written in Rust.
    pub open spec fn rust_type_path_text(self) -> Seq<char>
        decreases self,
    {
        "Result < "@ + self.ok_ty.rust_type_path_text() + " , "@ + self.err_ty.rust_type_path_text()
            + " >"@
    }

    /// How the type is written in Swift: `RustResult` of its two branches.
    pub open spec fn swift_type_text(self, type_pos: TypePosition) -> Seq<char>
        decreases self,
    {
        "RustResult<"@ + self.ok_ty.swift_type_text(type_pos) + ", "@ + self.err_ty.swift_type_text(
            type_pos,
        ) + ">"@
    }

    /// The name of the record that crosses the boundary, made of the names
    /// that the two branches have in a C header.
    pub open spec fn ffi_name_text(self) -> Seq<char>
        decreases self, 0nat,
    {
        "__private__Result"@ + self.ok_ty.c_type_text() + "And"@ + self.err_ty.c_type_text()
    }

    /// How the type is written in a C header.
    pub open spec fn c_text(self) -> Seq<char>
        decreases self, 1nat,
    {
        "struct "@ + self.ffi_name_text()
    }

    /// The Swift expression that turns the value of `expression` into the
    /// record that crosses the boundary: it tells the two branches apart and
    /// converts the value of each as its own type asks.
    pub open spec fn swift_to_ffi_text(self, expression: Seq<char>, type_pos: TypePosition) -> Seq<
        char,
    >
        decreases self,
    {
        "{ switch "@ + expression + " { case .Ok(let ok): return "@ + self.ffi_name_text()
            + "(is_ok: true, ok_or_err: "@ + self.ok_ty.swift_to_ffi_text("ok"@, type_pos)
            + ") case .Err(let err): return "@ + self.ffi_name_text()
            + "(is_ok: false, ok_or_err: "@ + self.err_ty.swift_to_ffi_text("err"@, type_pos)
            + ") } }()"@
    }

    /// How the payload of the record holds the value of a branch. Where
    /// both branches cross as a pointer, the payload is that one pointer;
    /// else it is a union with a field for either branch.
    pub open spec fn payload_layout(self) -> PayloadLayout {
        if self.ok_ty.crosses_as_pointer() && self.err_ty.crosses_as_pointer() {
            PayloadLayout::Pointer
        } else {
            PayloadLayout::Union
        }
    }

    /// The name of the Rust type of the record that crosses the boundary,
    /// made of what the two branches give to it. It is `ResultPtrAndPtr`
    /// where both branches cross as a pointer.
    pub open spec fn rust_record_name_text(self) -> Seq<char>
        decreases self,
    {
        "Result"@ + self.ok_ty.record_name_part() + "And"@ + self.err_ty.record_name_part()
    }

    /// The Rust type of the record that crosses the boundary, under the
    /// path `swift_bridge_path` of the support library.
    pub open spec fn ffi_compatible_rust_type_text(self, swift_bridge_path: Seq<char>) -> Seq<char> {
        swift_bridge_path + " :: result :: "@ + self.rust_record_name_text()
    }

    /// The Rust expression that makes the record of the branch `field`
    /// (`ok` or `err`) with the flag `flag` and the payload `payload`. The
    /// type that it makes is the type of the record.
    pub open spec fn record_text(
        self,
        swift_bridge_path: Seq<char>,
        flag: Seq<char>,
        field: Seq<char>,
        payload: Seq<char>,
    ) -> Seq<char> {
        let record = self.ffi_compatible_rust_type_text(swift_bridge_path);
        match self.payload_layout() {
            PayloadLayout::Pointer => record + " { is_ok : "@ + flag + " , ok_or_err : "@ + payload
                + " }"@,
            PayloadLayout::Union => record + " { is_ok : "@ + flag + " , ok_or_err : "@ + record
                + "Payload { "@ + field + " : "@ + payload + " } }"@,
        }
    }

    /// The Rust expression that turns the boundary value `expression` back
    /// into a `Result`: one test of `is_ok` tells which branch to take the
    /// value out of, and each branch converts its payload as its own type
    /// asks.
    pub open spec fn ffi_to_rust_text(self, expression: Seq<char>) -> Seq<char>
        decreases self,
    {
        "if "@ + expression + " . is_ok { std :: result :: Result :: Ok ("@
            + self.ok_ty.ffi_payload_to_rust_text(
            ok_payload_text(expression, self.payload_layout()),
        ) + ") } else { std :: result :: Result :: Err ("@ + self.err_ty.ffi_payload_to_rust_text(
            err_payload_text(expression, self.payload_layout()),
        ) + ") }"@
    }

    /// The Rust expression that turns the `Result` of `expression` into the
    /// record that crosses the boundary: it tells the two branches apart
    /// once, and each branch converts its value as its own type asks.
    pub open spec fn rust_to_ffi_text(
        self,
        expression: Seq<char>,
        swift_bridge_path: Seq<char>,
    ) -> Seq<char>
        decreases self,
    {
        "match "@ + expression + " { Ok (ok) => "@ + self.record_text(
            swift_bridge_path,
            "true"@,
            "ok"@,
            self.ok_ty.rust_to_ffi_payload_text("ok"@, swift_bridge_path),
        ) + " , Err (err) => "@ + self.record_text(
            swift_bridge_path,
            "false"@,
            "err"@,
            self.err_ty.rust_to_ffi_payload_text("err"@, swift_bridge_path),
        ) + " }"@
    }

    /// How the payload of the record holds the value of a branch.
    pub fn layout(&self) -> (layout: PayloadLayout)
        ensures
            layout == self.payload_layout(),
    {
        if self.ok_ty.is_pointer_sized() && self.err_ty.is_pointer_sized() {
            PayloadLayout::Pointer
        } else {
            PayloadLayout::Union
        }
    }

    /// The name of the Rust type of the record that crosses the boundary.
    pub fn rust_record_name(&self) -> (name: String)
        ensures
            name@ == self.rust_record_name_text(),
        decreases self,
    {
        let ok = self.ok_ty.to_record_name_part();
        let err = self.err_ty.to_record_name_part();
        let mut name = String::from_str("Result");
        name.append(ok.as_str());
        name.append("And");
        name.append(err.as_str());
        name
    }

    pub fn to_ffi_compatible_rust_type(&self, swift_bridge_path: &str) -> (ty: String)
        ensures
            ty@ == self.ffi_compatible_rust_type_text(swift_bridge_path@),
    {
        let name = self.rust_record_name();
        let mut ty = String::from_str(swift_bridge_path);
        ty.append(" :: result :: ");
        ty.append(name.as_str());
        ty
    }

    /// The Rust expression that makes the record of one branch.
    fn record(&self, swift_bridge_path: &str, flag: &str, field: &str, payload: &str) -> (made:
        String)
        ensures
            made@ == self.record_text(swift_bridge_path@, flag@, field@, payload@),
    {
        let record = self.to_ffi_compatible_rust_type(swift_bridge_path);
        let mut made = record.clone();
        made.append(" { is_ok : ");
        made.append(flag);
        made.append(" , ok_or_err : ");
        match self.layout() {
            PayloadLayout::Pointer => {
                made.append(payload);
                made.append(" }");
            },
            PayloadLayout::Union => {
                made.append(record.as_str());
                made.append("Payload { ");
                made.append(field);
                made.append(" : ");
                made.append(payload);
                made.append(" } }");
            },
        }
        made
    }

    pub fn convert_ffi_value_to_rust_value(&self, expression: &str) -> (converted: String)
        ensures
            converted@ == self.ffi_to_rust_text(expression@),
        decreases self, 2nat,
    {
        let layout = self.layout();
        let convert_ok = self.ok_ty.convert_ffi_result_ok_value_to_rust_value(expression, layout);
        let convert_err = self.err_ty.convert_ffi_result_err_value_to_rust_value(
            expression,
            layout,
        );
        let mut converted = String::from_str("if ");
        converted.append(expression);
        converted.append(" . is_ok { std :: result :: Result :: Ok (");
        converted.append(convert_ok.as_str());
        converted.append(") } else { std :: result :: Result :: Err (");
        converted.append(convert_err.as_str());
        converted.append(") }");
        converted
    }

    pub fn to_rust_type_path(&self) -> (path: String)
        ensures
            path@ == self.rust_type_path_text(),
        decreases self,
    {
        let ok = self.ok_ty.to_rust_type_path();
        let err = self.err_ty.to_rust_type_path();
        let mut path = String::from_str("Result < ");
        path.append(ok.as_str());
        path.append(" , ");
        path.append(err.as_str());
        path.append(" >");
        path
    }

    pub fn to_swift_type(&self, type_pos: TypePosition, types: &TypeDeclarations) -> (name: String)
        ensures
            name@ == self.swift_type_text(type_pos),
        decreases self,
    {
        let ok = self.ok_ty.to_swift_type(type_pos, types);
        let err = self.err_ty.to_swift_type(type_pos, types);
        let mut name = String::from_str("RustResult<");
        name.append(ok.as_str());
        name.append(", ");
        name.append(err.as_str());
        name.append(">");
        name
    }

    /// The name of the record that crosses the boundary.
    pub fn ffi_name(&self) -> (name: String)
        ensures
            name@ == self.ffi_name_text(),
        decreases self, 0nat,
    {
        let ok = self.ok_ty.to_c_type();
        let err = self.err_ty.to_c_type();
        let mut name = String::from_str("__private__Result");
        name.append(ok.as_str());
        name.append("And");
        name.append(err.as_str());
        name
    }

    pub fn convert_swift_expression_to_ffi_compatible(
        &self,
        expression: &str,
        type_pos: TypePosition,
    ) -> (converted: String)
        ensures
            converted@ == self.swift_to_ffi_text(expression@, type_pos),
        decreases self, 1nat,
    {
        let convert_ok = self.ok_ty.convert_swift_expression_to_ffi_type("ok", type_pos);
        let convert_err = self.err_ty.convert_swift_expression_to_ffi_type("err", type_pos);
        let record_name = self.ffi_name();
        let mut converted = String::from_str("{ switch ");
        converted.append(expression);
        converted.append(" { case .Ok(let ok): return ");
        converted.append(record_name.as_str());
        converted.append("(is_ok: true, ok_or_err: ");
        converted.append(convert_ok.as_str());
        converted.append(") case .Err(let err): return ");
        converted.append(record_name.as_str());
        converted.append("(is_ok: false, ok_or_err: ");
        converted.append(convert_err.as_str());
        converted.append(") } }()");
        converted
    }

    /// The Rust expression that turns the `Result` of `expression` into the
    /// record that crosses the boundary.
    pub fn convert_rust_expression_to_ffi_type(
        &self,
        expression: &str,
        swift_bridge_path: &str,
    ) -> (converted: String)
        ensures
            converted@ == self.rust_to_ffi_text(expression@, swift_bridge_path@),
        decreases self,
    {
        let convert_ok = self.ok_ty.convert_rust_value_to_ffi_payload("ok", swift_bridge_path);
        let convert_err = self.err_ty.convert_rust_value_to_ffi_payload("err", swift_bridge_path);
        let ok = self.record(swift_bridge_path, "true", "ok", convert_ok.as_str());
        let err = self.record(swift_bridge_path, "false", "err", convert_err.as_str());
        let mut converted = String::from_str("match ");
        converted.append(expression);
        converted.append(" { Ok (ok) => ");
        converted.append(ok.as_str());
        converted.append(" , Err (err) => ");
        converted.append(err.as_str());
        converted.append(" }");
        converted
    }

    pub fn to_c(&self) -> (name: String)
        ensures
            name@ == self.c_text(),
        decreases self, 1nat,
    {
        String::from_str("struct ").concat(self.ffi_name().as_str())
    }

    /// Reads `Result < A , B >`, where `A` and `B` each name a type.
    pub fn from_str_tokens(string: &str, types: &TypeDeclarations) -> (found: Option<Self>)
        ensures
            found == result_of(string@, types@.map),
        decreases string@.len(), 0nat,
    {
        proof {
            lemma_result_branches_len(string@);
        }
        let inner = trim_end_matches(trim_start_matches(string, "Result < "), " >");
        let len = inner.unicode_len();
        assert(inner@.skip(0) =~= inner@);
        let comma = find_from(inner, 0, ',');
        if comma >= len {
            return None;
        }
        let next = find_from(inner, comma + 1, ',');
        assert(inner@.subrange(0, comma as int) =~= inner@.take(comma as int));
        assert(inner@.subrange(comma + 1, next as int) =~= inner@.skip(comma + 1).take(
            next - (comma + 1),
        ));
        let ok = trim_whitespace(inner.substring_char(0, comma));
        let err = trim_whitespace(inner.substring_char(comma + 1, next));
        let ok_ty = match BridgedType::new_with_str(ok, types) {
            Some(ty) => ty,
            None => {
                return None;
            },
        };
        let err_ty = match BridgedType::new_with_str(err, types) {
            Some(ty) => ty,
            None => {
                return None;
            },
        };
        Some(BuiltInResult { ok_ty: Box::new(ok_ty), err_ty: Box::new(err_ty) })
    }
}

/// Whether every character of `s` may stand in an identifier.
pub open spec fn ident_chars(s: Seq<char>) -> bool {
    forall|i: int| 0 <= i < s.len() ==> is_ident_char(#[trigger] s[i])
}

proof fn lemma_ident_chars_add(a: Seq<char>, b: Seq<char>)
    requires
        ident_chars(a),
        ident_chars(b),
    ensures
        ident_chars(a + b),
{
    assert forall|i: int| 0 <= i < (a + b).len() implies is_ident_char(#[trigger] (a + b)[i]) by {
        if i < a.len() {
            assert((a + b)[i] == a[i]);
        } else {
            assert((a + b)[i] == b[i - a.len()]);
        }
    }
}

impl Primitive {
    /// What a primitive gives to the name of a record is made of letters
    /// and digits and starts with none of `P` and `R`.
    pub proof fn lemma_record_name_part(self)
        ensures
            self.record_name_part().len() > 0,
            ident_chars(self.record_name_part()),
            self.record_name_part()[0] != 'P',
    {
        reveal_strlit("U8");
        reveal_strlit("I8");
        reveal_strlit("U16");
        reveal_strlit("I16");
        reveal_strlit("U32");
        reveal_strlit("I32");
        reveal_strlit("U64");
        reveal_strlit("I64");
        reveal_strlit("Usize");
        reveal_strlit("Isize");
        reveal_strlit("F32");
        reveal_strlit("F64");
        reveal_strlit("Bool");
    }
}

impl BridgedType {
    /// What a type gives to the name of a record is made of letters and
    /// digits, and it starts with `P` exactly where a value of the type
    /// crosses as a pointer: then it is `Ptr`.
    pub proof fn lemma_record_name_part(self)
        ensures
            self.record_name_part().len() > 0,
            ident_chars(self.record_name_part()),
            self.record_name_part()[0] == 'P' <==> self.crosses_as_pointer(),
            self.crosses_as_pointer() ==> self.record_name_part() == "Ptr"@,
        decreases self,
    {
        reveal_strlit("Ptr");
        match self {
            BridgedType::Primitive(primitive) => {
                primitive.lemma_record_name_part();
            },
            BridgedType::Result(result) => {
                result.lemma_record_name();
            },
            _ => {},
        }
    }
}

impl BuiltInResult {
    /// The name of the record of a result is an identifier, whatever the
    /// branches are, and it starts with `Result`.
    pub proof fn lemma_record_name(self)
        ensures
            is_ident(self.rust_record_name_text()),
            self.rust_record_name_text().len() > 6,
            self.rust_record_name_text()[0] == 'R',
        decreases self,
    {
        reveal_strlit("Result");
        reveal_strlit("And");
        self.ok_ty.lemma_record_name_part();
        self.err_ty.lemma_record_name_part();
        let ok = self.ok_ty.record_name_part();
        let err = self.err_ty.record_name_part();
        lemma_ident_chars_add("Result"@, ok);
        lemma_ident_chars_add("Result"@ + ok, "And"@);
        lemma_ident_chars_add("Result"@ + ok + "And"@, err);
        assert(self.rust_record_name_text()[0] == "Result"@[0]);
    }

    /// The record is the one of two pointers exactly where both branches
    /// cross as a pointer. A branch that does not, such as a primitive,
    /// gives the record another name.
    pub proof fn lemma_two_pointer_record(self)
        ensures
            self.payload_layout() == PayloadLayout::Pointer <==> self.rust_record_name_text()
                == "ResultPtrAndPtr"@,
    {
        reveal_strlit("Result");
        reveal_strlit("And");
        reveal_strlit("Ptr");
        reveal_strlit("ResultPtrAndPtr");
        self.ok_ty.lemma_record_name_part();
        self.err_ty.lemma_record_name_part();
        let ok = self.ok_ty.record_name_part();
        let err = self.err_ty.record_name_part();
        let name = self.rust_record_name_text();
        if self.payload_layout() == PayloadLayout::Pointer {
            assert(name =~= "ResultPtrAndPtr"@);
        }
        if name == "ResultPtrAndPtr"@ {
            assert(name[6] == ok[0]);
            assert(ok =~= "Ptr"@);
            assert(name[12] == err[0]);
        }
    }

    /// The expression that makes a record names the type of the record: what
    /// the body of a stub makes is what its signature names.
    pub proof fn lemma_record_names_its_type(
        self,
        swift_bridge_path: Seq<char>,
        flag: Seq<char>,
        field: Seq<char>,
        payload: Seq<char>,
    )
        ensures
            occurs_at(
                self.record_text(swift_bridge_path, flag, field, payload),
                0,
                self.ffi_compatible_rust_type_text(swift_bridge_path),
            ),
    {
        let record = self.ffi_compatible_rust_type_text(swift_bridge_path);
        let made = self.record_text(swift_bridge_path, flag, field, payload);
        assert(made.subrange(0, record.len() as int) =~= record);
    }
}

} // verus!
