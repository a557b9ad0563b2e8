//! Intermediate representation of a bridge module: the declarations of one
//! module are resolved into functions and types, and every type that may
//! cross the boundary knows how it is written on either side.

pub mod bridge_module;
pub mod bridged_type;
pub mod errors;
pub mod parse;
pub mod parsed_extern_fn;
pub mod text;

pub use bridge_module::{SwiftBridgeModule, SwiftBridgeModuleAndErrors};
pub use bridged_type::bridgeable_result::BuiltInResult;
pub use bridged_type::{BridgedType, TypePosition};
pub use errors::{ParseError, ParseErrors};
pub use parse::type_declarations::TypeDeclarations;
pub use parsed_extern_fn::ParsedExternFn;
