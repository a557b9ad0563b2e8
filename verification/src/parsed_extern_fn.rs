//! A function of a bridge module, resolved.

use vstd::prelude::*;
use vstd::string::*;
use crate::bridged_type::ForeignBridgedType;
use crate::parse::{ForeignItemFn, HostLang};

verus! {

/// A function declaration together with what the pass over its block found
/// out about it.
#[derive(Debug)]
pub struct ParsedExternFn {
    pub func: ForeignItemFn,
    /// The type that the function is a method of, if it is one.
    pub associated_type: Option<ForeignBridgedType>,
    pub is_initializer: bool,
    pub host_lang: HostLang,
    /// The function's name on the other side, where it differs.
    pub swift_name_override: Option<String>,
}

} // verus!
