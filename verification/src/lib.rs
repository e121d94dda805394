//! Decoder and pretty-printer for mangled Glu symbol names.
//!
//! A mangled name encodes a symbol's module path, bare name and type as a
//! compact, length-prefixed string (for example `4main4testFvR`).  This
//! crate parses such names back into a typed representation and renders
//! that representation in several human-readable styles.

pub mod demo;
pub mod digits;
pub mod error;
pub mod formatter;
pub mod grammar;
pub mod laws;
pub mod model;
pub mod parser;
pub mod render;
pub mod types;

pub use error::DemangleError;
pub use formatter::format_function;
pub use formatter::format_global;
pub use formatter::format_symbol;
pub use parser::Parser;
pub use types::DisplayFormat;
pub use types::GlobalKind;
pub use types::GluFunction;
pub use types::GluGlobal;
pub use types::GluSymbol;
pub use types::GluType;

use vstd::prelude::*;
use vstd::string::StrSliceExecFns;

verus! {

/// Does `p@` lead `s@`?
fn has_prefix(s: &str, p: &str) -> (b: bool)
    ensures
        b == (s@.len() >= p@.len() && s@.subrange(0, p@.len() as int) == p@),
{
    let sn = s.unicode_len();
    let pn = p.unicode_len();
    if sn < pn {
        return false;
    }
    let mut i: usize = 0;
    while i < pn
        invariant
            i <= pn,
            pn == p@.len(),
            sn == s@.len(),
            pn <= sn,
            forall|j: int| 0 <= j < i ==> s@[j] == p@[j],
        decreases pn - i,
    {
        let a = s.get_char(i);
        let b2 = p.get_char(i);
        if a != b2 {
            proof {
                if s@.subrange(0, pn as int) == p@ {
                    assert(s@.subrange(0, pn as int)[i as int] == p@[i as int]);
                }
            }
            return false;
        }
        i = i + 1;
    }
    proof {
        assert(s@.subrange(0, pn as int) =~= p@);
    }
    true
}

/// Strip a recognized mangling marker from the front of the text: the
/// underscore-decorated marker first, then the bare one; text without a
/// marker passes through unchanged.
pub fn strip_mangling_prefix(mangled: &str) -> (r: &str)
    ensures
        r@ == grammar::spec_strip_prefix(mangled@),
{
    proof {
        reveal_strlit("_$GLU$");
        reveal_strlit("$GLU$");
    }
    let n = mangled.unicode_len();
    if has_prefix(mangled, "_$GLU$") {
        let pn = "_$GLU$".unicode_len();
        mangled.substring_char(pn, n)
    } else if has_prefix(mangled, "$GLU$") {
        let pn = "$GLU$".unicode_len();
        mangled.substring_char(pn, n)
    } else {
        mangled
    }
}

/// Decode a mangled name into a function or global symbol.
///
/// Characters past a well-formed symbol are ignored, so a decorated
/// name keeps decoding even when a linker appends to it.
pub fn demangle_symbol(mangled: &str) -> (r: Result<GluSymbol, DemangleError>)
    ensures
        match r {
            Ok(sym) => grammar::spec_demangle_symbol(mangled@) matches Ok(v) && v
                == model::symbol_view(sym),
            Err(e) => grammar::spec_demangle_symbol(mangled@) matches Err(e2) && e2 == e,
        },
{
    let stripped = strip_mangling_prefix(mangled);
    let mut parser = Parser::new(stripped);
    parser.parse_symbol()
}

/// Decode a mangled name that must be a function symbol.
pub fn demangle(mangled: &str) -> (r: Result<GluFunction, DemangleError>)
    ensures
        match r {
            Ok(f) => grammar::spec_demangle_function(mangled@) matches Ok(v) && v
                == model::function_view(f),
            Err(e) => grammar::spec_demangle_function(mangled@) matches Err(e2) && e2 == e,
        },
{
    let stripped = strip_mangling_prefix(mangled);
    let mut parser = Parser::new(stripped);
    parser.parse_function()
}

} // verus!
