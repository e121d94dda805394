//! The typed representation of a decoded Glu symbol.

use vstd::prelude::*;
use vstd::string::{StrSliceExecFns, StringExecFns};
use crate::error::DemangleError;

verus! {

/// A Glu type, as recovered from a mangled name.
///
/// Values form finite trees: the grammar consumes at least one input
/// character before every recursive step, so no cycle is representable.
#[derive(Debug, PartialEq)]
pub enum GluType {
    Void,
    Bool,
    Char,
    Int { signed: bool, width: u32 },
    Float { width: u32 },
    Pointer(Box<GluType>),
    StaticArray { size: usize, element_type: Box<GluType> },
    DynamicArray,
    Function { return_type: Box<GluType>, params: Vec<GluType> },
    Struct { mod_path: Vec<String>, name: String },
    Enum { mod_path: Vec<String>, name: String },
    Null,
}

/// A decoded function symbol: qualified name plus its function type.
#[derive(Debug, PartialEq)]
pub struct GluFunction {
    pub mod_path: Vec<String>,
    pub name: String,
    pub func_type: GluType,
}

/// The role of a global symbol.
///
/// `Constructor` and `Destructor` belong to the kind vocabulary but have no
/// discriminator character in the current grammar; they are reserved.
#[derive(Debug, Clone, Copy, PartialEq, Eq, Structural)]
pub enum GlobalKind {
    Storage,
    Accessor,
    Constructor,
    Destructor,
    Init,
    SetBit,
}

/// A decoded global symbol: qualified name, kind and value type.
#[derive(Debug, PartialEq)]
pub struct GluGlobal {
    pub mod_path: Vec<String>,
    pub name: String,
    pub kind: GlobalKind,
    pub var_type: GluType,
}

/// Either of the two symbol shapes a mangled name can decode to.
#[derive(Debug, PartialEq)]
pub enum GluSymbol {
    Function(GluFunction),
    Global(GluGlobal),
}

/// One of the five rendering styles for a decoded symbol.
#[derive(Debug, Clone, Copy, PartialEq, Eq, Structural)]
pub enum DisplayFormat {
    /// `module::name(params) -> return_type`
    Signature,
    /// `module::name: (params) -> return_type`
    Compact,
    /// A short multi-line block with prose type descriptions.
    Verbose,
    /// `module::name`
    NameOnly,
    /// `(params) -> return_type`
    TypeOnly,
}

/// ASCII lower-casing of one character; anything but `A..Z` is kept.
pub open spec fn lower_char(c: char) -> char {
    match c {
        'A' => 'a',
        'B' => 'b',
        'C' => 'c',
        'D' => 'd',
        'E' => 'e',
        'F' => 'f',
        'G' => 'g',
        'H' => 'h',
        'I' => 'i',
        'J' => 'j',
        'K' => 'k',
        'L' => 'l',
        'M' => 'm',
        'N' => 'n',
        'O' => 'o',
        'P' => 'p',
        'Q' => 'q',
        'R' => 'r',
        'S' => 's',
        'T' => 't',
        'U' => 'u',
        'V' => 'v',
        'W' => 'w',
        'X' => 'x',
        'Y' => 'y',
        'Z' => 'z',
        _ => c,
    }
}

/// Equality of two character sequences up to ASCII case.
pub open spec fn ci_equal(a: Seq<char>, b: Seq<char>) -> bool {
    a.len() == b.len() && forall|i: int|
        0 <= i < a.len() ==> lower_char(a[i]) == lower_char(#[trigger] b[i])
}

/// The display format selected by a short code, compared
/// case-insensitively; `None` when the code names no style.
pub open spec fn spec_display_format(s: Seq<char>) -> Option<DisplayFormat> {
    if ci_equal(s, "signature"@) || ci_equal(s, "sig"@) || ci_equal(s, "s"@) {
        Some(DisplayFormat::Signature)
    } else if ci_equal(s, "compact"@) || ci_equal(s, "c"@) {
        Some(DisplayFormat::Compact)
    } else if ci_equal(s, "verbose"@) || ci_equal(s, "v"@) {
        Some(DisplayFormat::Verbose)
    } else if ci_equal(s, "name"@) || ci_equal(s, "n"@) || ci_equal(s, "name-only"@) {
        Some(DisplayFormat::NameOnly)
    } else if ci_equal(s, "type"@) || ci_equal(s, "t"@) || ci_equal(s, "type-only"@) {
        Some(DisplayFormat::TypeOnly)
    } else {
        None
    }
}

/// ASCII lower-casing of one character.
fn lower_char_exec(c: char) -> (r: char)
    ensures
        r == lower_char(c),
{
    match c {
        'A' => 'a',
        'B' => 'b',
        'C' => 'c',
        'D' => 'd',
        'E' => 'e',
        'F' => 'f',
        'G' => 'g',
        'H' => 'h',
        'I' => 'i',
        'J' => 'j',
        'K' => 'k',
        'L' => 'l',
        'M' => 'm',
        'N' => 'n',
        'O' => 'o',
        'P' => 'p',
        'Q' => 'q',
        'R' => 'r',
        'S' => 's',
        'T' => 't',
        'U' => 'u',
        'V' => 'v',
        'W' => 'w',
        'X' => 'x',
        'Y' => 'y',
        'Z' => 'z',
        _ => c,
    }
}

/// Compare two strings for equality up to ASCII case.
fn ci_eq(a: &str, b: &str) -> (r: bool)
    ensures
        r == ci_equal(a@, b@),
{
    let an = a.unicode_len();
    let bn = b.unicode_len();
    if an != bn {
        return false;
    }
    let mut i: usize = 0;
    while i < an
        invariant
            i <= an,
            an == a@.len(),
            bn == b@.len(),
            an == bn,
            forall|j: int| 0 <= j < i ==> lower_char(a@[j]) == lower_char(#[trigger] b@[j]),
        decreases an - i,
    {
        let ca = lower_char_exec(a.get_char(i));
        let cb = lower_char_exec(b.get_char(i));
        if ca != cb {
            return false;
        }
        i = i + 1;
    }
    true
}

impl DisplayFormat {
    /// Select a display format from its short code, case-insensitively.
    /// An unrecognized code is a configuration error that carries the
    /// offending text.
    pub fn from_str(s: &str) -> (r: Result<DisplayFormat, DemangleError>)
        ensures
            match r {
                Ok(f) => spec_display_format(s@) == Some(f),
                Err(e) => spec_display_format(s@) is None && (e
                    matches DemangleError::InvalidDisplayFormat(m) && m@ == s@),
            },
    {
        if ci_eq(s, "signature") || ci_eq(s, "sig") || ci_eq(s, "s") {
            Ok(DisplayFormat::Signature)
        } else if ci_eq(s, "compact") || ci_eq(s, "c") {
            Ok(DisplayFormat::Compact)
        } else if ci_eq(s, "verbose") || ci_eq(s, "v") {
            Ok(DisplayFormat::Verbose)
        } else if ci_eq(s, "name") || ci_eq(s, "n") || ci_eq(s, "name-only") {
            Ok(DisplayFormat::NameOnly)
        } else if ci_eq(s, "type") || ci_eq(s, "t") || ci_eq(s, "type-only") {
            Ok(DisplayFormat::TypeOnly)
        } else {
            Err(DemangleError::InvalidDisplayFormat(String::from_str(s)))
        }
    }
}

} // verus!
