//! The executable renderer: from a decoded symbol to display text.
//!
//! Each function is proved to produce exactly the character sequence
//! that the corresponding spec renderer in [`crate::render`] gives.

use vstd::prelude::*;
use vstd::string::{StrSliceExecFns, StringExecFns};
use crate::digits::{dec_digits, digit_char};
use crate::model::{lemma_types_view_index, symbol_view, type_view, types_view};
use crate::render::{lemma_join_with_push, lemma_params_compact_push, lemma_params_verbose_push,
    params_compact, params_verbose, spec_format_function, spec_format_global, spec_format_symbol,
    spec_kind_phrase, spec_kind_word, spec_qualified_name, spec_type_compact, spec_type_verbose,
    join_with};
use crate::types::{DisplayFormat, GlobalKind, GluFunction, GluGlobal, GluSymbol, GluType};

verus! {

/// The one-character string for a decimal digit value.
pub(crate) fn digit_str(d: u64) -> (s: &'static str)
    requires
        d < 10,
    ensures
        s@ == seq![digit_char(d as int)],
{
    if d == 0 {
        proof {
            reveal_strlit("0");
            assert("0"@ =~= seq![digit_char(0int)]);
        }
        "0"
    } else if d == 1 {
        proof {
            reveal_strlit("1");
            assert("1"@ =~= seq![digit_char(1int)]);
        }
        "1"
    } else if d == 2 {
        proof {
            reveal_strlit("2");
            assert("2"@ =~= seq![digit_char(2int)]);
        }
        "2"
    } else if d == 3 {
        proof {
            reveal_strlit("3");
            assert("3"@ =~= seq![digit_char(3int)]);
        }
        "3"
    } else if d == 4 {
        proof {
            reveal_strlit("4");
            assert("4"@ =~= seq![digit_char(4int)]);
        }
        "4"
    } else if d == 5 {
        proof {
            reveal_strlit("5");
            assert("5"@ =~= seq![digit_char(5int)]);
        }
        "5"
    } else if d == 6 {
        proof {
            reveal_strlit("6");
            assert("6"@ =~= seq![digit_char(6int)]);
        }
        "6"
    } else if d == 7 {
        proof {
            reveal_strlit("7");
            assert("7"@ =~= seq![digit_char(7int)]);
        }
        "7"
    } else if d == 8 {
        proof {
            reveal_strlit("8");
            assert("8"@ =~= seq![digit_char(8int)]);
        }
        "8"
    } else {
        proof {
            reveal_strlit("9");
            assert("9"@ =~= seq![digit_char(9int)]);
        }
        "9"
    }
}

/// The shortest decimal rendering of a number.
fn num_to_string(n: u64) -> (s: String)
    ensures
        s@ == dec_digits(n as int),
    decreases n,
{
    if n < 10 {
        String::from_str(digit_str(n))
    } else {
        let mut s = num_to_string(n / 10);
        s.append(digit_str(n % 10));
        s
    }
}

/// Render a qualified name: the module path joined by `::`, then `::`
/// and the bare name — or the bare name alone under stripping.
pub fn format_qualified_name(path: &Vec<String>, name: &str, strip_module: bool) -> (res: String)
    ensures
        res@ == spec_qualified_name(path.deep_view(), name@, strip_module),
{
    if strip_module {
        return String::from_str(name);
    }
    let ghost dv = path.deep_view();
    let mut out = String::new();
    let mut i: usize = 0;
    while i < path.len()
        invariant
            i <= path.len(),
            dv == path.deep_view(),
            dv.len() == path@.len(),
            out@ == join_with(dv.subrange(0, i as int), "::"@),
        decreases path.len() - i,
    {
        if i > 0 {
            out.append("::");
        }
        out.append(path[i].as_str());
        proof {
            lemma_join_with_push(dv.subrange(0, i as int), "::"@, dv[i as int]);
            assert(dv.subrange(0, i as int).push(dv[i as int]) =~= dv.subrange(0, i as int + 1));
            assert(out@ =~= join_with(dv.subrange(0, i as int + 1), "::"@));
        }
        i = i + 1;
    }
    proof {
        assert(dv.subrange(0, dv.len() as int) =~= dv);
    }
    out.append("::");
    out.append(name);
    out
}

/// Render a type in its compact symbolic form.
pub fn format_type(ty: &GluType, strip_module: bool) -> (res: String)
    ensures
        res@ == spec_type_compact(type_view(*ty), strip_module),
    decreases *ty,
{
    match ty {
        GluType::Void => String::from_str("void"),
        GluType::Bool => String::from_str("bool"),
        GluType::Char => String::from_str("char"),
        GluType::Null => String::from_str("null"),
        GluType::DynamicArray => String::from_str("[]"),
        GluType::Int { signed, width } => {
            let mut out = if *signed {
                String::from_str("i")
            } else {
                String::from_str("u")
            };
            let digits = num_to_string(*width as u64);
            out.append(digits.as_str());
            out
        },
        GluType::Float { width } => {
            let mut out = String::from_str("f");
            let digits = num_to_string(*width as u64);
            out.append(digits.as_str());
            out
        },
        GluType::Pointer(inner) => {
            let mut out = String::from_str("*");
            let body = format_type(inner, strip_module);
            out.append(body.as_str());
            out
        },
        GluType::StaticArray { size, element_type } => {
            let mut out = format_type(element_type, strip_module);
            out.append("[");
            let digits = num_to_string(*size as u64);
            out.append(digits.as_str());
            out.append("]");
            proof {
                assert(out@ =~= spec_type_compact(type_view(*ty), strip_module));
            }
            out
        },
        GluType::Function { return_type, params } => {
            let ghost pv = types_view(params@);
            proof {
                lemma_types_view_index(params@);
            }
            let mut out = String::from_str("(");
            let mut i: usize = 0;
            #[verifier::loop_isolation(false)]
            while i < params.len()
                invariant
                    i <= params.len(),
                    pv == types_view(params@),
                    pv.len() == params@.len(),
                    forall|j: int| 0 <= j < params@.len() ==> pv[j] == type_view(
                        #[trigger] params@[j],
                    ),
                    out@ == "("@ + params_compact(pv.subrange(0, i as int), strip_module),
                decreases params.len() - i,
            {
                if i > 0 {
                    out.append(", ");
                }
                let piece = format_type(&params[i], strip_module);
                out.append(piece.as_str());
                proof {
                    lemma_params_compact_push(pv.subrange(0, i as int), pv[i as int], strip_module);
                    assert(pv.subrange(0, i as int).push(pv[i as int]) =~= pv.subrange(
                        0,
                        i as int + 1,
                    ));
                    assert(out@ =~= "("@ + params_compact(
                        pv.subrange(0, i as int + 1),
                        strip_module,
                    ));
                }
                i = i + 1;
            }
            out.append(") -> ");
            let ret = format_type(return_type, strip_module);
            out.append(ret.as_str());
            proof {
                assert(pv.subrange(0, pv.len() as int) =~= pv);
                assert(out@ =~= spec_type_compact(type_view(*ty), strip_module));
            }
            out
        },
        GluType::Struct { mod_path, name } => format_qualified_name(
            mod_path,
            name.as_str(),
            strip_module,
        ),
        GluType::Enum { mod_path, name } => format_qualified_name(
            mod_path,
            name.as_str(),
            strip_module,
        ),
    }
}

/// Render a type in its verbose prose form.
pub fn format_type_verbose(ty: &GluType, strip_module: bool) -> (res: String)
    ensures
        res@ == spec_type_verbose(type_view(*ty), strip_module),
    decreases *ty,
{
    match ty {
        GluType::Void => String::from_str("void"),
        GluType::Bool => String::from_str("boolean"),
        GluType::Char => String::from_str("character"),
        GluType::Null => String::from_str("null type"),
        GluType::DynamicArray => String::from_str("dynamic array"),
        GluType::Int { signed, width } => {
            let mut out = if *signed {
                String::from_str("signed integer (")
            } else {
                String::from_str("unsigned integer (")
            };
            let digits = num_to_string(*width as u64);
            out.append(digits.as_str());
            out.append(" bits)");
            proof {
                assert(out@ =~= spec_type_verbose(type_view(*ty), strip_module));
            }
            out
        },
        GluType::Float { width } => {
            let mut out = String::from_str("floating point (");
            let digits = num_to_string(*width as u64);
            out.append(digits.as_str());
            out.append(" bits)");
            proof {
                assert(out@ =~= spec_type_verbose(type_view(*ty), strip_module));
            }
            out
        },
        GluType::Pointer(inner) => {
            let mut out = String::from_str("pointer to ");
            let body = format_type_verbose(inner, strip_module);
            out.append(body.as_str());
            out
        },
        GluType::StaticArray { size, element_type } => {
            let mut out = String::from_str("array of ");
            let digits = num_to_string(*size as u64);
            out.append(digits.as_str());
            out.append(" ");
            let body = format_type_verbose(element_type, strip_module);
            out.append(body.as_str());
            proof {
                assert(out@ =~= spec_type_verbose(type_view(*ty), strip_module));
            }
            out
        },
        GluType::Function { return_type, params } => {
            let ghost pv = types_view(params@);
            proof {
                lemma_types_view_index(params@);
            }
            let mut out = String::from_str("function taking (");
            let mut i: usize = 0;
            #[verifier::loop_isolation(false)]
            while i < params.len()
                invariant
                    i <= params.len(),
                    pv == types_view(params@),
                    pv.len() == params@.len(),
                    forall|j: int| 0 <= j < params@.len() ==> pv[j] == type_view(
                        #[trigger] params@[j],
                    ),
                    out@ == "function taking ("@ + params_verbose(
                        pv.subrange(0, i as int),
                        strip_module,
                    ),
                decreases params.len() - i,
            {
                if i > 0 {
                    out.append(", ");
                }
                let piece = format_type_verbose(&params[i], strip_module);
                out.append(piece.as_str());
                proof {
                    lemma_params_verbose_push(pv.subrange(0, i as int), pv[i as int], strip_module);
                    assert(pv.subrange(0, i as int).push(pv[i as int]) =~= pv.subrange(
                        0,
                        i as int + 1,
                    ));
                    assert(out@ =~= "function taking ("@ + params_verbose(
                        pv.subrange(0, i as int + 1),
                        strip_module,
                    ));
                }
                i = i + 1;
            }
            out.append(") returning ");
            let ret = format_type_verbose(return_type, strip_module);
            out.append(ret.as_str());
            proof {
                assert(pv.subrange(0, pv.len() as int) =~= pv);
                assert(out@ =~= spec_type_verbose(type_view(*ty), strip_module));
            }
            out
        },
        GluType::Struct { mod_path, name } => {
            let mut out = String::from_str("struct ");
            let qual = format_qualified_name(mod_path, name.as_str(), strip_module);
            out.append(qual.as_str());
            out
        },
        GluType::Enum { mod_path, name } => {
            let mut out = String::from_str("enum ");
            let qual = format_qualified_name(mod_path, name.as_str(), strip_module);
            out.append(qual.as_str());
            out
        },
    }
}

/// The short word for a global kind.
fn kind_word(kind: GlobalKind) -> (s: &'static str)
    ensures
        s@ == spec_kind_word(kind),
{
    match kind {
        GlobalKind::Storage => "storage",
        GlobalKind::Accessor => "accessor",
        GlobalKind::Constructor => "constructor",
        GlobalKind::Destructor => "destructor",
        GlobalKind::Init => "init",
        GlobalKind::SetBit => "setbit",
    }
}

/// The descriptive phrase for a global kind.
fn kind_phrase(kind: GlobalKind) -> (s: &'static str)
    ensures
        s@ == spec_kind_phrase(kind),
{
    match kind {
        GlobalKind::Storage => "storage variable",
        GlobalKind::Accessor => "accessor function",
        GlobalKind::Constructor => "constructor",
        GlobalKind::Destructor => "destructor",
        GlobalKind::Init => "initialization function",
        GlobalKind::SetBit => "set bit",
    }
}

/// Render a function symbol in signature style.
pub fn format_signature(func: &GluFunction, strip_module: bool) -> (res: String)
    ensures
        res@ == spec_format_function(
            func.mod_path.deep_view(),
            func.name@,
            type_view(func.func_type),
            DisplayFormat::Signature,
            strip_module,
        ),
{
    let mut out = format_qualified_name(&func.mod_path, func.name.as_str(), strip_module);
    let ty = format_type(&func.func_type, strip_module);
    out.append(ty.as_str());
    out
}

/// Render a function symbol in compact style.
pub fn format_compact(func: &GluFunction, strip_module: bool) -> (res: String)
    ensures
        res@ == spec_format_function(
            func.mod_path.deep_view(),
            func.name@,
            type_view(func.func_type),
            DisplayFormat::Compact,
            strip_module,
        ),
{
    let mut out = format_qualified_name(&func.mod_path, func.name.as_str(), strip_module);
    out.append(": ");
    let ty = format_type(&func.func_type, strip_module);
    out.append(ty.as_str());
    out
}

/// Render a function symbol as a verbose block.
pub fn format_verbose(func: &GluFunction, strip_module: bool) -> (res: String)
    ensures
        res@ == spec_format_function(
            func.mod_path.deep_view(),
            func.name@,
            type_view(func.func_type),
            DisplayFormat::Verbose,
            strip_module,
        ),
{
    let mut out = String::from_str("Function ");
    let qual = format_qualified_name(&func.mod_path, func.name.as_str(), strip_module);
    out.append(qual.as_str());
    out.append(":\n  Type: ");
    let ty = format_type_verbose(&func.func_type, strip_module);
    out.append(ty.as_str());
    proof {
        assert(out@ =~= spec_format_function(
            func.mod_path.deep_view(),
            func.name@,
            type_view(func.func_type),
            DisplayFormat::Verbose,
            strip_module,
        ));
    }
    out
}

/// Render a function symbol's qualified name only.
pub fn format_name_only(func: &GluFunction, strip_module: bool) -> (res: String)
    ensures
        res@ == spec_format_function(
            func.mod_path.deep_view(),
            func.name@,
            type_view(func.func_type),
            DisplayFormat::NameOnly,
            strip_module,
        ),
{
    format_qualified_name(&func.mod_path, func.name.as_str(), strip_module)
}

/// Render a function symbol's type only.
pub fn format_type_only(func: &GluFunction, strip_module: bool) -> (res: String)
    ensures
        res@ == spec_format_function(
            func.mod_path.deep_view(),
            func.name@,
            type_view(func.func_type),
            DisplayFormat::TypeOnly,
            strip_module,
        ),
{
    format_type(&func.func_type, strip_module)
}

/// Render a function symbol in the requested display style.
pub fn format_function(func: &GluFunction, format: DisplayFormat, strip_module: bool) -> (res:
    String)
    ensures
        res@ == spec_format_function(
            func.mod_path.deep_view(),
            func.name@,
            type_view(func.func_type),
            format,
            strip_module,
        ),
{
    match format {
        DisplayFormat::Signature => format_signature(func, strip_module),
        DisplayFormat::Compact => format_compact(func, strip_module),
        DisplayFormat::Verbose => format_verbose(func, strip_module),
        DisplayFormat::NameOnly => format_name_only(func, strip_module),
        DisplayFormat::TypeOnly => format_type_only(func, strip_module),
    }
}

/// Render a global symbol in signature style.
pub fn format_global_signature(global: &GluGlobal, strip_module: bool) -> (res: String)
    ensures
        res@ == spec_format_global(
            global.mod_path.deep_view(),
            global.name@,
            global.kind,
            type_view(global.var_type),
            DisplayFormat::Signature,
            strip_module,
        ),
{
    let mut out = format_qualified_name(&global.mod_path, global.name.as_str(), strip_module);
    out.append(" [global ");
    out.append(kind_word(global.kind));
    out.append("]: ");
    let ty = format_type(&global.var_type, strip_module);
    out.append(ty.as_str());
    proof {
        assert(out@ =~= spec_format_global(
            global.mod_path.deep_view(),
            global.name@,
            global.kind,
            type_view(global.var_type),
            DisplayFormat::Signature,
            strip_module,
        ));
    }
    out
}

/// Render a global symbol as a verbose block.
pub fn format_global_verbose(global: &GluGlobal, strip_module: bool) -> (res: String)
    ensures
        res@ == spec_format_global(
            global.mod_path.deep_view(),
            global.name@,
            global.kind,
            type_view(global.var_type),
            DisplayFormat::Verbose,
            strip_module,
        ),
{
    let mut out = String::from_str("Global variable ");
    let qual = format_qualified_name(&global.mod_path, global.name.as_str(), strip_module);
    out.append(qual.as_str());
    out.append(":\n  Kind: ");
    out.append(kind_phrase(global.kind));
    out.append("\n  Type: ");
    let ty = format_type_verbose(&global.var_type, strip_module);
    out.append(ty.as_str());
    proof {
        assert(out@ =~= spec_format_global(
            global.mod_path.deep_view(),
            global.name@,
            global.kind,
            type_view(global.var_type),
            DisplayFormat::Verbose,
            strip_module,
        ));
    }
    out
}

/// Render a global symbol's qualified name only.
pub fn format_global_name_only(global: &GluGlobal, strip_module: bool) -> (res: String)
    ensures
        res@ == spec_format_global(
            global.mod_path.deep_view(),
            global.name@,
            global.kind,
            type_view(global.var_type),
            DisplayFormat::NameOnly,
            strip_module,
        ),
{
    format_qualified_name(&global.mod_path, global.name.as_str(), strip_module)
}

/// Render a global symbol's type only.
pub fn format_global_type_only(global: &GluGlobal, strip_module: bool) -> (res: String)
    ensures
        res@ == spec_format_global(
            global.mod_path.deep_view(),
            global.name@,
            global.kind,
            type_view(global.var_type),
            DisplayFormat::TypeOnly,
            strip_module,
        ),
{
    format_type(&global.var_type, strip_module)
}

/// Render a global symbol in the requested display style.
pub fn format_global(global: &GluGlobal, format: DisplayFormat, strip_module: bool) -> (res:
    String)
    ensures
        res@ == spec_format_global(
            global.mod_path.deep_view(),
            global.name@,
            global.kind,
            type_view(global.var_type),
            format,
            strip_module,
        ),
{
    match format {
        DisplayFormat::Signature => format_global_signature(global, strip_module),
        DisplayFormat::Compact => format_global_signature(global, strip_module),
        DisplayFormat::Verbose => format_global_verbose(global, strip_module),
        DisplayFormat::NameOnly => format_global_name_only(global, strip_module),
        DisplayFormat::TypeOnly => format_global_type_only(global, strip_module),
    }
}

/// Render any decoded symbol in the requested display style.
pub fn format_symbol(symbol: &GluSymbol, format: DisplayFormat, strip_module: bool) -> (res:
    String)
    ensures
        res@ == spec_format_symbol(symbol_view(*symbol), format, strip_module),
{
    match symbol {
        GluSymbol::Function(func) => format_function(func, format, strip_module),
        GluSymbol::Global(global) => format_global(global, format, strip_module),
    }
}

} // verus!
