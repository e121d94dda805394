//! Rendering, at the spec level: the exact text each display style
//! produces for a decoded symbol.
//!
//! Both renderers are total over the model: every decodable symbol has a
//! rendering, and the executable formatter is proved to produce exactly
//! these character sequences.

use vstd::prelude::*;
use crate::digits::dec_digits;
use crate::model::{SymbolView, TypeView};
use crate::types::{DisplayFormat, GlobalKind};

verus! {

/// Concatenate `parts` with `sep` between neighbours.
pub open spec fn join_with(parts: Seq<Seq<char>>, sep: Seq<char>) -> Seq<char>
    decreases parts,
{
    if parts.len() == 0 {
        Seq::empty()
    } else if parts.len() == 1 {
        parts[0]
    } else {
        parts[0] + sep + join_with(parts.subrange(1, parts.len() as int), sep)
    }
}

/// Joining after appending appends a separator and the new part.
pub proof fn lemma_join_with_push(parts: Seq<Seq<char>>, sep: Seq<char>, x: Seq<char>)
    ensures
        join_with(parts.push(x), sep) == if parts.len() == 0 {
            x
        } else {
            join_with(parts, sep) + sep + x
        },
    decreases parts,
{
    let whole = parts.push(x);
    if parts.len() == 0 {
        assert(whole[0] == x);
    } else if parts.len() == 1 {
        assert(whole[0] == parts[0]);
        assert(whole.subrange(1, whole.len() as int) =~= seq![x]);
        assert(join_with(whole.subrange(1, whole.len() as int), sep) == x);
        assert(join_with(whole, sep) == parts[0] + sep + x);
    } else {
        lemma_join_with_push(parts.subrange(1, parts.len() as int), sep, x);
        assert(whole.subrange(1, whole.len() as int) =~= parts.subrange(
            1,
            parts.len() as int,
        ).push(x));
        assert(whole[0] == parts[0]);
        assert(join_with(whole, sep) == parts[0] + sep + join_with(
            parts.subrange(1, parts.len() as int).push(x),
            sep,
        ));
        assert((parts[0] + sep + (join_with(parts.subrange(1, parts.len() as int), sep) + sep + x))
            =~= (parts[0] + sep + join_with(parts.subrange(1, parts.len() as int), sep)) + sep
            + x);
    }
}

/// The qualified name: the module path joined by `::`, another `::`, and
/// the bare name — or the bare name alone when stripping is on.
pub open spec fn spec_qualified_name(path: Seq<Seq<char>>, name: Seq<char>, strip: bool) -> Seq<
    char,
> {
    if strip {
        name
    } else {
        join_with(path, "::"@) + "::"@ + name
    }
}

/// The compact rendering of a type.
pub open spec fn spec_type_compact(t: TypeView, strip: bool) -> Seq<char>
    decreases t,
{
    match t {
        TypeView::Void => "void"@,
        TypeView::Bool => "bool"@,
        TypeView::Char => "char"@,
        TypeView::Null => "null"@,
        TypeView::DynamicArray => "[]"@,
        TypeView::Int { signed, width } => if signed {
            "i"@ + dec_digits(width as int)
        } else {
            "u"@ + dec_digits(width as int)
        },
        TypeView::Float { width } => "f"@ + dec_digits(width as int),
        TypeView::Pointer(inner) => "*"@ + spec_type_compact(*inner, strip),
        TypeView::StaticArray { size, element_type } => spec_type_compact(*element_type, strip)
            + "["@ + dec_digits(size as int) + "]"@,
        TypeView::Function { return_type, params } => "("@ + params_compact(params, strip)
            + ") -> "@ + spec_type_compact(*return_type, strip),
        TypeView::Struct { mod_path, name } => spec_qualified_name(mod_path, name, strip),
        TypeView::Enum { mod_path, name } => spec_qualified_name(mod_path, name, strip),
    }
}

/// The compact renderings of a parameter list, joined by `, `.
pub open spec fn params_compact(ts: Seq<TypeView>, strip: bool) -> Seq<char>
    decreases ts,
{
    if ts.len() == 0 {
        Seq::empty()
    } else if ts.len() == 1 {
        spec_type_compact(ts[0], strip)
    } else {
        spec_type_compact(ts[0], strip) + ", "@ + params_compact(
            ts.subrange(1, ts.len() as int),
            strip,
        )
    }
}

/// Rendering a list after appending appends `, ` and the new rendering.
pub proof fn lemma_params_compact_push(ts: Seq<TypeView>, t: TypeView, strip: bool)
    ensures
        params_compact(ts.push(t), strip) == if ts.len() == 0 {
            spec_type_compact(t, strip)
        } else {
            params_compact(ts, strip) + ", "@ + spec_type_compact(t, strip)
        },
    decreases ts,
{
    let whole = ts.push(t);
    if ts.len() == 0 {
        assert(whole[0] == t);
    } else if ts.len() == 1 {
        assert(whole[0] == ts[0]);
        assert(whole.subrange(1, whole.len() as int) =~= seq![t]);
        assert(params_compact(whole.subrange(1, whole.len() as int), strip) == spec_type_compact(
            t,
            strip,
        ));
    } else {
        let rest = ts.subrange(1, ts.len() as int);
        lemma_params_compact_push(rest, t, strip);
        assert(whole.subrange(1, whole.len() as int) =~= rest.push(t));
        assert(whole[0] == ts[0]);
        assert(params_compact(whole, strip) == spec_type_compact(ts[0], strip) + ", "@
            + params_compact(rest.push(t), strip));
        assert((spec_type_compact(ts[0], strip) + ", "@ + (params_compact(rest, strip) + ", "@
            + spec_type_compact(t, strip))) =~= (spec_type_compact(ts[0], strip) + ", "@
            + params_compact(rest, strip)) + ", "@ + spec_type_compact(t, strip));
    }
}

/// The verbose rendering of a type.
pub open spec fn spec_type_verbose(t: TypeView, strip: bool) -> Seq<char>
    decreases t,
{
    match t {
        TypeView::Void => "void"@,
        TypeView::Bool => "boolean"@,
        TypeView::Char => "character"@,
        TypeView::Null => "null type"@,
        TypeView::DynamicArray => "dynamic array"@,
        TypeView::Int { signed, width } => if signed {
            "signed integer ("@ + dec_digits(width as int) + " bits)"@
        } else {
            "unsigned integer ("@ + dec_digits(width as int) + " bits)"@
        },
        TypeView::Float { width } => "floating point ("@ + dec_digits(width as int) + " bits)"@,
        TypeView::Pointer(inner) => "pointer to "@ + spec_type_verbose(*inner, strip),
        TypeView::StaticArray { size, element_type } => "array of "@ + dec_digits(size as int)
            + " "@ + spec_type_verbose(*element_type, strip),
        TypeView::Function { return_type, params } => "function taking ("@ + params_verbose(
            params,
            strip,
        ) + ") returning "@ + spec_type_verbose(*return_type, strip),
        TypeView::Struct { mod_path, name } => "struct "@ + spec_qualified_name(
            mod_path,
            name,
            strip,
        ),
        TypeView::Enum { mod_path, name } => "enum "@ + spec_qualified_name(mod_path, name, strip),
    }
}

/// The verbose renderings of a parameter list, joined by `, `.
pub open spec fn params_verbose(ts: Seq<TypeView>, strip: bool) -> Seq<char>
    decreases ts,
{
    if ts.len() == 0 {
        Seq::empty()
    } else if ts.len() == 1 {
        spec_type_verbose(ts[0], strip)
    } else {
        spec_type_verbose(ts[0], strip) + ", "@ + params_verbose(
            ts.subrange(1, ts.len() as int),
            strip,
        )
    }
}

/// Rendering a list after appending appends `, ` and the new rendering.
pub proof fn lemma_params_verbose_push(ts: Seq<TypeView>, t: TypeView, strip: bool)
    ensures
        params_verbose(ts.push(t), strip) == if ts.len() == 0 {
            spec_type_verbose(t, strip)
        } else {
            params_verbose(ts, strip) + ", "@ + spec_type_verbose(t, strip)
        },
    decreases ts,
{
    let whole = ts.push(t);
    if ts.len() == 0 {
        assert(whole[0] == t);
    } else if ts.len() == 1 {
        assert(whole[0] == ts[0]);
        assert(whole.subrange(1, whole.len() as int) =~= seq![t]);
        assert(params_verbose(whole.subrange(1, whole.len() as int), strip) == spec_type_verbose(
            t,
            strip,
        ));
    } else {
        let rest = ts.subrange(1, ts.len() as int);
        lemma_params_verbose_push(rest, t, strip);
        assert(whole.subrange(1, whole.len() as int) =~= rest.push(t));
        assert(whole[0] == ts[0]);
        assert(params_verbose(whole, strip) == spec_type_verbose(ts[0], strip) + ", "@
            + params_verbose(rest.push(t), strip));
        assert((spec_type_verbose(ts[0], strip) + ", "@ + (params_verbose(rest, strip) + ", "@
            + spec_type_verbose(t, strip))) =~= (spec_type_verbose(ts[0], strip) + ", "@
            + params_verbose(rest, strip)) + ", "@ + spec_type_verbose(t, strip));
    }
}

/// The short word for a global kind.
pub open spec fn spec_kind_word(k: GlobalKind) -> Seq<char> {
    match k {
        GlobalKind::Storage => "storage"@,
        GlobalKind::Accessor => "accessor"@,
        GlobalKind::Constructor => "constructor"@,
        GlobalKind::Destructor => "destructor"@,
        GlobalKind::Init => "init"@,
        GlobalKind::SetBit => "setbit"@,
    }
}

/// The descriptive phrase for a global kind.
pub open spec fn spec_kind_phrase(k: GlobalKind) -> Seq<char> {
    match k {
        GlobalKind::Storage => "storage variable"@,
        GlobalKind::Accessor => "accessor function"@,
        GlobalKind::Constructor => "constructor"@,
        GlobalKind::Destructor => "destructor"@,
        GlobalKind::Init => "initialization function"@,
        GlobalKind::SetBit => "set bit"@,
    }
}

/// The rendering of a function symbol in each display style.
pub open spec fn spec_format_function(
    path: Seq<Seq<char>>,
    name: Seq<char>,
    ty: TypeView,
    fmt: DisplayFormat,
    strip: bool,
) -> Seq<char> {
    let qual = spec_qualified_name(path, name, strip);
    match fmt {
        DisplayFormat::Signature => qual + spec_type_compact(ty, strip),
        DisplayFormat::Compact => qual + ": "@ + spec_type_compact(ty, strip),
        DisplayFormat::Verbose => "Function "@ + qual + ":\n  Type: "@ + spec_type_verbose(
            ty,
            strip,
        ),
        DisplayFormat::NameOnly => qual,
        DisplayFormat::TypeOnly => spec_type_compact(ty, strip),
    }
}

/// The rendering of a global symbol in each display style.
pub open spec fn spec_format_global(
    path: Seq<Seq<char>>,
    name: Seq<char>,
    kind: GlobalKind,
    ty: TypeView,
    fmt: DisplayFormat,
    strip: bool,
) -> Seq<char> {
    let qual = spec_qualified_name(path, name, strip);
    match fmt {
        DisplayFormat::Signature => qual + " [global "@ + spec_kind_word(kind) + "]: "@
            + spec_type_compact(ty, strip),
        DisplayFormat::Compact => qual + " [global "@ + spec_kind_word(kind) + "]: "@
            + spec_type_compact(ty, strip),
        DisplayFormat::Verbose => "Global variable "@ + qual + ":\n  Kind: "@ + spec_kind_phrase(
            kind,
        ) + "\n  Type: "@ + spec_type_verbose(ty, strip),
        DisplayFormat::NameOnly => qual,
        DisplayFormat::TypeOnly => spec_type_compact(ty, strip),
    }
}

/// The rendering of any decoded symbol.
pub open spec fn spec_format_symbol(sym: SymbolView, fmt: DisplayFormat, strip: bool) -> Seq<
    char,
> {
    match sym {
        SymbolView::Function { mod_path, name, func_type } => spec_format_function(
            mod_path,
            name,
            func_type,
            fmt,
            strip,
        ),
        SymbolView::Global { mod_path, name, kind, var_type } => spec_format_global(
            mod_path,
            name,
            kind,
            var_type,
            fmt,
            strip,
        ),
    }
}

} // verus!
