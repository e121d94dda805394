//! Laws that relate several parts of the library to one another.
//!
//! Each proof function here states a property of the whole pipeline —
//! decoding, re-encoding, rendering — over the spec-level grammar and
//! renderer that the executable code is proved against.

use vstd::prelude::*;
use crate::digits::{dec_digits, is_digit, lemma_dec_digits_are_digits, lemma_digit_run_end,
    lemma_digit_run_end_exact, lemma_digits_val_dec_digits, lemma_digits_val_nonneg};
use crate::grammar::{encode_components, spec_demangle_symbol, spec_parse_components,
    spec_parse_number, spec_parse_params, spec_parse_string, spec_parse_symbol,
    spec_parse_type, splittable_components};
use crate::model::{SymbolView, TypeView};
use crate::render::{params_compact, params_verbose, spec_format_symbol, spec_type_compact,
    spec_type_verbose};
use crate::types::DisplayFormat;

verus! {

/// The whole pipeline over the model: decode the text, then render the
/// symbol — or nothing, when decoding fails.
pub open spec fn spec_render_demangled(s: Seq<char>, fmt: DisplayFormat, strip: bool) -> Option<
    Seq<char>,
> {
    match spec_demangle_symbol(s) {
        Ok(sym) => Some(spec_format_symbol(sym, fmt, strip)),
        Err(e) => None,
    }
}

/// Decoding then formatting is a deterministic pure function: it
/// depends on nothing but the input characters, the requested style and
/// the strip flag, so equal inputs always render byte-identically.
pub proof fn lemma_render_deterministic(
    s1: Seq<char>,
    s2: Seq<char>,
    fmt: DisplayFormat,
    strip: bool,
)
    requires
        s1 == s2,
    ensures
        spec_render_demangled(s1, fmt, strip) == spec_render_demangled(s2, fmt, strip),
{
}

/// Parsing components off the front of `s` at `pos`, where the rest of
/// `s` is exactly the encoding of `cs`, yields `cs` and consumes all of
/// it.
proof fn lemma_parse_components_encoded_at(s: Seq<char>, pos: int, cs: Seq<Seq<char>>)
    requires
        splittable_components(cs),
        0 <= pos <= s.len(),
        s.subrange(pos, s.len() as int) == encode_components(cs),
    ensures
        spec_parse_components(s, pos) matches Ok(v) && v == (cs, s.len() as int),
    decreases cs.len(),
{
    let suffix = s.subrange(pos, s.len() as int);
    if cs.len() == 0 {
        assert(suffix.len() == 0);
        assert(pos == s.len());
    } else {
        let c0 = cs[0];
        let rest = cs.subrange(1, cs.len() as int);
        let d = dec_digits(c0.len() as int);
        lemma_dec_digits_are_digits(c0.len() as int);
        lemma_digits_val_dec_digits(c0.len() as int);
        let rest_enc = encode_components(rest);
        assert(suffix == (d + c0) + rest_enc);
        assert(suffix.len() == d.len() + c0.len() + rest_enc.len());
        assert(s.len() == pos + suffix.len());
        assert forall|i: int| 0 <= i < suffix.len() implies #[trigger] s[pos + i] == suffix[i] by {
            assert(suffix[i] == s[pos + i]);
        }
        // The digit run is exactly the length prefix.
        let e = pos + d.len();
        assert forall|i: int| pos <= i < e implies is_digit(#[trigger] s[i]) by {
            assert(suffix[i - pos] == d[i - pos]);
            assert(s[pos + (i - pos)] == suffix[i - pos]);
        }
        if c0.len() > 0 {
            assert(suffix[d.len() as int] == c0[0]);
            assert(s[pos + d.len()] == suffix[d.len() as int]);
            assert(!is_digit(s[e]));
        } else {
            // An empty component is the last one, so the encoding ends
            // right after its digits.
            assert(rest.len() == 0);
            assert(e == s.len());
        }
        lemma_digit_run_end_exact(s, pos, e);
        assert(s.subrange(pos, e) =~= d);
        assert(spec_parse_number(s, pos) matches Ok(v) && v == (c0.len() as int, e));
        // The body is exactly the component.
        assert(e + c0.len() <= s.len());
        assert forall|i: int| 0 <= i < c0.len() implies #[trigger] s.subrange(
            e,
            e + c0.len(),
        )[i] == c0[i] by {
            assert(s[pos + (d.len() + i)] == suffix[d.len() + i]);
            assert(suffix[d.len() + i] == c0[i]);
        }
        assert(s.subrange(e, e + c0.len()) =~= c0);
        let p2 = e + c0.len();
        assert(spec_parse_string(s, pos) matches Ok(v) && v == (c0, p2));
        // The rest of the input is the encoding of the remaining list.
        assert forall|j: int| 0 <= j < cs.len() - 1 implies #[trigger] rest[j] == cs[j + 1] by {}
        assert(splittable_components(rest));
        assert forall|i: int| 0 <= i < rest_enc.len() implies #[trigger] s.subrange(
            p2,
            s.len() as int,
        )[i] == rest_enc[i] by {
            assert(s[pos + (d.len() + c0.len() + i)] == suffix[d.len() + c0.len() + i]);
            assert(suffix[d.len() + c0.len() + i] == rest_enc[i]);
        }
        assert(s.subrange(p2, s.len() as int) =~= rest_enc);
        lemma_parse_components_encoded_at(s, p2, rest);
        assert(is_digit(s[pos]));
        assert(seq![c0] + rest =~= cs);
    }
}

/// Re-splitting the concatenated encodings of a well-shaped component
/// list by the length-prefix rule reproduces exactly that list.
pub proof fn lemma_components_round_trip(cs: Seq<Seq<char>>)
    requires
        splittable_components(cs),
    ensures
        spec_parse_components(encode_components(cs), 0) matches Ok(v) && v == (
            cs,
            encode_components(cs).len() as int,
        ),
{
    let s = encode_components(cs);
    assert(s.subrange(0, s.len() as int) =~= s);
    lemma_parse_components_encoded_at(s, 0, cs);
}

/// Every component list the decoder hands back is well-shaped: its
/// lengths fit the machine word, only its last component can be empty,
/// and none of its components starts with a digit.
pub proof fn lemma_parsed_components_splittable(s: Seq<char>, pos: int)
    requires
        0 <= pos,
        spec_parse_components(s, pos) is Ok,
    ensures
        spec_parse_components(s, pos) matches Ok(v) && splittable_components(v.0),
    decreases s.len() - pos,
{
    lemma_digit_run_end(s, pos);
    if pos < s.len() && is_digit(s[pos]) {
        match spec_parse_string(s, pos) {
            Err(e) => {},
            Ok((c, p2)) => {
                let e = crate::digits::digit_run_end(s, pos);
                assert(forall|i: int| pos <= i < e ==> is_digit(#[trigger] s[i]));
                assert(s.subrange(pos, e).len() == e - pos);
                assert(forall|i: int| 0 <= i < e - pos ==> #[trigger] s.subrange(pos, e)[i]
                    == s[pos + i]);
                crate::digits::lemma_digits_val_nonneg(s.subrange(pos, e));
                assert(c == s.subrange(e, p2));
                assert(p2 - e >= 0);
                assert(c.len() <= usize::MAX);
                if 0 <= pos && pos < p2 <= s.len() {
                    lemma_parsed_components_splittable(s, p2);
                    let rest = (match spec_parse_components(s, p2) {
                        Ok((r, p3)) => r,
                        Err(e2) => Seq::empty(),
                    });
                    if c.len() == 0 {
                        // The body is empty, so parsing resumed right at
                        // the end of the digit run: no digit follows, and
                        // the remaining list is empty.
                        assert(p2 == e);
                        assert(rest.len() == 0);
                    } else {
                        assert(c[0] == s.subrange(e, p2)[0]);
                        assert(c[0] == s[e]);
                        assert(!is_digit(c[0]));
                    }
                    let whole = seq![c] + rest;
                    assert forall|i: int|
                        0 <= i < whole.len() implies ((#[trigger] whole[i]).len() <= usize::MAX && (
                        whole[i].len() == 0 ==> i == whole.len() - 1) && (whole[i].len() > 0
                        ==> !is_digit(whole[i][0]))) by {
                        if i > 0 {
                            assert(whole[i] == rest[i - 1]);
                        } else {
                            assert(whole[0] == c);
                        }
                    }
                }
            },
        }
    }
}

/// The module path and name of any decoded symbol, re-encoded with
/// length prefixes and re-split, reproduce the original component list.
pub proof fn lemma_symbol_components_round_trip(s: Seq<char>)
    requires
        crate::grammar::spec_parse_symbol(s, 0) is Ok,
    ensures
        crate::grammar::spec_parse_symbol(s, 0) matches Ok(v) && (match v.0 {
            SymbolView::Function { mod_path, name, .. } => {
                let comps = mod_path.push(name);
                spec_parse_components(encode_components(comps), 0) matches Ok(w) && w.0 == comps
            },
            SymbolView::Global { mod_path, name, .. } => {
                let comps = mod_path.push(name);
                spec_parse_components(encode_components(comps), 0) matches Ok(w) && w.0 == comps
            },
        }),
{
    match spec_parse_components(s, 0) {
        Err(e) => {},
        Ok((comps, p1)) => {
            lemma_parsed_components_splittable(s, 0);
            assert(comps.len() > 0);
            assert(comps.drop_last().push(comps.last()) =~= comps);
            lemma_components_round_trip(comps);
        },
    }
}

/// A successful string parse moves forward and stays in bounds: the
/// decoder never succeeds past a truncated length prefix.
pub proof fn lemma_parse_string_in_bounds(s: Seq<char>, pos: int)
    requires
        0 <= pos,
    ensures
        spec_parse_string(s, pos) matches Ok(v) ==> pos < v.1 <= s.len(),
{
    lemma_digit_run_end(s, pos);
    let e = crate::digits::digit_run_end(s, pos);
    assert(forall|i: int| pos <= i < e ==> is_digit(#[trigger] s[i]));
    if pos <= s.len() {
        assert(forall|i: int| 0 <= i < e - pos ==> #[trigger] s.subrange(pos, e)[i] == s[pos + i]);
        lemma_digits_val_nonneg(s.subrange(pos, e));
    }
}

/// A successful type parse consumes at least one character and never
/// reads past the end of the input.
pub proof fn lemma_parse_type_in_bounds(s: Seq<char>, pos: int)
    requires
        0 <= pos,
    ensures
        spec_parse_type(s, pos) matches Ok(v) ==> pos < v.1 <= s.len(),
    decreases s.len() - pos, 0int,
{
    if pos < s.len() {
        let c = s[pos];
        let p1 = pos + 1;
        lemma_digit_run_end(s, p1);
        if c == 'P' {
            lemma_parse_type_in_bounds(s, p1);
        } else if c == 'A' {
            match spec_parse_number(s, p1) {
                Err(e) => {
                },
                Ok((n, p2)) => {
                    if pos < p2 <= s.len() {
                        lemma_parse_type_in_bounds(s, p2);
                    }
                },
            }
        } else if c == 'F' {
            lemma_parse_type_in_bounds(s, p1);
            match spec_parse_type(s, p1) {
                Err(e) => {
                },
                Ok((ret, p2)) => {
                    if pos < p2 <= s.len() {
                        lemma_parse_params_in_bounds(s, p2);
                    }
                },
            }
        } else if c == 'T' {
            lemma_parse_components_in_bounds(s, p1);
        }
    }
}

/// A successful parameter-list parse, terminator included, consumes at
/// least one character and never reads past the end of the input.
pub proof fn lemma_parse_params_in_bounds(s: Seq<char>, pos: int)
    requires
        0 <= pos,
    ensures
        spec_parse_params(s, pos) matches Ok(v) ==> pos < v.1 <= s.len(),
    decreases s.len() - pos, 1int,
{
    if pos < s.len() && s[pos] != 'R' {
        lemma_parse_type_in_bounds(s, pos);
        match spec_parse_type(s, pos) {
            Err(e) => {
            },
            Ok((t, p2)) => {
                if pos < p2 <= s.len() {
                    lemma_parse_params_in_bounds(s, p2);
                }
            },
        }
    }
}

/// A successful component-list parse never reads past the end of the
/// input.
pub proof fn lemma_parse_components_in_bounds(s: Seq<char>, pos: int)
    requires
        0 <= pos,
    ensures
        spec_parse_components(s, pos) matches Ok(v) ==> pos <= v.1 && (pos <= s.len() ==> v.1
            <= s.len()),
    decreases s.len() - pos,
{
    if pos < s.len() && is_digit(s[pos]) {
        lemma_parse_string_in_bounds(s, pos);
        match spec_parse_string(s, pos) {
            Err(e) => {
            },
            Ok((c, p2)) => {
                if pos < p2 <= s.len() {
                    lemma_parse_components_in_bounds(s, p2);
                }
            },
        }
    }
}

/// A successful symbol parse consumes at least one character and never
/// reads past the end of the input.
pub proof fn lemma_parse_symbol_in_bounds(s: Seq<char>, pos: int)
    requires
        0 <= pos,
    ensures
        spec_parse_symbol(s, pos) matches Ok(v) ==> pos < v.1 <= s.len(),
{
    lemma_parse_components_in_bounds(s, pos);
    match spec_parse_components(s, pos) {
        Err(e) => {
        },
        Ok((comps, p1)) => {
            if comps.len() > 0 {
                lemma_parse_type_in_bounds(s, p1);
                lemma_parse_type_in_bounds(s, p1 + 2);
            }
        },
    }
}

/// The same type with every module path emptied, recursively.
pub open spec fn erase_type_paths(t: TypeView) -> TypeView
    decreases t,
{
    match t {
        TypeView::Pointer(inner) => TypeView::Pointer(Box::new(erase_type_paths(*inner))),
        TypeView::StaticArray { size, element_type } => TypeView::StaticArray {
            size,
            element_type: Box::new(erase_type_paths(*element_type)),
        },
        TypeView::Function { return_type, params } => TypeView::Function {
            return_type: Box::new(erase_type_paths(*return_type)),
            params: erase_types(params),
        },
        TypeView::Struct { mod_path, name } => TypeView::Struct {
            mod_path: Seq::empty(),
            name,
        },
        TypeView::Enum { mod_path, name } => TypeView::Enum { mod_path: Seq::empty(), name },
        _ => t,
    }
}

/// Path erasure over a list of types.
pub open spec fn erase_types(ts: Seq<TypeView>) -> Seq<TypeView>
    decreases ts,
{
    if ts.len() == 0 {
        Seq::empty()
    } else {
        seq![erase_type_paths(ts[0])] + erase_types(ts.subrange(1, ts.len() as int))
    }
}

/// The same symbol with its own and every nested module path emptied.
pub open spec fn erase_symbol_paths(sym: SymbolView) -> SymbolView {
    match sym {
        SymbolView::Function { mod_path, name, func_type } => SymbolView::Function {
            mod_path: Seq::empty(),
            name,
            func_type: erase_type_paths(func_type),
        },
        SymbolView::Global { mod_path, name, kind, var_type } => SymbolView::Global {
            mod_path: Seq::empty(),
            name,
            kind,
            var_type: erase_type_paths(var_type),
        },
    }
}

/// With stripping on, a type renders the same in both styles whatever
/// its module paths hold.
proof fn lemma_type_strip_ignores_paths(t: TypeView)
    ensures
        spec_type_compact(erase_type_paths(t), true) == spec_type_compact(t, true),
        spec_type_verbose(erase_type_paths(t), true) == spec_type_verbose(t, true),
    decreases t,
{
    match t {
        TypeView::Pointer(inner) => {
            lemma_type_strip_ignores_paths(*inner);
        },
        TypeView::StaticArray { size, element_type } => {
            lemma_type_strip_ignores_paths(*element_type);
        },
        TypeView::Function { return_type, params } => {
            lemma_type_strip_ignores_paths(*return_type);
            lemma_types_strip_ignores_paths(params);
        },
        _ => {
        },
    }
}

/// Path erasure keeps a parameter list's length and, with stripping
/// on, its joined renderings.
proof fn lemma_types_strip_ignores_paths(ts: Seq<TypeView>)
    ensures
        erase_types(ts).len() == ts.len(),
        params_compact(erase_types(ts), true) == params_compact(ts, true),
        params_verbose(erase_types(ts), true) == params_verbose(ts, true),
    decreases ts,
{
    if ts.len() > 0 {
        lemma_type_strip_ignores_paths(ts[0]);
        let rest = ts.subrange(1, ts.len() as int);
        lemma_types_strip_ignores_paths(rest);
        assert(erase_types(ts)[0] == erase_type_paths(ts[0]));
        assert(erase_types(ts).subrange(1, erase_types(ts).len() as int) =~= erase_types(rest));
    }
}

/// Stripping removes all module qualification: with the strip flag on,
/// every rendering style yields the same text whatever the symbol's own
/// module path and the paths inside its types hold.
pub proof fn lemma_strip_module_ignores_paths(sym: SymbolView, fmt: DisplayFormat)
    ensures
        spec_format_symbol(sym, fmt, true) == spec_format_symbol(erase_symbol_paths(sym), fmt, true),
{
    match sym {
        SymbolView::Function { mod_path, name, func_type } => {
            lemma_type_strip_ignores_paths(func_type);
        },
        SymbolView::Global { mod_path, name, kind, var_type } => {
            lemma_type_strip_ignores_paths(var_type);
        },
    }
}

} // verus!
