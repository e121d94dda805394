//! The mangling grammar, as a total specification-level decoder.
//!
//! Every function here maps the input character sequence and a start
//! position to either the decoded value together with the position one
//! past what was consumed, or to the exact error the decoder reports.
//! The executable [`Parser`](crate::parser::Parser) is proved to return
//! precisely these results.
//!
//! Each production consumes at least one character before recursing, so
//! the recursion is bounded by the remaining input. The guards of the
//! form `p < q <= s.len()` record that fact where a recursive call
//! follows an earlier parse; their failure branches are never taken.

use vstd::prelude::*;
use crate::digits::{dec_digits, digits_val, digit_run_end, is_digit};
use crate::error::DemangleError;
use crate::model::{SymbolView, TypeView};
use crate::types::GlobalKind;

verus! {

/// Decode a decimal number: one or more digits, at most `usize::MAX`.
pub open spec fn spec_parse_number(s: Seq<char>, pos: int) -> Result<(int, int), DemangleError> {
    let end = digit_run_end(s, pos);
    if end == pos {
        Err(DemangleError::ExpectedNumber)
    } else if digits_val(s.subrange(pos, end)) > usize::MAX {
        Err(DemangleError::NumberTooLarge)
    } else {
        Ok((digits_val(s.subrange(pos, end)), end))
    }
}

/// Decode a length-prefixed string: a number `n`, then exactly `n` characters.
pub open spec fn spec_parse_string(s: Seq<char>, pos: int) -> Result<
    (Seq<char>, int),
    DemangleError,
> {
    match spec_parse_number(s, pos) {
        Err(e) => Err(e),
        Ok((n, p)) => if p + n > s.len() {
            Err(DemangleError::StringLengthExceedsInput)
        } else {
            Ok((s.subrange(p, p + n), p + n))
        },
    }
}

/// Decode length-prefixed strings for as long as a digit follows.
///
/// Zero components is a valid outcome here; the callers decide whether
/// an empty list is an error.
pub open spec fn spec_parse_components(s: Seq<char>, pos: int) -> Result<
    (Seq<Seq<char>>, int),
    DemangleError,
>
    decreases s.len() - pos,
{
    if pos < s.len() && is_digit(s[pos]) {
        match spec_parse_string(s, pos) {
            Err(e) => Err(e),
            Ok((c, p2)) => if pos < p2 <= s.len() {
                match spec_parse_components(s, p2) {
                    Err(e) => Err(e),
                    Ok((rest, p3)) => Ok((seq![c] + rest, p3)),
                }
            } else {
                // A parsed string always moves past its digits; never taken.
                Err(DemangleError::ExpectedNumber)
            },
        }
    } else {
        Ok((Seq::empty(), pos))
    }
}

/// Decode one type: a discriminator character, then its continuation.
pub open spec fn spec_parse_type(s: Seq<char>, pos: int) -> Result<
    (TypeView, int),
    DemangleError,
>
    decreases s.len() - pos, 0int,
{
    if pos >= s.len() || pos < 0 {
        Err(DemangleError::UnexpectedEndOfInput)
    } else {
        let c = s[pos];
        let p1 = pos + 1;
        if c == 'v' {
            Ok((TypeView::Void, p1))
        } else if c == 'b' {
            Ok((TypeView::Bool, p1))
        } else if c == 'c' {
            Ok((TypeView::Char, p1))
        } else if c == 'N' {
            Ok((TypeView::Null, p1))
        } else if c == 'D' {
            Ok((TypeView::DynamicArray, p1))
        } else if c == 'i' || c == 'u' {
            match spec_parse_number(s, p1) {
                Err(e) => Err(e),
                Ok((n, p2)) => Ok(
                    (TypeView::Int { signed: c == 'i', width: (n % 0x1_0000_0000) as u32 }, p2),
                ),
            }
        } else if c == 'f' {
            match spec_parse_number(s, p1) {
                Err(e) => Err(e),
                Ok((n, p2)) => Ok((TypeView::Float { width: (n % 0x1_0000_0000) as u32 }, p2)),
            }
        } else if c == 'P' {
            match spec_parse_type(s, p1) {
                Err(e) => Err(e),
                Ok((t, p2)) => Ok((TypeView::Pointer(Box::new(t)), p2)),
            }
        } else if c == 'A' {
            match spec_parse_number(s, p1) {
                Err(e) => Err(e),
                Ok((n, p2)) => if pos < p2 <= s.len() {
                    match spec_parse_type(s, p2) {
                        Err(e) => Err(e),
                        Ok((t, p3)) => Ok(
                            (
                                TypeView::StaticArray {
                                    size: n as usize,
                                    element_type: Box::new(t),
                                },
                                p3,
                            ),
                        ),
                    }
                } else {
                    // A parsed number always advances; never taken.
                    Err(DemangleError::ExpectedNumber)
                },
            }
        } else if c == 'F' {
            match spec_parse_type(s, p1) {
                Err(e) => Err(e),
                Ok((ret, p2)) => if pos < p2 <= s.len() {
                    match spec_parse_params(s, p2) {
                        Err(e) => Err(e),
                        Ok((ps, p3)) => Ok(
                            (TypeView::Function { return_type: Box::new(ret), params: ps }, p3),
                        ),
                    }
                } else {
                    // A parsed type always advances; never taken.
                    Err(DemangleError::UnexpectedEndOfInput)
                },
            }
        } else if c == 'T' {
            match spec_parse_components(s, p1) {
                Err(e) => Err(e),
                Ok((comps, p2)) => {
                    let name = if comps.len() == 0 {
                        Seq::<char>::empty()
                    } else {
                        comps.last()
                    };
                    let path = if comps.len() == 0 {
                        Seq::<Seq<char>>::empty()
                    } else {
                        comps.drop_last()
                    };
                    if p2 >= s.len() {
                        Err(DemangleError::UnexpectedEndOfInput)
                    } else if s[p2] == 'S' {
                        Ok((TypeView::Struct { mod_path: path, name }, p2 + 1))
                    } else if s[p2] == 'E' {
                        Ok((TypeView::Enum { mod_path: path, name }, p2 + 1))
                    } else {
                        Err(DemangleError::InvalidTypeKind(s[p2]))
                    }
                },
            }
        } else {
            Err(DemangleError::UnknownTypeCode(c))
        }
    }
}

/// Decode function parameter types until the terminator `R`.
pub open spec fn spec_parse_params(s: Seq<char>, pos: int) -> Result<
    (Seq<TypeView>, int),
    DemangleError,
>
    decreases s.len() - pos, 1int,
{
    if pos >= s.len() || pos < 0 {
        Err(DemangleError::UnexpectedEndOfInput)
    } else if s[pos] == 'R' {
        Ok((Seq::empty(), pos + 1))
    } else {
        match spec_parse_type(s, pos) {
            Err(e) => Err(e),
            Ok((t, p2)) => if pos < p2 <= s.len() {
                match spec_parse_params(s, p2) {
                    Err(e) => Err(e),
                    Ok((rest, p3)) => Ok((seq![t] + rest, p3)),
                }
            } else {
                // A parsed type always advances; never taken.
                Err(DemangleError::UnexpectedEndOfInput)
            },
        }
    }
}

/// Decode a whole symbol: name components, then a function or global tail.
pub open spec fn spec_parse_symbol(s: Seq<char>, pos: int) -> Result<
    (SymbolView, int),
    DemangleError,
> {
    match spec_parse_components(s, pos) {
        Err(e) => Err(e),
        Ok((comps, p1)) => if comps.len() == 0 {
            Err(DemangleError::NoSymbolNameFound)
        } else {
            let name = comps.last();
            let path = comps.drop_last();
            if p1 >= s.len() || p1 < 0 {
                Err(DemangleError::UnexpectedEndOfInput)
            } else if s[p1] == 'G' {
                if p1 + 1 >= s.len() {
                    Err(DemangleError::UnexpectedEndOfInput)
                } else {
                    let kc = s[p1 + 1];
                    match spec_global_kind(kc) {
                        None => Err(DemangleError::InvalidGlobalKind(kc)),
                        Some(kind) => match spec_parse_type(s, p1 + 2) {
                            Err(e) => Err(e),
                            Ok((t, p2)) => Ok(
                                (
                                    SymbolView::Global {
                                        mod_path: path,
                                        name,
                                        kind,
                                        var_type: t,
                                    },
                                    p2,
                                ),
                            ),
                        },
                    }
                }
            } else if s[p1] == 'F' {
                match spec_parse_type(s, p1) {
                    Err(e) => Err(e),
                    Ok((t, p2)) => if t is Function {
                        Ok((SymbolView::Function { mod_path: path, name, func_type: t }, p2))
                    } else {
                        Err(DemangleError::ExpectedFunctionType)
                    },
                }
            } else {
                Err(DemangleError::ExpectedFunctionOrGlobalDiscriminator(s[p1]))
            }
        },
    }
}

/// Prepend already-decoded items to the rest of a list decode.
///
/// The executable decoder grows its lists front to back; this puts one
/// loop iteration's harvest in front of what the grammar says remains.
pub open spec fn parsed_prepend<T>(prefix: Seq<T>, r: Result<(Seq<T>, int), DemangleError>) -> Result<
    (Seq<T>, int),
    DemangleError,
> {
    match r {
        Err(e) => Err(e),
        Ok((xs, p)) => Ok((prefix + xs, p)),
    }
}

/// Prepending twice is prepending the concatenation.
pub proof fn lemma_parsed_prepend_assoc<T>(
    a: Seq<T>,
    b: Seq<T>,
    r: Result<(Seq<T>, int), DemangleError>,
)
    ensures
        parsed_prepend(a, parsed_prepend(b, r)) == parsed_prepend(a + b, r),
{
    match r {
        Err(e) => {
        },
        Ok((xs, p)) => {
            assert(a + (b + xs) =~= (a + b) + xs);
        },
    }
}

/// Prepending to an empty remainder yields the prefix itself.
pub proof fn lemma_parsed_prepend_empty<T>(a: Seq<T>, p: int)
    ensures
        parsed_prepend(a, Ok::<(Seq<T>, int), DemangleError>((Seq::empty(), p))) matches Ok(v)
            && v == (a, p),
{
    assert(a + Seq::<T>::empty() =~= a);
}

/// The length-prefixed encoding of one name component.
pub open spec fn encode_component(c: Seq<char>) -> Seq<char> {
    dec_digits(c.len() as int) + c
}

/// The concatenated encodings of a component list.
pub open spec fn encode_components(cs: Seq<Seq<char>>) -> Seq<char>
    decreases cs,
{
    if cs.len() == 0 {
        Seq::empty()
    } else {
        encode_component(cs[0]) + encode_components(cs.subrange(1, cs.len() as int))
    }
}

/// A component list whose concatenated encoding re-splits into exactly
/// the same components: lengths fit the machine word, only the last
/// component may be empty, and no component starts with a digit.
///
/// Every list the decoder produces has this shape: a component's body
/// begins right after a maximal digit run.
pub open spec fn splittable_components(cs: Seq<Seq<char>>) -> bool {
    forall|i: int|
        0 <= i < cs.len() ==> ((#[trigger] cs[i]).len() <= usize::MAX && (cs[i].len() == 0 ==> i
            == cs.len() - 1) && (cs[i].len() > 0 ==> !is_digit(cs[i][0])))
}

/// The global kind selected by a kind character, if any.
pub open spec fn spec_global_kind(c: char) -> Option<GlobalKind> {
    if c == 's' {
        Some(GlobalKind::Storage)
    } else if c == 'a' {
        Some(GlobalKind::Accessor)
    } else if c == 'i' {
        Some(GlobalKind::Init)
    } else if c == 'b' {
        Some(GlobalKind::SetBit)
    } else {
        None
    }
}

/// Drop a recognized mangling marker, if one leads the input.
pub open spec fn spec_strip_prefix(s: Seq<char>) -> Seq<char> {
    if s.len() >= 6 && s.subrange(0, 6) == "_$GLU$"@ {
        s.subrange(6, s.len() as int)
    } else if s.len() >= 5 && s.subrange(0, 5) == "$GLU$"@ {
        s.subrange(5, s.len() as int)
    } else {
        s
    }
}

/// Decode a symbol from raw text: strip the marker, then parse from the
/// start. Characters past a well-formed symbol are ignored.
pub open spec fn spec_demangle_symbol(s: Seq<char>) -> Result<SymbolView, DemangleError> {
    match spec_parse_symbol(spec_strip_prefix(s), 0) {
        Err(e) => Err(e),
        Ok((sym, pos)) => Ok(sym),
    }
}

/// Decode a symbol that must be a function.
pub open spec fn spec_demangle_function(s: Seq<char>) -> Result<SymbolView, DemangleError> {
    match spec_demangle_symbol(s) {
        Err(e) => Err(e),
        Ok(sym) => if sym is Function {
            Ok(sym)
        } else {
            Err(DemangleError::ExpectedFunctionGotGlobal)
        },
    }
}

} // verus!
