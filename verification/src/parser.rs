//! The executable recursive-descent decoder.
//!
//! Every parsing method is proved to return exactly what the
//! specification-level grammar in [`crate::grammar`] prescribes, for the
//! text and position it was called at.

use vstd::prelude::*;
use vstd::string::{StrSliceExecFns, StringExecFns};
use crate::digits::{digit_run_end, digits_val, is_digit, lemma_digit_run_end,
    lemma_digit_run_end_step, lemma_digits_val_snoc, lemma_subrange_extend};
use crate::error::DemangleError;
use crate::grammar::{lemma_parsed_prepend_assoc, lemma_parsed_prepend_empty, parsed_prepend,
    spec_parse_components, spec_parse_number, spec_parse_params, spec_parse_string,
    spec_parse_symbol, spec_parse_type};
use crate::model::{TypeView, function_view, lemma_types_view_push, symbol_view, type_view,
    types_view};
use crate::types::{GlobalKind, GluFunction, GluGlobal, GluSymbol, GluType};

verus! {

/// A cursor over the input text: the characters and a scan position.
///
/// There is no rewind; the grammar is driven by one character of
/// look-ahead at every choice point, so none is needed.
pub struct Parser<'a> {
    pub input: &'a str,
    pub pos: usize,
}

impl<'a> Parser<'a> {
    /// The characters being parsed.
    pub open spec fn text(&self) -> Seq<char> {
        self.input@
    }

    /// A fresh parser positioned at the start of `input`.
    pub fn new(input: &'a str) -> (p: Self)
        ensures
            p.text() == input@,
            p.pos == 0,
    {
        Self { input, pos: 0 }
    }

    /// The character at the scan position, which is left unchanged.
    fn peek(&self) -> (r: Result<char, DemangleError>)
        ensures
            match r {
                Ok(c) => self.pos < self.text().len() && c == self.text()[self.pos as int],
                Err(e) => self.pos >= self.text().len() && e
                    == DemangleError::UnexpectedEndOfInput,
            },
    {
        let n = self.input.unicode_len();
        if self.pos < n {
            Ok(self.input.get_char(self.pos))
        } else {
            Err(DemangleError::UnexpectedEndOfInput)
        }
    }

    /// The character at the scan position, which moves past it.
    fn consume(&mut self) -> (r: Result<char, DemangleError>)
        ensures
            final(self).text() == old(self).text(),
            match r {
                Ok(c) => old(self).pos < old(self).text().len() && c == old(self).text()[old(
                    self,
                ).pos as int] && final(self).pos == old(self).pos + 1,
                Err(e) => old(self).pos >= old(self).text().len() && e
                    == DemangleError::UnexpectedEndOfInput && final(self).pos == old(self).pos,
            },
    {
        let n = self.input.unicode_len();
        if self.pos < n {
            let c = self.input.get_char(self.pos);
            self.pos = self.pos + 1;
            Ok(c)
        } else {
            Err(DemangleError::UnexpectedEndOfInput)
        }
    }

    /// Parse a decimal number: consume the digit run, fail with
    /// `ExpectedNumber` when it is empty and with `NumberTooLarge` when
    /// its value does not fit a `usize`.
    pub fn parse_number(&mut self) -> (r: Result<usize, DemangleError>)
        ensures
            final(self).text() == old(self).text(),
            final(self).pos == digit_run_end(old(self).text(), old(self).pos as int),
            old(self).pos <= final(self).pos,
            old(self).pos <= old(self).text().len() ==> final(self).pos <= old(
                self).text().len(),
            match r {
                Ok(n) => spec_parse_number(old(self).text(), old(self).pos as int) matches Ok(v)
                    && v == (n as int, final(self).pos as int),
                Err(e) => spec_parse_number(old(self).text(), old(self).pos as int) matches Err(
                    e2) && e2 == e,
            },
    {
        let ghost s = self.text();
        let ghost start = self.pos as int;
        proof {
            lemma_digit_run_end(s, start);
        }
        let start_pos = self.pos;
        let total = self.input.unicode_len();
        let mut val: usize = 0;
        let mut overflow: bool = false;
        proof {
            if start <= s.len() {
                assert(s.subrange(start, start).len() == 0);
            }
        }
        loop
            invariant
                self.text() == s,
                total == s.len(),
                0 <= start <= self.pos as int,
                start <= s.len() ==> self.pos as int <= s.len(),
                start > s.len() ==> self.pos as int == start,
                digit_run_end(s, start) == digit_run_end(s, self.pos as int),
                start <= s.len() ==> (!overflow ==> val as int == digits_val(
                    s.subrange(start, self.pos as int))),
                start <= s.len() ==> (overflow ==> digits_val(s.subrange(start, self.pos as int))
                    > usize::MAX),
            ensures
                self.text() == s,
                self.pos as int == digit_run_end(s, start),
                start <= s.len() ==> (!overflow ==> val as int == digits_val(
                    s.subrange(start, self.pos as int))),
                start <= s.len() ==> (overflow ==> digits_val(s.subrange(start, self.pos as int))
                    > usize::MAX),
            decreases s.len() - self.pos,
        {
            if self.pos >= total {
                proof {
                    assert(digit_run_end(s, self.pos as int) == self.pos as int);
                }
                break ;
            }
            let c = self.input.get_char(self.pos);
            let cu = c as u32;
            if !('0' as u32 <= cu && cu <= '9' as u32) {
                proof {
                    assert(!is_digit(s[self.pos as int]));
                    assert(digit_run_end(s, self.pos as int) == self.pos as int);
                }
                break ;
            }
            proof {
                assert(is_digit(s[self.pos as int]));
                lemma_digit_run_end_step(s, self.pos as int);
                lemma_digits_val_snoc(s.subrange(start, self.pos as int), s[self.pos as int]);
                assert(0 <= start && start <= self.pos as int && (self.pos as int) < s.len());
                lemma_subrange_extend(s, start, self.pos as int);
            }
            let d: u32 = cu - '0' as u32;
            if !overflow {
                let next: u128 = (val as u128) * 10 + (d as u128);
                if next > (usize::MAX as u128) {
                    overflow = true;
                } else {
                    val = next as usize;
                }
            }
            self.pos = self.pos + 1;
        }
        if self.pos == start_pos {
            return Err(DemangleError::ExpectedNumber);
        }
        if overflow {
            return Err(DemangleError::NumberTooLarge);
        }
        Ok(val)
    }

    /// Parse a length-prefixed string: a number `n`, then exactly `n`
    /// characters, which become the string's body.
    pub fn parse_string(&mut self) -> (r: Result<String, DemangleError>)
        ensures
            final(self).text() == old(self).text(),
            old(self).pos <= final(self).pos,
            match r {
                Ok(st) => spec_parse_string(old(self).text(), old(self).pos as int) matches Ok(v)
                    && v == (st@, final(self).pos as int) && old(self).pos < final(self).pos
                    && final(self).pos <= old(self).text().len(),
                Err(e) => spec_parse_string(old(self).text(), old(self).pos as int) matches Err(
                    e2) && e2 == e,
            },
    {
        let ghost s = self.text();
        let ghost start = self.pos as int;
        let n = match self.parse_number() {
            Ok(n) => n,
            Err(e) => {
                return Err(e);
            },
        };
        proof {
            lemma_digit_run_end(s, start);
        }
        let total = self.input.unicode_len();
        if n > total || self.pos > total - n {
            return Err(DemangleError::StringLengthExceedsInput);
        }
        let st = self.input.substring_char(self.pos, self.pos + n);
        let owned = String::from_str(st);
        self.pos = self.pos + n;
        Ok(owned)
    }

    /// Parse length-prefixed strings for as long as a digit is next.
    fn parse_components(&mut self) -> (r: Result<Vec<String>, DemangleError>)
        ensures
            final(self).text() == old(self).text(),
            old(self).pos <= final(self).pos,
            match r {
                Ok(cs) => spec_parse_components(old(self).text(), old(self).pos as int) matches Ok(
                    v) && v == (cs.deep_view(), final(self).pos as int) && (old(self).pos <= old(
                    self).text().len() ==> final(self).pos <= old(self).text().len()),
                Err(e) => spec_parse_components(old(self).text(), old(self).pos as int) matches Err(
                    e2) && e2 == e,
            },
    {
        let ghost s = self.text();
        let ghost p0 = self.pos as int;
        let mut comps: Vec<String> = Vec::new();
        let total = self.input.unicode_len();
        proof {
            assert(comps.deep_view() =~= Seq::<Seq<char>>::empty());
        }
        while self.pos < total && digit_at(self.input, self.pos)
            invariant
                s == old(self).text(),
                p0 == old(self).pos as int,
                self.text() == s,
                total == s.len(),
                0 <= p0 <= self.pos as int,
                p0 <= s.len() ==> self.pos as int <= s.len(),
                p0 > s.len() ==> self.pos as int == p0,
                spec_parse_components(s, p0) == parsed_prepend(
                    comps.deep_view(),
                    spec_parse_components(s, self.pos as int),
                ),
            decreases s.len() - self.pos,
        {
            let ghost pre = self.pos as int;
            let ghost comps_pre = comps.deep_view();
            let st = match self.parse_string() {
                Ok(st) => st,
                Err(e) => {
                    return Err(e);
                },
            };
            let ghost p2 = self.pos as int;
            comps.push(st);
            proof {
                assert(comps.deep_view() =~= comps_pre.push(st@));
                assert(spec_parse_components(s, pre) == parsed_prepend(
                    seq![st@],
                    spec_parse_components(s, p2),
                ));
                lemma_parsed_prepend_assoc(comps_pre, seq![st@], spec_parse_components(s, p2));
                assert(comps_pre + seq![st@] =~= comps_pre.push(st@));
            }
        }
        proof {
            assert(spec_parse_components(s, self.pos as int) matches Ok(v) && v == (
                Seq::<Seq<char>>::empty(),
                self.pos as int,
            ));
            lemma_parsed_prepend_empty(comps.deep_view(), self.pos as int);
        }
        Ok(comps)
    }

    /// Parse one type: a discriminator character selects the production,
    /// and the production's continuation follows.
    pub fn parse_type(&mut self) -> (r: Result<GluType, DemangleError>)
        ensures
            final(self).text() == old(self).text(),
            old(self).pos <= final(self).pos,
            match r {
                Ok(t) => spec_parse_type(old(self).text(), old(self).pos as int) matches Ok(v)
                    && v == (type_view(t), final(self).pos as int) && old(self).pos < final(
                    self).pos && final(self).pos <= old(self).text().len(),
                Err(e) => spec_parse_type(old(self).text(), old(self).pos as int) matches Err(
                    e2) && e2 == e,
            },
        decreases self.text().len() - self.pos,
    {
        let ghost s = self.text();
        let ghost start = self.pos as int;
        let c = match self.consume() {
            Ok(c) => c,
            Err(e) => {
                return Err(e);
            },
        };
        if c == 'v' {
            Ok(GluType::Void)
        } else if c == 'b' {
            Ok(GluType::Bool)
        } else if c == 'c' {
            Ok(GluType::Char)
        } else if c == 'N' {
            Ok(GluType::Null)
        } else if c == 'D' {
            Ok(GluType::DynamicArray)
        } else if c == 'i' || c == 'u' {
            let n = match self.parse_number() {
                Ok(n) => n,
                Err(e) => {
                    return Err(e);
                },
            };
            let w: u32 = ((n as u64) % 0x1_0000_0000u64) as u32;
            Ok(GluType::Int { signed: c == 'i', width: w })
        } else if c == 'f' {
            let n = match self.parse_number() {
                Ok(n) => n,
                Err(e) => {
                    return Err(e);
                },
            };
            let w: u32 = ((n as u64) % 0x1_0000_0000u64) as u32;
            Ok(GluType::Float { width: w })
        } else if c == 'P' {
            let inner = match self.parse_type() {
                Ok(t) => t,
                Err(e) => {
                    return Err(e);
                },
            };
            Ok(GluType::Pointer(Box::new(inner)))
        } else if c == 'A' {
            let n = match self.parse_number() {
                Ok(n) => n,
                Err(e) => {
                    return Err(e);
                },
            };
            let elem = match self.parse_type() {
                Ok(t) => t,
                Err(e) => {
                    return Err(e);
                },
            };
            Ok(GluType::StaticArray { size: n, element_type: Box::new(elem) })
        } else if c == 'F' {
            let ret = match self.parse_type() {
                Ok(t) => t,
                Err(e) => {
                    return Err(e);
                },
            };
            let ghost p_list = self.pos as int;
            let mut params: Vec<GluType> = Vec::new();
            proof {
                assert(types_view(params@) =~= Seq::<TypeView>::empty());
            }
            loop
                invariant_except_break
                    s == old(self).text(),
                    start == old(self).pos as int,
                    self.text() == s,
                    0 <= start,
                    start + 1 <= p_list <= self.pos as int,
                    self.pos as int <= s.len(),
                    start < s.len() && s[start] == 'F',
                    spec_parse_type(s, start + 1) matches Ok(v) && v == (type_view(ret), p_list),
                    spec_parse_params(s, p_list) == parsed_prepend(
                        types_view(params@),
                        spec_parse_params(s, self.pos as int),
                    ),
                ensures
                    self.text() == s,
                    start < self.pos as int && self.pos as int <= s.len(),
                    spec_parse_params(s, p_list) matches Ok(v) && v == (
                        types_view(params@),
                        self.pos as int,
                    ),
                decreases s.len() - self.pos,
            {
                let nc = match self.peek() {
                    Ok(nc) => nc,
                    Err(e) => {
                        return Err(e);
                    },
                };
                if nc == 'R' {
                    let ghost cur = self.pos as int;
                    match self.consume() {
                        Ok(_) => {
                        },
                        Err(e) => {
                            return Err(e);
                        },
                    };
                    proof {
                        lemma_parsed_prepend_empty(types_view(params@), cur + 1);
                    }
                    break ;
                }
                let ghost cur = self.pos as int;
                let ghost prefix = types_view(params@);
                let t = match self.parse_type() {
                    Ok(t) => t,
                    Err(e) => {
                        return Err(e);
                    },
                };
                let ghost p2 = self.pos as int;
                let ghost old_params = params@;
                params.push(t);
                proof {
                    assert(spec_parse_params(s, cur) == parsed_prepend(
                        seq![type_view(t)],
                        spec_parse_params(s, p2),
                    ));
                    lemma_parsed_prepend_assoc(
                        prefix,
                        seq![type_view(t)],
                        spec_parse_params(s, p2),
                    );
                    lemma_types_view_push(old_params, t);
                    assert(prefix + seq![type_view(t)] =~= prefix.push(type_view(t)));
                }
            }
            Ok(GluType::Function { return_type: Box::new(ret), params })
        } else if c == 'T' {
            let mut comps = match self.parse_components() {
                Ok(cs) => cs,
                Err(e) => {
                    return Err(e);
                },
            };
            let ghost comps_dv = comps.deep_view();
            let name = match comps.pop() {
                Some(nm) => nm,
                None => String::new(),
            };
            proof {
                if comps_dv.len() > 0 {
                    assert(comps.deep_view() =~= comps_dv.drop_last());
                    assert(name@ == comps_dv.last());
                } else {
                    assert(comps.deep_view() =~= Seq::<Seq<char>>::empty());
                }
            }
            let k = match self.consume() {
                Ok(k) => k,
                Err(e) => {
                    return Err(e);
                },
            };
            if k == 'S' {
                Ok(GluType::Struct { mod_path: comps, name })
            } else if k == 'E' {
                Ok(GluType::Enum { mod_path: comps, name })
            } else {
                Err(DemangleError::InvalidTypeKind(k))
            }
        } else {
            Err(DemangleError::UnknownTypeCode(c))
        }
    }

    /// Parse a whole symbol: the name components, then either a global
    /// tail after `G` or a function type starting at `F`.
    pub fn parse_symbol(&mut self) -> (r: Result<GluSymbol, DemangleError>)
        ensures
            final(self).text() == old(self).text(),
            old(self).pos <= final(self).pos,
            match r {
                Ok(sym) => spec_parse_symbol(old(self).text(), old(self).pos as int) matches Ok(
                    v) && v == (symbol_view(sym), final(self).pos as int),
                Err(e) => spec_parse_symbol(old(self).text(), old(self).pos as int) matches Err(
                    e2) && e2 == e,
            },
    {
        let ghost s = self.text();
        let ghost start = self.pos as int;
        let mut comps = match self.parse_components() {
            Ok(cs) => cs,
            Err(e) => {
                return Err(e);
            },
        };
        if comps.len() == 0 {
            return Err(DemangleError::NoSymbolNameFound);
        }
        let ghost comps_dv = comps.deep_view();
        let name = match comps.pop() {
            Some(nm) => nm,
            None => String::new(),
        };
        proof {
            assert(comps.deep_view() =~= comps_dv.drop_last());
            assert(name@ == comps_dv.last());
        }
        let next = match self.peek() {
            Ok(c) => c,
            Err(e) => {
                return Err(e);
            },
        };
        if next == 'G' {
            match self.consume() {
                Ok(_) => {
                },
                Err(e) => {
                    return Err(e);
                },
            };
            let kc = match self.consume() {
                Ok(c) => c,
                Err(e) => {
                    return Err(e);
                },
            };
            let kind = if kc == 's' {
                GlobalKind::Storage
            } else if kc == 'a' {
                GlobalKind::Accessor
            } else if kc == 'i' {
                GlobalKind::Init
            } else if kc == 'b' {
                GlobalKind::SetBit
            } else {
                return Err(DemangleError::InvalidGlobalKind(kc));
            };
            let var_type = match self.parse_type() {
                Ok(t) => t,
                Err(e) => {
                    return Err(e);
                },
            };
            Ok(GluSymbol::Global(GluGlobal { mod_path: comps, name, kind, var_type }))
        } else if next == 'F' {
            let t = match self.parse_type() {
                Ok(t) => t,
                Err(e) => {
                    return Err(e);
                },
            };
            if matches!(t, GluType::Function { .. }) {
                Ok(GluSymbol::Function(GluFunction { mod_path: comps, name, func_type: t }))
            } else {
                Err(DemangleError::ExpectedFunctionType)
            }
        } else {
            Err(DemangleError::ExpectedFunctionOrGlobalDiscriminator(next))
        }
    }

    /// Parse a symbol that must be a function; a global is an error.
    pub fn parse_function(&mut self) -> (r: Result<GluFunction, DemangleError>)
        ensures
            final(self).text() == old(self).text(),
            old(self).pos <= final(self).pos,
            match r {
                Ok(f) => spec_parse_symbol(old(self).text(), old(self).pos as int) matches Ok(v)
                    && v == (function_view(f), final(self).pos as int),
                Err(e) => (spec_parse_symbol(old(self).text(), old(self).pos as int) matches Err(
                    e2) && e2 == e) || (spec_parse_symbol(old(self).text(), old(self).pos as int)
                    matches Ok(v) && v.0 is Global && e == DemangleError::ExpectedFunctionGotGlobal),
            },
    {
        match self.parse_symbol() {
            Ok(GluSymbol::Function(f)) => Ok(f),
            Ok(GluSymbol::Global(g)) => Err(DemangleError::ExpectedFunctionGotGlobal),
            Err(e) => Err(e),
        }
    }
}

/// Is the character at position `i` an ASCII digit?
fn digit_at(s: &str, i: usize) -> (b: bool)
    requires
        i < s@.len(),
    ensures
        b == is_digit(s@[i as int]),
{
    let cu = s.get_char(i) as u32;
    '0' as u32 <= cu && cu <= '9' as u32
}

} // verus!
