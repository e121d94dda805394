//! Small routines kept beside the demangler for the surrounding demos
//! and functional tests: fixed strings and numbers they check against,
//! a bounded timing knob, and hexadecimal rendering of byte strings.

use vstd::prelude::*;
use vstd::string::{StrSliceExecFns, StringExecFns};

verus! {

/// The name this library answers with in the polyglot demo.
pub fn speaker() -> (r: &'static str)
    ensures
        r@ == "Rust"@,
{
    "Rust"
}

/// The message this library contributes to the polyglot demo.
pub fn message() -> (r: &'static str)
    ensures
        r@ == "Rust adds safety to the project"@,
{
    "Rust adds safety to the project"
}

/// A timing budget clamped to at most thirty.
pub fn timing(limit: u32) -> (r: u32)
    ensures
        r == if limit > 30 {
            30u32
        } else {
            limit
        },
{
    if limit > 30 {
        30
    } else {
        limit
    }
}

/// The fixed count the interface-dump test expects.
pub fn get_pizza_count() -> (r: u64)
    ensures
        r == 42,
{
    42
}

/// The fixed string the interface-dump test expects.
pub fn get_cc() -> (r: &'static str)
    ensures
        r@ == "Rust"@,
{
    "Rust"
}

/// The lower-case hexadecimal digit for a value in `0..16`.
pub open spec fn hex_digit(d: int) -> char {
    if d < 10 {
        crate::digits::digit_char(d)
    } else if d == 10 {
        'a'
    } else if d == 11 {
        'b'
    } else if d == 12 {
        'c'
    } else if d == 13 {
        'd'
    } else if d == 14 {
        'e'
    } else {
        'f'
    }
}

/// The hexadecimal rendering of a byte string, two digits per byte.
pub open spec fn hex_of_bytes(bs: Seq<u8>) -> Seq<char>
    decreases bs,
{
    if bs.len() == 0 {
        Seq::empty()
    } else {
        hex_of_bytes(bs.drop_last()) + seq![
            hex_digit(bs.last() as int / 16),
            hex_digit(bs.last() as int % 16),
        ]
    }
}

/// The one-character string for a hexadecimal digit value.
fn hex_digit_str(d: u8) -> (s: &'static str)
    requires
        d < 16,
    ensures
        s@ == seq![hex_digit(d as int)],
{
    if d < 10 {
        crate::formatter::digit_str(d as u64)
    } else if d == 10 {
        proof {
            reveal_strlit("a");
            assert("a"@ =~= seq![hex_digit(10int)]);
        }
        "a"
    } else if d == 11 {
        proof {
            reveal_strlit("b");
            assert("b"@ =~= seq![hex_digit(11int)]);
        }
        "b"
    } else if d == 12 {
        proof {
            reveal_strlit("c");
            assert("c"@ =~= seq![hex_digit(12int)]);
        }
        "c"
    } else if d == 13 {
        proof {
            reveal_strlit("d");
            assert("d"@ =~= seq![hex_digit(13int)]);
        }
        "d"
    } else if d == 14 {
        proof {
            reveal_strlit("e");
            assert("e"@ =~= seq![hex_digit(14int)]);
        }
        "e"
    } else {
        proof {
            reveal_strlit("f");
            assert("f"@ =~= seq![hex_digit(15int)]);
        }
        "f"
    }
}

/// Render a byte string as lower-case hexadecimal, two digits per byte.
pub fn hex_string(data: &Vec<u8>) -> (r: String)
    ensures
        r@ == hex_of_bytes(data@),
{
    let mut out = String::new();
    let mut i: usize = 0;
    while i < data.len()
        invariant
            i <= data@.len(),
            out@ == hex_of_bytes(data@.subrange(0, i as int)),
        decreases data@.len() - i,
    {
        let b = data[i];
        out.append(hex_digit_str(b / 16));
        out.append(hex_digit_str(b % 16));
        proof {
            assert(data@.subrange(0, i as int + 1).drop_last() =~= data@.subrange(0, i as int));
            assert(data@.subrange(0, i as int + 1).last() == data@[i as int]);
            assert(out@ =~= hex_of_bytes(data@.subrange(0, i as int + 1)));
        }
        i = i + 1;
    }
    proof {
        assert(data@.subrange(0, data@.len() as int) =~= data@);
    }
    out
}

} // verus!
