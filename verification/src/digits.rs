//! Decimal digits: recognition, value, and rendering, at the spec level.

use vstd::prelude::*;

verus! {

/// Is `c` an ASCII decimal digit?
pub open spec fn is_digit(c: char) -> bool {
    '0' as u32 <= c as u32 && c as u32 <= '9' as u32
}

/// The numeric value of a digit character.
pub open spec fn digit_val(c: char) -> int {
    c as u32 - '0' as u32
}

/// The digit character for a value in `0..10`.
pub open spec fn digit_char(d: int) -> char {
    if d == 0 {
        '0'
    } else if d == 1 {
        '1'
    } else if d == 2 {
        '2'
    } else if d == 3 {
        '3'
    } else if d == 4 {
        '4'
    } else if d == 5 {
        '5'
    } else if d == 6 {
        '6'
    } else if d == 7 {
        '7'
    } else if d == 8 {
        '8'
    } else {
        '9'
    }
}

/// The position one past the run of digits that starts at `pos`.
pub open spec fn digit_run_end(s: Seq<char>, pos: int) -> int
    decreases s.len() - pos,
{
    if pos < s.len() && 0 <= pos && is_digit(s[pos]) {
        digit_run_end(s, pos + 1)
    } else {
        pos
    }
}

/// The digit run neither moves backwards nor passes the end of the
/// input, covers digits only, and stops at the first non-digit.
pub proof fn lemma_digit_run_end(s: Seq<char>, pos: int)
    ensures
        pos <= digit_run_end(s, pos),
        pos <= s.len() ==> digit_run_end(s, pos) <= s.len(),
        forall|i: int| pos <= i < digit_run_end(s, pos) ==> is_digit(#[trigger] s[i]),
        0 <= pos && digit_run_end(s, pos) < s.len() ==> !is_digit(s[digit_run_end(s, pos)]),
        0 <= pos < s.len() && is_digit(s[pos]) ==> digit_run_end(s, pos) > pos,
    decreases s.len() - pos,
{
    if pos < s.len() && 0 <= pos && is_digit(s[pos]) {
        lemma_digit_run_end(s, pos + 1);
    }
}

/// A run of digits bounded by a non-digit (or the input's end) is the
/// digit run.
pub proof fn lemma_digit_run_end_exact(s: Seq<char>, pos: int, e: int)
    requires
        0 <= pos <= e <= s.len(),
        forall|i: int| pos <= i < e ==> is_digit(#[trigger] s[i]),
        e < s.len() ==> !is_digit(s[e]),
    ensures
        digit_run_end(s, pos) == e,
    decreases e - pos,
{
    if pos < e {
        lemma_digit_run_end_exact(s, pos + 1, e);
    }
}

/// Scanning digits one at a time does not change where the run ends.
pub proof fn lemma_digit_run_end_step(s: Seq<char>, pos: int)
    requires
        0 <= pos < s.len(),
        is_digit(s[pos]),
    ensures
        digit_run_end(s, pos) == digit_run_end(s, pos + 1),
{
}

/// The value of a digit string, most significant digit first.
pub open spec fn digits_val(ds: Seq<char>) -> int
    decreases ds,
{
    if ds.len() == 0 {
        0
    } else {
        10 * digits_val(ds.drop_last()) + digit_val(ds.last())
    }
}

/// The shortest decimal rendering of `n >= 0`, without a sign.
pub open spec fn dec_digits(n: int) -> Seq<char>
    decreases n,
{
    if n < 10 {
        seq![digit_char(n)]
    } else {
        dec_digits(n / 10) + seq![digit_char(n % 10)]
    }
}

/// `digit_char` and `digit_val` invert one another on digit values.
pub proof fn lemma_digit_char_val(d: int)
    requires
        0 <= d < 10,
    ensures
        is_digit(digit_char(d)),
        digit_val(digit_char(d)) == d,
{
}

/// A decimal rendering is nonempty and consists of digits only.
pub proof fn lemma_dec_digits_are_digits(n: int)
    requires
        n >= 0,
    ensures
        dec_digits(n).len() >= 1,
        forall|i: int| 0 <= i < dec_digits(n).len() ==> is_digit(#[trigger] dec_digits(n)[i]),
    decreases n,
{
    if n < 10 {
        lemma_digit_char_val(n);
    } else {
        lemma_dec_digits_are_digits(n / 10);
        lemma_digit_char_val(n % 10);
    }
}

/// Reading back a decimal rendering yields the value rendered.
pub proof fn lemma_digits_val_dec_digits(n: int)
    requires
        n >= 0,
    ensures
        digits_val(dec_digits(n)) == n,
    decreases n,
{
    if n < 10 {
        lemma_digit_char_val(n);
        assert(dec_digits(n).drop_last() =~= Seq::<char>::empty());
        assert(dec_digits(n).last() == digit_char(n));
        assert(digits_val(dec_digits(n)) == 10 * digits_val(Seq::<char>::empty()) + digit_val(
            digit_char(n),
        ));
    } else {
        lemma_digits_val_dec_digits(n / 10);
        lemma_digit_char_val(n % 10);
        let all = dec_digits(n / 10) + seq![digit_char(n % 10)];
        assert(all.drop_last() =~= dec_digits(n / 10));
        assert(all.last() == digit_char(n % 10));
        assert(all.len() > 0);
        assert(digits_val(all) == 10 * digits_val(dec_digits(n / 10)) + digit_val(
            digit_char(n % 10),
        ));
        assert(digits_val(all) == 10 * (n / 10) + n % 10);
        assert(10 * (n / 10) + n % 10 == n) by (nonlinear_arith)
            requires
                n >= 10,
        ;
    }
}

/// Extending a subrange by one position appends that character.
pub proof fn lemma_subrange_extend(s: Seq<char>, start: int, pos: int)
    requires
        0 <= start <= pos < s.len(),
    ensures
        s.subrange(start, pos + 1) == s.subrange(start, pos).push(s[pos]),
{
    let a = s.subrange(start, pos + 1);
    let b = s.subrange(start, pos).push(s[pos]);
    assert(a.len() == b.len());
    assert forall|i: int| 0 <= i < a.len() implies a[i] == b[i] by {
        if i < pos - start {
            assert(b[i] == s.subrange(start, pos)[i]);
        }
    }
    assert(a =~= b);
}

/// A string of digits has a non-negative value.
pub proof fn lemma_digits_val_nonneg(ds: Seq<char>)
    requires
        forall|i: int| 0 <= i < ds.len() ==> is_digit(#[trigger] ds[i]),
    ensures
        digits_val(ds) >= 0,
    decreases ds,
{
    if ds.len() > 0 {
        assert(forall|i: int| 0 <= i < ds.drop_last().len() ==> is_digit(
            #[trigger] ds.drop_last()[i]));
        lemma_digits_val_nonneg(ds.drop_last());
        assert(is_digit(ds.last()));
    }
}

/// Appending one digit multiplies the value by ten and adds the digit.
pub proof fn lemma_digits_val_snoc(ds: Seq<char>, c: char)
    ensures
        digits_val(ds.push(c)) == 10 * digits_val(ds) + digit_val(c),
{
    assert(ds.push(c).drop_last() =~= ds);
    assert(ds.push(c).last() == c);
}

} // verus!
