//! Decimal rendering of numbers as text, specified exactly: every digest
//! line and button label carries a display index, and its textual form is
//! pinned down by `dec_spec`.

use vstd::prelude::*;

verus! {

/// The character for one decimal digit.
pub open spec fn digit_char(d: int) -> char {
    if d == 0 {
        '0'
    } else if d == 1 {
        '1'
    } else if d == 2 {
        '2'
    } else if d == 3 {
        '3'
    } else if d == 4 {
        '4'
    } else if d == 5 {
        '5'
    } else if d == 6 {
        '6'
    } else if d == 7 {
        '7'
    } else if d == 8 {
        '8'
    } else {
        '9'
    }
}

/// The decimal rendering of `n`, most significant digit first, without
/// leading zeroes (`0` renders as "0").
pub open spec fn dec_spec(n: nat) -> Seq<char>
    decreases n,
{
    if n < 10 {
        seq![digit_char(n as int)]
    } else {
        dec_spec(n / 10).push(digit_char((n % 10) as int))
    }
}

/// Whether `c` is a decimal digit character.
pub open spec fn is_digit_char(c: char) -> bool {
    exists|d: int| 0 <= d < 10 && c == digit_char(d)
}

/// The numeric value of a digit character (meaningful when `is_digit_char`).
pub open spec fn digit_val(c: char) -> int {
    choose|d: int| 0 <= d < 10 && c == digit_char(d)
}

pub proof fn lemma_digit_char_injective(a: int, b: int)
    requires
        0 <= a < 10,
        0 <= b < 10,
        digit_char(a) == digit_char(b),
    ensures
        a == b,
{
}

pub proof fn lemma_digit_val_of_char(d: int)
    requires
        0 <= d < 10,
    ensures
        is_digit_char(digit_char(d)),
        digit_val(digit_char(d)) == d,
{
    assert(is_digit_char(digit_char(d)));
    lemma_digit_char_injective(digit_val(digit_char(d)), d);
}

/// Every character of a decimal rendering is a digit.
pub proof fn lemma_dec_spec_digits(n: nat)
    ensures
        dec_spec(n).len() >= 1,
        forall|i: int| 0 <= i < dec_spec(n).len() ==> is_digit_char(#[trigger] dec_spec(n)[i]),
    decreases n,
{
    if n < 10 {
        lemma_digit_val_of_char(n as int);
    } else {
        lemma_dec_spec_digits(n / 10);
        lemma_digit_val_of_char((n % 10) as int);
    }
}

/// The number a sequence of digit characters denotes, most significant
/// digit first.
pub open spec fn digits_val(d: Seq<char>) -> int
    decreases d.len(),
{
    if d.len() == 0 {
        0
    } else {
        digits_val(d.drop_last()) * 10 + digit_val(d.last())
    }
}

pub open spec fn all_digits(d: Seq<char>) -> bool {
    forall|i: int| 0 <= i < d.len() ==> is_digit_char(#[trigger] d[i])
}

/// Reading the decimal rendering back gives the number.
pub proof fn lemma_dec_val(n: nat)
    ensures
        digits_val(dec_spec(n)) == n,
    decreases n,
{
    assert(digits_val(Seq::<char>::empty()) == 0);
    if n < 10 {
        lemma_digit_val_of_char(n as int);
        assert(dec_spec(n).drop_last() =~= Seq::<char>::empty());
        assert(dec_spec(n).last() == digit_char(n as int));
    } else {
        lemma_dec_val(n / 10);
        lemma_digit_val_of_char((n % 10) as int);
        assert(dec_spec(n).drop_last() =~= dec_spec(n / 10));
        assert(dec_spec(n).last() == digit_char((n % 10) as int));
    }
}

/// A decimal rendering never starts with a zero digit unless it is "0".
pub proof fn lemma_dec_no_leading_zero(n: nat)
    ensures
        dec_spec(n).len() > 1 ==> dec_spec(n)[0] != '0',
    decreases n,
{
    if n >= 10 {
        lemma_dec_no_leading_zero(n / 10);
        lemma_dec_spec_digits(n / 10);
        assert(dec_spec(n)[0] == dec_spec(n / 10)[0]);
        if dec_spec(n / 10).len() == 1 {
            assert(n / 10 < 10) by {
                if n / 10 >= 10 {
                    lemma_dec_spec_digits(n / 10 / 10);
                    assert(dec_spec(n / 10).len() > 1);
                }
            }
            assert(dec_spec(n / 10)[0] == digit_char((n / 10) as int));
            if dec_spec(n)[0] == '0' {
                lemma_digit_char_injective((n / 10) as int, 0);
                assert(false);
            }
        }
    }
}

/// A digit sequence without a leading zero denotes a positive number,
/// except the single digit zero itself.
pub proof fn lemma_digits_val_bounds(d: Seq<char>)
    requires
        all_digits(d),
    ensures
        digits_val(d) >= 0,
        d.len() >= 1 && d[0] != '0' ==> digits_val(d) >= 1,
    decreases d.len(),
{
    if d.len() > 0 {
        let dl = d.drop_last();
        assert(all_digits(dl)) by {
            assert(forall|i: int| 0 <= i < dl.len() ==> dl[i] == d[i]);
        }
        lemma_digits_val_bounds(dl);
        assert(is_digit_char(d.last()));
        let v = choose|v: int| 0 <= v < 10 && d.last() == digit_char(v);
        lemma_digit_val_of_char(v);
        assert(digits_val(d) == digits_val(dl) * 10 + v);
        if d.len() == 1 && d[0] != '0' {
            assert(d.last() == d[0]);
            if v == 0 {
                assert(d[0] == '0');
            }
            assert(v >= 1);
        }
        if d.len() > 1 && d[0] != '0' {
            assert(dl[0] == d[0]);
            assert(all_digits(dl));
            assert(digits_val(dl) >= 1);
        }
    }
}

/// Rendering a digit sequence's number gives the sequence back, provided
/// it has no leading zero.
pub proof fn lemma_digits_val_inverse(d: Seq<char>)
    requires
        all_digits(d),
        d.len() >= 1,
        d.len() > 1 ==> d[0] != '0',
    ensures
        dec_spec(digits_val(d) as nat) == d,
    decreases d.len(),
{
    lemma_digits_val_bounds(d);
    assert(is_digit_char(d.last()));
    let v0 = choose|v: int| 0 <= v < 10 && d.last() == digit_char(v);
    lemma_digit_val_of_char(v0);
    assert(digits_val(Seq::<char>::empty()) == 0);
    if d.len() == 1 {
        assert(d.drop_last() =~= Seq::<char>::empty());
        assert(digits_val(d) == v0);
        assert(dec_spec(digits_val(d) as nat) == seq![digit_char(v0)]);
        assert(dec_spec(digits_val(d) as nat) =~= d);
    } else {
        let dl = d.drop_last();
        assert(all_digits(dl)) by {
            assert(forall|i: int| 0 <= i < dl.len() ==> dl[i] == d[i]);
        }
        lemma_digits_val_bounds(dl);
        lemma_digits_val_inverse(dl);
        let v = digits_val(d);
        assert(v == digits_val(dl) * 10 + digit_val(d.last()));
        assert(v >= 10);
        assert(v / 10 == digits_val(dl) && v % 10 == digit_val(d.last())) by (nonlinear_arith)
            requires
                v == digits_val(dl) * 10 + digit_val(d.last()),
                0 <= digit_val(d.last()) < 10,
                digits_val(dl) >= 0,
        ;
        assert(dec_spec(v as nat) == dec_spec((v / 10) as nat).push(digit_char(v % 10)));
        assert(dec_spec((v / 10) as nat) == dl);
        assert(digit_char(v % 10) == d.last());
        assert(dec_spec(v as nat) =~= d);
    }
}

/// A prefix of a digit sequence never denotes more than the whole.
pub proof fn lemma_digits_val_prefix(d: Seq<char>, i: int)
    requires
        all_digits(d),
        0 <= i <= d.len(),
    ensures
        digits_val(d.take(i)) <= digits_val(d),
    decreases d.len(),
{
    if i == d.len() {
        assert(d.take(i) =~= d);
    } else {
        let dl = d.drop_last();
        assert(all_digits(dl)) by {
            assert(forall|j: int| 0 <= j < dl.len() ==> dl[j] == d[j]);
        }
        lemma_digits_val_prefix(dl, i);
        assert(d.take(i) =~= dl.take(i));
        lemma_digits_val_bounds(dl);
        assert(is_digit_char(d.last()));
        let v = choose|v: int| 0 <= v < 10 && d.last() == digit_char(v);
        lemma_digit_val_of_char(v);
        assert(digits_val(d) == digits_val(dl) * 10 + v);
    }
}

/// The digit value of `c`, when `c` is a decimal digit.
pub fn digit_of(c: char) -> (r: Option<u8>)
    ensures
        r is Some <==> is_digit_char(c),
        r is Some ==> r->0 < 10 && r->0 == digit_val(c),
{
    let v: Option<u8> = if c == '0' {
        Some(0)
    } else if c == '1' {
        Some(1)
    } else if c == '2' {
        Some(2)
    } else if c == '3' {
        Some(3)
    } else if c == '4' {
        Some(4)
    } else if c == '5' {
        Some(5)
    } else if c == '6' {
        Some(6)
    } else if c == '7' {
        Some(7)
    } else if c == '8' {
        Some(8)
    } else if c == '9' {
        Some(9)
    } else {
        None
    };
    proof {
        match v {
            Some(d) => {
                lemma_digit_val_of_char(d as int);
            },
            None => {
                if is_digit_char(c) {
                    let d = choose|d: int| 0 <= d < 10 && c == digit_char(d);
                    assert(false);
                }
            },
        }
    }
    v
}

/// Appends the character for one digit to `s`.
fn push_digit(s: &mut String, d: u8)
    requires
        d < 10,
    ensures
        final(s)@ == old(s)@ + seq![digit_char(d as int)],
{
    if d == 0 {
        proof {
            reveal_strlit("0");
        }
        assert("0"@ =~= seq![digit_char(0)]);
        s.append("0");
    } else if d == 1 {
        proof {
            reveal_strlit("1");
        }
        assert("1"@ =~= seq![digit_char(1)]);
        s.append("1");
    } else if d == 2 {
        proof {
            reveal_strlit("2");
        }
        assert("2"@ =~= seq![digit_char(2)]);
        s.append("2");
    } else if d == 3 {
        proof {
            reveal_strlit("3");
        }
        assert("3"@ =~= seq![digit_char(3)]);
        s.append("3");
    } else if d == 4 {
        proof {
            reveal_strlit("4");
        }
        assert("4"@ =~= seq![digit_char(4)]);
        s.append("4");
    } else if d == 5 {
        proof {
            reveal_strlit("5");
        }
        assert("5"@ =~= seq![digit_char(5)]);
        s.append("5");
    } else if d == 6 {
        proof {
            reveal_strlit("6");
        }
        assert("6"@ =~= seq![digit_char(6)]);
        s.append("6");
    } else if d == 7 {
        proof {
            reveal_strlit("7");
        }
        assert("7"@ =~= seq![digit_char(7)]);
        s.append("7");
    } else if d == 8 {
        proof {
            reveal_strlit("8");
        }
        assert("8"@ =~= seq![digit_char(8)]);
        s.append("8");
    } else {
        proof {
            reveal_strlit("9");
        }
        assert("9"@ =~= seq![digit_char(9)]);
        s.append("9");
    }
}

/// Appends the decimal rendering of `n` to `s`.
pub fn push_u64(s: &mut String, n: u64)
    ensures
        final(s)@ == old(s)@ + dec_spec(n as nat),
    decreases n,
{
    if n < 10 {
        push_digit(s, n as u8);
    } else {
        push_u64(s, n / 10);
        push_digit(s, (n % 10) as u8);
    }
}

/// Appends exactly two digits (zero padded) for `n`, as date fields use.
pub fn push_two_digits(s: &mut String, n: u8)
    requires
        n < 100,
    ensures
        final(s)@ == old(s)@ + seq![digit_char(n as int / 10), digit_char(n as int % 10)],
{
    push_digit(s, n / 10);
    push_digit(s, n % 10);
    assert(s@ =~= old(s)@ + seq![digit_char(n as int / 10), digit_char(n as int % 10)]);
}

} // verus!
