//! Decimal notation of integers, as `i32`'s `Display` writes it: no leading
//! zeros, and a `-` before the digits of a negative number.

use vstd::prelude::*;

verus! {

/// The character of a decimal digit.
pub open spec fn digit_char(d: nat) -> char {
    if d == 0 {
        '0'
    } else if d == 1 {
        '1'
    } else if d == 2 {
        '2'
    } else if d == 3 {
        '3'
    } else if d == 4 {
        '4'
    } else if d == 5 {
        '5'
    } else if d == 6 {
        '6'
    } else if d == 7 {
        '7'
    } else if d == 8 {
        '8'
    } else {
        '9'
    }
}

/// The decimal digits of a natural number, most significant first.
pub open spec fn decimal_digits(n: nat) -> Seq<char>
    decreases n,
{
    if n < 10 {
        seq![digit_char(n)]
    } else {
        decimal_digits(n / 10).push(digit_char(n % 10))
    }
}

/// The decimal notation of an integer.
pub open spec fn decimal(i: int) -> Seq<char> {
    if i < 0 {
        seq!['-'] + decimal_digits((-i) as nat)
    } else {
        decimal_digits(i as nat)
    }
}

/// Whether a character is one of the ten decimal digits.
pub open spec fn is_digit(c: char) -> bool {
    '0' <= c <= '9'
}

proof fn lemma_digit_char(d: nat)
    requires
        d < 10,
    ensures
        is_digit(digit_char(d)),
        forall|e: nat| e < 10 && digit_char(e) == digit_char(d) ==> e == d,
{
}

proof fn lemma_decimal_digits_shape(n: nat)
    ensures
        decimal_digits(n).len() >= 1,
        forall|k: int| 0 <= k < decimal_digits(n).len() ==> is_digit(#[trigger] decimal_digits(n)[k]),
        n < 10 <==> decimal_digits(n).len() == 1,
    decreases n,
{
    lemma_digit_char(n % 10);
    if n >= 10 {
        lemma_decimal_digits_shape(n / 10);
    }
}

proof fn lemma_decimal_digits_injective(a: nat, b: nat)
    requires
        decimal_digits(a) == decimal_digits(b),
    ensures
        a == b,
    decreases a,
{
    lemma_decimal_digits_shape(a);
    lemma_decimal_digits_shape(b);
    lemma_digit_char(a % 10);
    lemma_digit_char(b % 10);
    if a < 10 {
        assert(b < 10);
        assert(decimal_digits(a)[0] == digit_char(a));
        assert(decimal_digits(b)[0] == digit_char(b));
    } else {
        assert(b >= 10);
        let da = decimal_digits(a);
        let db = decimal_digits(b);
        assert(da.last() == db.last());
        assert(a % 10 == b % 10);
        assert(da.drop_last() =~= decimal_digits(a / 10));
        assert(db.drop_last() =~= decimal_digits(b / 10));
        lemma_decimal_digits_injective(a / 10, b / 10);
    }
}

/// Distinct integers have distinct decimal notations.
pub proof fn law_decimal_injective(a: int, b: int)
    ensures
        decimal(a) == decimal(b) ==> a == b,
{
    if decimal(a) == decimal(b) {
        if a < 0 && b < 0 {
            let da = decimal_digits((-a) as nat);
            let db = decimal_digits((-b) as nat);
            assert(decimal(a).skip(1) =~= da);
            assert(decimal(b).skip(1) =~= db);
            lemma_decimal_digits_injective((-a) as nat, (-b) as nat);
        } else if a >= 0 && b >= 0 {
            lemma_decimal_digits_injective(a as nat, b as nat);
        } else if a < 0 {
            lemma_decimal_digits_shape(b as nat);
            assert(decimal(a)[0] == '-');
            assert(is_digit(decimal(b)[0]));
        } else {
            lemma_decimal_digits_shape(a as nat);
            assert(decimal(b)[0] == '-');
            assert(is_digit(decimal(a)[0]));
        }
    }
}

fn digit_str(d: u32) -> (s: &'static str)
    requires
        d < 10,
    ensures
        s@ == seq![digit_char(d as nat)],
{
    if d == 0 {
        proof {
            reveal_strlit("0");
        }
        "0"
    } else if d == 1 {
        proof {
            reveal_strlit("1");
        }
        "1"
    } else if d == 2 {
        proof {
            reveal_strlit("2");
        }
        "2"
    } else if d == 3 {
        proof {
            reveal_strlit("3");
        }
        "3"
    } else if d == 4 {
        proof {
            reveal_strlit("4");
        }
        "4"
    } else if d == 5 {
        proof {
            reveal_strlit("5");
        }
        "5"
    } else if d == 6 {
        proof {
            reveal_strlit("6");
        }
        "6"
    } else if d == 7 {
        proof {
            reveal_strlit("7");
        }
        "7"
    } else if d == 8 {
        proof {
            reveal_strlit("8");
        }
        "8"
    } else {
        proof {
            reveal_strlit("9");
        }
        "9"
    }
}

fn digits_of(n: u32) -> (s: String)
    ensures
        s@ == decimal_digits(n as nat),
    decreases n,
{
    if n < 10 {
        String::from_str(digit_str(n))
    } else {
        let mut s = digits_of(n / 10);
        s.append(digit_str(n % 10));
        s
    }
}

/// The decimal notation of `i`, as `i.to_string()` writes it.
pub fn decimal_string(i: i32) -> (s: String)
    ensures
        s@ == decimal(i as int),
{
    if i < 0 {
        let magnitude: i64 = -(i as i64);
        let digits = digits_of(magnitude as u32);
        proof {
            reveal_strlit("-");
        }
        let s = String::from_str("-");
        s.concat(digits.as_str())
    } else {
        digits_of(i as u32)
    }
}

} // verus!
