//! Decimal rendering of chunk indices.
//!
//! Per-chunk file paths are a template with the chunk index appended. The
//! rendering is verified down to the character sequence, and shown
//! injective, which is what makes the derived per-chunk paths collision
//! free.

use vstd::prelude::*;

use vstd::arithmetic::div_mod::lemma_fundamental_div_mod;
use vstd::string::StringExecFns;

verus! {

/// The character of a single decimal digit.
pub open spec fn digit_char(d: nat) -> char {
    if d == 0 {
        '0'
    } else if d == 1 {
        '1'
    } else if d == 2 {
        '2'
    } else if d == 3 {
        '3'
    } else if d == 4 {
        '4'
    } else if d == 5 {
        '5'
    } else if d == 6 {
        '6'
    } else if d == 7 {
        '7'
    } else if d == 8 {
        '8'
    } else {
        '9'
    }
}

/// The numeric value of a decimal digit character.
pub open spec fn digit_value(c: char) -> nat {
    if c == '0' {
        0
    } else if c == '1' {
        1
    } else if c == '2' {
        2
    } else if c == '3' {
        3
    } else if c == '4' {
        4
    } else if c == '5' {
        5
    } else if c == '6' {
        6
    } else if c == '7' {
        7
    } else if c == '8' {
        8
    } else {
        9
    }
}

/// The decimal representation of `n`, most significant digit first, with no
/// leading zero except for `n == 0` itself.
pub open spec fn decimal_digits(n: nat) -> Seq<char>
    decreases n,
{
    if n < 10 {
        seq![digit_char(n)]
    } else {
        decimal_digits(n / 10).push(digit_char(n % 10))
    }
}

/// The value a digit string denotes.
pub open spec fn decimal_value(s: Seq<char>) -> nat
    decreases s.len(),
{
    if s.len() == 0 {
        0
    } else {
        decimal_value(s.drop_last()) * 10 + digit_value(s.last())
    }
}

/// Reading back the decimal representation of `n` yields `n`.
pub proof fn lemma_decimal_round_trip(n: nat)
    ensures
        decimal_value(decimal_digits(n)) == n,
    decreases n,
{
    if n < 10 {
        let s = decimal_digits(n);
        assert(s.drop_last() =~= Seq::<char>::empty());
        assert(decimal_value(Seq::<char>::empty()) == 0);
        assert(s.last() == digit_char(n));
        assert(decimal_value(s) == decimal_value(s.drop_last()) * 10 + digit_value(s.last()));
        assert(digit_value(digit_char(n)) == n);
    } else {
        lemma_decimal_round_trip(n / 10);
        let s = decimal_digits(n);
        assert(s =~= decimal_digits(n / 10).push(digit_char(n % 10)));
        assert(s.drop_last() =~= decimal_digits(n / 10));
        assert(s.last() == digit_char(n % 10));
        assert(digit_value(digit_char(n % 10)) == n % 10);
        assert(decimal_value(s) == decimal_value(s.drop_last()) * 10 + digit_value(s.last()));
        lemma_fundamental_div_mod(n as int, 10);
        assert((n / 10) * 10 + n % 10 == n) by (nonlinear_arith)
            requires
                n as int == 10 * (n as int / 10) + n as int % 10,
        ;
    }
}

/// Distinct numbers have distinct decimal representations.
pub proof fn lemma_decimal_injective(a: nat, b: nat)
    requires
        decimal_digits(a) == decimal_digits(b),
    ensures
        a == b,
{
    lemma_decimal_round_trip(a);
    lemma_decimal_round_trip(b);
}

/// The one-character string of a single decimal digit.
fn digit_str(d: u64) -> (s: &'static str)
    requires
        d < 10,
    ensures
        s@ == seq![digit_char(d as nat)],
{
    proof {
        reveal_strlit("0");
        reveal_strlit("1");
        reveal_strlit("2");
        reveal_strlit("3");
        reveal_strlit("4");
        reveal_strlit("5");
        reveal_strlit("6");
        reveal_strlit("7");
        reveal_strlit("8");
        reveal_strlit("9");
    }
    if d == 0 {
        proof {
            assert("0"@ =~= seq![digit_char(0)]);
        }
        "0"
    } else if d == 1 {
        proof {
            assert("1"@ =~= seq![digit_char(1)]);
        }
        "1"
    } else if d == 2 {
        proof {
            assert("2"@ =~= seq![digit_char(2)]);
        }
        "2"
    } else if d == 3 {
        proof {
            assert("3"@ =~= seq![digit_char(3)]);
        }
        "3"
    } else if d == 4 {
        proof {
            assert("4"@ =~= seq![digit_char(4)]);
        }
        "4"
    } else if d == 5 {
        proof {
            assert("5"@ =~= seq![digit_char(5)]);
        }
        "5"
    } else if d == 6 {
        proof {
            assert("6"@ =~= seq![digit_char(6)]);
        }
        "6"
    } else if d == 7 {
        proof {
            assert("7"@ =~= seq![digit_char(7)]);
        }
        "7"
    } else if d == 8 {
        proof {
            assert("8"@ =~= seq![digit_char(8)]);
        }
        "8"
    } else {
        proof {
            assert("9"@ =~= seq![digit_char(9)]);
        }
        "9"
    }
}

/// Renders `n` in decimal.
pub fn render_decimal(n: u64) -> (s: String)
    ensures
        s@ == decimal_digits(n as nat),
{
    let mut low_digits: Vec<u64> = Vec::new();
    let mut m: u64 = n;
    // Collect the digits of `n`, least significant first, until the
    // remaining high part is a single digit.
    while m >= 10
        invariant
            forall|j: int| 0 <= j < low_digits@.len() ==> #[trigger] low_digits@[j] < 10,
            decimal_digits(n as nat) =~= decimal_digits(m as nat) + low_digits@.reverse().map_values(
                |d: u64| digit_char(d as nat),
            ),
        decreases m,
    {
        let ghost before = low_digits@;
        let digit: u64 = m % 10;
        low_digits.push(digit);
        proof {
            let prev = m as nat;
            assert(decimal_digits(prev) == decimal_digits(prev / 10).push(digit_char(prev % 10)));
            assert(low_digits@.reverse() =~= seq![digit].add(before.reverse()));
            assert(decimal_digits(prev / 10) + low_digits@.reverse().map_values(
                |d: u64| digit_char(d as nat),
            ) =~= decimal_digits(prev) + before.reverse().map_values(|d: u64| digit_char(d as nat)));
            assert(m / 10 < m) by (nonlinear_arith)
                requires
                    m >= 10,
            ;
        }
        m = m / 10;
    }
    let mut s = String::new();
    s.append(digit_str(m));
    let ghost rendered = decimal_digits(m as nat);
    let mut i: usize = low_digits.len();
    while i > 0
        invariant
            i <= low_digits@.len(),
            forall|j: int| 0 <= j < low_digits@.len() ==> #[trigger] low_digits@[j] < 10,
            s@ =~= rendered + low_digits@.subrange(i as int, low_digits@.len() as int).reverse().map_values(
                |d: u64| digit_char(d as nat),
            ),
        decreases i,
    {
        i = i - 1;
        let ghost before = s@;
        s.append(digit_str(low_digits[i]));
        proof {
            let tail = low_digits@.subrange(i as int, low_digits@.len() as int);
            let prev_tail = low_digits@.subrange(i as int + 1, low_digits@.len() as int);
            assert(tail.reverse() =~= prev_tail.reverse().push(low_digits@[i as int]));
            assert(rendered + tail.reverse().map_values(|d: u64| digit_char(d as nat)) =~= before
                + seq![digit_char(low_digits@[i as int] as nat)]);
        }
    }
    proof {
        assert(low_digits@.subrange(low_digits@.len() as int, low_digits@.len() as int).reverse()
            =~= Seq::<u64>::empty());
        assert(s@ =~= decimal_digits(n as nat));
    }
    s
}

} // verus!
