//! Base-ten rendering of unsigned integers.
use vstd::prelude::*;

verus! {

/// The character of a decimal digit `d < 10`.
pub open spec fn digit_char(d: nat) -> char {
    if d == 0 {
        '0'
    } else if d == 1 {
        '1'
    } else if d == 2 {
        '2'
    } else if d == 3 {
        '3'
    } else if d == 4 {
        '4'
    } else if d == 5 {
        '5'
    } else if d == 6 {
        '6'
    } else if d == 7 {
        '7'
    } else if d == 8 {
        '8'
    } else {
        '9'
    }
}

/// The decimal digits of `n`, most significant first, without leading zeros.
pub open spec fn decimal(n: nat) -> Seq<char>
    decreases n,
{
    if n < 10 {
        seq![digit_char(n)]
    } else {
        decimal(n / 10).push(digit_char(n % 10))
    }
}

/// Distinct digits have distinct characters.
pub proof fn lemma_digit_char_injective(x: nat, y: nat)
    requires
        x < 10,
        y < 10,
        digit_char(x) == digit_char(y),
    ensures
        x == y,
{
}

/// A decimal rendering is never empty and holds digits only: no `/`.
pub proof fn lemma_decimal_has_no_slash(n: nat)
    ensures
        decimal(n).len() >= 1,
        n >= 10 ==> decimal(n).len() >= 2,
        forall|i: int| 0 <= i < decimal(n).len() ==> decimal(n)[i] != '/',
    decreases n,
{
    if n >= 10 {
        lemma_decimal_has_no_slash(n / 10);
        let p = decimal(n / 10);
        assert forall|i: int| 0 <= i < decimal(n).len() implies decimal(n)[i] != '/' by {
            if i < p.len() {
                assert(decimal(n)[i] == p[i]);
            }
        }
    }
}

/// Distinct numbers have distinct decimal renderings.
pub proof fn lemma_decimal_injective(a: nat, b: nat)
    requires
        decimal(a) == decimal(b),
    ensures
        a == b,
    decreases a,
{
    lemma_decimal_has_no_slash(a);
    lemma_decimal_has_no_slash(b);
    if a < 10 {
        assert(b < 10);
        assert(decimal(a)[0] == digit_char(a));
        assert(decimal(b)[0] == digit_char(b));
        lemma_digit_char_injective(a, b);
    } else {
        assert(b >= 10);
        let pa = decimal(a / 10);
        let pb = decimal(b / 10);
        assert(pa == decimal(a).drop_last());
        assert(pb == decimal(b).drop_last());
        assert(decimal(a).last() == digit_char(a % 10));
        assert(decimal(b).last() == digit_char(b % 10));
        lemma_decimal_injective(a / 10, b / 10);
        lemma_digit_char_injective(a % 10, b % 10);
    }
}

/// The one-character text of the digit `d`.
fn digit_text(d: usize) -> (r: &'static str)
    requires
        d < 10,
    ensures
        r@ == seq![digit_char(d as nat)],
{
    if d == 0 {
        proof {
            reveal_strlit("0");
        }
        "0"
    } else if d == 1 {
        proof {
            reveal_strlit("1");
        }
        "1"
    } else if d == 2 {
        proof {
            reveal_strlit("2");
        }
        "2"
    } else if d == 3 {
        proof {
            reveal_strlit("3");
        }
        "3"
    } else if d == 4 {
        proof {
            reveal_strlit("4");
        }
        "4"
    } else if d == 5 {
        proof {
            reveal_strlit("5");
        }
        "5"
    } else if d == 6 {
        proof {
            reveal_strlit("6");
        }
        "6"
    } else if d == 7 {
        proof {
            reveal_strlit("7");
        }
        "7"
    } else if d == 8 {
        proof {
            reveal_strlit("8");
        }
        "8"
    } else {
        proof {
            reveal_strlit("9");
        }
        "9"
    }
}

/// Appends the decimal digits of `n` to `s`.
pub fn push_decimal(s: &mut String, n: usize)
    ensures
        final(s)@ == old(s)@ + decimal(n as nat),
    decreases n,
{
    if n >= 10 {
        push_decimal(s, n / 10);
    }
    s.append(digit_text(n % 10));
    proof {
        if n >= 10 {
            assert(old(s)@ + decimal(n as nat) =~= old(s)@ + decimal((n / 10) as nat) + seq![
                digit_char((n % 10) as nat),
            ]);
        }
    }
}

/// The decimal digits of `n` as a new string.
pub fn decimal_text(n: usize) -> (r: String)
    ensures
        r@ == decimal(n as nat),
{
    let mut s = String::new();
    push_decimal(&mut s, n);
    proof {
        assert(s@ =~= decimal(n as nat));
    }
    s
}

} // verus!
