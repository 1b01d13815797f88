use vstd::prelude::*;
use vstd::string::StrSliceExecFns;
use vstd::string::StringExecFns;

verus! {

/// The decimal digit character for `d` (which must be below ten).
pub open spec fn spec_digit_char(d: nat) -> char {
    if d == 0 {
        '0'
    } else if d == 1 {
        '1'
    } else if d == 2 {
        '2'
    } else if d == 3 {
        '3'
    } else if d == 4 {
        '4'
    } else if d == 5 {
        '5'
    } else if d == 6 {
        '6'
    } else if d == 7 {
        '7'
    } else if d == 8 {
        '8'
    } else {
        '9'
    }
}

/// The usual decimal rendering of `n`: most significant digit first, no
/// leading zeroes, and the single digit `0` for zero.
pub open spec fn spec_dec(n: nat) -> Seq<char>
    decreases n,
{
    if n < 10 {
        seq![spec_digit_char(n)]
    } else {
        spec_dec(n / 10) + seq![spec_digit_char(n % 10)]
    }
}

/// A run of `n` space characters.
pub open spec fn spec_spaces(n: nat) -> Seq<char> {
    Seq::new(n, |i: int| ' ')
}

/// `s` right-justified in a field of `w` characters; `s` is kept whole when
/// it is already `w` characters or longer.
pub open spec fn spec_pad_left(s: Seq<char>, w: nat) -> Seq<char> {
    if s.len() < w {
        spec_spaces((w - s.len()) as nat) + s
    } else {
        s
    }
}

/// The column width a report uses when its reference maximum count is `m`:
/// one more than the number of decimal digits of `m`.
pub open spec fn spec_col_width(m: nat) -> nat {
    spec_dec(m).len() + 1
}

/// Ten to the power `k`.
pub open spec fn pow10(k: nat) -> nat
    decreases k,
{
    if k == 0 {
        1
    } else {
        10 * pow10((k - 1) as nat)
    }
}

/// A number below ten to the `k` has at most `k` decimal digits.
proof fn lemma_spec_dec_len(n: nat, k: nat)
    requires
        k >= 1,
        n < pow10(k),
    ensures
        spec_dec(n).len() <= k,
    decreases n,
{
    if n < 10 {
    } else {
        assert(pow10(1) == 10 * pow10(0));
        if k == 1 {
            assert(false);
        }
        let q = (n / 10) as nat;
        let p = pow10((k - 1) as nat);
        assert(pow10(k) == 10 * p);
        vstd::arithmetic::div_mod::lemma_fundamental_div_mod(n as int, 10);
        vstd::arithmetic::div_mod::lemma_mod_bound(n as int, 10);
        assert(10 * q <= n);
        assert(q < p);
        assert(q < n);
        lemma_spec_dec_len(q, (k - 1) as nat);
    }
}

/// Any value a `usize` can hold has at most twenty decimal digits.
proof fn lemma_spec_dec_len_usize(n: nat)
    requires
        n <= usize::MAX,
    ensures
        spec_dec(n).len() <= 20,
{
    assert(pow10(0) == 1);
    assert(pow10(1) == 10);
    assert(pow10(2) == 100);
    assert(pow10(3) == 1000);
    assert(pow10(4) == 10000);
    assert(pow10(5) == 100000);
    assert(pow10(6) == 1000000);
    assert(pow10(7) == 10000000);
    assert(pow10(8) == 100000000);
    assert(pow10(9) == 1000000000);
    assert(pow10(10) == 10000000000);
    assert(pow10(11) == 100000000000);
    assert(pow10(12) == 1000000000000);
    assert(pow10(13) == 10000000000000);
    assert(pow10(14) == 100000000000000);
    assert(pow10(15) == 1000000000000000);
    assert(pow10(16) == 10000000000000000);
    assert(pow10(17) == 100000000000000000);
    assert(pow10(18) == 1000000000000000000);
    assert(pow10(19) == 10000000000000000000);
    assert(pow10(20) == 100000000000000000000);
    lemma_spec_dec_len(n, 20);
}

/// The one-character string for the decimal digit `d`.
fn digit_str(d: usize) -> (r: &'static str)
    requires
        d < 10,
    ensures
        r@ == seq![spec_digit_char(d as nat)],
{
    if d == 0 {
        proof {
            reveal_strlit("0");
            assert("0"@ =~= seq![spec_digit_char(0)]);
        }
        "0"
    } else if d == 1 {
        proof {
            reveal_strlit("1");
            assert("1"@ =~= seq![spec_digit_char(1)]);
        }
        "1"
    } else if d == 2 {
        proof {
            reveal_strlit("2");
            assert("2"@ =~= seq![spec_digit_char(2)]);
        }
        "2"
    } else if d == 3 {
        proof {
            reveal_strlit("3");
            assert("3"@ =~= seq![spec_digit_char(3)]);
        }
        "3"
    } else if d == 4 {
        proof {
            reveal_strlit("4");
            assert("4"@ =~= seq![spec_digit_char(4)]);
        }
        "4"
    } else if d == 5 {
        proof {
            reveal_strlit("5");
            assert("5"@ =~= seq![spec_digit_char(5)]);
        }
        "5"
    } else if d == 6 {
        proof {
            reveal_strlit("6");
            assert("6"@ =~= seq![spec_digit_char(6)]);
        }
        "6"
    } else if d == 7 {
        proof {
            reveal_strlit("7");
            assert("7"@ =~= seq![spec_digit_char(7)]);
        }
        "7"
    } else if d == 8 {
        proof {
            reveal_strlit("8");
            assert("8"@ =~= seq![spec_digit_char(8)]);
        }
        "8"
    } else {
        proof {
            reveal_strlit("9");
            assert("9"@ =~= seq![spec_digit_char(9)]);
        }
        "9"
    }
}

/// Renders `n` in decimal.
pub fn usize_to_decimal(n: usize) -> (r: String)
    ensures
        r@ == spec_dec(n as nat),
    decreases n,
{
    if n < 10 {
        digit_str(n).to_owned()
    } else {
        proof {
            vstd::arithmetic::div_mod::lemma_fundamental_div_mod(n as int, 10);
            vstd::arithmetic::div_mod::lemma_mod_bound(n as int, 10);
            assert(n / 10 < n);
        }
        let q = usize_to_decimal(n / 10);
        q.concat(digit_str(n % 10))
    }
}

/// A string of `k` spaces.
fn spaces_string(k: usize) -> (r: String)
    ensures
        r@ == spec_spaces(k as nat),
{
    let mut out = String::new();
    let mut i: usize = 0;
    proof {
        assert(out@ =~= spec_spaces(0));
    }
    while i < k
        invariant
            i <= k,
            out@ == spec_spaces(i as nat),
        decreases k - i,
    {
        out.append(" ");
        proof {
            reveal_strlit(" ");
            assert(out@ =~= spec_spaces((i + 1) as nat));
        }
        i = i + 1;
    }
    out
}

/// `v` rendered in decimal and right-justified in a field of `w` characters.
pub fn render_cell(v: usize, w: usize) -> (r: String)
    ensures
        r@ == spec_pad_left(spec_dec(v as nat), w as nat),
{
    let digits = usize_to_decimal(v);
    let len = digits.as_str().unicode_len();
    if len < w {
        let mut out = spaces_string(w - len);
        out.append(digits.as_str());
        out
    } else {
        digits
    }
}

/// The column width for a report whose reference maximum count is `m`.
pub fn column_width(m: usize) -> (w: usize)
    ensures
        w as nat == spec_col_width(m as nat),
{
    proof {
        lemma_spec_dec_len_usize(m as nat);
    }
    let d = usize_to_decimal(m);
    d.as_str().unicode_len() + 1
}

} // verus!
