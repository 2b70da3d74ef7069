//! The interface a matrix element type must offer, and its machine-integer
//! instantiation.

use vstd::prelude::*;

verus! {

/// What a matrix element supplies: a zero (the additive identity, also used
/// as the padding value), a one (the multiplicative identity), closed
/// addition and multiplication, and a textual rendering.
///
/// The proof obligations record the identity and commutativity facts that
/// the matrix-level laws rest on; any ordinary numeric type satisfies them.
pub trait MatrixElement: Sized + Copy {
    /// The additive identity, also the padding value for construction.
    spec fn zero_spec() -> Self;

    /// The multiplicative identity.
    spec fn one_spec() -> Self;

    /// The meaning of addition on this type.
    spec fn plus_spec(a: Self, b: Self) -> Self;

    /// The meaning of multiplication on this type.
    spec fn times_spec(a: Self, b: Self) -> Self;

    /// The characters of this element's textual rendering.
    spec fn text_spec(e: Self) -> Seq<char>;

    fn zero() -> (r: Self)
        ensures
            r == Self::zero_spec(),
    ;

    fn one() -> (r: Self)
        ensures
            r == Self::one_spec(),
    ;

    fn plus(a: Self, b: Self) -> (r: Self)
        ensures
            r == Self::plus_spec(a, b),
    ;

    fn times(a: Self, b: Self) -> (r: Self)
        ensures
            r == Self::times_spec(a, b),
    ;

    fn text(e: Self) -> (r: String)
        ensures
            r@ == Self::text_spec(e),
    ;

    /// Zero is an identity for addition, on either side.
    proof fn lemma_plus_zero(a: Self)
        ensures
            Self::plus_spec(a, Self::zero_spec()) == a,
            Self::plus_spec(Self::zero_spec(), a) == a,
    ;

    /// Addition commutes.
    proof fn lemma_plus_comm(a: Self, b: Self)
        ensures
            Self::plus_spec(a, b) == Self::plus_spec(b, a),
    ;

    /// One is an identity for multiplication, on either side.
    proof fn lemma_times_one(a: Self)
        ensures
            Self::times_spec(a, Self::one_spec()) == a,
            Self::times_spec(Self::one_spec(), a) == a,
    ;

    /// Zero annihilates under multiplication, on either side.
    proof fn lemma_times_zero(a: Self)
        ensures
            Self::times_spec(a, Self::zero_spec()) == Self::zero_spec(),
            Self::times_spec(Self::zero_spec(), a) == Self::zero_spec(),
    ;
}

/// The character for a single decimal digit value.
pub open spec fn digit_char(d: int) -> char {
    if d == 0 {
        '0'
    } else if d == 1 {
        '1'
    } else if d == 2 {
        '2'
    } else if d == 3 {
        '3'
    } else if d == 4 {
        '4'
    } else if d == 5 {
        '5'
    } else if d == 6 {
        '6'
    } else if d == 7 {
        '7'
    } else if d == 8 {
        '8'
    } else {
        '9'
    }
}

/// The decimal digits of a non-negative number, most significant first.
pub open spec fn decimal_digits(n: nat) -> Seq<char>
    decreases n,
{
    if n < 10 {
        seq![digit_char(n as int)]
    } else {
        decimal_digits(n / 10) + seq![digit_char((n % 10) as int)]
    }
}

/// The decimal rendering of an integer: a minus sign for negative values,
/// then the digits of the magnitude.
pub open spec fn decimal_text(v: int) -> Seq<char> {
    if v < 0 {
        seq!['-'] + decimal_digits((-v) as nat)
    } else {
        decimal_digits(v as nat)
    }
}

fn digit_str(d: u64) -> (r: &'static str)
    requires
        d < 10,
    ensures
        r@ == seq![digit_char(d as int)],
{
    if d == 0 {
        proof {
            reveal_strlit("0");
        }
        assert("0"@ =~= seq![digit_char(0)]);
        "0"
    } else if d == 1 {
        proof {
            reveal_strlit("1");
        }
        assert("1"@ =~= seq![digit_char(1)]);
        "1"
    } else if d == 2 {
        proof {
            reveal_strlit("2");
        }
        assert("2"@ =~= seq![digit_char(2)]);
        "2"
    } else if d == 3 {
        proof {
            reveal_strlit("3");
        }
        assert("3"@ =~= seq![digit_char(3)]);
        "3"
    } else if d == 4 {
        proof {
            reveal_strlit("4");
        }
        assert("4"@ =~= seq![digit_char(4)]);
        "4"
    } else if d == 5 {
        proof {
            reveal_strlit("5");
        }
        assert("5"@ =~= seq![digit_char(5)]);
        "5"
    } else if d == 6 {
        proof {
            reveal_strlit("6");
        }
        assert("6"@ =~= seq![digit_char(6)]);
        "6"
    } else if d == 7 {
        proof {
            reveal_strlit("7");
        }
        assert("7"@ =~= seq![digit_char(7)]);
        "7"
    } else if d == 8 {
        proof {
            reveal_strlit("8");
        }
        assert("8"@ =~= seq![digit_char(8)]);
        "8"
    } else {
        proof {
            reveal_strlit("9");
        }
        assert("9"@ =~= seq![digit_char(9)]);
        "9"
    }
}

fn decimal_u64(n: u64) -> (r: String)
    ensures
        r@ == decimal_digits(n as nat),
    decreases n,
{
    if n < 10 {
        String::from_str(digit_str(n))
    } else {
        assert(n / 10 < n) by (nonlinear_arith)
            requires
                n >= 10,
        ;
        let mut s = decimal_u64(n / 10);
        s.append(digit_str(n % 10));
        s
    }
}

proof fn lemma_signed_crop_id(a: i64)
    ensures
        vstd::wrapping::i64_specs::signed_crop(a as int) == a,
{
    let range: int = 0x1_0000_0000_0000_0000;
    if a >= 0 {
        vstd::arithmetic::div_mod::lemma_small_mod(a as nat, range as nat);
    } else {
        vstd::arithmetic::div_mod::lemma_mod_add_multiples_vanish(a as int, range);
        vstd::arithmetic::div_mod::lemma_small_mod((a + range) as nat, range as nat);
    }
}

impl MatrixElement for i64 {
    open spec fn zero_spec() -> i64 {
        0i64
    }

    open spec fn one_spec() -> i64 {
        1i64
    }

    /// Addition wraps around on overflow, so that it is closed on `i64`.
    open spec fn plus_spec(a: i64, b: i64) -> i64 {
        vstd::wrapping::i64_specs::wrapping_add(a, b)
    }

    /// Multiplication wraps around on overflow, so that it is closed on `i64`.
    open spec fn times_spec(a: i64, b: i64) -> i64 {
        vstd::wrapping::i64_specs::wrapping_mul(a, b)
    }

    open spec fn text_spec(e: i64) -> Seq<char> {
        decimal_text(e as int)
    }

    fn zero() -> (r: i64) {
        0
    }

    fn one() -> (r: i64) {
        1
    }

    fn plus(a: i64, b: i64) -> (r: i64) {
        a.wrapping_add(b)
    }

    fn times(a: i64, b: i64) -> (r: i64) {
        a.wrapping_mul(b)
    }

    fn text(e: i64) -> (r: String) {
        if e >= 0 {
            decimal_u64(e as u64)
        } else {
            let wide: i128 = -(e as i128);
            assert(0 <= wide <= u64::MAX);
            let magnitude: u64 = wide as u64;
            proof {
                reveal_strlit("-");
            }
            let mut s = String::from_str("-");
            let digits = decimal_u64(magnitude);
            s.append(digits.as_str());
            assert(s@ =~= decimal_text(e as int));
            s
        }
    }

    proof fn lemma_plus_zero(a: i64) {
    }

    proof fn lemma_plus_comm(a: i64, b: i64) {
    }

    proof fn lemma_times_one(a: i64) {
        assert((a as int) * 1 == a as int) by (nonlinear_arith);
        assert(1 * (a as int) == a as int) by (nonlinear_arith);
        lemma_signed_crop_id(a);
    }

    proof fn lemma_times_zero(a: i64) {
        assert((a as int) * 0 == 0) by (nonlinear_arith);
        assert(0 * (a as int) == 0) by (nonlinear_arith);
        lemma_signed_crop_id(0i64);
    }
}

} // verus!
