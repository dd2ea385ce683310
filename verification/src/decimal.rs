//! Fixed-point decimal numbers: a signed count of smallest units, with a
//! const-generic number `P` of fractional digits (the stored count is the
//! value scaled by `10^P`). Overflow is ruled out by preconditions rather
//! than checked at run time: callers keep magnitudes far below the 64-bit
//! limit. Rendering always shows exactly `P` fractional digits, with the
//! fraction written as an unsigned magnitude even for negative values.

use vstd::prelude::*;
use vstd::string::StringExecFns;

verus! {

/// `10^e` as a mathematical integer.
pub open spec fn pow10(e: nat) -> int
    decreases e,
{
    if e == 0 {
        1
    } else {
        10 * pow10((e - 1) as nat)
    }
}

pub proof fn lemma_pow10_positive(e: nat)
    ensures
        pow10(e) >= 1,
    decreases e,
{
    if e > 0 {
        lemma_pow10_positive((e - 1) as nat);
    }
}

pub proof fn lemma_pow10_increases(a: nat, b: nat)
    requires
        a <= b,
    ensures
        pow10(a) <= pow10(b),
    decreases b,
{
    if a < b {
        lemma_pow10_increases(a, (b - 1) as nat);
        lemma_pow10_positive((b - 1) as nat);
    }
}

/// `10^n` as an `i64`; the caller guarantees that it fits.
pub fn ten_pow(n: u32) -> (r: i64)
    requires
        pow10(n as nat) <= i64::MAX,
    ensures
        r == pow10(n as nat),
        r >= 1,
{
    let mut r: i64 = 1;
    let mut i: u32 = 0;
    while i < n
        invariant
            i <= n,
            r == pow10(i as nat),
            r >= 1,
            pow10(n as nat) <= i64::MAX,
        decreases n - i,
    {
        proof {
            lemma_pow10_increases((i + 1) as nat, n as nat);
            lemma_pow10_positive(i as nat);
        }
        r = r * 10;
        i = i + 1;
    }
    r
}

/// The character for a single decimal digit.
pub open spec fn digit_char(d: nat) -> char {
    if d == 0 {
        '0'
    } else if d == 1 {
        '1'
    } else if d == 2 {
        '2'
    } else if d == 3 {
        '3'
    } else if d == 4 {
        '4'
    } else if d == 5 {
        '5'
    } else if d == 6 {
        '6'
    } else if d == 7 {
        '7'
    } else if d == 8 {
        '8'
    } else {
        '9'
    }
}

/// The ordinary base-ten numeral of `n`, without leading zeros
/// (a single `'0'` for zero).
pub open spec fn dec_digits(n: nat) -> Seq<char>
    decreases n,
{
    if n < 10 {
        seq![digit_char(n)]
    } else {
        dec_digits(n / 10).push(digit_char(n % 10))
    }
}

/// The last `w` base-ten digits of `n`, leading zeros kept.
pub open spec fn dec_digits_padded(n: nat, w: nat) -> Seq<char>
    decreases w,
{
    if w == 0 {
        Seq::empty()
    } else {
        dec_digits_padded(n / 10, (w - 1) as nat).push(digit_char(n % 10))
    }
}

/// The canonical text of the scaled value `v` at `p` fractional digits:
/// a sign for negative values, the whole part, a point, then exactly `p`
/// fraction digits given as an unsigned magnitude.
pub open spec fn decimal_chars(v: int, p: nat) -> Seq<char> {
    let m = (if v < 0 { -v } else { v }) as nat;
    let sign: Seq<char> = if v < 0 { seq!['-'] } else { Seq::empty() };
    sign + dec_digits(m / (pow10(p) as nat)) + seq!['.'] + dec_digits_padded(
        m % (pow10(p) as nat),
        p,
    )
}

/// The one-character string of a single decimal digit.
fn digit_str(d: u64) -> (r: &'static str)
    requires
        d < 10,
    ensures
        r@ == seq![digit_char(d as nat)],
{
    let r = if d == 0 {
        "0"
    } else if d == 1 {
        "1"
    } else if d == 2 {
        "2"
    } else if d == 3 {
        "3"
    } else if d == 4 {
        "4"
    } else if d == 5 {
        "5"
    } else if d == 6 {
        "6"
    } else if d == 7 {
        "7"
    } else if d == 8 {
        "8"
    } else {
        "9"
    };
    proof {
        reveal_strlit("0");
        reveal_strlit("1");
        reveal_strlit("2");
        reveal_strlit("3");
        reveal_strlit("4");
        reveal_strlit("5");
        reveal_strlit("6");
        reveal_strlit("7");
        reveal_strlit("8");
        reveal_strlit("9");
        assert(r@ =~= seq![digit_char(d as nat)]);
    }
    r
}

/// Appends the numeral of `n` to `s`.
pub fn push_dec_digits(s: &mut String, n: u64)
    ensures
        final(s)@ == old(s)@ + dec_digits(n as nat),
    decreases n,
{
    if n < 10 {
        s.append(digit_str(n));
        proof {
            assert(final(s)@ =~= old(s)@ + dec_digits(n as nat));
        }
    } else {
        push_dec_digits(s, n / 10);
        s.append(digit_str(n % 10));
        proof {
            assert(final(s)@ =~= old(s)@ + dec_digits(n as nat));
        }
    }
}

/// Appends the last `w` digits of `n` to `s`, leading zeros kept.
pub fn push_dec_digits_padded(s: &mut String, n: u64, w: u32)
    ensures
        final(s)@ == old(s)@ + dec_digits_padded(n as nat, w as nat),
    decreases w,
{
    if w > 0 {
        push_dec_digits_padded(s, n / 10, w - 1);
        s.append(digit_str(n % 10));
        proof {
            assert(final(s)@ =~= old(s)@ + dec_digits_padded(n as nat, w as nat));
        }
    } else {
        proof {
            assert(final(s)@ =~= old(s)@ + dec_digits_padded(n as nat, w as nat));
        }
    }
}

/// An exact quantity with `P` fractional digits, stored as `value * 10^P`.
#[derive(Debug, Clone, Copy, PartialEq, Eq)]
pub struct Decimal<const P: u32> {
    n: i64,
}

impl<const P: u32> View for Decimal<P> {
    type V = int;

    closed spec fn view(&self) -> int {
        self.n as int
    }
}

impl<const P: u32> Decimal<P> {
    /// The decimal whose scaled count is `v`; meaningful when `v` fits in an `i64`.
    pub closed spec fn spec_new(v: int) -> Decimal<P> {
        Decimal { n: v as i64 }
    }

    pub proof fn lemma_spec_new(v: int)
        requires
            i64::MIN <= v <= i64::MAX,
        ensures
            Decimal::<P>::spec_new(v)@ == v,
    {
    }

    /// A decimal's scaled count always fits in an `i64`.
    pub proof fn lemma_view_in_range(&self)
        ensures
            i64::MIN <= self@ <= i64::MAX,
    {
    }

    /// Two decimals with the same scaled count are the same value.
    pub proof fn lemma_eq_by_view(a: Decimal<P>, b: Decimal<P>)
        requires
            a@ == b@,
        ensures
            a == b,
    {
    }

    pub fn zero() -> (r: Self)
        ensures
            r@ == 0,
    {
        Self { n: 0 }
    }

    /// The whole number `n`, scaled to `P` fractional digits.
    pub fn from_int(n: i64) -> (r: Self)
        requires
            pow10(P as nat) <= i64::MAX,
            i64::MIN <= n * pow10(P as nat) <= i64::MAX,
        ensures
            r@ == n * pow10(P as nat),
    {
        let s = ten_pow(P);
        Self { n: n * s }
    }

    /// A decimal given directly as a count of smallest units.
    pub fn from_scaled(n: i64) -> (r: Self)
        ensures
            r@ == n,
    {
        Self { n }
    }

    /// The count of smallest units.
    pub fn scaled(&self) -> (r: i64)
        ensures
            r == self@,
    {
        self.n
    }

    pub fn add(self, rhs: Self) -> (r: Self)
        requires
            i64::MIN <= self@ + rhs@ <= i64::MAX,
        ensures
            r@ == self@ + rhs@,
    {
        Self { n: self.n + rhs.n }
    }

    pub fn sub(self, rhs: Self) -> (r: Self)
        requires
            i64::MIN <= self@ - rhs@ <= i64::MAX,
        ensures
            r@ == self@ - rhs@,
    {
        Self { n: self.n - rhs.n }
    }

    pub fn is_negative(&self) -> (r: bool)
        ensures
            r == (self@ < 0),
    {
        self.n < 0
    }

    /// The value as text, with exactly `P` fractional digits.
    pub fn to_string(&self) -> (r: String)
        requires
            pow10(P as nat) <= i64::MAX,
        ensures
            r@ == decimal_chars(self@, P as nat),
    {
        let scale = ten_pow(P);
        let wide: i128 = self.n as i128;
        let mag: u64 = (if wide < 0 {
            -wide
        } else {
            wide
        }) as u64;
        let mut s = String::new();
        if self.n < 0 {
            s.append("-");
            proof {
                reveal_strlit("-");
            }
        }
        push_dec_digits(&mut s, mag / (scale as u64));
        s.append(".");
        proof {
            reveal_strlit(".");
        }
        push_dec_digits_padded(&mut s, mag % (scale as u64), P);
        proof {
            assert(s@ =~= decimal_chars(self@, P as nat));
        }
        s
    }
}

} // verus!
