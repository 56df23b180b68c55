use vstd::prelude::*;

verus! {

/// The value of little-endian base-2^32 digits.
pub open spec fn digits_value(d: Seq<u32>) -> nat
    decreases d.len(),
{
    if d.len() == 0 {
        0
    } else {
        d[0] as nat + 0x1_0000_0000 * digits_value(d.drop_first())
    }
}

/// An arbitrary-precision integer: a sign and a magnitude given as
/// little-endian base-2^32 digits. Zero may carry either sign.
#[derive(Clone, Debug)]
pub struct BigNum {
    pub negative: bool,
    pub digits: Vec<u32>,
}

impl View for BigNum {
    type V = int;

    open spec fn view(&self) -> int {
        if self.negative {
            -(digits_value(self.digits@) as int)
        } else {
            digits_value(self.digits@) as int
        }
    }
}

/// Relies on `BigUint::from_slice` and `Ord::cmp` of num_bigint: both
/// magnitudes are compared by value.
#[verifier::external_body]
fn magnitude_cmp(a: &Vec<u32>, b: &Vec<u32>) -> (r: core::cmp::Ordering)
    ensures
        (r == core::cmp::Ordering::Less) == (digits_value(a@) < digits_value(b@)),
        (r == core::cmp::Ordering::Equal) == (digits_value(a@) == digits_value(b@)),
        (r == core::cmp::Ordering::Greater) == (digits_value(a@) > digits_value(b@)),
{
    num_bigint::BigUint::from_slice(a).cmp(&num_bigint::BigUint::from_slice(b))
}

/// Relies on `Add` of num_bigint's `BigUint` and on `to_u32_digits`, which
/// gives the little-endian base-2^32 digits of the sum.
#[verifier::external_body]
fn magnitude_add(a: &Vec<u32>, b: &Vec<u32>) -> (r: Vec<u32>)
    ensures
        digits_value(r@) == digits_value(a@) + digits_value(b@),
{
    (num_bigint::BigUint::from_slice(a) + num_bigint::BigUint::from_slice(b)).to_u32_digits()
}

/// Relies on `Sub` of num_bigint's `BigUint`, which panics when the result
/// would be negative (excluded here), and on `to_u32_digits`.
#[verifier::external_body]
fn magnitude_sub(a: &Vec<u32>, b: &Vec<u32>) -> (r: Vec<u32>)
    requires
        digits_value(b@) <= digits_value(a@),
    ensures
        digits_value(r@) == digits_value(a@) - digits_value(b@),
{
    (num_bigint::BigUint::from_slice(a) - num_bigint::BigUint::from_slice(b)).to_u32_digits()
}

impl BigNum {
    pub fn zero() -> (r: BigNum)
        ensures
            r@ == 0,
    {
        BigNum { negative: false, digits: Vec::new() }
    }

    pub fn from_u64(v: u64) -> (r: BigNum)
        ensures
            r@ == v as int,
    {
        let lo = (v % 0x1_0000_0000) as u32;
        let hi = (v / 0x1_0000_0000) as u32;
        let digits = vec![lo, hi];
        proof {
            assert(digits@.drop_first().drop_first() =~= Seq::<u32>::empty());
            reveal_with_fuel(digits_value, 3);
        }
        BigNum { negative: false, digits }
    }

    pub fn from_i64(v: i64) -> (r: BigNum)
        ensures
            r@ == v as int,
    {
        if v < 0 {
            let m: u64 = if v == i64::MIN {
                0x8000_0000_0000_0000u64
            } else {
                (-v) as u64
            };
            let r = BigNum::from_u64(m);
            BigNum { negative: true, digits: r.digits }
        } else {
            BigNum::from_u64(v as u64)
        }
    }

    /// A copy with the same sign and digits.
    pub fn duplicate(&self) -> (r: BigNum)
        ensures
            r.negative == self.negative,
            r.digits@ == self.digits@,
            r@ == self@,
    {
        BigNum { negative: self.negative, digits: self.digits.clone() }
    }

    /// Whether the value is strictly greater than zero.
    pub fn is_positive(&self) -> (r: bool)
        ensures
            r == (self@ > 0),
    {
        let empty: Vec<u32> = Vec::new();
        !self.negative && matches!(magnitude_cmp(&self.digits, &empty), core::cmp::Ordering::Greater)
    }

    /// Value equality: zero equals zero whatever the signs.
    pub fn equals(&self, other: &BigNum) -> (r: bool)
        ensures
            r == (self@ == other@),
    {
        match magnitude_cmp(&self.digits, &other.digits) {
            core::cmp::Ordering::Equal => {
                let empty: Vec<u32> = Vec::new();
                self.negative == other.negative
                    || matches!(magnitude_cmp(&self.digits, &empty), core::cmp::Ordering::Equal)
            },
            _ => false,
        }
    }

    /// Strict order on values.
    pub fn less_than(&self, other: &BigNum) -> (r: bool)
        ensures
            r == (self@ < other@),
    {
        let empty: Vec<u32> = Vec::new();
        let a_zero = matches!(magnitude_cmp(&self.digits, &empty), core::cmp::Ordering::Equal);
        let b_zero = matches!(magnitude_cmp(&other.digits, &empty), core::cmp::Ordering::Equal);
        let a_neg = self.negative && !a_zero;
        let b_neg = other.negative && !b_zero;
        let c = magnitude_cmp(&self.digits, &other.digits);
        if a_neg && b_neg {
            matches!(c, core::cmp::Ordering::Greater)
        } else if a_neg {
            true
        } else if b_neg {
            false
        } else {
            matches!(c, core::cmp::Ordering::Less)
        }
    }

    /// Sum of two values that are not negative.
    pub fn add_natural(&self, other: &BigNum) -> (r: BigNum)
        requires
            self@ >= 0,
            other@ >= 0,
        ensures
            r@ == self@ + other@,
            r@ >= 0,
    {
        BigNum { negative: false, digits: magnitude_add(&self.digits, &other.digits) }
    }

    /// Difference of two values that are not negative, the first no smaller.
    pub fn sub_natural(&self, other: &BigNum) -> (r: BigNum)
        requires
            0 <= other@ <= self@,
        ensures
            r@ == self@ - other@,
    {
        BigNum { negative: false, digits: magnitude_sub(&self.digits, &other.digits) }
    }
}

/// The value of decimal digits in which `_` may stand anywhere but first.
pub open spec fn decimal_digits_value(s: Seq<char>) -> int
    decreases s.len(),
{
    if s.len() == 0 {
        0
    } else if s.last() == '_' {
        decimal_digits_value(s.drop_last())
    } else {
        decimal_digits_value(s.drop_last()) * 10 + (s.last() as int - '0' as int)
    }
}

/// At least one character, the first a digit, every one a digit or `_`.
pub open spec fn is_decimal_body(s: Seq<char>) -> bool {
    &&& s.len() > 0
    &&& s[0] != '_'
    &&& forall|i: int| 0 <= i < s.len() ==> ('0' <= #[trigger] s[i] <= '9' || s[i] == '_')
}

/// What a decimal integer literal stands for: an optional `-` or `+`, then
/// digits with `_` separators; `None` for any other text.
pub open spec fn decimal_value(s: Seq<char>) -> Option<int> {
    if s.len() > 0 && s[0] == '-' {
        if is_decimal_body(s.drop_first()) {
            Some(-decimal_digits_value(s.drop_first()))
        } else {
            None
        }
    } else if s.len() > 0 && s[0] == '+' {
        if is_decimal_body(s.drop_first()) {
            Some(decimal_digits_value(s.drop_first()))
        } else {
            None
        }
    } else if is_decimal_body(s) {
        Some(decimal_digits_value(s))
    } else {
        None
    }
}

/// Relies on `FromStr` of num_bigint's `BigInt` (radix 10: an optional sign,
/// then digits with `_` allowed after the first) and on `to_u32_digits`, which
/// gives the sign and the little-endian base-2^32 digits of the magnitude.
#[verifier::external_body]
pub(crate) fn parse_decimal(s: &str) -> (r: Option<BigNum>)
    ensures
        match r {
            Some(n) => decimal_value(s@) == Some(n@),
            None => decimal_value(s@) is None,
        },
{
    match s.parse::<num_bigint::BigInt>() {
        Ok(v) => {
            let (sign, digits) = v.to_u32_digits();
            Some(BigNum { negative: sign == num_bigint::Sign::Minus, digits })
        },
        Err(_) => None,
    }
}

} // verus!
