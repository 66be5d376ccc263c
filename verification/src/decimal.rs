//! Exact decimal expansions.
//!
//! Every finite double is an integer times a power of two, so it has a
//! finite decimal expansion. This module computes that expansion digit by
//! digit, in integer arithmetic, and writes it as a JSON number.

use crate::coord::Coord;
use vstd::prelude::*;
use vstd::string::StringExecFns;

verus! {

/// `base` to the power `n`.
pub open spec fn power(base: nat, n: nat) -> nat
    decreases n,
{
    if n == 0 {
        1
    } else {
        base * power(base, (n - 1) as nat)
    }
}

/// The number that decimal digits denote, the lowest digit first.
pub open spec fn digits_value(digits: Seq<u8>) -> nat
    decreases digits.len(),
{
    if digits.len() == 0 {
        0
    } else {
        digits_value(digits.drop_last()) + digits.last() as nat * power(
            10,
            (digits.len() - 1) as nat,
        )
    }
}

/// Whether a sequence is the decimal digits of a number, the lowest digit
/// first: at least one digit, each below ten, and no zero on top of others.
pub open spec fn decimal_digits(digits: Seq<u8>) -> bool {
    &&& digits.len() >= 1
    &&& forall|i: int| 0 <= i < digits.len() ==> digits[i] <= 9
    &&& (digits.len() > 1 ==> digits.last() != 0)
}

/// The decimal digits of a number, the lowest digit first.
pub open spec fn nat_digits(n: nat) -> Seq<u8>
    decreases n,
{
    if n < 10 {
        seq![n as u8]
    } else {
        seq![(n % 10) as u8] + nat_digits(n / 10)
    }
}

/// The character of a digit.
pub open spec fn digit_char(d: nat) -> char {
    if d == 0 {
        '0'
    } else if d == 1 {
        '1'
    } else if d == 2 {
        '2'
    } else if d == 3 {
        '3'
    } else if d == 4 {
        '4'
    } else if d == 5 {
        '5'
    } else if d == 6 {
        '6'
    } else if d == 7 {
        '7'
    } else if d == 8 {
        '8'
    } else {
        '9'
    }
}

/// The digits as text, the highest digit first.
pub open spec fn digits_text(digits: Seq<u8>) -> Seq<char> {
    Seq::new(digits.len(), |i: int| digit_char(digits[digits.len() - 1 - i] as nat))
}

/// A number as decimal text, without leading zeros.
pub open spec fn nat_text(n: nat) -> Seq<char>
    decreases n,
{
    if n < 10 {
        seq![digit_char(n)]
    } else {
        nat_text(n / 10).push(digit_char(n % 10))
    }
}

/// A decimal number: `digits × 10^(-scale)`, negated where `negative` is
/// set. The digits are always well-formed.
#[derive(Debug)]
pub struct Decimal {
    negative: bool,
    digits: Vec<u8>,
    scale: u32,
}

/// What a decimal number holds.
pub struct DecimalView {
    pub negative: bool,
    /// The digits of the integer part and the fraction part together, the
    /// lowest digit first.
    pub digits: Seq<u8>,
    /// How many of the digits stand behind the decimal point.
    pub scale: nat,
}

impl DecimalView {
    /// The decimal number as a JSON number: a minus sign where it is
    /// negative, the digits, and the scale as a power of ten.
    pub open spec fn text(self) -> Seq<char> {
        (if self.negative {
            seq!['-']
        } else {
            Seq::<char>::empty()
        }) + digits_text(self.digits) + seq!['e', '-'] + nat_text(self.scale)
    }
}

/// The exact decimal expansion of a finite coordinate. The coordinate
/// denotes `significand × 2^binary_exponent` with its sign. For a power of
/// two that is not negative this is an integer, and the digits are its
/// digits. For a negative one, `2^(-k)` is `5^k × 10^(-k)`: the digits are
/// those of `significand × 5^k`, and `k` of them stand behind the point.
pub open spec fn expansion(c: Coord) -> DecimalView {
    if c.binary_exponent() >= 0 {
        DecimalView {
            negative: c.negative(),
            digits: nat_digits(c.significand() * power(2, c.binary_exponent() as nat)),
            scale: 0,
        }
    } else {
        let k = (-c.binary_exponent()) as nat;
        DecimalView {
            negative: c.negative(),
            digits: nat_digits(c.significand() * power(5, k)),
            scale: k,
        }
    }
}

/// The exact decimal expansion of a finite coordinate, as a JSON number.
pub open spec fn expansion_text(c: Coord) -> Seq<char> {
    expansion(c).text()
}

impl View for Decimal {
    type V = DecimalView;

    closed spec fn view(&self) -> DecimalView {
        DecimalView { negative: self.negative, digits: self.digits@, scale: self.scale as nat }
    }
}

impl Decimal {
    #[verifier::type_invariant]
    spec fn wf(self) -> bool {
        decimal_digits(self.digits@)
    }

    /// The exact decimal expansion of a coordinate that is a number; an
    /// infinity or a NaN has none.
    pub fn of(c: Coord) -> (r: Option<Decimal>)
        ensures
            match r {
                Some(d) => c.finite() && d@ == expansion(c),
                None => !c.finite(),
            },
    {
        let (sig, e) = match c.decompose() {
            Some(parts) => parts,
            None => { return None; },
        };
        let factor: u8 = if e >= 0 {
            2
        } else {
            5
        };
        let count: u32 = if e >= 0 {
            e as u32
        } else {
            (-e) as u32
        };
        let mut digits = digits_of(sig);
        let mut i: u32 = 0;
        assert(sig as nat * power(factor as nat, 0) == sig) by {
            assert(power(factor as nat, 0) == 1);
        }
        while i < count
            invariant
                i <= count,
                factor == 2 || factor == 5,
                decimal_digits(digits@),
                digits_value(digits@) == sig as nat * power(factor as nat, i as nat),
            decreases count - i,
        {
            let ghost before = digits_value(digits@);
            digits = scaled(&digits, factor);
            assert(sig as nat * power(factor as nat, (i + 1) as nat) == factor as nat * before)
                by (nonlinear_arith)
                requires
                    before == sig as nat * power(factor as nat, i as nat),
                    power(factor as nat, (i + 1) as nat) == factor as nat * power(
                        factor as nat,
                        i as nat,
                    ),
            ;
            i += 1;
        }
        proof {
            lemma_digits_unique(digits@);
        }
        Some(
            Decimal {
                negative: c.is_negative(),
                digits,
                scale: if e >= 0 {
                    0
                } else {
                    count
                },
            },
        )
    }

    /// Whether the number is negated.
    pub fn negative(&self) -> (r: bool)
        ensures
            r == self@.negative,
    {
        self.negative
    }

    /// The digits, the lowest first.
    pub fn digits(&self) -> (r: &Vec<u8>)
        ensures
            r@ == self@.digits,
            decimal_digits(r@),
    {
        proof {
            use_type_invariant(self);
        }
        &self.digits
    }

    /// How many of the digits stand behind the decimal point.
    pub fn scale(&self) -> (r: u32)
        ensures
            r == self@.scale,
    {
        self.scale
    }

    /// The decimal number as a JSON number.
    pub fn to_text(&self) -> (text: String)
        ensures
            text@ == self@.text(),
    {
        proof {
            use_type_invariant(self);
        }
        let mut text = String::new();
        if self.negative {
            text.append("-");
            proof {
                reveal_strlit("-");
            }
            assert(text@ =~= seq!['-']);
        }
        let ghost sign = text@;
        let n = self.digits.len();
        let mut i: usize = 0;
        while i < n
            invariant
                i <= n,
                n == self.digits.len(),
                decimal_digits(self.digits@),
                text@ == sign + digits_text(self.digits@).take(i as int),
            decreases n - i,
        {
            text.append(digit_str(self.digits[n - 1 - i]));
            assert(digits_text(self.digits@).take(i as int + 1) =~= digits_text(
                self.digits@,
            ).take(i as int).push(digit_char(self.digits@[n - 1 - i] as nat)));
            i += 1;
        }
        assert(digits_text(self.digits@).take(n as int) =~= digits_text(self.digits@));
        text.append("e-");
        proof {
            reveal_strlit("e-");
        }
        assert("e-"@ =~= seq!['e', '-']);
        let scale = nat_string(self.scale);
        text.append(scale.as_str());
        text
    }
}

/// Every power of a positive base is positive.
proof fn lemma_power_positive(base: nat, n: nat)
    requires
        base > 0,
    ensures
        power(base, n) > 0,
    decreases n,
{
    if n > 0 {
        lemma_power_positive(base, (n - 1) as nat);
        assert(base * power(base, (n - 1) as nat) > 0) by (nonlinear_arith)
            requires
                base > 0,
                power(base, (n - 1) as nat) > 0,
        ;
    }
}

/// The number that digits denote is the lowest digit plus ten times the
/// number that the other digits denote.
proof fn lemma_value_low(digits: Seq<u8>)
    requires
        digits.len() >= 1,
    ensures
        digits_value(digits) == digits[0] as nat + 10 * digits_value(digits.drop_first()),
    decreases digits.len(),
{
    if digits.len() == 1 {
        assert(digits.drop_last() =~= Seq::<u8>::empty());
        assert(digits.drop_first() =~= Seq::<u8>::empty());
        assert(power(10, 0) == 1);
        assert(digits_value(digits.drop_last()) == 0);
    } else {
        let front = digits.drop_last();
        let rest = digits.drop_first();
        lemma_value_low(front);
        assert(rest.drop_last() =~= front.drop_first());
        assert(rest.last() == digits.last());
        let p = power(10, (digits.len() - 2) as nat);
        assert(power(10, (digits.len() - 1) as nat) == 10 * p);
        let mid = digits_value(front.drop_first());
        let top = digits.last() as nat;
        assert(digits_value(rest) == mid + top * p);
        assert(digits_value(front) == digits[0] as nat + 10 * mid);
        assert(digits_value(digits) == digits_value(front) + top * (10 * p));
        assert(digits[0] as nat + 10 * mid + top * (10 * p) == digits[0] as nat + 10 * (mid + top
            * p)) by (nonlinear_arith);
    }
}

/// Digits with a digit on top that is not zero denote a number that is not
/// zero.
proof fn lemma_value_positive(digits: Seq<u8>)
    requires
        digits.len() >= 1,
        digits.last() != 0,
    ensures
        digits_value(digits) >= 1,
{
    let p = power(10, (digits.len() - 1) as nat);
    lemma_power_positive(10, (digits.len() - 1) as nat);
    assert(digits.last() as nat * p >= 1) by (nonlinear_arith)
        requires
            digits.last() as nat >= 1,
            p >= 1,
    ;
}

/// A number has one sequence of decimal digits: well-formed digits are the
/// digits of the number that they denote.
pub proof fn lemma_digits_unique(digits: Seq<u8>)
    requires
        decimal_digits(digits),
    ensures
        digits == nat_digits(digits_value(digits)),
    decreases digits.len(),
{
    let v = digits_value(digits);
    let rest = digits.drop_first();
    lemma_value_low(digits);
    if digits.len() == 1 {
        assert(rest =~= Seq::<u8>::empty());
        assert(digits_value(rest) == 0);
        assert(digits =~= seq![digits[0]]);
    } else {
        assert(rest.last() == digits.last());
        lemma_value_positive(rest);
        assert(decimal_digits(rest));
        lemma_digits_unique(rest);
        assert(v >= 10);
        assert(v % 10 == digits[0] as nat);
        assert(v / 10 == digits_value(rest));
        assert(digits =~= seq![digits[0]] + rest);
    }
}

/// The digits of a number are well-formed and denote the number.
pub proof fn lemma_nat_digits(n: nat)
    ensures
        decimal_digits(nat_digits(n)),
        digits_value(nat_digits(n)) == n,
    decreases n,
{
    let digits = nat_digits(n);
    lemma_value_low(digits);
    if n < 10 {
        assert(digits.drop_first() =~= Seq::<u8>::empty());
        assert(digits_value(digits.drop_first()) == 0);
    } else {
        let rest = nat_digits(n / 10);
        lemma_nat_digits(n / 10);
        assert(digits.drop_first() =~= rest);
        assert(digits.last() == rest.last());
        if rest.len() == 1 {
            lemma_value_low(rest);
            assert(rest.drop_first() =~= Seq::<u8>::empty());
            assert(digits_value(rest.drop_first()) == 0);
            assert(rest[0] as nat == n / 10);
        }
        assert forall|i: int| 0 <= i < digits.len() implies digits[i] <= 9 by {
            if i > 0 {
                assert(digits[i] == rest[i - 1]);
            }
        }
    }
}

/// The text of one digit.
fn digit_str(d: u8) -> (s: &'static str)
    requires
        d <= 9,
    ensures
        s@ == seq![digit_char(d as nat)],
{
    proof {
        reveal_strlit("0");
        reveal_strlit("1");
        reveal_strlit("2");
        reveal_strlit("3");
        reveal_strlit("4");
        reveal_strlit("5");
        reveal_strlit("6");
        reveal_strlit("7");
        reveal_strlit("8");
        reveal_strlit("9");
    }
    let s = if d == 0 {
        "0"
    } else if d == 1 {
        "1"
    } else if d == 2 {
        "2"
    } else if d == 3 {
        "3"
    } else if d == 4 {
        "4"
    } else if d == 5 {
        "5"
    } else if d == 6 {
        "6"
    } else if d == 7 {
        "7"
    } else if d == 8 {
        "8"
    } else {
        "9"
    };
    assert(s@ =~= seq![digit_char(d as nat)]);
    s
}

/// A number as decimal text.
fn nat_string(n: u32) -> (s: String)
    ensures
        s@ == nat_text(n as nat),
    decreases n,
{
    if n < 10 {
        String::from_str(digit_str(n as u8))
    } else {
        let mut s = nat_string(n / 10);
        s.append(digit_str((n % 10) as u8));
        assert(s@ =~= nat_text(n as nat / 10).push(digit_char(n as nat % 10)));
        s
    }
}

/// The decimal digits of a number.
fn digits_of(n: u64) -> (digits: Vec<u8>)
    ensures
        decimal_digits(digits@),
        digits_value(digits@) == n,
{
    let mut digits: Vec<u8> = Vec::new();
    if n == 0 {
        digits.push(0);
        assert(digits@.drop_last() =~= Seq::<u8>::empty());
        assert(digits_value(digits@.drop_last()) == 0);
        return digits;
    }
    let mut rest: u64 = n;
    assert(digits_value(digits@) + rest as nat * power(10, 0) == n) by {
        assert(power(10, 0) == 1);
    }
    while rest > 0
        invariant
            forall|i: int| 0 <= i < digits.len() ==> digits[i] <= 9,
            digits_value(digits@) + rest as nat * power(10, digits.len() as nat) == n,
            rest == 0 ==> digits.len() >= 1 && digits@.last() != 0,
            n > 0,
        decreases rest,
    {
        let d: u8 = (rest % 10) as u8;
        let ghost before = digits@;
        let ghost p = power(10, digits.len() as nat);
        digits.push(d);
        assert(digits@.drop_last() =~= before);
        assert(power(10, digits.len() as nat) == 10 * p);
        assert(digits_value(before) + d as nat * p + (rest as nat / 10) * (10 * p) == n)
            by (nonlinear_arith)
            requires
                digits_value(before) + rest as nat * p == n,
                d as nat == rest as nat % 10,
        ;
        rest = rest / 10;
    }
    digits
}

/// The digits of `factor` times the number that `digits` denote.
fn scaled(digits: &Vec<u8>, factor: u8) -> (out: Vec<u8>)
    requires
        decimal_digits(digits@),
        factor == 2 || factor == 5,
    ensures
        decimal_digits(out@),
        digits_value(out@) == factor as nat * digits_value(digits@),
{
    let n = digits.len();
    let mut out: Vec<u8> = Vec::new();
    let mut carry: u8 = 0;
    let mut i: usize = 0;
    assert(digits@.take(0) =~= Seq::<u8>::empty());
    while i < n
        invariant
            i <= n,
            n == digits.len(),
            decimal_digits(digits@),
            factor == 2 || factor == 5,
            out.len() == i,
            carry <= 4,
            forall|k: int| 0 <= k < out.len() ==> out[k] <= 9,
            digits_value(out@) + carry as nat * power(10, i as nat) == factor as nat
                * digits_value(digits@.take(i as int)),
            i > 0 && carry == 0 && digits@[i - 1] != 0 ==> out@[i - 1] != 0,
        decreases n - i,
    {
        let x: u8 = digits[i];
        let v: u8 = x * factor + carry;
        let d: u8 = v % 10;
        let ghost before = out@;
        let ghost p = power(10, i as nat);
        let ghost vin = digits_value(digits@.take(i as int));
        out.push(d);
        assert(out@.drop_last() =~= before);
        assert(digits@.take(i + 1).drop_last() =~= digits@.take(i as int));
        assert(digits@.take(i + 1).last() == x);
        assert(power(10, (i + 1) as nat) == 10 * p);
        assert(digits_value(before) + d as nat * p + (v as nat / 10) * (10 * p) == factor as nat
            * (vin + x as nat * p)) by (nonlinear_arith)
            requires
                digits_value(before) + carry as nat * p == factor as nat * vin,
                v as nat == x as nat * factor as nat + carry as nat,
                d as nat == v as nat % 10,
        ;
        carry = v / 10;
        i += 1;
    }
    assert(digits@.take(n as int) =~= digits@);
    if carry > 0 {
        let ghost before = out@;
        out.push(carry);
        assert(out@.drop_last() =~= before);
    }
    out
}

} // verus!
