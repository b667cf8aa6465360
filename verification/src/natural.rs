//! Natural numbers of any size, for sums and products that no machine
//! integer holds.

use vstd::prelude::*;

verus! {

/// 2^64: a natural number is held in digits to this base.
pub open spec fn base() -> nat {
    0x1_0000_0000_0000_0000
}

/// The number that the digits from `i` on stand for, the least significant
/// digit first.
pub open spec fn value_from(digits: Seq<u64>, i: int) -> nat
    decreases digits.len() - i,
{
    if i < 0 || i >= digits.len() {
        0
    } else {
        digits[i] as nat + base() * value_from(digits, i + 1)
    }
}

/// The number that `digits` stand for, the least significant digit first.
pub open spec fn value_of(digits: Seq<u64>) -> nat {
    value_from(digits, 0)
}

/// A natural number.
pub struct Natural {
    pub digits: Vec<u64>,
}

/// How two numbers stand to each other.
#[derive(Clone, Copy, Debug, PartialEq, Eq, Structural)]
pub enum Standing {
    Below,
    Level,
    Above,
}

/// How `a` stands to `b`.
pub open spec fn standing_of(a: nat, b: nat) -> Standing {
    if a < b {
        Standing::Below
    } else if a == b {
        Standing::Level
    } else {
        Standing::Above
    }
}

/// The digit at `i`, and 0 beyond the last digit.
fn digit(digits: &Vec<u64>, i: usize) -> (d: u64)
    ensures
        d == (if i < digits@.len() {
            digits@[i as int]
        } else {
            0
        }),
{
    if i < digits.len() {
        digits[i]
    } else {
        0
    }
}

/// Digits behind a new first digit stand for what they stood for.
proof fn lemma_value_behind(first: u64, rest: Seq<u64>, i: int)
    requires
        0 <= i,
    ensures
        value_from(rest.insert(0, first), i + 1) == value_from(rest, i),
    decreases rest.len() - i,
{
    if i < rest.len() {
        lemma_value_behind(first, rest, i + 1);
        assert(rest.insert(0, first)[i + 1] == rest[i]);
    }
}

/// The value of digits with one more digit in front.
proof fn lemma_value_in_front(first: u64, rest: Seq<u64>)
    ensures
        value_of(rest.insert(0, first)) == first as nat + base() * value_of(rest),
{
    lemma_value_behind(first, rest, 0);
    assert(rest.insert(0, first)[0] == first);
}

/// The value of a single digit.
proof fn lemma_value_of_one(digits: Seq<u64>)
    requires
        digits.len() == 1,
    ensures
        value_of(digits) == digits[0],
{
    assert(value_from(digits, 1) == 0);
}

/// The digits of `a + b + carry`, of `a` and `b` the digits from `i` on.
fn sum_from(a: &Vec<u64>, b: &Vec<u64>, i: usize, carry: u64) -> (digits: Vec<u64>)
    requires
        carry <= 1,
    ensures
        value_of(digits@) == value_from(a@, i as int) + value_from(b@, i as int) + carry,
    decreases (if a@.len() > b@.len() { a@.len() } else { b@.len() }) - i,
{
    if i >= a.len() && i >= b.len() {
        let mut digits: Vec<u64> = Vec::new();
        if carry > 0 {
            digits.push(carry);
            proof {
                lemma_value_of_one(digits@);
            }
        }
        return digits;
    }
    let total: u128 = digit(a, i) as u128 + digit(b, i) as u128 + carry as u128;
    let low: u64 = (total % 0x1_0000_0000_0000_0000u128) as u64;
    let high: u64 = (total / 0x1_0000_0000_0000_0000u128) as u64;
    let mut digits = sum_from(a, b, i + 1, high);
    proof {
        lemma_value_in_front(low, digits@);
    }
    digits.insert(0, low);
    digits
}

/// The digits of `a * m + carry`, of `a` the digits from `i` on.
fn product_from(a: &Vec<u64>, m: u64, i: usize, carry: u64) -> (digits: Vec<u64>)
    ensures
        value_of(digits@) == value_from(a@, i as int) * m + carry,
    decreases a@.len() - i,
{
    if i >= a.len() {
        let mut digits: Vec<u64> = Vec::new();
        if carry > 0 {
            digits.push(carry);
            proof {
                lemma_value_of_one(digits@);
            }
        }
        assert(0 * m == 0) by (nonlinear_arith);
        return digits;
    }
    let d: u64 = a[i];
    assert(d * m <= 0xffff_ffff_ffff_ffff * 0xffff_ffff_ffff_ffff) by (nonlinear_arith)
        requires
            d <= 0xffff_ffff_ffff_ffff,
            m <= 0xffff_ffff_ffff_ffff,
    ;
    let total: u128 = (d as u128) * (m as u128) + carry as u128;
    let low: u64 = (total % 0x1_0000_0000_0000_0000u128) as u64;
    let high: u64 = (total / 0x1_0000_0000_0000_0000u128) as u64;
    let mut digits = product_from(a, m, i + 1, high);
    proof {
        lemma_value_in_front(low, digits@);
        let rest = value_from(a@, i + 1);
        assert((d as nat + base() * rest) * m == d * m + base() * (rest * m)) by (nonlinear_arith);
    }
    digits.insert(0, low);
    digits
}

/// The digits of `a * b`, of `b` the digits from `i` on.
fn products_from(a: &Vec<u64>, b: &Vec<u64>, i: usize) -> (digits: Vec<u64>)
    ensures
        value_of(digits@) == value_of(a@) * value_from(b@, i as int),
    decreases b@.len() - i,
{
    if i >= b.len() {
        assert(value_of(a@) * 0 == 0) by (nonlinear_arith);
        return Vec::new();
    }
    let low = product_from(a, b[i], 0, 0);
    let mut high = products_from(a, b, i + 1);
    proof {
        lemma_value_in_front(0, high@);
        let x = value_of(a@);
        let rest = value_from(b@, i + 1);
        let d = b@[i as int];
        assert(x * (d as nat + base() * rest) == x * d + base() * (x * rest)) by (nonlinear_arith);
    }
    high.insert(0, 0);
    sum_from(&low, &high, 0, 0)
}

/// How `a` stands to `b`, of both the digits from `i` on.
fn standing_from(a: &Vec<u64>, b: &Vec<u64>, i: usize) -> (standing: Standing)
    ensures
        standing == standing_of(value_from(a@, i as int), value_from(b@, i as int)),
    decreases (if a@.len() > b@.len() { a@.len() } else { b@.len() }) - i,
{
    if i >= a.len() && i >= b.len() {
        return Standing::Level;
    }
    let above = standing_from(a, b, i + 1);
    match above {
        Standing::Level => {
            let x = digit(a, i);
            let y = digit(b, i);
            if x < y {
                Standing::Below
            } else if x == y {
                Standing::Level
            } else {
                Standing::Above
            }
        },
        other => other,
    }
}

impl View for Natural {
    type V = nat;

    open spec fn view(&self) -> nat {
        value_of(self.digits@)
    }
}

impl Natural {
    /// The number `x`.
    pub fn from_u128(x: u128) -> (n: Natural)
        ensures
            n@ == x,
    {
        let mut digits: Vec<u64> = Vec::new();
        digits.push((x % 0x1_0000_0000_0000_0000u128) as u64);
        digits.push((x / 0x1_0000_0000_0000_0000u128) as u64);
        proof {
            assert(value_from(digits@, 2) == 0);
            assert(value_from(digits@, 1) == digits@[1]);
        }
        Natural { digits }
    }

    /// `self + other`.
    pub fn plus(&self, other: &Natural) -> (n: Natural)
        ensures
            n@ == self@ + other@,
    {
        Natural { digits: sum_from(&self.digits, &other.digits, 0, 0) }
    }

    /// `self * m`.
    pub fn times_small(&self, m: u64) -> (n: Natural)
        ensures
            n@ == self@ * m,
    {
        Natural { digits: product_from(&self.digits, m, 0, 0) }
    }

    /// `self * other`.
    pub fn times(&self, other: &Natural) -> (n: Natural)
        ensures
            n@ == self@ * other@,
    {
        Natural { digits: products_from(&self.digits, &other.digits, 0) }
    }

    /// How `self` stands to `other`.
    pub fn standing(&self, other: &Natural) -> (standing: Standing)
        ensures
            standing == standing_of(self@, other@),
    {
        standing_from(&self.digits, &other.digits, 0)
    }

    /// Whether `self <= other`.
    pub fn is_at_most(&self, other: &Natural) -> (le: bool)
        ensures
            le == (self@ <= other@),
    {
        match self.standing(other) {
            Standing::Above => false,
            _ => true,
        }
    }
}

} // verus!
