//! Sizes and durations as numbers of double precision show them: quotients with
//! 53 significant bits, rounded half to even.

use crate::text::{decimal, decimal_text};
use vstd::prelude::*;

verus! {

/// The whole number nearest to `n / d`, the even one of two that are as near.
pub open spec fn half_even(n: nat, d: nat) -> nat {
    let q = n / d;
    let r = n % d;
    if 2 * r < d || (2 * r == d && q % 2 == 0) {
        q
    } else {
        q + 1
    }
}

/// `n / d` rounded to a whole number with 53 significant bits.
pub open spec fn quotient(n: nat, d: nat) -> nat
    decreases n - d,
{
    if d == 0 {
        0
    } else if n < 0x20_0000_0000_0000 * d {
        half_even(n, d)
    } else {
        2 * quotient(n, 2 * d)
    }
}

/// `n` and `unit`, both doubled until `n` reaches `limit`.
pub open spec fn doubled(n: nat, unit: nat, limit: nat) -> (nat, nat)
    decreases
            if n < limit {
                limit - n
            } else {
                0
            },
{
    if n == 0 || n >= limit {
        (n, unit)
    } else {
        doubled(2 * n, 2 * unit, limit)
    }
}

/// A number of double precision, as the quotient of two whole numbers.
pub struct Ratio {
    pub above: nat,
    pub below: nat,
}

/// The number of double precision nearest to a whole number.
pub open spec fn nearest(n: nat) -> Ratio {
    Ratio { above: quotient(n, 1), below: 1 }
}

impl Ratio {
    /// The number of double precision nearest to a thousandth of this one.
    pub open spec fn thousandth(self) -> Ratio {
        let up = doubled(self.above, 1, 0x10_0000_0000_0000 * (1000 * self.below));
        Ratio { above: quotient(up.0, 1000 * self.below), below: up.1 }
    }

    /// The nearest whole number to the number times `factor`.
    pub open spec fn rounded(self, factor: nat) -> nat {
        half_even(factor * self.above, self.below)
    }

    pub open spec fn at_least(self, n: nat) -> bool {
        self.above >= n * self.below
    }
}

fn half_even_of(n: u128, d: u128) -> (r: u128)
    requires
        0 < d <= 0x1_0000_0000_0000_0000_0000_0000,
        n <= 0x100_0000_0000_0000_0000_0000_0000_0000,
    ensures
        r == half_even(n as nat, d as nat),
        r <= n + 1,
        r * d <= 2 * n,
{
    let q: u128 = n / d;
    let rest: u128 = n % d;
    proof {
        assert(q <= n) by (nonlinear_arith)
            requires
                q == n / d,
                d > 0,
                n >= 0,
        ;
        assert(q * d + rest == n) by (nonlinear_arith)
            requires
                q == n / d,
                rest == n % d,
                d > 0,
        ;
        assert((q + 1) * d == q * d + d) by (nonlinear_arith);
        assert(q * d <= n);
        assert(q > 0 ==> q * d >= d) by (nonlinear_arith)
            requires
                d > 0,
        ;
        assert(q == 0 ==> q * d == 0) by (nonlinear_arith);
    }
    if 2 * rest < d || (2 * rest == d && q % 2 == 0) {
        q
    } else {
        q + 1
    }
}

fn quotient_of(n: u128, d: u128) -> (r: u128)
    requires
        0 < d <= 0x40_0000_0000_0000_0000,
        n <= 0x100_0000_0000_0000_0000_0000_0000_0000,
    ensures
        r == quotient(n as nat, d as nat),
        r * d <= 2 * n,
        r <= 2 * n,
    decreases n - d,
{
    if n < 0x20_0000_0000_0000 * d {
        let r = half_even_of(n, d);
        proof {
            assert(r <= r * d) by (nonlinear_arith)
                requires
                    d > 0,
                    r >= 0,
            ;
        }
        r
    } else {
        let h = quotient_of(n, 2 * d);
        proof {
            assert(h * (2 * d) == (2 * h) * d) by (nonlinear_arith);
            assert(2 * h <= (2 * h) * d) by (nonlinear_arith)
                requires
                    d > 0,
                    h >= 0,
            ;
        }
        2 * h
    }
}

/// A ratio in machine numbers.
struct Fraction {
    above: u128,
    below: u128,
}

impl Fraction {
    spec fn ratio(&self) -> Ratio {
        Ratio { above: self.above as nat, below: self.below as nat }
    }

    /// Whether the parts are small enough to go on with.
    spec fn is_small(&self) -> bool {
        &&& 0 < self.below <= 0x40_0000_0000_0000
        &&& self.above <= 0x4_0000_0000_0000_0000
    }

    fn of_whole(n: u64) -> (r: Fraction)
        ensures
            r.ratio() == nearest(n as nat),
            r.is_small(),
    {
        Fraction { above: quotient_of(n as u128, 1), below: 1 }
    }

    fn is_at_least(&self, n: u32) -> (r: bool)
        requires
            self.is_small(),
        ensures
            r == self.ratio().at_least(n as nat),
    {
        proof {
            assert(n * self.below <= 0xffff_ffff * 0x40_0000_0000_0000) by (nonlinear_arith)
                requires
                    0 <= n <= 0xffff_ffff,
                    0 <= self.below <= 0x40_0000_0000_0000,
            ;
        }
        self.above >= n as u128 * self.below
    }

    fn thousandth(&self) -> (r: Fraction)
        requires
            self.is_small(),
            self.ratio().at_least(1000),
        ensures
            r.ratio() == self.ratio().thousandth(),
            r.is_small(),
    {
        let thousand: u128 = 1000 * self.below;
        let limit: u128 = 0x10_0000_0000_0000 * thousand;
        let mut up = self.above;
        let mut unit: u128 = 1;
        proof {
            assert(limit == 0x10_0000_0000_0000 * (1000 * self.below));
        }
        while up < limit
            invariant
                0 < self.above <= up,
                0 < unit,
                self.is_small(),
                self.above >= 1000 * self.below,
                unit <= 0x20_0000_0000_0000,
                thousand == 1000 * self.below,
                limit == 0x10_0000_0000_0000 * thousand,
                up < 2 * limit || up == self.above,
                up == self.above * unit,
                doubled(up as nat, unit as nat, limit as nat) == doubled(
                    self.above as nat,
                    1,
                    limit as nat,
                ),
            decreases
                    if up < limit {
                        limit - up
                    } else {
                        0
                    },
        {
            proof {
                assert(unit < 0x10_0000_0000_0000) by (nonlinear_arith)
                    requires
                        self.above * unit < 0x10_0000_0000_0000 * (1000 * self.below),
                        self.above >= 1000 * self.below,
                        self.below > 0,
                        unit > 0,
                ;
                assert(self.above * (2 * unit) == 2 * (self.above * unit)) by (nonlinear_arith);
            }
            up = 2 * up;
            unit = 2 * unit;
        }
        let above = quotient_of(up, thousand);
        proof {
            assert(above <= 0x4_0000_0000_0000_0000) by (nonlinear_arith)
                requires
                    above * thousand <= 2 * up,
                    up < 2 * (0x10_0000_0000_0000 * thousand) || up <= 0x4_0000_0000_0000_0000,
                    thousand >= 1000,
            ;
        }
        Fraction { above, below: unit }
    }

    fn rounded(&self, factor: u32) -> (r: u128)
        requires
            self.is_small(),
            factor <= 10,
        ensures
            r == self.ratio().rounded(factor as nat),
    {
        proof {
            assert(factor * self.above <= 10 * 0x4_0000_0000_0000_0000) by (nonlinear_arith)
                requires
                    0 <= factor <= 10,
                    0 <= self.above <= 0x4_0000_0000_0000_0000,
            ;
        }
        half_even_of(factor as u128 * self.above, self.below)
    }
}

/// Tenths with one decimal.
pub open spec fn tenths_text(tenths: nat) -> Seq<char> {
    decimal(tenths / 10) + "."@ + decimal(tenths % 10)
}

/// How long something took: in seconds with one decimal beyond a second and a
/// half, else in milliseconds.
pub open spec fn duration_text(elapsed_ms: nat) -> Seq<char> {
    if elapsed_ms > 1500 {
        tenths_text(nearest(elapsed_ms).thousandth().rounded(10)) + "s"@
    } else {
        decimal(elapsed_ms) + "ms"@
    }
}

/// A duration as it is shown.
pub fn format_write_duration(elapsed_ms: u64) -> (r: String)
    ensures
        r@ == duration_text(elapsed_ms as nat),
{
    if elapsed_ms > 1500 {
        let whole = Fraction::of_whole(elapsed_ms);
        proof {
            lemma_quotient_lower(elapsed_ms as nat, 1, 1000);
        }
        let tenths: u128 = whole.thousandth().rounded(10);
        let mut out = decimal_text(tenths / 10);
        out.push_str(".");
        out.push_str(decimal_text(tenths % 10).as_str());
        out.push_str("s");
        out
    } else {
        let mut out = decimal_text(elapsed_ms as u128);
        out.push_str("ms");
        out
    }
}

/// Rounding keeps a whole bound that the quotient reaches.
proof fn lemma_quotient_lower(n: nat, d: nat, bound: nat)
    requires
        d > 0,
        n >= bound * d,
        bound <= 1000,
    ensures
        quotient(n, d) >= bound,
    decreases n - d,
{
    if n < 0x20_0000_0000_0000 * d {
        assert(n / d >= bound) by (nonlinear_arith)
            requires
                d > 0,
                n >= bound * d,
        ;
    } else {
        assert(n >= bound * (2 * d)) by (nonlinear_arith)
            requires
                n >= 0x20_0000_0000_0000 * d,
                bound <= 1000,
                d > 0,
        ;
        lemma_quotient_lower(n, 2 * d, bound);
    }
}

/// The size divided by a thousand as long as it is a thousand or more, at most
/// four times in all, and how often.
pub open spec fn scaled_size(size: Ratio, unit: nat) -> (Ratio, nat)
    decreases 4 - unit,
{
    if size.at_least(1000) && unit < 4 {
        scaled_size(size.thousandth(), unit + 1)
    } else {
        (size, unit)
    }
}

pub open spec fn unit_label(unit: nat) -> Seq<char> {
    if unit == 0 {
        "bytes"@
    } else if unit == 1 {
        "KB"@
    } else if unit == 2 {
        "MB"@
    } else if unit == 3 {
        "GB"@
    } else {
        "TB"@
    }
}

/// The size of a file: in bytes below a thousand, else in the largest unit of
/// which there is one, with a decimal below ten where it is not zero.
pub open spec fn file_size_text(bytes: nat) -> Seq<char> {
    if bytes < 1000 {
        decimal(bytes) + " bytes"@
    } else {
        let (size, unit) = scaled_size(nearest(bytes), 0);
        let tenths = size.rounded(10);
        (if size.at_least(10) {
            decimal(size.rounded(1))
        } else if tenths % 10 == 0 {
            decimal(tenths / 10)
        } else {
            tenths_text(tenths)
        }) + " "@ + unit_label(unit)
    }
}

/// A file size as it is shown.
pub fn format_file_size(bytes: u64) -> (r: String)
    ensures
        r@ == file_size_text(bytes as nat),
{
    if bytes < 1000 {
        let mut out = decimal_text(bytes as u128);
        out.push_str(" bytes");
        return out;
    }
    let mut size = Fraction::of_whole(bytes);
    let mut unit: u32 = 0;
    while unit < 4 && size.is_at_least(1000)
        invariant
            unit <= 4,
            size.is_small(),
            scaled_size(size.ratio(), unit as nat) == scaled_size(nearest(bytes as nat), 0),
        decreases 4 - unit,
    {
        size = size.thousandth();
        unit += 1;
    }
    let mut out = if size.is_at_least(10) {
        decimal_text(size.rounded(1))
    } else {
        let tenths: u128 = size.rounded(10);
        let mut out = decimal_text(tenths / 10);
        if tenths % 10 != 0 {
            out.push_str(".");
            out.push_str(decimal_text(tenths % 10).as_str());
        }
        out
    };
    out.push_str(" ");
    out.push_str(
        if unit == 0 {
            "bytes"
        } else if unit == 1 {
            "KB"
        } else if unit == 2 {
            "MB"
        } else if unit == 3 {
            "GB"
        } else {
            "TB"
        },
    );
    out
}

} // verus!
