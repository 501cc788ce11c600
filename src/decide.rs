use vstd::prelude::*;
use crate::order::{at_most, less_than, value_eq, value_le, value_lt};

verus! {

/// Whether a test looks at one side of the difference or at both.
#[derive(Clone, Copy, Debug, PartialEq, Eq, Structural)]
pub enum TailMode {
    OneTailed,
    TwoTailed,
}

/// What a difference test concludes about samples A and B.
#[derive(Clone, Copy, Debug, PartialEq, Eq, Structural)]
pub enum Verdict {
    /// The interval does not exclude zero: no difference shown.
    NullAccepted,
    /// A lies above B.
    AGreater,
    /// A lies below B.
    ALess,
}

/// Which bounds of the difference's interval a test reports.
#[derive(Clone, Copy, Debug, PartialEq, Eq, Structural)]
pub enum BoundsShown {
    Both,
    LowerOnly,
    UpperOnly,
}

/// A test's conclusion with the bounds that support it.
#[derive(Clone, Copy, Debug, PartialEq, Eq, Structural)]
pub struct TestOutcome {
    pub verdict: Verdict,
    pub shown: BoundsShown,
}

/// The conclusion of a difference test (`B - A`), from the bounds of the
/// difference's interval and the statistic of each sample. Two-tailed: no
/// difference when zero lies in `[lower, upper]`. One-tailed: only the side
/// that the samples point to is tested, and only the bound tested is shown
/// (the upper one when A lies above B, the lower one otherwise).
pub open spec fn test_outcome_spec(
    tail: TailMode,
    lower: u64,
    upper: u64,
    stat_a: u64,
    stat_b: u64,
) -> TestOutcome {
    let a_greater = value_lt(stat_b, stat_a);
    match tail {
        TailMode::TwoTailed => TestOutcome {
            verdict: if value_le(lower, 0) && value_le(0, upper) {
                Verdict::NullAccepted
            } else if a_greater {
                Verdict::AGreater
            } else {
                Verdict::ALess
            },
            shown: BoundsShown::Both,
        },
        TailMode::OneTailed => if a_greater {
            TestOutcome {
                verdict: if value_le(0, upper) {
                    Verdict::NullAccepted
                } else {
                    Verdict::AGreater
                },
                shown: BoundsShown::UpperOnly,
            }
        } else {
            TestOutcome {
                verdict: if value_le(lower, 0) {
                    Verdict::NullAccepted
                } else {
                    Verdict::ALess
                },
                shown: BoundsShown::LowerOnly,
            }
        },
    }
}

/// Decides a difference test. All four values are the bits of binary64
/// numbers: the lower and upper bounds of the interval of `B - A`, and the
/// statistic (mean or standard deviation) of A and of B.
pub fn test_outcome(tail: TailMode, lower: u64, upper: u64, stat_a: u64, stat_b: u64) -> (r:
    TestOutcome)
    ensures
        r == test_outcome_spec(tail, lower, upper, stat_a, stat_b),
{
    let a_greater = less_than(stat_b, stat_a);
    match tail {
        TailMode::TwoTailed => {
            let verdict = if at_most(lower, 0) && at_most(0, upper) {
                Verdict::NullAccepted
            } else if a_greater {
                Verdict::AGreater
            } else {
                Verdict::ALess
            };
            TestOutcome { verdict, shown: BoundsShown::Both }
        },
        TailMode::OneTailed => {
            if a_greater {
                let verdict = if at_most(0, upper) {
                    Verdict::NullAccepted
                } else {
                    Verdict::AGreater
                };
                TestOutcome { verdict, shown: BoundsShown::UpperOnly }
            } else {
                let verdict = if at_most(lower, 0) {
                    Verdict::NullAccepted
                } else {
                    Verdict::ALess
                };
                TestOutcome { verdict, shown: BoundsShown::LowerOnly }
            }
        },
    }
}

/// A p-value is significant when it is at most the significance level;
/// both are the bits of binary64 numbers, and a NaN is never significant.
pub fn is_significant(p: u64, alpha: u64) -> (r: bool)
    ensures
        r == value_le(p, alpha),
{
    at_most(p, alpha)
}

/// The sample whose variance goes over the other in the F ratio.
#[derive(Clone, Copy, Debug, PartialEq, Eq, Structural)]
pub enum LargerSpread {
    A,
    B,
    /// Neither is larger: the ratio is one.
    Neither,
}

/// How the F-test is laid out: which variance is the numerator, and the
/// degrees of freedom of numerator and denominator.
#[derive(Clone, Copy, Debug, PartialEq, Eq, Structural)]
pub struct FTestLayout {
    pub larger: LargerSpread,
    pub df_numerator: usize,
    pub df_denominator: usize,
}

/// Lays out the variance-ratio test from the standard deviations of A and B
/// (bits of binary64 numbers) and the sample sizes: the larger variance goes
/// over the smaller and the degrees of freedom follow it; with neither
/// larger, A's stay first.
pub fn f_test_layout(sd_a: u64, sd_b: u64, len_a: usize, len_b: usize) -> (r: FTestLayout)
    requires
        len_a >= 1,
        len_b >= 1,
    ensures
        value_lt(sd_b, sd_a) ==> r == (FTestLayout {
            larger: LargerSpread::A,
            df_numerator: (len_a - 1) as usize,
            df_denominator: (len_b - 1) as usize,
        }),
        value_lt(sd_a, sd_b) ==> r == (FTestLayout {
            larger: LargerSpread::B,
            df_numerator: (len_b - 1) as usize,
            df_denominator: (len_a - 1) as usize,
        }),
        !value_lt(sd_b, sd_a) && !value_lt(sd_a, sd_b) ==> r == (FTestLayout {
            larger: LargerSpread::Neither,
            df_numerator: (len_a - 1) as usize,
            df_denominator: (len_b - 1) as usize,
        }),
{
    if less_than(sd_b, sd_a) {
        FTestLayout { larger: LargerSpread::A, df_numerator: len_a - 1, df_denominator: len_b - 1 }
    } else if less_than(sd_a, sd_b) {
        FTestLayout { larger: LargerSpread::B, df_numerator: len_b - 1, df_denominator: len_a - 1 }
    } else {
        FTestLayout {
            larger: LargerSpread::Neither,
            df_numerator: len_a - 1,
            df_denominator: len_b - 1,
        }
    }
}

/// The bits of `1.0`.
pub const ONE_BITS: u64 = 0x3ff0_0000_0000_0000;

/// The bits of `-1.0`.
pub const MINUS_ONE_BITS: u64 = 0xbff0_0000_0000_0000;

/// The bits of `0.3`.
pub const WEAK_LIMIT_BITS: u64 = 0x3fd3_3333_3333_3333;

/// The bits of `0.7`.
pub const MODERATE_LIMIT_BITS: u64 = 0x3fe6_6666_6666_6666;

/// The bits of `-0.3`.
pub const MINUS_WEAK_LIMIT_BITS: u64 = 0xbfd3_3333_3333_3333;

/// The bits of `-0.7`.
pub const MINUS_MODERATE_LIMIT_BITS: u64 = 0xbfe6_6666_6666_6666;

/// The strength and direction of a correlation coefficient.
#[derive(Clone, Copy, Debug, PartialEq, Eq, Structural)]
pub enum Correlation {
    Zero,
    PerfectPositive,
    PerfectNegative,
    WeakPositive,
    ModeratePositive,
    StrongPositive,
    WeakNegative,
    ModerateNegative,
    StrongNegative,
    /// Not a number, or beyond -1 and 1.
    Undefined,
}

/// The scale: exactly zero; exactly 1 or -1 (perfect); below 0.3 in size
/// (weak); below 0.7 (moderate); below 1 (strong). The bounds 0.3 and 0.7
/// belong to the stronger class.
pub open spec fn correlation_of(r: u64) -> Correlation {
    if value_eq(r, 0) {
        Correlation::Zero
    } else if value_eq(r, ONE_BITS) {
        Correlation::PerfectPositive
    } else if value_eq(r, MINUS_ONE_BITS) {
        Correlation::PerfectNegative
    } else if value_lt(0, r) && value_lt(r, WEAK_LIMIT_BITS) {
        Correlation::WeakPositive
    } else if value_le(WEAK_LIMIT_BITS, r) && value_lt(r, MODERATE_LIMIT_BITS) {
        Correlation::ModeratePositive
    } else if value_le(MODERATE_LIMIT_BITS, r) && value_lt(r, ONE_BITS) {
        Correlation::StrongPositive
    } else if value_lt(r, 0) && value_lt(MINUS_WEAK_LIMIT_BITS, r) {
        Correlation::WeakNegative
    } else if value_le(r, MINUS_WEAK_LIMIT_BITS) && value_lt(MINUS_MODERATE_LIMIT_BITS, r) {
        Correlation::ModerateNegative
    } else if value_le(r, MINUS_MODERATE_LIMIT_BITS) && value_lt(MINUS_ONE_BITS, r) {
        Correlation::StrongNegative
    } else {
        Correlation::Undefined
    }
}

/// Classifies a correlation coefficient, given as the bits of a binary64
/// number, on the fixed scale of `correlation_of`.
pub fn classify_correlation(r: u64) -> (c: Correlation)
    ensures
        c == correlation_of(r),
{
    if at_most(r, 0) && at_most(0, r) {
        Correlation::Zero
    } else if at_most(r, ONE_BITS) && at_most(ONE_BITS, r) {
        Correlation::PerfectPositive
    } else if at_most(r, MINUS_ONE_BITS) && at_most(MINUS_ONE_BITS, r) {
        Correlation::PerfectNegative
    } else if less_than(0, r) && less_than(r, WEAK_LIMIT_BITS) {
        Correlation::WeakPositive
    } else if at_most(WEAK_LIMIT_BITS, r) && less_than(r, MODERATE_LIMIT_BITS) {
        Correlation::ModeratePositive
    } else if at_most(MODERATE_LIMIT_BITS, r) && less_than(r, ONE_BITS) {
        Correlation::StrongPositive
    } else if less_than(r, 0) && less_than(MINUS_WEAK_LIMIT_BITS, r) {
        Correlation::WeakNegative
    } else if at_most(r, MINUS_WEAK_LIMIT_BITS) && less_than(MINUS_MODERATE_LIMIT_BITS, r) {
        Correlation::ModerateNegative
    } else if at_most(r, MINUS_MODERATE_LIMIT_BITS) && less_than(MINUS_ONE_BITS, r) {
        Correlation::StrongNegative
    } else {
        Correlation::Undefined
    }
}

} // verus!
