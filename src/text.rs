use vstd::prelude::*;

verus! {

/// The characters with Unicode's White_Space property.
pub open spec fn is_white_space(c: char) -> bool {
    ||| ('\u{9}' <= c && c <= '\u{d}')
    ||| c == ' '
    ||| c == '\u{85}'
    ||| c == '\u{a0}'
    ||| c == '\u{1680}'
    ||| ('\u{2000}' <= c && c <= '\u{200a}')
    ||| c == '\u{2028}'
    ||| c == '\u{2029}'
    ||| c == '\u{202f}'
    ||| c == '\u{205f}'
    ||| c == '\u{3000}'
}

fn white_space(c: char) -> (r: bool)
    ensures
        r == is_white_space(c),
{
    ('\u{9}' <= c && c <= '\u{d}') || c == ' ' || c == '\u{85}' || c == '\u{a0}' || c
        == '\u{1680}' || ('\u{2000}' <= c && c <= '\u{200a}') || c == '\u{2028}' || c
        == '\u{2029}' || c == '\u{202f}' || c == '\u{205f}' || c == '\u{3000}'
}

/// The text with every line break turned into a comma and every other
/// white-space character removed.
pub open spec fn cleaned(s: Seq<char>) -> Seq<char>
    decreases s.len(),
{
    if s.len() == 0 {
        s
    } else if s.last() == '\n' {
        cleaned(s.drop_last()).push(',')
    } else if is_white_space(s.last()) {
        cleaned(s.drop_last())
    } else {
        cleaned(s.drop_last()).push(s.last())
    }
}

/// The pieces of `s` between commas, in order; there is always one more
/// piece than there are commas, and pieces may be empty.
pub open spec fn split_commas(s: Seq<char>) -> Seq<Seq<char>>
    decreases s.len(),
{
    if s.len() == 0 {
        seq![Seq::<char>::empty()]
    } else {
        let p = split_commas(s.drop_last());
        if s.last() == ',' {
            p.push(Seq::<char>::empty())
        } else {
            p.update(p.len() - 1, p.last().push(s.last()))
        }
    }
}

proof fn lemma_split_commas_nonempty(s: Seq<char>)
    ensures
        split_commas(s).len() >= 1,
    decreases s.len(),
{
    if s.len() > 0 {
        lemma_split_commas_nonempty(s.drop_last());
    }
}

/// Splits a column of numbers as typed into its fields: line breaks and
/// commas both separate fields, and white space is dropped. Every field is
/// returned, empty ones included; reading each as a number is left to the
/// caller.
pub fn split_fields(text: &[char]) -> (fields: Vec<Vec<char>>)
    ensures
        fields@.len() == split_commas(cleaned(text@)).len(),
        forall|k: int|
            0 <= k < fields@.len() ==> (#[trigger] fields@[k])@ == split_commas(cleaned(text@))[k],
{
    let mut done: Vec<Vec<char>> = Vec::new();
    let mut cur: Vec<char> = Vec::new();
    let mut i: usize = 0;
    while i < text.len()
        invariant
            i <= text@.len(),
            ({
                let f = split_commas(cleaned(text@.subrange(0, i as int)));
                &&& f.len() == done@.len() + 1
                &&& forall|k: int| 0 <= k < done@.len() ==> (#[trigger] done@[k])@ == f[k]
                &&& cur@ == f.last()
            }),
        decreases text@.len() - i,
    {
        let ghost pre = text@.subrange(0, i as int);
        let ghost next = text@.subrange(0, i + 1);
        proof {
            assert(next.drop_last() =~= pre);
            lemma_split_commas_nonempty(cleaned(pre));
        }
        let c = text[i];
        if c == '\n' || c == ',' {
            proof {
                assert(c == '\n' ==> cleaned(next) == cleaned(pre).push(','));
                assert(c == ',' ==> cleaned(next) == cleaned(pre).push(','));
                assert(cleaned(pre).push(',').drop_last() =~= cleaned(pre));
            }
            done.push(cur);
            cur = Vec::new();
        } else if white_space(c) {
        } else {
            proof {
                assert(cleaned(next) == cleaned(pre).push(c));
                assert(cleaned(pre).push(c).drop_last() =~= cleaned(pre));
            }
            cur.push(c);
        }
        i = i + 1;
    }
    proof {
        assert(text@.subrange(0, i as int) =~= text@);
    }
    done.push(cur);
    done
}

/// How a number is written out.
#[derive(Clone, Copy, Debug, PartialEq, Eq, Structural)]
pub enum NumberStyle {
    /// Plain `0`.
    Zero,
    /// Fixed-point notation.
    Fixed,
    /// Scientific notation.
    Scientific,
}

/// The bits of `10000.0`.
pub const SCIENTIFIC_ABOVE_BITS: u64 = 0x40c3_8800_0000_0000;

/// The bits of `0.001`.
pub const SCIENTIFIC_BELOW_BITS: u64 = 0x3f50_624d_d2f1_a9fc;

/// Zero is written `0`; a magnitude of at least 10000 or below 0.001 in
/// scientific notation; everything else (NaN too) in fixed-point notation.
pub open spec fn number_style_of(bits: u64) -> NumberStyle {
    let m = crate::order::magnitude_bits(bits);
    if crate::order::value_eq(m, 0) {
        NumberStyle::Zero
    } else if crate::order::value_le(SCIENTIFIC_ABOVE_BITS, m) || crate::order::value_lt(
        m,
        SCIENTIFIC_BELOW_BITS,
    ) {
        NumberStyle::Scientific
    } else {
        NumberStyle::Fixed
    }
}

/// Chooses the notation of a number given by the bits of a binary64 value.
pub fn number_style(bits: u64) -> (r: NumberStyle)
    ensures
        r == number_style_of(bits),
{
    let m = bits & crate::order::MAGNITUDE_MASK;
    if crate::order::at_most(m, 0) && crate::order::at_most(0, m) {
        NumberStyle::Zero
    } else if crate::order::at_most(SCIENTIFIC_ABOVE_BITS, m) || crate::order::less_than(
        m,
        SCIENTIFIC_BELOW_BITS,
    ) {
        NumberStyle::Scientific
    } else {
        NumberStyle::Fixed
    }
}

/// Where the mantissa of a written number ends: at its first `e`, or at its
/// end when there is none.
pub open spec fn exponent_start(s: Seq<char>) -> nat
    decreases s.len(),
{
    if s.len() == 0 || s[0] == 'e' {
        0
    } else {
        1 + exponent_start(s.drop_first())
    }
}

/// `t` without its trailing zeros.
pub open spec fn strip_zeros(t: Seq<char>) -> Seq<char>
    decreases t.len(),
{
    if t.len() > 0 && t.last() == '0' {
        strip_zeros(t.drop_last())
    } else {
        t
    }
}

/// A mantissa with a decimal point loses its trailing zeros, then the point
/// itself if nothing follows it; a mantissa without one stays as it is.
pub open spec fn tidy_mantissa(t: Seq<char>) -> Seq<char> {
    if t.contains('.') {
        let z = strip_zeros(t);
        if z.len() > 0 && z.last() == '.' {
            z.drop_last()
        } else {
            z
        }
    } else {
        t
    }
}

/// A written number with its mantissa tidied and its exponent, if any, kept.
pub open spec fn tidy_number_spec(s: Seq<char>) -> Seq<char> {
    let p = exponent_start(s) as int;
    tidy_mantissa(s.subrange(0, p)) + s.subrange(p, s.len() as int)
}

proof fn lemma_exponent_start(s: Seq<char>, p: int)
    requires
        0 <= p <= s.len(),
        forall|k: int| 0 <= k < p ==> s[k] != 'e',
        p == s.len() || s[p] == 'e',
    ensures
        exponent_start(s) == p,
    decreases s.len(),
{
    if p > 0 {
        lemma_exponent_start(s.drop_first(), p - 1);
    }
}

/// Tidies a number written with a fixed count of decimals, such as `2.500000`
/// or `1.250000e4`: trailing zeros of the mantissa go, and so does a decimal
/// point left last (`2.5`, `1.25e4`, `3`).
pub fn tidy_number(s: &[char]) -> (r: Vec<char>)
    ensures
        r@ == tidy_number_spec(s@),
{
    let n = s.len();
    let mut p: usize = 0;
    while p < n && s[p] != 'e'
        invariant
            p <= n == s@.len(),
            forall|k: int| 0 <= k < p ==> s@[k] != 'e',
        decreases n - p,
    {
        p = p + 1;
    }
    proof {
        lemma_exponent_start(s@, p as int);
    }
    let ghost mant = s@.subrange(0, p as int);
    let mut has_point = false;
    let mut j: usize = 0;
    while j < p
        invariant
            j <= p <= n == s@.len(),
            mant == s@.subrange(0, p as int),
            has_point <==> exists|k: int| 0 <= k < j && s@[k] == '.',
        decreases p - j,
    {
        if s[j] == '.' {
            has_point = true;
        }
        j = j + 1;
    }
    proof {
        if has_point {
            let k = choose|k: int| 0 <= k < p && s@[k] == '.';
            assert(mant[k] == '.');
        } else {
            assert forall|k: int| 0 <= k < mant.len() implies mant[k] != '.' by {
                assert(mant[k] == s@[k]);
            }
        }
    }
    let mut end: usize = p;
    if has_point {
        while end > 0 && s[end - 1] == '0'
            invariant
                end <= p <= n == s@.len(),
                mant == s@.subrange(0, p as int),
                strip_zeros(mant) == strip_zeros(s@.subrange(0, end as int)),
            decreases end,
        {
            assert(s@.subrange(0, end as int).drop_last() =~= s@.subrange(0, end - 1));
            end = end - 1;
        }
        assert(strip_zeros(s@.subrange(0, end as int)) == s@.subrange(0, end as int));
        if end > 0 && s[end - 1] == '.' {
            assert(s@.subrange(0, end as int).drop_last() =~= s@.subrange(0, end - 1));
            end = end - 1;
        }
    } else {
        assert(s@.subrange(0, end as int) =~= mant);
    }
    let mut r: Vec<char> = Vec::new();
    let mut k: usize = 0;
    while k < end
        invariant
            k <= end <= p <= n == s@.len(),
            r@ =~= s@.subrange(0, k as int),
        decreases end - k,
    {
        r.push(s[k]);
        k = k + 1;
    }
    let mut k: usize = p;
    while k < n
        invariant
            end <= p <= k <= n == s@.len(),
            r@ =~= s@.subrange(0, end as int) + s@.subrange(p as int, k as int),
        decreases n - k,
    {
        r.push(s[k]);
        k = k + 1;
    }
    r
}

} // verus!
