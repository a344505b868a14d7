use vstd::prelude::*;
use crate::error::PoetryWallError;

verus! {

/// Canvas size in pixels, parsed from a `WIDTHxHEIGHT` literal. Ordered
/// by (width, height) for comparison in tests only.
#[derive(Clone, Copy, Debug, PartialEq, Eq, Structural, PartialOrd, Ord)]
pub struct Dimension {
    pub width: u32,
    pub height: u32,
}

/// An ASCII decimal digit.
pub open spec fn is_ascii_digit(c: char) -> bool {
    48 <= c as int <= 57
}

/// The value of one decimal digit.
pub open spec fn digit_val(c: char) -> int {
    c as int - 48
}

pub open spec fn all_digits(s: Seq<char>) -> bool {
    forall|i: int| 0 <= i < s.len() ==> is_ascii_digit(#[trigger] s[i])
}

/// The number a digit string denotes, most significant digit first.
pub open spec fn digits_val(s: Seq<char>) -> int
    decreases s.len(),
{
    if s.len() == 0 {
        0
    } else {
        digits_val(s.drop_last()) * 10 + digit_val(s.last())
    }
}

/// The digits of an integer literal: everything after an optional
/// leading `+`, which standard unsigned parsing accepts.
pub open spec fn digits_of(s: Seq<char>) -> Seq<char> {
    if s.len() > 0 && s[0] == '+' {
        s.subrange(1, s.len() as int)
    } else {
        s
    }
}

/// A string that parses as a `u32`: an optional `+`, then at least one
/// digit, denoting a value that fits in 32 bits.
pub open spec fn is_u32_string(s: Seq<char>) -> bool {
    &&& digits_of(s).len() > 0
    &&& all_digits(digits_of(s))
    &&& digits_val(digits_of(s)) <= u32::MAX
}

/// The value a `u32` string denotes.
pub open spec fn u32_string_value(s: Seq<char>) -> int {
    digits_val(digits_of(s))
}

/// `s` is `WIDTHxHEIGHT`: exactly one `x`, splitting it into two `u32`
/// strings with the given values.
pub open spec fn is_dimension_string(s: Seq<char>, width: u32, height: u32) -> bool {
    exists|k: int|
        #![trigger s[k]]
        {
            &&& 0 <= k < s.len()
            &&& s[k] == 'x'
            &&& forall|j: int| 0 <= j < s.len() && #[trigger] s[j] == 'x' ==> j == k
            &&& is_u32_string(s.subrange(0, k))
            &&& is_u32_string(s.subrange(k + 1, s.len() as int))
            &&& width == u32_string_value(s.subrange(0, k))
            &&& height == u32_string_value(s.subrange(k + 1, s.len() as int))
        }
}

proof fn lemma_digits_val_nonneg(s: Seq<char>)
    requires
        all_digits(s),
    ensures
        digits_val(s) >= 0,
    decreases s.len(),
{
    if s.len() > 0 {
        assert(forall|i: int| 0 <= i < s.len() - 1 ==> s.drop_last()[i] == #[trigger] s[i]);
        lemma_digits_val_nonneg(s.drop_last());
    }
}

/// Reading further digits never shrinks the value: each step multiplies
/// by ten and adds a digit.
proof fn lemma_digits_val_prefix_le(s: Seq<char>, i: int)
    requires
        all_digits(s),
        0 <= i <= s.len(),
    ensures
        digits_val(s.take(i)) <= digits_val(s),
    decreases s.len() - i,
{
    assert(forall|j: int| 0 <= j < i ==> s.take(i)[j] == #[trigger] s[j]);
    if i < s.len() {
        assert(s.take(i + 1).drop_last() =~= s.take(i));
        assert(s.take(i + 1).last() == s[i]);
        lemma_digits_val_nonneg(s.take(i));
        lemma_digits_val_prefix_le(s, i + 1);
    } else {
        assert(s.take(i) =~= s);
    }
}

/// Parse the characters of `s` between `from` and `to` as a `u32`,
/// accepting exactly what `is_u32_string` describes.
fn parse_u32_part(s: &str, from: usize, to: usize) -> (r: Option<u32>)
    requires
        from <= to <= s@.len(),
    ensures
        r is Some ==> is_u32_string(s@.subrange(from as int, to as int))
            && r->0 == u32_string_value(s@.subrange(from as int, to as int)),
        r is None ==> !is_u32_string(s@.subrange(from as int, to as int)),
{
    let ghost part = s@.subrange(from as int, to as int);
    let mut start = from;
    if from < to && s.get_char(from) == '+' {
        start = from + 1;
    }
    proof {
        assert(digits_of(part) =~= s@.subrange(start as int, to as int));
    }
    let ghost digits = s@.subrange(start as int, to as int);
    if start == to {
        proof {
            assert(digits.len() == 0);
        }
        return None;
    }
    let mut acc: u64 = 0;
    let mut i = start;
    while i < to
        invariant
            start <= i <= to <= s@.len(),
            part == s@.subrange(from as int, to as int),
            digits == s@.subrange(start as int, to as int),
            digits == digits_of(part),
            acc <= u32::MAX,
            all_digits(s@.subrange(start as int, i as int)),
            acc == digits_val(s@.subrange(start as int, i as int)),
        decreases to - i,
    {
        let c = s.get_char(i);
        let cv = c as u32;
        if !(48 <= cv && cv <= 57) {
            proof {
                assert(digits[i - start] == s@[i as int]);
                assert(!is_ascii_digit(digits[i - start]));
                assert(!all_digits(digits));
                assert(!is_u32_string(part));
            }
            return None;
        }
        let d = cv - 48;
        acc = acc * 10 + d as u64;
        proof {
            let prev = s@.subrange(start as int, i as int);
            let cur = s@.subrange(start as int, i + 1);
            assert(cur.drop_last() =~= prev);
            assert(cur.last() == s@[i as int]);
            assert(forall|j: int| 0 <= j < prev.len() ==> prev[j] == #[trigger] cur[j]);
        }
        if acc > 0xFFFF_FFFF {
            proof {
                let done = i + 1 - start;
                assert(digits.take(done) =~= s@.subrange(start as int, i + 1));
                if all_digits(digits) {
                    lemma_digits_val_prefix_le(digits, done);
                }
                assert(!is_u32_string(part));
            }
            return None;
        }
        i = i + 1;
    }
    proof {
        assert(s@.subrange(start as int, i as int) =~= digits);
    }
    Some(acc as u32)
}

impl Dimension {
    pub fn new(width: u32, height: u32) -> (d: Dimension)
        ensures
            d == (Dimension { width, height }),
    {
        Dimension { width, height }
    }

    /// Parse a `WIDTHxHEIGHT` literal. Returns `Ok` exactly when the
    /// string has a single `x` whose two sides each parse as a `u32`;
    /// every other string comes back as `DimensionReadError` carrying
    /// the input.
    pub fn from_str(s: &str) -> (r: Result<Dimension, PoetryWallError>)
        ensures
            match r {
                Ok(d) => is_dimension_string(s@, d.width, d.height),
                Err(e) => {
                    &&& e matches PoetryWallError::DimensionReadError(m) && m@ == s@
                    &&& forall|w: u32, h: u32| !is_dimension_string(s@, w, h)
                },
            },
    {
        let n = s.unicode_len();
        let mut count: usize = 0;
        let mut first: usize = 0;
        let mut i: usize = 0;
        while i < n
            invariant
                i <= n == s@.len(),
                count <= i,
                count == 0 ==> forall|j: int| 0 <= j < i ==> s@[j] != 'x',
                count == 1 ==> first < i && s@[first as int] == 'x'
                    && forall|j: int| 0 <= j < i && j != first ==> s@[j] != 'x',
                count >= 2 ==> exists|j1: int, j2: int|
                    #![trigger s@[j1], s@[j2]]
                    0 <= j1 < j2 < i && s@[j1] == 'x' && s@[j2] == 'x',
            decreases n - i,
        {
            if s.get_char(i) == 'x' {
                if count == 0 {
                    first = i;
                }
                count = count + 1;
            }
            i = i + 1;
        }
        if count != 1 {
            proof {
                assert forall|w: u32, h: u32| !is_dimension_string(s@, w, h) by {
                    if is_dimension_string(s@, w, h) {
                        let k = choose|k: int|
                            #![trigger s@[k]]
                            {
                                &&& 0 <= k < s@.len()
                                &&& s@[k] == 'x'
                                &&& forall|j: int| 0 <= j < s@.len() && #[trigger] s@[j] == 'x'
                                    ==> j == k
                                &&& is_u32_string(s@.subrange(0, k))
                                &&& is_u32_string(s@.subrange(k + 1, s@.len() as int))
                                &&& w == u32_string_value(s@.subrange(0, k))
                                &&& h == u32_string_value(s@.subrange(k + 1, s@.len() as int))
                            };
                        if count == 0 {
                            assert(s@[k] != 'x');
                        } else {
                            let (j1, j2) = choose|j1: int, j2: int|
                                #![trigger s@[j1], s@[j2]]
                                0 <= j1 < j2 < i && s@[j1] == 'x' && s@[j2] == 'x';
                            assert(j1 == k && j2 == k);
                        }
                        assert(false);
                    }
                }
            }
            return Err(PoetryWallError::DimensionReadError(s.to_owned()));
        }
        let w = parse_u32_part(s, 0, first);
        let h = parse_u32_part(s, first + 1, n);
        match (w, h) {
            (Some(width), Some(height)) => {
                proof {
                    let k = first as int;
                    assert(s@[k] == 'x');
                    assert(is_dimension_string(s@, width, height));
                }
                Ok(Dimension { width, height })
            },
            _ => {
                proof {
                    assert forall|w2: u32, h2: u32| !is_dimension_string(s@, w2, h2) by {
                        if is_dimension_string(s@, w2, h2) {
                            let k = choose|k: int|
                                #![trigger s@[k]]
                                {
                                    &&& 0 <= k < s@.len()
                                    &&& s@[k] == 'x'
                                    &&& forall|j: int| 0 <= j < s@.len() && #[trigger] s@[j] == 'x'
                                        ==> j == k
                                    &&& is_u32_string(s@.subrange(0, k))
                                    &&& is_u32_string(s@.subrange(k + 1, s@.len() as int))
                                    &&& w2 == u32_string_value(s@.subrange(0, k))
                                    &&& h2 == u32_string_value(s@.subrange(k + 1, s@.len() as int))
                                };
                            assert(k == first as int);
                            assert(false);
                        }
                    }
                }
                Err(PoetryWallError::DimensionReadError(s.to_owned()))
            },
        }
    }
}

} // verus!
