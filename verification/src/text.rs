//! Character-level text rules shared by the query and environment parsers:
//! Unicode whitespace trimming, splitting on a separator, finding a character
//! and reading an unsigned decimal number the way `str::parse` does.
use vstd::prelude::*;

verus! {

/// Whether `c` has the Unicode `White_Space` property, the set that `str::trim` removes.
pub open spec fn is_white_space_spec(c: char) -> bool {
    ||| ('\u{9}' <= c && c <= '\u{d}')
    ||| c == ' '
    ||| c == '\u{85}'
    ||| c == '\u{a0}'
    ||| c == '\u{1680}'
    ||| ('\u{2000}' <= c && c <= '\u{200a}')
    ||| c == '\u{2028}'
    ||| c == '\u{2029}'
    ||| c == '\u{202f}'
    ||| c == '\u{205f}'
    ||| c == '\u{3000}'
}

/// `s` without its leading whitespace.
pub open spec fn trim_start_spec(s: Seq<char>) -> Seq<char>
    decreases s.len(),
{
    if s.len() > 0 && is_white_space_spec(s[0]) {
        trim_start_spec(s.drop_first())
    } else {
        s
    }
}

/// `s` without its trailing whitespace.
pub open spec fn trim_end_spec(s: Seq<char>) -> Seq<char>
    decreases s.len(),
{
    if s.len() > 0 && is_white_space_spec(s.last()) {
        trim_end_spec(s.drop_last())
    } else {
        s
    }
}

/// `s` without leading and trailing whitespace, as `str::trim` gives it.
pub open spec fn trim_spec(s: Seq<char>) -> Seq<char> {
    trim_end_spec(trim_start_spec(s))
}

/// The pieces of `s` between occurrences of `sep`, as `str::split` yields them
/// (an empty `s` gives one empty piece).
pub open spec fn split_spec(s: Seq<char>, sep: char) -> Seq<Seq<char>>
    decreases s.len(),
{
    if s.len() == 0 {
        seq![Seq::<char>::empty()]
    } else {
        let pieces = split_spec(s.drop_last(), sep);
        if s.last() == sep {
            pieces.push(Seq::<char>::empty())
        } else {
            pieces.update(pieces.len() - 1, pieces.last().push(s.last()))
        }
    }
}

/// The index of the first `c` in `s`, if there is one.
pub open spec fn first_index_spec(s: Seq<char>, c: char) -> Option<int>
    decreases s.len(),
{
    if s.len() == 0 {
        None
    } else if s[0] == c {
        Some(0)
    } else {
        match first_index_spec(s.drop_first(), c) {
            Some(k) => Some(k + 1),
            None => None,
        }
    }
}

pub open spec fn is_digit_spec(c: char) -> bool {
    '0' <= c && c <= '9'
}

pub open spec fn all_digits(s: Seq<char>) -> bool {
    forall|i: int| 0 <= i < s.len() ==> is_digit_spec(#[trigger] s[i])
}

/// The number that the decimal digits `s` denote.
pub open spec fn decimal_value(s: Seq<char>) -> int
    decreases s.len(),
{
    if s.len() == 0 {
        0
    } else {
        decimal_value(s.drop_last()) * 10 + (s.last() as int - '0' as int)
    }
}

/// What `str::parse` gives for an unsigned integer type whose largest value is
/// `max`: an optional `+`, then one or more ASCII digits whose value fits.
pub open spec fn parse_unsigned_spec(s: Seq<char>, max: int) -> Option<int> {
    let digits = if s.len() > 0 && s[0] == '+' {
        s.drop_first()
    } else {
        s
    };
    if digits.len() > 0 && all_digits(digits) && decimal_value(digits) <= max {
        Some(decimal_value(digits))
    } else {
        None
    }
}

/// A parsed value lies between zero and the type's largest value.
pub proof fn lemma_parse_unsigned_bounds(s: Seq<char>, max: int)
    ensures
        parse_unsigned_spec(s, max) matches Some(v) ==> 0 <= v <= max,
{
    let digits = if s.len() > 0 && s[0] == '+' {
        s.drop_first()
    } else {
        s
    };
    if all_digits(digits) {
        lemma_decimal_nonnegative(digits);
    }
}

pub proof fn lemma_split_nonempty(s: Seq<char>, sep: char)
    ensures
        split_spec(s, sep).len() >= 1,
    decreases s.len(),
{
    if s.len() > 0 {
        lemma_split_nonempty(s.drop_last(), sep);
    }
}

pub proof fn lemma_decimal_nonnegative(s: Seq<char>)
    requires
        all_digits(s),
    ensures
        decimal_value(s) >= 0,
    decreases s.len(),
{
    if s.len() > 0 {
        assert(is_digit_spec(s[s.len() - 1]));
        lemma_decimal_nonnegative(s.drop_last());
    }
}

/// A prefix of a digit string never denotes more than the whole string.
pub proof fn lemma_decimal_prefix_le(s: Seq<char>, k: int)
    requires
        all_digits(s),
        0 <= k <= s.len(),
    ensures
        decimal_value(s.take(k)) <= decimal_value(s),
    decreases s.len(),
{
    if k < s.len() {
        let t = s.drop_last();
        assert(t.take(k) =~= s.take(k));
        assert(is_digit_spec(s[s.len() - 1]));
        lemma_decimal_nonnegative(t);
        lemma_decimal_prefix_le(t, k);
    } else {
        assert(s.take(k) =~= s);
    }
}

pub fn is_white_space(c: char) -> (res: bool)
    ensures
        res == is_white_space_spec(c),
{
    ('\u{9}' <= c && c <= '\u{d}') || c == ' ' || c == '\u{85}' || c == '\u{a0}' || c
        == '\u{1680}' || ('\u{2000}' <= c && c <= '\u{200a}') || c == '\u{2028}' || c
        == '\u{2029}' || c == '\u{202f}' || c == '\u{205f}' || c == '\u{3000}'
}

/// The characters of `s`, in order.
pub fn chars_of(s: &str) -> (chars: Vec<char>)
    ensures
        chars@ == s@,
{
    let mut chars: Vec<char> = Vec::new();
    for c in it: s.chars()
        invariant
            chars@ == it.seq().take(it.index() as int),
    {
        chars.push(c);
    }
    chars
}

/// The bounds of `s[lo..hi]` with leading and trailing whitespace left out.
pub fn trim_range(s: &Vec<char>, lo: usize, hi: usize) -> (r: (usize, usize))
    requires
        lo <= hi <= s.len(),
    ensures
        lo <= r.0 <= r.1 <= hi,
        s@.subrange(r.0 as int, r.1 as int) == trim_spec(s@.subrange(lo as int, hi as int)),
{
    let mut a: usize = lo;
    while a < hi && is_white_space(s[a])
        invariant
            lo <= a <= hi <= s.len(),
            trim_start_spec(s@.subrange(lo as int, hi as int)) == trim_start_spec(
                s@.subrange(a as int, hi as int),
            ),
        decreases hi - a,
    {
        assert(s@.subrange(a as int, hi as int).drop_first() =~= s@.subrange(
            a + 1,
            hi as int,
        ));
        a = a + 1;
    }
    let mut b: usize = hi;
    while b > a && is_white_space(s[b - 1])
        invariant
            lo <= a <= b <= hi <= s.len(),
            trim_start_spec(s@.subrange(lo as int, hi as int)) == s@.subrange(a as int, hi as int),
            trim_end_spec(s@.subrange(a as int, hi as int)) == trim_end_spec(
                s@.subrange(a as int, b as int),
            ),
        decreases b - a,
    {
        assert(s@.subrange(a as int, b as int).drop_last() =~= s@.subrange(
            a as int,
            b - 1,
        ));
        b = b - 1;
    }
    (a, b)
}

/// The position of the first `c` in `s[lo..hi]`, counted from the start of `s`.
pub fn find_in_range(s: &Vec<char>, lo: usize, hi: usize, c: char) -> (r: Option<usize>)
    requires
        lo <= hi <= s.len(),
    ensures
        match r {
            Some(k) => lo <= k < hi && first_index_spec(s@.subrange(lo as int, hi as int), c)
                == Some(k - lo),
            None => first_index_spec(s@.subrange(lo as int, hi as int), c) is None,
        },
{
    let mut i: usize = lo;
    while i < hi
        invariant
            lo <= i <= hi <= s.len(),
            first_index_spec(s@.subrange(lo as int, hi as int), c) == match first_index_spec(
                s@.subrange(i as int, hi as int),
                c,
            ) {
                Some(k) => Some(k + (i - lo)),
                None => None,
            },
        decreases hi - i,
    {
        if s[i] == c {
            return Some(i);
        }
        assert(s@.subrange(i as int, hi as int).drop_first() =~= s@.subrange(
            i + 1,
            hi as int,
        ));
        i = i + 1;
    }
    None
}

/// Reads `s[lo..hi]` as `str::parse` reads an unsigned integer no larger than `max`.
pub fn parse_unsigned(s: &Vec<char>, lo: usize, hi: usize, max: u64) -> (r: Option<u64>)
    requires
        lo <= hi <= s.len(),
    ensures
        match r {
            Some(v) => parse_unsigned_spec(s@.subrange(lo as int, hi as int), max as int) == Some(
                v as int,
            ),
            None => parse_unsigned_spec(s@.subrange(lo as int, hi as int), max as int) is None,
        },
{
    let ghost t = s@.subrange(lo as int, hi as int);
    let mut start: usize = lo;
    if start < hi && s[start] == '+' {
        start = start + 1;
    }
    let ghost digits = s@.subrange(start as int, hi as int);
    assert(digits =~= (if t.len() > 0 && t[0] == '+' {
        t.drop_first()
    } else {
        t
    }));
    if start == hi {
        return None;
    }
    let mut v: u128 = 0;
    let mut i: usize = start;
    while i < hi
        invariant
            lo <= start <= i <= hi <= s.len(),
            digits == s@.subrange(start as int, hi as int),
            t == s@.subrange(lo as int, hi as int),
            digits == (if t.len() > 0 && t[0] == '+' {
                t.drop_first()
            } else {
                t
            }),
            start < hi,
            all_digits(s@.subrange(start as int, i as int)),
            v == decimal_value(s@.subrange(start as int, i as int)),
            v <= max,
        decreases hi - i,
    {
        let c = s[i];
        if !('0' <= c && c <= '9') {
            assert(digits[i - start] == c);
            return None;
        }
        let d: u128 = (c as u32 - '0' as u32) as u128;
        assert(s@.subrange(start as int, i + 1).drop_last() =~= s@.subrange(
            start as int,
            i as int,
        ));
        v = v * 10 + d;
        assert(all_digits(s@.subrange(start as int, i + 1)));
        if v > max as u128 {
            proof {
                if all_digits(digits) {
                    assert(digits.take(i + 1 - start) =~= s@.subrange(start as int, i + 1));
                    lemma_decimal_prefix_le(digits, i + 1 - start);
                }
            }
            return None;
        }
        i = i + 1;
    }
    Some(v as u64)
}

} // verus!
