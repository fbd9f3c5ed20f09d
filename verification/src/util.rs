//! Small text helpers the parser is built from.

use vstd::prelude::*;
use vstd::string::StrSliceExecFns;

use crate::expression::{spec_error_code, spec_explained, ExpressionType};

verus! {

/// Newlines outside string literals replaced by spaces, from position `i`
/// on, with `inq` saying whether `i` lies inside a string literal.
pub open spec fn spec_replace_n_from(s: Seq<char>, i: int, inq: bool) -> Seq<char>
    decreases s.len() - i,
{
    if i < 0 || i >= s.len() {
        Seq::<char>::empty()
    } else {
        let c = s[i];
        let kept = if c == '\n' && !inq {
            ' '
        } else {
            c
        };
        let inq2 = if c == '"' {
            !inq
        } else {
            inq
        };
        seq![kept] + spec_replace_n_from(s, i + 1, inq2)
    }
}

/// The whole text with every newline outside string literals replaced by a
/// space; newlines inside string literals are preserved.
pub open spec fn spec_replace_n(s: Seq<char>) -> Seq<char> {
    spec_replace_n_from(s, 0, false)
}

/// Replace newlines by spaces everywhere but inside string literals.
pub fn replace_n(s: String) -> (r: String)
    ensures
        r@ == spec_replace_n(s@),
{
    let text = s.as_str();
    let n = text.unicode_len();
    let mut out = String::new();
    let mut i: usize = 0;
    let mut inq: bool = false;
    while i < n
        invariant
            i <= n,
            n == text@.len(),
            out@ + spec_replace_n_from(text@, i as int, inq) == spec_replace_n(text@),
        decreases n - i,
    {
        let c = text.get_char(i);
        let kept = if c == '\n' && !inq {
            ' '
        } else {
            c
        };
        if c == '"' {
            inq = !inq;
        }
        out.push(kept);
        proof {
            assert(out@ + spec_replace_n_from(text@, i + 1, inq) =~= spec_replace_n(text@));
        }
        i = i + 1;
    }
    proof {
        assert(out@ =~= spec_replace_n(text@));
    }
    out
}

/// The leading 30 characters of the remaining source, as a location hint.
pub fn error_code(s: &str) -> (r: &str)
    ensures
        r@ == spec_error_code(s@),
{
    let n = s.unicode_len();
    let k = if n < 30 {
        n
    } else {
        30
    };
    s.substring_char(0, k)
}

/// Whether the slice holds the character.
pub fn char_in(p: &[char], c: char) -> (r: bool)
    ensures
        r == p@.contains(c),
{
    let n = p.len();
    let mut j: usize = 0;
    while j < n
        invariant
            j <= n,
            n == p@.len(),
            forall|k: int| 0 <= k < j ==> p@[k] != c,
        decreases n - j,
    {
        if p[j] == c {
            return true;
        }
        j = j + 1;
    }
    false
}

/// Whether two string slices hold the same characters.
pub fn str_eq(a: &str, b: &str) -> (r: bool)
    ensures
        r == (a@ == b@),
{
    let na = a.unicode_len();
    let nb = b.unicode_len();
    if na != nb {
        return false;
    }
    let mut i: usize = 0;
    while i < na
        invariant
            i <= na,
            na == a@.len(),
            na == b@.len(),
            forall|k: int| 0 <= k < i ==> a@[k] == b@[k],
        decreases na - i,
    {
        if a.get_char(i) != b.get_char(i) {
            return false;
        }
        i = i + 1;
    }
    proof {
        assert(a@ =~= b@);
    }
    true
}

/// The numeric value of a decimal digit character.
pub open spec fn spec_char_digit(c: char) -> Option<int> {
    if c == '0' {
        Some(0int)
    } else if c == '1' {
        Some(1int)
    } else if c == '2' {
        Some(2int)
    } else if c == '3' {
        Some(3int)
    } else if c == '4' {
        Some(4int)
    } else if c == '5' {
        Some(5int)
    } else if c == '6' {
        Some(6int)
    } else if c == '7' {
        Some(7int)
    } else if c == '8' {
        Some(8int)
    } else if c == '9' {
        Some(9int)
    } else {
        None
    }
}

/// The value of a nonempty run of decimal digits; None when any character
/// is not a digit.
pub open spec fn spec_digits_val(s: Seq<char>) -> Option<int>
    decreases s.len(),
{
    if s.len() == 0 {
        None
    } else if s.len() == 1 {
        spec_char_digit(s[0])
    } else {
        match (spec_digits_val(s.drop_last()), spec_char_digit(s.last())) {
            (Some(h), Some(d)) => Some(h * 10 + d),
            _ => None,
        }
    }
}

/// The value of a decimal integer with an optional leading sign, as an
/// unbounded integer; None when the text is not a well-formed integer.
pub open spec fn spec_parse_int(s: Seq<char>) -> Option<int> {
    if s.len() == 0 {
        None
    } else if s[0] == '-' {
        match spec_digits_val(s.drop_first()) {
            Some(v) => Some(-v),
            None => None,
        }
    } else if s[0] == '+' {
        spec_digits_val(s.drop_first())
    } else {
        spec_digits_val(s)
    }
}

/// A digit run's value is nonnegative.
pub proof fn lemma_digits_val_nonneg(s: Seq<char>)
    ensures
        spec_digits_val(s) matches Some(v) ==> v >= 0,
    decreases s.len(),
{
    if s.len() > 1 {
        lemma_digits_val_nonneg(s.drop_last());
    }
}

/// A digit run's value is at least the value of any nonempty prefix.
pub proof fn lemma_digits_val_prefix(s: Seq<char>, i: int)
    requires
        1 <= i <= s.len(),
        spec_digits_val(s) is Some,
    ensures
        spec_digits_val(s.take(i)) is Some,
        spec_digits_val(s.take(i)).unwrap() <= spec_digits_val(s).unwrap(),
    decreases s.len(),
{
    if i < s.len() {
        assert(s.drop_last().take(i) =~= s.take(i));
        lemma_digits_val_prefix(s.drop_last(), i);
        lemma_digits_val_nonneg(s.drop_last());
    } else {
        assert(s.take(i) =~= s);
    }
}

fn char_digit(c: char) -> (r: Option<u32>)
    ensures
        match r {
            Some(d) => spec_char_digit(c) == Some(d as int) && d < 10,
            None => spec_char_digit(c) is None,
        },
{
    match c {
        '0' => Some(0),
        '1' => Some(1),
        '2' => Some(2),
        '3' => Some(3),
        '4' => Some(4),
        '5' => Some(5),
        '6' => Some(6),
        '7' => Some(7),
        '8' => Some(8),
        '9' => Some(9),
        _ => None,
    }
}

/// Parse a decimal integer with optional sign into an `i32`, exactly as far
/// as the value fits; leading zeros are accepted.
#[verifier::loop_isolation(false)]
pub fn parse_i32(t: &str) -> (r: Option<i32>)
    ensures
        r == (match spec_parse_int(t@) {
            Some(v) => if i32::MIN <= v <= i32::MAX {
                Some(v as i32)
            } else {
                None::<i32>
            },
            None => None::<i32>,
        }),
{
    let n = t.unicode_len();
    if n == 0 {
        return None;
    }
    let c0 = t.get_char(0);
    let neg = c0 == '-';
    let start: usize = if c0 == '-' || c0 == '+' {
        1
    } else {
        0
    };
    if start == n {
        return None;
    }
    let ghost digits = t@.skip(start as int);
    let mut acc: i64 = 0;
    let mut i: usize = start;
    while i < n
        invariant
            start <= i <= n,
            n == t@.len(),
            start < n,
            digits == t@.skip(start as int),
            i > start ==> spec_digits_val(digits.take(i - start)) == Some(acc as int),
            i == start ==> acc == 0,
            0 <= acc <= 0x8000_0000u32 as i64,
        decreases n - i,
    {
        let c = t.get_char(i);
        match char_digit(c) {
            None => {
                proof {
                    assert(t@.skip(0) =~= t@);
                    if spec_digits_val(digits) is Some {
                        lemma_digits_val_take_step(digits, i - start);
                        lemma_digits_val_prefix(digits, i + 1 - start);
                        assert(false);
                    }
                }
                return None;
            },
            Some(d) => {
                proof {
                    lemma_digits_val_take_step(digits, i - start);
                }
                acc = acc * 10 + d as i64;
                if acc > 0x8000_0000u32 as i64 {
                    proof {
                        assert(t@.skip(0) =~= t@);
                        if spec_digits_val(digits) is Some {
                            lemma_digits_val_prefix(digits, i + 1 - start);
                            lemma_digits_val_nonneg(digits);
                        }
                    }
                    return None;
                }
            },
        }
        i = i + 1;
    }
    proof {
        assert(t@.skip(0) =~= t@);
        assert(digits.take(n - start) =~= digits);
    }
    if neg {
        Some((-acc) as i32)
    } else {
        if acc > 0x7FFF_FFFFi64 {
            None
        } else {
            Some(acc as i32)
        }
    }
}

/// Extending a digit run by one character multiplies its value by ten and
/// adds the digit; a non-digit makes the whole run ill-formed.
proof fn lemma_digits_val_take_step(s: Seq<char>, i: int)
    requires
        0 <= i < s.len(),
    ensures
        spec_digits_val(s.take(i + 1)) == (if i == 0 {
            spec_char_digit(s[0])
        } else {
            match (spec_digits_val(s.take(i)), spec_char_digit(s[i])) {
                (Some(h), Some(d)) => Some(h * 10 + d),
                _ => None,
            }
        }),
{
    assert(s.take(i + 1).drop_last() =~= s.take(i));
    assert(s.take(i + 1).last() == s[i]);
    if i == 0 {
        assert(s.take(1).len() == 1);
        assert(s.take(1)[0] == s[0]);
    }
}

/// The decimal rendering of a number is nonempty, consists of digit
/// characters only, and parses back to the number itself.
pub proof fn lemma_dec_digits_round(n: nat)
    ensures
        crate::spec_dec_digits(n).len() >= 1,
        forall|i: int|
            0 <= i < crate::spec_dec_digits(n).len() ==> spec_char_digit(
                #[trigger] crate::spec_dec_digits(n)[i],
            ) is Some,
        spec_digits_val(crate::spec_dec_digits(n)) == Some(n as int),
    decreases n,
{
    let s = crate::spec_dec_digits(n);
    if n < 10 {
        assert(s =~= seq![crate::spec_digit_char(n)]);
        assert(spec_char_digit(crate::spec_digit_char(n)) == Some(n as int));
    } else {
        lemma_dec_digits_round(n / 10);
        let h = crate::spec_dec_digits(n / 10);
        assert(s == h.push(crate::spec_digit_char(n % 10)));
        assert(s.drop_last() =~= h);
        assert(s.last() == crate::spec_digit_char(n % 10));
        assert(spec_char_digit(crate::spec_digit_char(n % 10)) == Some((n % 10) as int));
        assert((n / 10) * 10 + n % 10 == n) by (nonlinear_arith);
        assert forall|i: int| 0 <= i < s.len() implies spec_char_digit(
            #[trigger] s[i],
        ) is Some by {
            if i < h.len() {
                assert(s[i] == h[i]);
            }
        }
    }
}

/// The signed rendering of a 16-bit value parses back to the value.
pub proof fn lemma_i16_chars_round(v: i16)
    ensures
        crate::spec_i16_chars(v).len() >= 1,
        spec_parse_int(crate::spec_i16_chars(v)) == Some(v as int),
        v >= 0 ==> spec_char_digit(crate::spec_i16_chars(v)[0]) is Some,
        v < 0 ==> crate::spec_i16_chars(v)[0] == '-',
{
    let s = crate::spec_i16_chars(v);
    if v < 0 {
        let m = (-(v as int)) as nat;
        lemma_dec_digits_round(m);
        assert(s == seq!['-'] + crate::spec_dec_digits(m));
        assert(s[0] == '-');
        assert(s.drop_first() =~= crate::spec_dec_digits(m));
    } else {
        lemma_dec_digits_round(v as nat);
        assert(s[0] != '-' && s[0] != '+') by {
            assert(spec_char_digit(s[0]) is Some);
        }
    }
}

/// The first position in `s` holding one of the characters of `p`, with
/// nothing of `p` before it.
pub open spec fn spec_found_at(s: Seq<char>, p: Seq<char>, i: int) -> bool {
    &&& 0 <= i < s.len()
    &&& p.contains(s[i])
    &&& forall|j: int| 0 <= j < i ==> !p.contains(s[j])
}

/// Split the text at the first occurrence of any of the characters of `p`:
/// what stands before it, and the rest beginning with it. When no such
/// character occurs the result is the located message of `expr_type`.
pub fn split_first<'a>(s: &'a str, p: &[char], expr_type: ExpressionType) -> (r: Result<
    (&'a str, &'a str),
    String,
>)
    ensures
        match r {
            Ok(parts) => exists|i: int|
                {
                    &&& #[trigger] spec_found_at(s@, p@, i)
                    &&& parts.0@ == s@.take(i)
                    &&& parts.1@ == s@.skip(i)
                },
            Err(e) => {
                &&& forall|i: int| 0 <= i < s@.len() ==> !p@.contains(s@[i])
                &&& e@ == spec_explained(expr_type, s@)
            },
        },
{
    let n = s.unicode_len();
    let mut i: usize = 0;
    while i < n
        invariant
            i <= n,
            n == s@.len(),
            forall|j: int| 0 <= j < i ==> !p@.contains(s@[j]),
        decreases n - i,
    {
        if char_in(p, s.get_char(i)) {
            let before = s.substring_char(0, i);
            let after = s.substring_char(i, n);
            proof {
                assert(spec_found_at(s@, p@, i as int));
                assert(before@ =~= s@.take(i as int));
                assert(after@ =~= s@.skip(i as int));
            }
            return Ok((before, after));
        }
        i = i + 1;
    }
    Err(expr_type.to_explained_string(s))
}

} // verus!
