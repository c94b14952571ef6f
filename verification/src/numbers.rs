use vstd::prelude::*;
use vstd::string::StrSliceExecFns;
use vstd::string::StringExecFns;

verus! {

// ---------------------------------------------------------------------------
// Decimal digits
// ---------------------------------------------------------------------------

pub open spec fn is_digit(c: char) -> bool {
    '0' <= c && c <= '9'
}

pub open spec fn digit_val(c: char) -> int {
    c as int - '0' as int
}

/// Every character in `s[a..b]` is a decimal digit.
pub open spec fn all_digits_in(s: Seq<char>, a: int, b: int) -> bool {
    forall|j: int| a <= j < b ==> is_digit(s[j])
}

/// The value of a run of decimal digits, most significant first.
pub open spec fn digits_val(s: Seq<char>) -> int
    decreases s.len(),
{
    if s.len() == 0 {
        0
    } else {
        digits_val(s.drop_last()) * 10 + digit_val(s.last())
    }
}

pub proof fn lemma_digits_val_nonneg(s: Seq<char>)
    requires
        all_digits_in(s, 0, s.len() as int),
    ensures
        digits_val(s) >= 0,
    decreases s.len(),
{
    if s.len() > 0 {
        assert(all_digits_in(s.drop_last(), 0, s.drop_last().len() as int));
        lemma_digits_val_nonneg(s.drop_last());
    }
}

/// Checks that every character of `s` in the index range `[a, b)` is a digit.
pub fn all_digits_chk(s: &str, a: usize, b: usize) -> (r: bool)
    requires
        a <= b <= s@.len(),
    ensures
        r == all_digits_in(s@, a as int, b as int),
{
    let mut i: usize = a;
    while i < b
        invariant
            a <= i <= b <= s@.len(),
            all_digits_in(s@, a as int, i as int),
        decreases b - i,
    {
        let c = s.get_char(i);
        if !(c >= '0' && c <= '9') {
            return false;
        }
        i += 1;
    }
    true
}

// ---------------------------------------------------------------------------
// Integer parsing, as Rust's `from_str` for signed integers defines it:
// an optional `+` or `-` sign, then one or more decimal digits, and the
// value must fit the target type.
// ---------------------------------------------------------------------------

/// What parsing the text as a signed eight-bit integer yields: `None` where
/// the text is not an optionally signed run of digits, or where the value is
/// out of range.
pub open spec fn spec_parse_i8(s: Seq<char>) -> Option<i8> {
    let digits = if s.len() > 0 && (s[0] == '+' || s[0] == '-') {
        s.skip(1)
    } else {
        s
    };
    let negative = s.len() > 0 && s[0] == '-';
    if digits.len() == 0 || !all_digits_in(digits, 0, digits.len() as int) {
        None
    } else {
        let v = if negative {
            -digits_val(digits)
        } else {
            digits_val(digits)
        };
        if -128 <= v <= 127 {
            Some(v as i8)
        } else {
            None
        }
    }
}

/// The magnitude seen so far, clamped just above the largest magnitude an
/// eight-bit integer can carry, so that the scan never overflows.
pub open spec fn clamp_mag(v: int) -> int {
    if v > 128 {
        129
    } else {
        v
    }
}

/// Parses the text as a signed eight-bit integer.
#[verifier::loop_isolation(false)]
pub fn parse_i8(s: &str) -> (r: Option<i8>)
    ensures
        r == spec_parse_i8(s@),
{
    let n = s.unicode_len();
    if n == 0 {
        return None;
    }
    let c0 = s.get_char(0);
    let has_sign = c0 == '+' || c0 == '-';
    let negative = c0 == '-';
    let start: usize = if has_sign {
        1
    } else {
        0
    };
    let ghost digits: Seq<char> = if has_sign {
        s@.skip(1)
    } else {
        s@
    };
    proof {
        assert(digits =~= s@.subrange(start as int, n as int));
    }
    if start == n {
        return None;
    }
    let mut mag: u16 = 0;
    let mut i: usize = start;
    while i < n
        invariant
            start <= i <= n,
            n == s@.len(),
            start <= 1,
            digits =~= s@.subrange(start as int, n as int),
            all_digits_in(s@, start as int, i as int),
            mag == clamp_mag(digits_val(s@.subrange(start as int, i as int))),
            digits_val(s@.subrange(start as int, i as int)) >= 0,
        decreases n - i,
    {
        let c = s.get_char(i);
        if !(c >= '0' && c <= '9') {
            proof {
                assert(digits[i - start as int] == s@[i as int]);
                assert(!all_digits_in(digits, 0, digits.len() as int));
            }
            return None;
        }
        let d: u16 = (c as u8 - 48) as u16;
        let ghost prefix = s@.subrange(start as int, i as int);
        let ghost prefix2 = s@.subrange(start as int, i as int + 1);
        proof {
            assert(prefix2.drop_last() =~= prefix);
            assert(prefix2.last() == s@[i as int]);
            assert(digits_val(prefix2) == digits_val(prefix) * 10 + digit_val(s@[i as int]));
        }
        let grown: u16 = if mag > 128 {
            129
        } else {
            mag * 10 + d
        };
        mag = if grown > 128 {
            129
        } else {
            grown
        };
        i += 1;
    }
    proof {
        assert(s@.subrange(start as int, n as int) =~= digits);
        assert(all_digits_in(digits, 0, digits.len() as int));
    }
    if negative {
        if mag <= 128 {
            Some((-(mag as i16)) as i8)
        } else {
            None
        }
    } else {
        if mag <= 127 {
            Some(mag as i8)
        } else {
            None
        }
    }
}

// ---------------------------------------------------------------------------
// Rendering a signed eight-bit integer as decimal text
// ---------------------------------------------------------------------------

pub open spec fn digit_char(d: int) -> char {
    if d == 0 {
        '0'
    } else if d == 1 {
        '1'
    } else if d == 2 {
        '2'
    } else if d == 3 {
        '3'
    } else if d == 4 {
        '4'
    } else if d == 5 {
        '5'
    } else if d == 6 {
        '6'
    } else if d == 7 {
        '7'
    } else if d == 8 {
        '8'
    } else {
        '9'
    }
}

/// The decimal digits of a magnitude below one thousand, without leading
/// zeros.
pub open spec fn spec_mag_digits(v: int) -> Seq<char> {
    if v < 10 {
        seq![digit_char(v)]
    } else if v < 100 {
        seq![digit_char(v / 10), digit_char(v % 10)]
    } else {
        seq![digit_char(v / 100), digit_char((v / 10) % 10), digit_char(v % 10)]
    }
}

/// The decimal text of a signed eight-bit integer.
pub open spec fn spec_i8_text(v: int) -> Seq<char> {
    if v < 0 {
        seq!['-'] + spec_mag_digits(-v)
    } else {
        spec_mag_digits(v)
    }
}

/// One decimal digit as a string slice.
fn digit_str(d: u8) -> (r: &'static str)
    requires
        d < 10,
    ensures
        r@ == seq![digit_char(d as int)],
{
    let r: &'static str = match d {
        0 => "0",
        1 => "1",
        2 => "2",
        3 => "3",
        4 => "4",
        5 => "5",
        6 => "6",
        7 => "7",
        8 => "8",
        _ => "9",
    };
    proof {
        reveal_strlit("0");
        reveal_strlit("1");
        reveal_strlit("2");
        reveal_strlit("3");
        reveal_strlit("4");
        reveal_strlit("5");
        reveal_strlit("6");
        reveal_strlit("7");
        reveal_strlit("8");
        reveal_strlit("9");
        assert(r@ =~= seq![digit_char(d as int)]);
    }
    r
}

/// Renders a signed eight-bit integer as decimal text.
pub fn i8_to_string(v: i8) -> (r: String)
    ensures
        r@ == spec_i8_text(v as int),
{
    let wide: i16 = v as i16;
    let mag16: i16 = if wide < 0 {
        -wide
    } else {
        wide
    };
    let mu: u8 = mag16 as u8;
    let mut s = String::new();
    if wide < 0 {
        s.append("-");
        proof {
            reveal_strlit("-");
            assert("-"@ =~= seq!['-']);
        }
    }
    if mu >= 100 {
        s.append(digit_str(mu / 100));
        s.append(digit_str((mu / 10) % 10));
        s.append(digit_str(mu % 10));
    } else if mu >= 10 {
        s.append(digit_str(mu / 10));
        s.append(digit_str(mu % 10));
    } else {
        s.append(digit_str(mu));
    }
    proof {
        assert(s@ =~= spec_i8_text(v as int));
    }
    s
}

// ---------------------------------------------------------------------------
// Floating-point text validation, as Rust's `from_str` for floats defines
// the accepted grammar: an optional sign, then either one of the words
// `inf`, `infinity` or `nan` in any letter case, or a decimal number: digits
// with at most one dot and at least one digit, followed by an optional
// exponent `e`/`E`, an optional sign and one or more digits.
// ---------------------------------------------------------------------------

pub open spec fn is_exp_char(c: char) -> bool {
    c == 'e' || c == 'E'
}

/// Folds the upper-case letters of the special float words to lower case;
/// every other character stands for itself.
pub open spec fn lower_char(c: char) -> char {
    if c == 'I' {
        'i'
    } else if c == 'N' {
        'n'
    } else if c == 'F' {
        'f'
    } else if c == 'A' {
        'a'
    } else if c == 'T' {
        't'
    } else if c == 'Y' {
        'y'
    } else {
        c
    }
}

/// `s[a..b]`, folded to lower case, spells exactly the word `w`.
pub open spec fn word_in(s: Seq<char>, a: int, b: int, w: Seq<char>) -> bool {
    b - a == w.len() && forall|j: int| 0 <= j < w.len() ==> lower_char(s[a + j]) == w[j]
}

/// `s[a..b]` is one of the special float words.
pub open spec fn float_word_in(s: Seq<char>, a: int, b: int) -> bool {
    word_in(s, a, b, "inf"@) || word_in(s, a, b, "infinity"@) || word_in(s, a, b, "nan"@)
}

pub open spec fn no_exp_in(s: Seq<char>, a: int, b: int) -> bool {
    forall|j: int| a <= j < b ==> !is_exp_char(s[j])
}

pub open spec fn no_dot_in(s: Seq<char>, a: int, b: int) -> bool {
    forall|j: int| a <= j < b ==> s[j] != '.'
}

/// `s[a..b]` is a mantissa: digits with at most one dot, and at least one
/// digit on one side of the dot.
pub open spec fn mantissa_in(s: Seq<char>, a: int, b: int) -> bool {
    (exists|d: int|
        a <= d < b && s[d] == '.' && no_dot_in(s, a, d) && all_digits_in(s, a, d)
            && all_digits_in(s, d + 1, b) && (d > a || d + 1 < b)) || (a < b && no_dot_in(s, a, b)
        && all_digits_in(s, a, b))
}

/// `s[a..b]` is an exponent tail: an optional sign, then one or more digits.
pub open spec fn exp_part_in(s: Seq<char>, a: int, b: int) -> bool {
    let a2 = if a < b && (s[a] == '+' || s[a] == '-') {
        a + 1
    } else {
        a
    };
    a2 < b && all_digits_in(s, a2, b)
}

/// `s[a..b]` is a decimal number: a mantissa with an optional exponent.
pub open spec fn number_in(s: Seq<char>, a: int, b: int) -> bool {
    (exists|e: int|
        a <= e < b && is_exp_char(s[e]) && no_exp_in(s, a, e) && mantissa_in(s, a, e)
            && exp_part_in(s, e + 1, b)) || (no_exp_in(s, a, b) && mantissa_in(s, a, b))
}

/// Whether the text is accepted by the float grammar.
pub open spec fn spec_float_text_ok(s: Seq<char>) -> bool {
    let a: int = if s.len() > 0 && (s[0] == '+' || s[0] == '-') {
        1
    } else {
        0
    };
    float_word_in(s, a, s.len() as int) || number_in(s, a, s.len() as int)
}

/// Compares `s[a..b]`, folded to lower case, with the word `w`.
fn word_eq(s: &str, a: usize, b: usize, w: &str) -> (r: bool)
    requires
        a <= b <= s@.len(),
    ensures
        r == word_in(s@, a as int, b as int, w@),
{
    let wlen = w.unicode_len();
    if b - a != wlen {
        return false;
    }
    let mut j: usize = 0;
    while j < wlen
        invariant
            a <= b <= s@.len(),
            wlen == w@.len(),
            b - a == wlen,
            j <= wlen,
            forall|k: int| 0 <= k < j ==> lower_char(s@[a + k]) == w@[k],
        decreases wlen - j,
    {
        let c = s.get_char(a + j);
        let lc: char = if c == 'I' {
            'i'
        } else if c == 'N' {
            'n'
        } else if c == 'F' {
            'f'
        } else if c == 'A' {
            'a'
        } else if c == 'T' {
            't'
        } else if c == 'Y' {
            'y'
        } else {
            c
        };
        if lc != w.get_char(j) {
            return false;
        }
        j += 1;
    }
    true
}

/// Whether the character at index `i` is a dot.
fn dot_at(s: &str, i: usize) -> (r: bool)
    requires
        i < s@.len(),
    ensures
        r == (s@[i as int] == '.'),
{
    s.get_char(i) == '.'
}

/// Whether the character at index `i` is an exponent marker.
fn exp_at(s: &str, i: usize) -> (r: bool)
    requires
        i < s@.len(),
    ensures
        r == is_exp_char(s@[i as int]),
{
    let c = s.get_char(i);
    c == 'e' || c == 'E'
}

/// Checks whether `s[a..b]` is a mantissa.
fn mantissa_chk(s: &str, a: usize, b: usize) -> (r: bool)
    requires
        a <= b <= s@.len(),
    ensures
        r == mantissa_in(s@, a as int, b as int),
{
    let mut d: usize = a;
    while d < b && !dot_at(s, d)
        invariant
            a <= d <= b <= s@.len(),
            no_dot_in(s@, a as int, d as int),
        decreases b - d,
    {
        d += 1;
    }
    if d == b {
        let r = a < b && all_digits_chk(s, a, b);
        proof {
            assert(forall|dd: int|
                a <= dd < b ==> s@[dd] != '.');
        }
        r
    } else {
        let r = all_digits_chk(s, a, d) && all_digits_chk(s, d + 1, b) && (d > a || d + 1 < b);
        proof {
            if r {
                assert(mantissa_in(s@, a as int, b as int));
            } else {
                assert forall|dd: int|
                    !(a <= dd < b && s@[dd] == '.' && no_dot_in(s@, a as int, dd)
                        && all_digits_in(s@, a as int, dd) && all_digits_in(s@, dd + 1, b as int)
                        && (dd > a || dd + 1 < b)) by {
                    if a <= dd < b && s@[dd] == '.' && no_dot_in(s@, a as int, dd) {
                        assert(dd == d);
                    }
                }
                assert(!is_digit('.'));
                assert(!(a < b && no_dot_in(s@, a as int, b as int) && all_digits_in(
                    s@,
                    a as int,
                    b as int,
                )));
            }
        }
        r
    }
}

/// Checks whether the text is accepted by the float grammar, character for
/// character as Rust's float parsing defines it.
pub fn is_float_text(s: &str) -> (r: bool)
    ensures
        r == spec_float_text_ok(s@),
{
    let n = s.unicode_len();
    let a: usize = if n > 0 {
        let c = s.get_char(0);
        if c == '+' || c == '-' {
            1
        } else {
            0
        }
    } else {
        0
    };
    if word_eq(s, a, n, "inf") || word_eq(s, a, n, "infinity") || word_eq(s, a, n, "nan") {
        return true;
    }
    let mut e: usize = a;
    while e < n && !exp_at(s, e)
        invariant
            a <= e <= n,
            n == s@.len(),
            no_exp_in(s@, a as int, e as int),
        decreases n - e,
    {
        e += 1;
    }
    if e == n {
        let r = mantissa_chk(s, a, n);
        proof {
            assert(forall|ee: int| a <= ee < n ==> !is_exp_char(s@[ee]));
        }
        r
    } else {
        let m_ok = mantissa_chk(s, a, e);
        let a2: usize = if e + 1 < n {
            let c = s.get_char(e + 1);
            if c == '+' || c == '-' {
                e + 2
            } else {
                e + 1
            }
        } else {
            e + 1
        };
        let exp_ok = a2 < n && all_digits_chk(s, a2, n);
        let r = m_ok && exp_ok;
        proof {
            if r {
                assert(number_in(s@, a as int, n as int));
            } else {
                assert forall|ee: int|
                    !(a <= ee < n && is_exp_char(s@[ee]) && no_exp_in(s@, a as int, ee)
                        && mantissa_in(s@, a as int, ee) && exp_part_in(s@, ee + 1, n as int)) by {
                    if a <= ee < n && is_exp_char(s@[ee]) && no_exp_in(s@, a as int, ee) {
                        assert(ee == e);
                    }
                }
                assert(is_exp_char(s@[e as int]));
                assert(!(no_exp_in(s@, a as int, n as int) && mantissa_in(s@, a as int, n as int)));
            }
        }
        r
    }
}

} // verus!
