//! Canonical display text for the scalar shapes carried in symbols, and
//! the reverse text-parsing rules: decimal integers with an optional sign,
//! the words `true` and `false`, and single characters.

use vstd::prelude::*;
use vstd::string::*;

verus! {

/// The decimal digit character for a value below ten.
pub open spec fn dec_digit(d: int) -> char {
    if d == 0 {
        '0'
    } else if d == 1 {
        '1'
    } else if d == 2 {
        '2'
    } else if d == 3 {
        '3'
    } else if d == 4 {
        '4'
    } else if d == 5 {
        '5'
    } else if d == 6 {
        '6'
    } else if d == 7 {
        '7'
    } else if d == 8 {
        '8'
    } else {
        '9'
    }
}

/// The decimal text of a natural number, without sign or leading zeros.
pub open spec fn spec_dec_nat(n: nat) -> Seq<char>
    decreases n,
{
    if n < 10 {
        seq![dec_digit(n as int)]
    } else {
        spec_dec_nat(n / 10) + seq![dec_digit((n % 10) as int)]
    }
}

/// The canonical display text of a signed integer.
pub open spec fn spec_int_text(v: int) -> Seq<char> {
    if v < 0 {
        seq!['-'] + spec_dec_nat((-v) as nat)
    } else {
        spec_dec_nat(v as nat)
    }
}

/// The canonical display text of a boolean.
pub open spec fn spec_bool_text(b: bool) -> Seq<char> {
    if b {
        seq!['t', 'r', 'u', 'e']
    } else {
        seq!['f', 'a', 'l', 's', 'e']
    }
}

/// Whether the character is a decimal digit.
pub open spec fn is_dec_digit(c: char) -> bool {
    ||| c == '0'
    ||| c == '1'
    ||| c == '2'
    ||| c == '3'
    ||| c == '4'
    ||| c == '5'
    ||| c == '6'
    ||| c == '7'
    ||| c == '8'
    ||| c == '9'
}

/// The numeric value of a decimal digit character (ten otherwise).
pub open spec fn digit_val(c: char) -> int {
    if c == '0' {
        0
    } else if c == '1' {
        1
    } else if c == '2' {
        2
    } else if c == '3' {
        3
    } else if c == '4' {
        4
    } else if c == '5' {
        5
    } else if c == '6' {
        6
    } else if c == '7' {
        7
    } else if c == '8' {
        8
    } else if c == '9' {
        9
    } else {
        10
    }
}

/// Whether every character of the text is a decimal digit.
pub open spec fn all_dec_digits(s: Seq<char>) -> bool {
    forall|i: int| 0 <= i < s.len() ==> is_dec_digit(s[i])
}

/// The numeric value of a digit run, most significant digit first.
pub open spec fn digits_val(s: Seq<char>) -> int
    decreases s.len(),
{
    if s.len() == 0 {
        0
    } else {
        digits_val(s.drop_last()) * 10 + digit_val(s.last())
    }
}

/// The value an unsigned integer's text-parsing rule gives: an optional
/// leading plus sign, then at least one digit, magnitude at most `max`.
pub open spec fn spec_parse_uint(s: Seq<char>, max: int) -> Option<int> {
    let body = if s.len() > 0 && s[0] == '+' {
        s.drop_first()
    } else {
        s
    };
    if body.len() > 0 && all_dec_digits(body) && digits_val(body) <= max {
        Some(digits_val(body))
    } else {
        None
    }
}

/// The value a signed integer's text-parsing rule gives: an optional
/// leading plus or minus sign, then at least one digit, value within
/// `min ..= max`.
pub open spec fn spec_parse_sint(s: Seq<char>, min: int, max: int) -> Option<int> {
    if s.len() > 0 && s[0] == '-' {
        let body = s.drop_first();
        if body.len() > 0 && all_dec_digits(body) && -digits_val(body) >= min {
            Some(-digits_val(body))
        } else {
            None
        }
    } else {
        spec_parse_uint(s, max)
    }
}

/// The text a boolean's text-parsing rule accepts.
pub open spec fn spec_parse_bool(s: Seq<char>) -> Option<bool> {
    if s == spec_bool_text(true) {
        Some(true)
    } else if s == spec_bool_text(false) {
        Some(false)
    } else {
        None
    }
}

/// A digit run's value is never negative.
pub proof fn lemma_digits_val_nonneg(s: Seq<char>)
    ensures
        digits_val(s) >= 0,
    decreases s.len(),
{
    if s.len() > 0 {
        lemma_digits_val_nonneg(s.drop_last());
    }
}

/// Extending a digit run can only increase its value.
pub proof fn lemma_digits_val_prefix(s: Seq<char>, i: int)
    requires
        0 <= i <= s.len(),
    ensures
        digits_val(s.take(i)) <= digits_val(s),
    decreases s.len() - i,
{
    if i < s.len() {
        lemma_digits_val_prefix(s, i + 1);
        let t = s.take(i + 1);
        assert(t.drop_last() =~= s.take(i));
        assert(digits_val(t) == digits_val(s.take(i)) * 10 + digit_val(t.last()));
        lemma_digits_val_nonneg(s.take(i));
    } else {
        assert(s.take(i) =~= s);
    }
}

/// The one-character string for a decimal digit below ten.
fn digit_str(d: u64) -> (r: &'static str)
    requires
        d < 10,
    ensures
        r@ == seq![dec_digit(d as int)],
{
    proof {
        reveal_strlit("0");
        reveal_strlit("1");
        reveal_strlit("2");
        reveal_strlit("3");
        reveal_strlit("4");
        reveal_strlit("5");
        reveal_strlit("6");
        reveal_strlit("7");
        reveal_strlit("8");
        reveal_strlit("9");
    }
    match d {
        0 => "0",
        1 => "1",
        2 => "2",
        3 => "3",
        4 => "4",
        5 => "5",
        6 => "6",
        7 => "7",
        8 => "8",
        _ => "9",
    }
}

/// Formats an unsigned integer as decimal text.
pub fn format_u64(v: u64) -> (r: String)
    ensures
        r@ == spec_dec_nat(v as nat),
    decreases v,
{
    if v < 10 {
        digit_str(v).to_owned()
    } else {
        let mut s = format_u64(v / 10);
        s.append(digit_str(v % 10));
        s
    }
}

/// Formats a signed integer as decimal text, with a minus sign when
/// negative.
pub fn format_i64(v: i64) -> (r: String)
    ensures
        r@ == spec_int_text(v as int),
{
    if v >= 0 {
        format_u64(v as u64)
    } else {
        let mut s = String::from_str("-");
        proof {
            reveal_strlit("-");
        }
        let magnitude: u64 = if v == i64::MIN {
            9223372036854775808u64
        } else {
            (-v) as u64
        };
        s.append(format_u64(magnitude).as_str());
        s
    }
}

/// Formats a boolean as `true` or `false`.
pub fn format_bool(b: bool) -> (r: String)
    ensures
        r@ == spec_bool_text(b),
{
    proof {
        reveal_strlit("true");
        reveal_strlit("false");
    }
    if b {
        let s = String::from_str("true");
        proof {
            assert(s@ =~= spec_bool_text(true));
        }
        s
    } else {
        let s = String::from_str("false");
        proof {
            assert(s@ =~= spec_bool_text(false));
        }
        s
    }
}

/// The numeric value of a decimal digit character.
fn digit_of(c: char) -> (d: u64)
    requires
        is_dec_digit(c),
    ensures
        d == digit_val(c),
{
    match c {
        '0' => 0,
        '1' => 1,
        '2' => 2,
        '3' => 3,
        '4' => 4,
        '5' => 5,
        '6' => 6,
        '7' => 7,
        '8' => 8,
        _ => 9,
    }
}

/// Returns whether the character is a decimal digit.
fn is_digit_char(c: char) -> (r: bool)
    ensures
        r == is_dec_digit(c),
{
    match c {
        '0' | '1' | '2' | '3' | '4' | '5' | '6' | '7' | '8' | '9' => true,
        _ => false,
    }
}

/// Parses a run of decimal digits starting at `from`, accumulating its
/// value while it fits in a `u64`.
fn parse_digits(s: &str, from: usize) -> (r: Option<u64>)
    requires
        from <= s@.len(),
    ensures
        match r {
            Some(v) => {
                let body = s@.skip(from as int);
                body.len() > 0 && all_dec_digits(body) && digits_val(body) == v
            },
            None => {
                let body = s@.skip(from as int);
                body.len() == 0 || !all_dec_digits(body) || digits_val(body) > u64::MAX
            },
        },
{
    let n = s.unicode_len();
    if from >= n {
        return None;
    }
    let ghost body = s@.skip(from as int);
    let mut acc: u64 = 0;
    let mut i: usize = from;
    while i < n
        invariant
            n == s@.len(),
            from <= i <= n,
            body == s@.skip(from as int),
            forall|j: int| from <= j < i ==> is_dec_digit(s@[j]),
            acc == digits_val(s@.skip(from as int).take(i - from)),
        decreases n - i,
    {
        let c = s.get_char(i);
        if !is_digit_char(c) {
            proof {
                assert(!is_dec_digit(body[i - from]));
            }
            return None;
        }
        let d = digit_of(c);
        let next = match acc.checked_mul(10) {
            Some(m) => m.checked_add(d),
            None => None,
        };
        match next {
            Some(v) => {
                acc = v;
            }
            None => {
                proof {
                    let pre = body.take(i - from + 1);
                    assert(pre.drop_last() =~= body.take(i - from));
                    assert(pre.last() == body[i - from]);
                    assert(body[i - from] == s@[i as int]);
                    assert(digits_val(pre) == acc * 10 + digit_val(s@[i as int]));
                    assert(digits_val(pre) > u64::MAX);
                    lemma_digits_val_prefix(body, i - from + 1);
                }
                return None;
            }
        }
        proof {
            let pre = body.take(i - from + 1);
            assert(pre.drop_last() =~= body.take(i - from));
            assert(pre.last() == body[i - from]);
            assert(body[i - from] == s@[i as int]);
        }
        i += 1;
    }
    proof {
        assert(body.take(n - from) =~= body);
    }
    Some(acc)
}

/// Parses unsigned-integer text: an optional plus sign, then digits, the
/// value at most `max`.
pub fn parse_uint_text(s: &str, max: u64) -> (r: Option<u64>)
    ensures
        match r {
            Some(v) => spec_parse_uint(s@, max as int) == Some(v as int),
            None => spec_parse_uint(s@, max as int) is None,
        },
{
    let n = s.unicode_len();
    if n == 0 {
        return None;
    }
    let from: usize = if s.get_char(0) == '+' {
        1
    } else {
        0
    };
    proof {
        if from == 1 {
            assert(s@.skip(1) =~= s@.drop_first());
        } else {
            assert(s@.skip(0) =~= s@);
        }
    }
    match parse_digits(s, from) {
        Some(v) => if v <= max {
            Some(v)
        } else {
            None
        },
        None => {
            proof {
                let body = s@.skip(from as int);
                if body.len() > 0 && all_dec_digits(body) {
                    lemma_digits_val_nonneg(body);
                }
            }
            None
        }
    }
}

/// Parses signed-integer text: an optional plus or minus sign, then
/// digits, the value within `min ..= max`.
pub fn parse_sint_text(s: &str, min: i64, max: i64) -> (r: Option<i64>)
    requires
        min < 0 <= max,
    ensures
        match r {
            Some(v) => min <= v <= max && spec_parse_sint(s@, min as int, max as int) == Some(
                v as int,
            ),
            None => spec_parse_sint(s@, min as int, max as int) is None,
        },
{
    let n = s.unicode_len();
    if n == 0 {
        return None;
    }
    if s.get_char(0) == '-' {
        proof {
            assert(s@.skip(1) =~= s@.drop_first());
        }
        match parse_digits(s, 1) {
            Some(v) => {
                let limit: u64 = if min == i64::MIN {
                    9223372036854775808u64
                } else {
                    (-min) as u64
                };
                if v <= limit {
                    let out: i64 = if v == 9223372036854775808u64 {
                        i64::MIN
                    } else {
                        -(v as i64)
                    };
                    Some(out)
                } else {
                    None
                }
            }
            None => {
                proof {
                    let body = s@.skip(1);
                    if body.len() > 0 && all_dec_digits(body) {
                        lemma_digits_val_nonneg(body);
                    }
                }
                None
            }
        }
    } else {
        let cap: u64 = max as u64;
        match parse_uint_text(s, cap) {
            Some(v) => Some(v as i64),
            None => None,
        }
    }
}

/// Parses boolean text: exactly `true` or `false`.
pub fn parse_bool_text(s: &str) -> (r: Option<bool>)
    ensures
        match r {
            Some(b) => spec_parse_bool(s@) == Some(b),
            None => spec_parse_bool(s@) is None,
        },
{
    let n = s.unicode_len();
    if n == 4 && s.get_char(0) == 't' && s.get_char(1) == 'r' && s.get_char(2) == 'u'
        && s.get_char(3) == 'e' {
        proof {
            assert(s@ =~= spec_bool_text(true));
        }
        Some(true)
    } else if n == 5 && s.get_char(0) == 'f' && s.get_char(1) == 'a' && s.get_char(2) == 'l'
        && s.get_char(3) == 's' && s.get_char(4) == 'e' {
        proof {
            assert(s@ =~= spec_bool_text(false));
        }
        Some(false)
    } else {
        proof {
            if s@ == spec_bool_text(true) {
                assert(s@.len() == 4);
                assert(s@[0] == 't' && s@[1] == 'r' && s@[2] == 'u' && s@[3] == 'e');
            }
            if s@ == spec_bool_text(false) {
                assert(s@.len() == 5);
                assert(s@[0] == 'f' && s@[1] == 'a' && s@[2] == 'l' && s@[3] == 's' && s@[4]
                    == 'e');
            }
        }
        None
    }
}

/// Parses character text: exactly one character.
pub fn parse_char_text(s: &str) -> (r: Option<char>)
    ensures
        match r {
            Some(c) => s@ == seq![c],
            None => s@.len() != 1,
        },
{
    if s.unicode_len() == 1 {
        let c = s.get_char(0);
        proof {
            assert(s@ =~= seq![c]);
        }
        Some(c)
    } else {
        None
    }
}

} // verus!
