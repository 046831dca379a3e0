//! Decimal text for 64-bit integers: the grammar that `i64` and `u64`
//! accept from a string (an optional sign, then one or more ASCII digits),
//! and the canonical text that their `to_string` produces.

use vstd::prelude::*;
use vstd::string::StringExecFns;
use vstd::string::StringSliceAdditionalSpecFns;

verus! {

broadcast use vstd::string::group_string_axioms;

/// An ASCII decimal digit.
pub open spec fn is_ascii_digit(c: char) -> bool {
    '0' <= c && c <= '9'
}

/// The value of an ASCII decimal digit.
pub open spec fn digit_value(c: char) -> nat {
    (c as int - '0' as int) as nat
}

/// Every character is an ASCII decimal digit.
pub open spec fn all_ascii_digits(s: Seq<char>) -> bool {
    forall|i: int| 0 <= i < s.len() ==> is_ascii_digit(#[trigger] s[i])
}

/// The number that a string of decimal digits denotes (most significant first).
pub open spec fn decimal_value(s: Seq<char>) -> nat
    decreases s.len(),
{
    if s.len() == 0 {
        0
    } else {
        decimal_value(s.drop_last()) * 10 + digit_value(s.last())
    }
}

/// `d` is a non-empty run of digits whose value is at most `limit`.
pub open spec fn digits_within(d: Seq<char>, limit: int) -> bool {
    &&& d.len() > 0
    &&& all_ascii_digits(d)
    &&& decimal_value(d) <= limit
}

/// What follows an optional leading `+`.
pub open spec fn after_plus(s: Seq<char>) -> Seq<char> {
    if s.len() > 0 && s[0] == '+' {
        s.drop_first()
    } else {
        s
    }
}

/// The `u64` that a string denotes: an optional `+`, then one or more
/// ASCII digits whose value fits; anything else (the empty string, a lone
/// sign, a `-`, whitespace, any other character, overflow) is rejected.
pub open spec fn spec_parse_u64(s: Seq<char>) -> Option<u64> {
    let d = after_plus(s);
    if digits_within(d, u64::MAX as int) {
        Some(decimal_value(d) as u64)
    } else {
        None
    }
}

/// The `i64` that a string denotes: an optional `+` or `-`, then one or
/// more ASCII digits whose signed value fits; anything else is rejected.
pub open spec fn spec_parse_i64(s: Seq<char>) -> Option<i64> {
    if s.len() > 0 && s[0] == '-' {
        let d = s.drop_first();
        if digits_within(d, 0x8000_0000_0000_0000) {
            Some((-(decimal_value(d) as int)) as i64)
        } else {
            None
        }
    } else {
        let d = after_plus(s);
        if digits_within(d, i64::MAX as int) {
            Some(decimal_value(d) as i64)
        } else {
            None
        }
    }
}

/// The ASCII digit for a value below ten.
pub open spec fn digit_char(d: nat) -> char {
    if d == 0 {
        '0'
    } else if d == 1 {
        '1'
    } else if d == 2 {
        '2'
    } else if d == 3 {
        '3'
    } else if d == 4 {
        '4'
    } else if d == 5 {
        '5'
    } else if d == 6 {
        '6'
    } else if d == 7 {
        '7'
    } else if d == 8 {
        '8'
    } else {
        '9'
    }
}

/// The canonical decimal digits of `n`: no sign, no leading zero, `0` for zero.
pub open spec fn decimal_digits(n: nat) -> Seq<char>
    decreases n,
{
    if n < 10 {
        seq![digit_char(n)]
    } else {
        decimal_digits(n / 10).push(digit_char(n % 10))
    }
}

/// The text of an `i64`: a `-` for a negative value, then the digits of its magnitude.
pub open spec fn spec_i64_text(x: i64) -> Seq<char> {
    if x < 0 {
        seq!['-'] + decimal_digits((-(x as int)) as nat)
    } else {
        decimal_digits(x as nat)
    }
}

/// The text of a `u64`.
pub open spec fn spec_u64_text(x: u64) -> Seq<char> {
    decimal_digits(x as nat)
}

proof fn lemma_digit_char(d: nat)
    requires
        d < 10,
    ensures
        is_ascii_digit(digit_char(d)),
        digit_value(digit_char(d)) == d,
{
}

proof fn lemma_decimal_digits(n: nat)
    ensures
        decimal_digits(n).len() > 0,
        all_ascii_digits(decimal_digits(n)),
        decimal_value(decimal_digits(n)) == n,
    decreases n,
{
    if n < 10 {
        lemma_digit_char(n);
        assert(decimal_digits(n).drop_last() =~= Seq::<char>::empty());
        assert(decimal_value(Seq::<char>::empty()) == 0);
    } else {
        lemma_decimal_digits(n / 10);
        lemma_digit_char(n % 10);
        let s = decimal_digits(n);
        assert(s.drop_last() =~= decimal_digits(n / 10));
        assert(s.last() == digit_char(n % 10));
        assert(decimal_value(s) == (n / 10) * 10 + n % 10);
        assert forall|i: int| 0 <= i < s.len() implies is_ascii_digit(#[trigger] s[i]) by {
            if i < s.len() - 1 {
                assert(s[i] == decimal_digits(n / 10)[i]);
            }
        }
    }
}

proof fn lemma_decimal_value_prefix(d: Seq<char>, k: int)
    requires
        0 <= k <= d.len(),
    ensures
        decimal_value(d.take(k)) <= decimal_value(d),
    decreases d.len(),
{
    if k < d.len() {
        lemma_decimal_value_prefix(d.drop_last(), k);
        assert(d.drop_last().take(k) =~= d.take(k));
    } else {
        assert(d.take(k) =~= d);
    }
}

/// The text of a `u64` is one or more ASCII digits denoting it.
pub proof fn lemma_u64_text_is_digits(x: u64)
    ensures
        spec_u64_text(x).len() > 0,
        all_ascii_digits(spec_u64_text(x)),
        decimal_value(spec_u64_text(x)) == x,
{
    lemma_decimal_digits(x as nat);
}

/// Reading back the text of a `u64` gives the same `u64`.
pub proof fn lemma_u64_text_parses(x: u64)
    ensures
        spec_parse_u64(spec_u64_text(x)) == Some(x),
{
    lemma_decimal_digits(x as nat);
    lemma_digit_char(0);
    let s = decimal_digits(x as nat);
    assert(is_ascii_digit(s[0]));
    assert(after_plus(s) == s);
}

/// Reading back the text of an `i64` gives the same `i64`.
pub proof fn lemma_i64_text_parses(x: i64)
    ensures
        spec_parse_i64(spec_i64_text(x)) == Some(x),
{
    let s = spec_i64_text(x);
    if x < 0 {
        let m = (-(x as int)) as nat;
        lemma_decimal_digits(m);
        assert(s.drop_first() =~= decimal_digits(m));
    } else {
        lemma_decimal_digits(x as nat);
        let d = decimal_digits(x as nat);
        assert(is_ascii_digit(d[0]));
        assert(after_plus(s) == s);
    }
}

/// Reads the digits of `s` from `start` to the end: their value when they
/// are one or more ASCII digits whose value is at most `limit`.
fn digits_from(s: &str, bytes: &[u8], start: usize, limit: u64) -> (res: Option<u64>)
    requires
        s.is_ascii(),
        bytes@ == s.spec_bytes(),
        start <= s@.len(),
    ensures
        ({
            let d = s@.subrange(start as int, s@.len() as int);
            &&& res is Some <==> digits_within(d, limit as int)
            &&& res matches Some(v) ==> v == decimal_value(d)
        }),
{
    let ghost chars = s@;
    let ghost d = chars.subrange(start as int, chars.len() as int);
    assert(bytes@ =~= Seq::new(chars.len(), |i| chars[i] as u8));
    let len = bytes.len();
    if start == len {
        return None;
    }
    let mut acc: u64 = 0;
    let mut i = start;
    assert(chars.subrange(start as int, start as int) =~= Seq::<char>::empty());
    while i < len
        invariant
            chars == s@,
            s.is_ascii(),
            len == bytes@.len() == chars.len(),
            bytes@ == Seq::new(chars.len(), |j| chars[j] as u8),
            d == chars.subrange(start as int, chars.len() as int),
            start <= i <= len,
            start < len,
            all_ascii_digits(chars.subrange(start as int, i as int)),
            acc == decimal_value(chars.subrange(start as int, i as int)),
            acc <= limit,
        decreases len - i,
    {
        let b = bytes[i];
        let ghost c = chars[i as int];
        assert('\0' <= c <= '\u{7f}');
        assert(b == c as u8);
        if b < 48 || b > 57 {
            assert(!is_ascii_digit(d[i - start]));
            return None;
        }
        assert(is_ascii_digit(c));
        let dv = (b - 48) as u64;
        assert(dv == digit_value(c));
        let ghost next = chars.subrange(start as int, i + 1);
        assert(next.drop_last() =~= chars.subrange(start as int, i as int));
        assert(decimal_value(next) == acc * 10 + dv);
        let grown = acc.checked_mul(10);
        let stepped = match grown {
            Some(g) => g.checked_add(dv),
            None => None,
        };
        match stepped {
            Some(v) if v <= limit => {
                acc = v;
            },
            _ => {
                proof {
                    assert(d.take(i + 1 - start) =~= next);
                    lemma_decimal_value_prefix(d, i + 1 - start);
                }
                return None;
            },
        }
        i = i + 1;
        assert forall|j: int| 0 <= j < next.len() implies is_ascii_digit(#[trigger] next[j]) by {
            if j < next.len() - 1 {
                assert(next[j] == chars.subrange(start as int, i - 1)[j]);
            }
        }
    }
    assert(chars.subrange(start as int, i as int) =~= d);
    Some(acc)
}

/// Parses a `u64` as `str::parse::<u64>` does: an optional `+` and one or
/// more ASCII digits, with no other character and no overflow.
pub fn parse_u64_decimal(s: &str) -> (res: Option<u64>)
    ensures
        res == spec_parse_u64(s@),
{
    if !s.is_ascii() {
        proof {
            let i = choose|i: int| 0 <= i < s@.len() && !('\0' <= #[trigger] s@[i] <= '\u{7f}');
            let d = after_plus(s@);
            if d.len() > 0 && all_ascii_digits(d) {
                if d == s@.drop_first() {
                    assert(i != 0);
                    assert(is_ascii_digit(d[i - 1]));
                } else {
                    assert(is_ascii_digit(d[i]));
                }
            }
        }
        return None;
    }
    let bytes = s.as_bytes();
    let ghost chars = s@;
    assert(bytes@ =~= Seq::new(chars.len(), |i| chars[i] as u8));
    let start: usize = if bytes.len() > 0 && bytes[0] == 43 {
        assert(chars[0] == '+');
        1
    } else {
        proof {
            if chars.len() > 0 {
                assert('\0' <= chars[0] <= '\u{7f}');
            }
        }
        0
    };
    assert(after_plus(chars) =~= chars.subrange(start as int, chars.len() as int));
    digits_from(s, bytes, start, u64::MAX)
}

/// Parses an `i64` as `str::parse::<i64>` does: an optional `+` or `-` and
/// one or more ASCII digits, with no other character and no overflow.
pub fn parse_i64_decimal(s: &str) -> (res: Option<i64>)
    ensures
        res == spec_parse_i64(s@),
{
    if !s.is_ascii() {
        proof {
            let i = choose|i: int| 0 <= i < s@.len() && !('\0' <= #[trigger] s@[i] <= '\u{7f}');
            if s@.len() > 0 && s@[0] == '-' {
                let d = s@.drop_first();
                if d.len() > 0 && all_ascii_digits(d) {
                    assert(is_ascii_digit(d[i - 1]));
                }
            } else {
                let d = after_plus(s@);
                if d.len() > 0 && all_ascii_digits(d) {
                    if d == s@.drop_first() {
                        assert(is_ascii_digit(d[i - 1]));
                    } else {
                        assert(is_ascii_digit(d[i]));
                    }
                }
            }
        }
        return None;
    }
    let bytes = s.as_bytes();
    let ghost chars = s@;
    assert(bytes@ =~= Seq::new(chars.len(), |i| chars[i] as u8));
    if bytes.len() > 0 && bytes[0] == 45 {
        assert(chars[0] == '-');
        assert(chars.drop_first() =~= chars.subrange(1, chars.len() as int));
        match digits_from(s, bytes, 1, 0x8000_0000_0000_0000) {
            Some(m) => {
                if m == 0x8000_0000_0000_0000 {
                    Some(i64::MIN)
                } else {
                    Some(-(m as i64))
                }
            },
            None => None,
        }
    } else {
        proof {
            if chars.len() > 0 {
                assert('\0' <= chars[0] <= '\u{7f}');
            }
        }
        let start: usize = if bytes.len() > 0 && bytes[0] == 43 {
            assert(chars[0] == '+');
            1
        } else {
            0
        };
        assert(after_plus(chars) =~= chars.subrange(start as int, chars.len() as int));
        match digits_from(s, bytes, start, i64::MAX as u64) {
            Some(v) => Some(v as i64),
            None => None,
        }
    }
}

/// The text of one decimal digit.
fn digit_text(d: u64) -> (res: &'static str)
    requires
        d < 10,
    ensures
        res@ == seq![digit_char(d as nat)],
{
    if d == 0 {
        proof {
            reveal_strlit("0");
        }
        "0"
    } else if d == 1 {
        proof {
            reveal_strlit("1");
        }
        "1"
    } else if d == 2 {
        proof {
            reveal_strlit("2");
        }
        "2"
    } else if d == 3 {
        proof {
            reveal_strlit("3");
        }
        "3"
    } else if d == 4 {
        proof {
            reveal_strlit("4");
        }
        "4"
    } else if d == 5 {
        proof {
            reveal_strlit("5");
        }
        "5"
    } else if d == 6 {
        proof {
            reveal_strlit("6");
        }
        "6"
    } else if d == 7 {
        proof {
            reveal_strlit("7");
        }
        "7"
    } else if d == 8 {
        proof {
            reveal_strlit("8");
        }
        "8"
    } else {
        proof {
            reveal_strlit("9");
        }
        "9"
    }
}

/// The canonical decimal text of a `u64`, as `u64::to_string` writes it.
pub fn u64_to_decimal(x: u64) -> (res: String)
    ensures
        res@ == spec_u64_text(x),
    decreases x,
{
    if x < 10 {
        String::from_str(digit_text(x))
    } else {
        let mut s = u64_to_decimal(x / 10);
        s.append(digit_text(x % 10));
        s
    }
}

/// The canonical decimal text of an `i64`, as `i64::to_string` writes it.
pub fn i64_to_decimal(x: i64) -> (res: String)
    ensures
        res@ == spec_i64_text(x),
{
    if x < 0 {
        let magnitude: u64 = if x == i64::MIN {
            0x8000_0000_0000_0000
        } else {
            (-x) as u64
        };
        proof {
            reveal_strlit("-");
        }
        let sign = String::from_str("-");
        let digits = u64_to_decimal(magnitude);
        sign.concat(digits.as_str())
    } else {
        u64_to_decimal(x as u64)
    }
}

} // verus!
