//! Small verified helpers on strings and characters.

use vstd::prelude::*;
use vstd::string::*;
use crate::lookup::{first_from, first_index, lemma_first_from_none};

verus! {

/// Whether two string slices hold the same characters.
pub fn str_eq(a: &str, b: &str) -> (r: bool)
    ensures
        r == (a@ == b@),
{
    let left = a.as_bytes();
    let right = b.as_bytes();
    proof {
        // Two texts with the same encoding are the same text.
        vstd::utf8::encode_utf8_decode_utf8(a@);
        vstd::utf8::encode_utf8_decode_utf8(b@);
    }
    if left.len() != right.len() {
        return false;
    }
    let mut i: usize = 0;
    while i < left.len()
        invariant
            i <= left.len() == right.len(),
            left@ == a.spec_bytes(),
            right@ == b.spec_bytes(),
            forall|j: int| 0 <= j < i ==> left@[j] == right@[j],
        decreases left.len() - i,
    {
        if left[i] != right[i] {
            return false;
        }
        i += 1;
    }
    assert(left@ =~= right@);
    true
}

/// The characters of `s`, in order.
pub fn chars_of(s: &str) -> (r: Vec<char>)
    ensures
        r@ == s@,
{
    let mut out: Vec<char> = Vec::new();
    for c in it: s.chars()
        invariant
            it.seq() == s@,
            out@ == it.seq().take(it.index() as int),
    {
        out.push(c);
    }
    out
}

/// The views of a sequence of strings.
pub open spec fn strings_view(v: Seq<String>) -> Seq<Seq<char>> {
    Seq::new(v.len(), |i: int| v[i]@)
}

/// A copy of a vector of strings.
pub fn clone_strings(v: &Vec<String>) -> (r: Vec<String>)
    ensures
        r@ == v@,
{
    let mut out: Vec<String> = Vec::new();
    let mut i: usize = 0;
    while i < v.len()
        invariant
            i <= v.len(),
            out@ == v@.take(i as int),
        decreases v.len() - i,
    {
        out.push(v[i].clone());
        i += 1;
    }
    out
}

/// `parts` joined with `sep` between consecutive parts.
pub open spec fn join(parts: Seq<Seq<char>>, sep: Seq<char>) -> Seq<char>
    decreases parts.len(),
{
    if parts.len() == 0 {
        Seq::empty()
    } else if parts.len() == 1 {
        parts[0]
    } else {
        join(parts.drop_last(), sep) + sep + parts.last()
    }
}

/// Joins the strings of `parts` with `sep`.
pub fn join_strings(parts: &Vec<String>, sep: &str) -> (r: String)
    ensures
        r@ == join(strings_view(parts@), sep@),
{
    let mut out = String::new();
    let mut i: usize = 0;
    while i < parts.len()
        invariant
            i <= parts.len(),
            out@ == join(strings_view(parts@).take(i as int), sep@),
        decreases parts.len() - i,
    {
        let ghost before = strings_view(parts@).take(i as int);
        let ghost after = strings_view(parts@).take(i + 1);
        proof {
            assert(after.drop_last() =~= before);
            assert(after.last() == parts@[i as int]@);
        }
        if i > 0 {
            out.append(sep);
        }
        out.append(parts[i].as_str());
        proof {
            if i == 0 {
                assert(out@ =~= parts@[0]@);
            }
        }
        i += 1;
    }
    proof {
        assert(strings_view(parts@).take(parts.len() as int) =~= strings_view(parts@));
    }
    out
}

/// Whether `c` is one of the ten ASCII digits.
pub open spec fn is_digit(c: char) -> bool {
    '0' <= c <= '9'
}

/// The number an ASCII digit stands for.
pub open spec fn digit_value(c: char) -> nat {
    (c as u32 - '0' as u32) as nat
}

/// Whether every character of `s` is an ASCII digit.
pub open spec fn all_digits(s: Seq<char>) -> bool {
    forall|i: int| 0 <= i < s.len() ==> is_digit(#[trigger] s[i])
}

/// The number a sequence of ASCII digits denotes in base ten.
pub open spec fn digits_value(s: Seq<char>) -> nat
    decreases s.len(),
{
    if s.len() == 0 {
        0
    } else {
        digits_value(s.drop_last()) * 10 + digit_value(s.last())
    }
}

/// The integer that `s` denotes: an optional sign, then at least one digit,
/// the whole within the range of `i64`. `None` for any other text.
pub open spec fn parse_int(s: Seq<char>) -> Option<i64> {
    let signed = s.len() > 0 && (s[0] == '-' || s[0] == '+');
    let negative = s.len() > 0 && s[0] == '-';
    let body = if signed { s.skip(1) } else { s };
    if body.len() == 0 || !all_digits(body) {
        None
    } else if negative {
        if digits_value(body) <= 0x8000_0000_0000_0000 {
            Some((-(digits_value(body) as int)) as i64)
        } else {
            None
        }
    } else if digits_value(body) < 0x8000_0000_0000_0000 {
        Some(digits_value(body) as i64)
    } else {
        None
    }
}

/// The magnitude that the digits `chars[from..end]` denote, as far as it does
/// not exceed 2^63: `None` where a character is no digit or the number is larger.
fn scan_digits(chars: &Vec<char>, from: usize, end: usize) -> (r: Option<u64>)
    requires
        from <= end <= chars.len(),
    ensures
        ({
            let body = chars@.subrange(from as int, end as int);
            r == if all_digits(body) && digits_value(body) <= 0x8000_0000_0000_0000 {
                Some(digits_value(body) as u64)
            } else {
                None
            }
        }),
{
    let ghost body = chars@.subrange(from as int, end as int);
    let mut acc: u64 = 0;
    let mut overflow = false;
    let mut i: usize = from;
    while i < end
        invariant
            from <= i <= end <= chars.len(),
            body == chars@.subrange(from as int, end as int),
            all_digits(body.take(i - from)),
            !overflow ==> acc == digits_value(body.take(i - from)),
            overflow ==> digits_value(body.take(i - from)) > 0x8000_0000_0000_0000,
            acc <= 0x8000_0000_0000_0000,
        decreases end - i,
    {
        let c = chars[i];
        assert(c == body[i - from]);
        let ghost next = body.take(i - from + 1);
        proof {
            assert(next.drop_last() =~= body.take(i - from));
            assert(next.last() == c);
        }
        if !('0' <= c && c <= '9') {
            assert(!all_digits(body));
            return None;
        }
        let d: u64 = (c as u32 - '0' as u32) as u64;
        assert(d == digit_value(c));
        assert(all_digits(next)) by {
            assert forall|j: int| 0 <= j < next.len() implies is_digit(#[trigger] next[j]) by {
                if j < i - from {
                    assert(next[j] == body.take(i - from)[j]);
                }
            }
        }
        if overflow || acc > 0x0CCC_CCCC_CCCC_CCCC || acc * 10 + d > 0x8000_0000_0000_0000 {
            overflow = true;
            acc = 0;
        } else {
            acc = acc * 10 + d;
        }
        i += 1;
    }
    proof {
        assert(body.take(end - from) =~= body);
    }
    if overflow {
        None
    } else {
        Some(acc)
    }
}

/// Reads the integer that the characters `chars[start..end]` denote.
pub fn parse_int_chars(chars: &Vec<char>, start: usize, end: usize) -> (r: Option<i64>)
    requires
        start <= end <= chars.len(),
    ensures
        r == parse_int(chars@.subrange(start as int, end as int)),
{
    let ghost s = chars@.subrange(start as int, end as int);
    if start == end {
        return None;
    }
    let first = chars[start];
    assert(first == s[0]);
    let negative = first == '-';
    let signed = negative || first == '+';
    let from: usize = if signed { start + 1 } else { start };
    let ghost body = if signed { s.skip(1) } else { s };
    assert(body =~= chars@.subrange(from as int, end as int));
    if from == end {
        return None;
    }
    match scan_digits(chars, from, end) {
        None => None,
        Some(magnitude) => {
            if negative {
                if magnitude == 0x8000_0000_0000_0000 {
                    Some(i64::MIN)
                } else {
                    Some(-(magnitude as i64))
                }
            } else if magnitude < 0x8000_0000_0000_0000 {
                Some(magnitude as i64)
            } else {
                None
            }
        },
    }
}

/// Whether `c` is a blank: a space, a tab, a line feed or a carriage return.
pub open spec fn is_space(c: char) -> bool {
    c == ' ' || c == '\t' || c == '\n' || c == '\r'
}

/// `s` without its leading blanks.
pub open spec fn trim_start(s: Seq<char>) -> Seq<char>
    decreases s.len(),
{
    if s.len() > 0 && is_space(s[0]) {
        trim_start(s.skip(1))
    } else {
        s
    }
}

/// `s` without its trailing blanks.
pub open spec fn trim_end(s: Seq<char>) -> Seq<char>
    decreases s.len(),
{
    if s.len() > 0 && is_space(s.last()) {
        trim_end(s.drop_last())
    } else {
        s
    }
}

/// `s` without leading and trailing blanks.
pub open spec fn trim(s: Seq<char>) -> Seq<char> {
    trim_end(trim_start(s))
}

/// `s` without one pair of double quotes around it, if it has one.
pub open spec fn unquote(s: Seq<char>) -> Seq<char> {
    if s.len() >= 2 && s[0] == '"' && s.last() == '"' {
        s.subrange(1, s.len() - 1)
    } else {
        s
    }
}

/// The normal form in which a text is compared with a literal: blanks
/// trimmed, then one pair of surrounding double quotes removed.
pub open spec fn normalize(s: Seq<char>) -> Seq<char> {
    unquote(trim(s))
}

/// The bounds of `chars` once blanks are trimmed at both ends.
pub fn trim_bounds(chars: &Vec<char>) -> (r: (usize, usize))
    ensures
        r.0 <= r.1 <= chars.len(),
        chars@.subrange(r.0 as int, r.1 as int) == trim(chars@),
{
    let n = chars.len();
    let mut a: usize = 0;
    assert(chars@ =~= chars@.subrange(0, n as int));
    while a < n && is_space_char(chars[a])
        invariant
            a <= n == chars.len(),
            trim_start(chars@) == trim_start(chars@.subrange(a as int, n as int)),
        decreases n - a,
    {
        proof {
            let cur = chars@.subrange(a as int, n as int);
            assert(cur[0] == chars@[a as int]);
            assert(cur.skip(1) =~= chars@.subrange(a + 1, n as int));
        }
        a += 1;
    }
    proof {
        let cur = chars@.subrange(a as int, n as int);
        if a < n {
            assert(cur[0] == chars@[a as int]);
        }
        assert(chars@ =~= chars@.subrange(0, n as int));
        assert(trim_start(chars@) == cur);
    }
    let mut b: usize = n;
    while a < b && is_space_char(chars[b - 1])
        invariant
            a <= b <= n == chars.len(),
            trim(chars@) == trim_end(chars@.subrange(a as int, b as int)),
        decreases b - a,
    {
        proof {
            let cur = chars@.subrange(a as int, b as int);
            assert(cur.last() == chars@[b - 1]);
            assert(cur.drop_last() =~= chars@.subrange(a as int, b - 1));
        }
        b -= 1;
    }
    proof {
        let cur = chars@.subrange(a as int, b as int);
        if a < b {
            assert(cur.last() == chars@[b - 1]);
        }
    }
    (a, b)
}

/// Whether `c` is a blank.
pub fn is_space_char(c: char) -> (r: bool)
    ensures
        r == is_space(c),
{
    c == ' ' || c == '\t' || c == '\n' || c == '\r'
}

/// The bounds of `chars` in normal form.
pub fn normalize_bounds(chars: &Vec<char>) -> (r: (usize, usize))
    ensures
        r.0 <= r.1 <= chars.len(),
        chars@.subrange(r.0 as int, r.1 as int) == normalize(chars@),
{
    let (a, b) = trim_bounds(chars);
    let ghost t = chars@.subrange(a as int, b as int);
    if b - a >= 2 && chars[a] == '"' && chars[b - 1] == '"' {
        proof {
            assert(t[0] == chars@[a as int]);
            assert(t.last() == chars@[b - 1]);
            assert(t.subrange(1, t.len() - 1) =~= chars@.subrange(a + 1, b - 1));
        }
        (a + 1, b - 1)
    } else {
        proof {
            if b - a >= 2 {
                assert(t[0] == chars@[a as int]);
                assert(t.last() == chars@[b - 1]);
            }
        }
        (a, b)
    }
}

/// Whether the characters `chars[start..end]` are exactly those of `text`.
pub fn range_eq(chars: &Vec<char>, start: usize, end: usize, text: &Vec<char>) -> (r: bool)
    requires
        start <= end <= chars.len(),
    ensures
        r == (chars@.subrange(start as int, end as int) == text@),
{
    let ghost s = chars@.subrange(start as int, end as int);
    if end - start != text.len() {
        return false;
    }
    let mut i: usize = 0;
    while i < text.len()
        invariant
            start <= end <= chars.len(),
            end - start == text.len(),
            i <= text.len(),
            s == chars@.subrange(start as int, end as int),
            forall|j: int| 0 <= j < i ==> s[j] == text@[j],
        decreases text.len() - i,
    {
        if chars[start + i] != text[i] {
            assert(s[i as int] != text@[i as int]);
            return false;
        }
        i += 1;
    }
    assert(s =~= text@);
    true
}

/// The character of a digit below ten.
pub open spec fn digit_char(d: nat) -> char {
    ('0' as u8 + d) as char
}

/// `n` written in base ten, without leading zeros.
pub open spec fn decimal(n: nat) -> Seq<char>
    decreases n,
{
    if n < 10 {
        seq![digit_char(n)]
    } else {
        decimal(n / 10).push(digit_char(n % 10))
    }
}

/// `n` written in base ten, with a minus sign where it is negative.
pub open spec fn signed_decimal(n: int) -> Seq<char> {
    if n < 0 {
        seq!['-'] + decimal((-n) as nat)
    } else {
        decimal(n as nat)
    }
}

/// The text of a digit below ten.
fn digit_str(d: u64) -> (r: &'static str)
    requires
        d < 10,
    ensures
        r@ == seq![digit_char(d as nat)],
{
    proof {
        reveal_strlit("0");
        reveal_strlit("1");
        reveal_strlit("2");
        reveal_strlit("3");
        reveal_strlit("4");
        reveal_strlit("5");
        reveal_strlit("6");
        reveal_strlit("7");
        reveal_strlit("8");
        reveal_strlit("9");
    }
    let r = match d {
        0 => "0",
        1 => "1",
        2 => "2",
        3 => "3",
        4 => "4",
        5 => "5",
        6 => "6",
        7 => "7",
        8 => "8",
        _ => "9",
    };
    assert(r@ =~= seq![digit_char(d as nat)]);
    r
}

/// Writes `n` in base ten.
pub fn u64_to_string(n: u64) -> (r: String)
    ensures
        r@ == decimal(n as nat),
    decreases n,
{
    if n < 10 {
        String::from_str(digit_str(n))
    } else {
        let mut s = u64_to_string(n / 10);
        s.append(digit_str(n % 10));
        assert(s@ =~= decimal(n as nat));
        s
    }
}

/// Writes `n` in base ten, with a minus sign where it is negative.
pub fn i64_to_string(n: i64) -> (r: String)
    ensures
        r@ == signed_decimal(n as int),
{
    if n < 0 {
        let magnitude: u64 = if n == i64::MIN {
            0x8000_0000_0000_0000
        } else {
            (-n) as u64
        };
        let digits = u64_to_string(magnitude);
        let mut s = String::from_str("-");
        proof {
            reveal_strlit("-");
        }
        s.append(digits.as_str());
        assert(s@ =~= signed_decimal(n as int));
        s
    } else {
        u64_to_string(n as u64)
    }
}

/// Whether the characters `chars[start..end]` are all ASCII digits.
pub fn range_all_digits(chars: &Vec<char>, start: usize, end: usize) -> (r: bool)
    requires
        start <= end <= chars.len(),
    ensures
        r == all_digits(chars@.subrange(start as int, end as int)),
{
    let ghost s = chars@.subrange(start as int, end as int);
    let mut i: usize = start;
    while i < end
        invariant
            start <= i <= end <= chars.len(),
            s == chars@.subrange(start as int, end as int),
            forall|j: int| 0 <= j < i - start ==> is_digit(#[trigger] s[j]),
        decreases end - i,
    {
        let c = chars[i];
        assert(c == s[i - start]);
        if !('0' <= c && c <= '9') {
            return false;
        }
        i += 1;
    }
    true
}

/// The position of the first character of `s` that is `a` or `b`, if there
/// is one.
pub open spec fn char_index(s: Seq<char>, a: char, b: char) -> Option<int> {
    first_index(s, either(a, b))
}

/// The property of being `a` or `b`.
pub open spec fn either(a: char, b: char) -> spec_fn(char) -> bool {
    |c: char| c == a || c == b
}

/// The position in `chars` of the first character of `chars[start..end]`
/// that is `a` or `b`, if there is one.
pub fn find_char(chars: &Vec<char>, start: usize, end: usize, a: char, b: char) -> (r: Option<
    usize,
>)
    requires
        start <= end <= chars.len(),
    ensures
        match r {
            Some(i) => start <= i < end && char_index(
                chars@.subrange(start as int, end as int),
                a,
                b,
            ) == Some(i - start),
            None => char_index(chars@.subrange(start as int, end as int), a, b) is None,
        },
{
    let ghost s = chars@.subrange(start as int, end as int);
    let ghost wanted = either(a, b);
    let mut i: usize = start;
    while i < end
        invariant
            start <= i <= end <= chars.len(),
            s == chars@.subrange(start as int, end as int),
            wanted == either(a, b),
            first_index(s, wanted) == first_from(s, wanted, i - start),
        decreases end - i,
    {
        let c = chars[i];
        assert(c == s[i - start]);
        if c == a || c == b {
            return Some(i);
        }
        i += 1;
    }
    None
}

/// Whether `c` is a plus or a minus sign.
pub open spec fn is_sign(c: char) -> bool {
    c == '+' || c == '-'
}

/// `s` without the sign in front of it, if it has one.
pub open spec fn unsigned_part(s: Seq<char>) -> Seq<char> {
    if s.len() > 0 && is_sign(s[0]) {
        s.skip(1)
    } else {
        s
    }
}

/// Whether `s` is digits with at most one point among them: at least one
/// digit, before or behind the point.
pub open spec fn is_mantissa(s: Seq<char>) -> bool {
    match char_index(s, '.', '.') {
        None => s.len() > 0 && all_digits(s),
        Some(point) => all_digits(s.take(point)) && all_digits(s.skip(point + 1)) && s.len() > 1,
    }
}

/// Whether `s` is an exponent: an optional sign and at least one digit.
pub open spec fn is_exponent(s: Seq<char>) -> bool {
    unsigned_part(s).len() > 0 && all_digits(unsigned_part(s))
}

/// Whether `s` spells a decimal number: an optional sign, digits with at
/// most one point among them, and optionally the letter `e` in either case
/// with an exponent behind it.
pub open spec fn is_decimal_text(s: Seq<char>) -> bool {
    let body = unsigned_part(s);
    match char_index(body, 'e', 'E') {
        None => is_mantissa(body),
        Some(mark) => is_mantissa(body.take(mark)) && is_exponent(body.skip(mark + 1)),
    }
}

/// Whether `chars[start..end]` is digits with at most one point among them.
fn mantissa_in(chars: &Vec<char>, start: usize, end: usize) -> (r: bool)
    requires
        start <= end <= chars.len(),
    ensures
        r == is_mantissa(chars@.subrange(start as int, end as int)),
{
    let ghost s = chars@.subrange(start as int, end as int);
    match find_char(chars, start, end, '.', '.') {
        None => end > start && range_all_digits(chars, start, end),
        Some(point) => {
            assert(s.take(point - start) =~= chars@.subrange(start as int, point as int));
            assert(s.skip(point - start + 1) =~= chars@.subrange(point + 1, end as int));
            range_all_digits(chars, start, point) && range_all_digits(chars, point + 1, end) && end
                - start > 1
        },
    }
}

/// Whether `chars[start..end]` is an exponent.
fn exponent_in(chars: &Vec<char>, start: usize, end: usize) -> (r: bool)
    requires
        start <= end <= chars.len(),
    ensures
        r == is_exponent(chars@.subrange(start as int, end as int)),
{
    let ghost s = chars@.subrange(start as int, end as int);
    if start < end {
        assert(s[0] == chars@[start as int]);
    }
    let from: usize = if start < end && (chars[start] == '+' || chars[start] == '-') {
        start + 1
    } else {
        start
    };
    assert(unsigned_part(s) =~= chars@.subrange(from as int, end as int));
    end > from && range_all_digits(chars, from, end)
}

/// Whether `text` spells a decimal number.
pub fn spells_decimal(text: &str) -> (r: bool)
    ensures
        r == is_decimal_text(text@),
{
    let chars = chars_of(text);
    let end = chars.len();
    assert(chars@ =~= chars@.subrange(0, end as int));
    let start: usize = if end > 0 && (chars[0] == '+' || chars[0] == '-') {
        1
    } else {
        0
    };
    let ghost body = chars@.subrange(start as int, end as int);
    assert(unsigned_part(text@) =~= body);
    match find_char(&chars, start, end, 'e', 'E') {
        None => mantissa_in(&chars, start, end),
        Some(mark) => {
            assert(body.take(mark - start) =~= chars@.subrange(start as int, mark as int));
            assert(body.skip(mark - start + 1) =~= chars@.subrange(mark + 1, end as int));
            mantissa_in(&chars, start, mark) && exponent_in(&chars, mark + 1, end)
        },
    }
}

/// Whether `s` is the word `inf`, `infinity` or `nan`, in whatever case.
pub open spec fn is_float_word(s: Seq<char>) -> bool {
    ||| s.len() == 3 && either('i', 'I')(s[0]) && either('n', 'N')(s[1]) && either('f', 'F')(s[2])
    ||| s.len() == 3 && either('n', 'N')(s[0]) && either('a', 'A')(s[1]) && either('n', 'N')(s[2])
    ||| s.len() == 8 && either('i', 'I')(s[0]) && either('n', 'N')(s[1]) && either('f', 'F')(s[2])
        && either('i', 'I')(s[3]) && either('n', 'N')(s[4]) && either('i', 'I')(s[5]) && either(
        't',
        'T',
    )(s[6]) && either('y', 'Y')(s[7])
}

/// Whether `s` spells a number with a fraction or an exponent as a source
/// may write it: a decimal number, or an optional sign and one of the words
/// `inf`, `infinity` and `nan`, in whatever case.
pub open spec fn is_float_text(s: Seq<char>) -> bool {
    is_decimal_text(s) || is_float_word(unsigned_part(s))
}

/// Whether `c` is `lower` or `upper`.
fn is_letter(c: char, lower: char, upper: char) -> (r: bool)
    ensures
        r == either(lower, upper)(c),
{
    c == lower || c == upper
}

/// Whether `text` spells a number with a fraction or an exponent as a
/// source may write it.
pub fn spells_float(text: &str) -> (r: bool)
    ensures
        r == is_float_text(text@),
{
    if spells_decimal(text) {
        return true;
    }
    let chars = chars_of(text);
    let end = chars.len();
    let start: usize = if end > 0 && (chars[0] == '+' || chars[0] == '-') {
        1
    } else {
        0
    };
    let ghost word = unsigned_part(text@);
    assert(word =~= chars@.subrange(start as int, end as int));
    let n = end - start;
    if n == 3 {
        assert(word[0] == chars@[start as int] && word[1] == chars@[start + 1] && word[2]
            == chars@[start + 2]);
        (is_letter(chars[start], 'i', 'I') && is_letter(chars[start + 1], 'n', 'N') && is_letter(
            chars[start + 2],
            'f',
            'F',
        )) || (is_letter(chars[start], 'n', 'N') && is_letter(chars[start + 1], 'a', 'A')
            && is_letter(chars[start + 2], 'n', 'N'))
    } else if n == 8 {
        assert(word[0] == chars@[start as int] && word[1] == chars@[start + 1] && word[2]
            == chars@[start + 2] && word[3] == chars@[start + 3] && word[4] == chars@[start + 4]
            && word[5] == chars@[start + 5] && word[6] == chars@[start + 6] && word[7]
            == chars@[start + 7]);
        is_letter(chars[start], 'i', 'I') && is_letter(chars[start + 1], 'n', 'N') && is_letter(
            chars[start + 2],
            'f',
            'F',
        ) && is_letter(chars[start + 3], 'i', 'I') && is_letter(chars[start + 4], 'n', 'N')
            && is_letter(chars[start + 5], 'i', 'I') && is_letter(chars[start + 6], 't', 'T')
            && is_letter(chars[start + 7], 'y', 'Y')
    } else {
        false
    }
}

/// Reads the integer that `text` denotes.
pub fn parse_int_text(text: &str) -> (r: Option<i64>)
    ensures
        r == parse_int(text@),
{
    let chars = chars_of(text);
    assert(chars@ =~= chars@.subrange(0, chars.len() as int));
    parse_int_chars(&chars, 0, chars.len())
}

/// A number written in base ten is digits, at least one.
pub proof fn lemma_decimal_is_digits(n: nat)
    ensures
        decimal(n).len() > 0,
        all_digits(decimal(n)),
    decreases n,
{
    if n >= 10 {
        lemma_decimal_is_digits(n / 10);
        let shorter = decimal(n / 10);
        let longer = decimal(n);
        assert forall|i: int| 0 <= i < longer.len() implies is_digit(#[trigger] longer[i]) by {
            if i < shorter.len() {
                assert(longer[i] == shorter[i]);
            }
        }
    }
}

/// Digits alone spell a decimal number.
pub proof fn lemma_digits_spell_decimal(s: Seq<char>)
    requires
        s.len() > 0,
        all_digits(s),
    ensures
        is_decimal_text(s),
        is_decimal_text(seq!['-'] + s),
{
    let signed = seq!['-'] + s;
    assert(unsigned_part(s) == s);
    assert(signed[0] == '-');
    assert(unsigned_part(signed) =~= s);
    assert forall|j: int| 0 <= j < s.len() implies !either('e', 'E')(#[trigger] s[j]) by {
        assert(is_digit(s[j]));
    }
    lemma_first_from_none(s, either('e', 'E'), 0);
    assert forall|j: int| 0 <= j < s.len() implies !either('.', '.')(#[trigger] s[j]) by {
        assert(is_digit(s[j]));
    }
    lemma_first_from_none(s, either('.', '.'), 0);
}

/// An integer written in base ten spells a decimal number.
pub proof fn lemma_integer_spells_decimal(n: int)
    ensures
        is_decimal_text(signed_decimal(n)),
{
    if n < 0 {
        lemma_decimal_is_digits((-n) as nat);
        lemma_digits_spell_decimal(decimal((-n) as nat));
    } else {
        lemma_decimal_is_digits(n as nat);
        lemma_digits_spell_decimal(decimal(n as nat));
    }
}

} // verus!
