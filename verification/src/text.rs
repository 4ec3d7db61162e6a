//! Small string routines: scanning for a character, the extension of a
//! path, and writing and reading numbers in decimal.
//!
//! Strings are modelled by their sequence of characters (`s@`).

use vstd::prelude::*;
use vstd::string::*;

verus! {

/// Copies the characters of `s` into a vector.
pub fn chars_of(s: &str) -> (chars: Vec<char>)
    ensures
        chars@ == s@,
{
    let mut chars: Vec<char> = Vec::new();
    for c in it: s.chars()
        invariant
            it.seq() == s@,
            chars@ == s@.take(it.index() as int),
    {
        chars.push(c);
        assert(s@.take(it.index() + 1) =~= s@.take(it.index() as int).push(c));
    }
    assert(s@.take(s@.len() as int) =~= s@);
    chars
}

/// The position of the first `c` in `chars`, if there is one.
pub fn find_first(chars: &Vec<char>, c: char) -> (found: Option<usize>)
    ensures
        match found {
            Some(i) => i < chars.len() && chars@.index_of_first(c) == Some(i as int),
            None => chars@.index_of_first(c) is None,
        },
{
    let mut i: usize = 0;
    while i < chars.len()
        invariant
            i <= chars.len(),
            forall|j: int| 0 <= j < i ==> chars@[j] != c,
        decreases chars.len() - i,
    {
        if chars[i] == c {
            proof {
                assert(chars@.contains(c));
                chars@.index_of_first_ensures(c);
            }
            return Some(i);
        }
        i += 1;
    }
    proof {
        chars@.index_of_first_ensures(c);
    }
    None
}

/// The position of the last `c` in `chars`, if there is one.
pub fn find_last(chars: &Vec<char>, c: char) -> (found: Option<usize>)
    ensures
        match found {
            Some(i) => i < chars.len() && chars@.index_of_last(c) == Some(i as int),
            None => chars@.index_of_last(c) is None,
        },
{
    let mut i: usize = chars.len();
    while i > 0
        invariant
            i <= chars.len(),
            forall|j: int| i <= j < chars.len() ==> chars@[j] != c,
        decreases i,
    {
        i -= 1;
        if chars[i] == c {
            proof {
                assert(chars@.contains(c));
                chars@.index_of_last_ensures(c);
            }
            return Some(i);
        }
    }
    proof {
        chars@.index_of_last_ensures(c);
    }
    None
}

/// The position of the last `c` in `chars` at or after `from`, if there is
/// one.
pub fn find_last_from(chars: &Vec<char>, from: usize, c: char) -> (found: Option<usize>)
    requires
        from <= chars.len(),
    ensures
        match found {
            Some(i) => from <= i < chars.len() && chars@.skip(from as int).index_of_last(c)
                == Some(i - from),
            None => chars@.skip(from as int).index_of_last(c) is None,
        },
{
    let ghost rest = chars@.skip(from as int);
    let mut i: usize = chars.len();
    while i > from
        invariant
            from <= i <= chars.len(),
            rest == chars@.skip(from as int),
            forall|j: int| i - from <= j < rest.len() ==> rest[j] != c,
        decreases i,
    {
        i -= 1;
        assert(rest[i - from] == chars@[i as int]);
        if chars[i] == c {
            proof {
                assert(rest.contains(c));
                rest.index_of_last_ensures(c);
            }
            return Some(i);
        }
    }
    proof {
        rest.index_of_last_ensures(c);
    }
    None
}

/// The last segment of `path`: what follows its last `/`, or all of it where
/// it has no `/`.
pub open spec fn last_segment(path: Seq<char>) -> Seq<char> {
    match path.index_of_last('/') {
        Some(slash) => path.skip(slash + 1),
        None => path,
    }
}

/// The extension of a path: what follows the last `.` of its last segment;
/// empty where that segment has no `.`.
pub open spec fn extension(path: Seq<char>) -> Seq<char> {
    let segment = last_segment(path);
    match segment.index_of_last('.') {
        Some(dot) => segment.skip(dot + 1),
        None => Seq::empty(),
    }
}

/// Computes [`extension`].
pub fn extension_of(path: &str) -> (ext: String)
    ensures
        ext@ == extension(path@),
{
    let chars = chars_of(path);
    let from: usize = match find_last(&chars, '/') {
        Some(slash) => slash + 1,
        None => 0,
    };
    assert(chars@.skip(from as int) =~= last_segment(path@));
    match find_last_from(&chars, from, '.') {
        Some(dot) => {
            let ext = String::from_str(path.substring_char(dot + 1, chars.len()));
            assert(ext@ =~= last_segment(path@).skip(dot - from + 1));
            ext
        },
        None => String::new(),
    }
}

/// The last segment of a path holds no `/`, nor does its extension.
pub proof fn extension_is_in_one_segment(path: Seq<char>)
    ensures
        !last_segment(path).contains('/'),
        !extension(path).contains('/'),
{
    let segment = last_segment(path);
    path.index_of_last_ensures('/');
    if segment.contains('/') {
        let i = choose|i: int| 0 <= i < segment.len() && segment[i] == '/';
        match path.index_of_last('/') {
            Some(slash) => {
                assert(path[slash + 1 + i] == '/');
            },
            None => {
                assert(path[i] == '/');
                assert(path.contains('/'));
            },
        }
    }
    segment.index_of_last_ensures('.');
    let ext = extension(path);
    if ext.contains('/') {
        let i = choose|i: int| 0 <= i < ext.len() && ext[i] == '/';
        let dot = segment.index_of_last('.')->0;
        assert(segment[dot + 1 + i] == '/');
        assert(segment.contains('/'));
    }
}

/// The character that writes the digit `d`.
pub open spec fn digit_char(d: nat) -> char {
    if d == 0 {
        '0'
    } else if d == 1 {
        '1'
    } else if d == 2 {
        '2'
    } else if d == 3 {
        '3'
    } else if d == 4 {
        '4'
    } else if d == 5 {
        '5'
    } else if d == 6 {
        '6'
    } else if d == 7 {
        '7'
    } else if d == 8 {
        '8'
    } else {
        '9'
    }
}

/// Whether `c` is one of `0` to `9`.
pub open spec fn is_digit(c: char) -> bool {
    '0' <= c <= '9'
}

/// The value of the digit `c`.
pub open spec fn digit_value(c: char) -> nat
    recommends
        is_digit(c),
{
    (c as u32 - '0' as u32) as nat
}

/// The decimal numeral of `n`, without leading zeros.
pub open spec fn decimal(n: nat) -> Seq<char>
    decreases n,
{
    if n < 10 {
        seq![digit_char(n)]
    } else {
        decimal(n / 10).push(digit_char(n % 10))
    }
}

/// The number that the digits `digits` write, most significant first.
pub open spec fn decimal_value(digits: Seq<char>) -> nat
    decreases digits.len(),
{
    if digits.len() == 0 {
        0
    } else {
        decimal_value(digits.drop_last()) * 10 + digit_value(digits.last())
    }
}

/// Whether every character of `s` is a digit.
pub open spec fn all_digits(s: Seq<char>) -> bool {
    forall|i: int| 0 <= i < s.len() ==> is_digit(#[trigger] s[i])
}

/// The digits of an unsigned literal: `s` without one leading `+`.
pub open spec fn unsigned_digits(s: Seq<char>) -> Seq<char> {
    if s.len() > 0 && s[0] == '+' {
        s.subrange(1, s.len() as int)
    } else {
        s
    }
}

/// What `s` denotes as a `u64`: an optional `+`, then one or more digits
/// whose value fits in 64 bits. Anything else denotes nothing.
pub open spec fn parse_u64(s: Seq<char>) -> Option<u64> {
    let digits = unsigned_digits(s);
    if digits.len() > 0 && all_digits(digits) && decimal_value(digits) <= u64::MAX {
        Some(decimal_value(digits) as u64)
    } else {
        None
    }
}

fn digit_str(d: u64) -> (s: &'static str)
    requires
        d < 10,
    ensures
        s@ == seq![digit_char(d as nat)],
{
    proof {
        reveal_strlit("0");
        reveal_strlit("1");
        reveal_strlit("2");
        reveal_strlit("3");
        reveal_strlit("4");
        reveal_strlit("5");
        reveal_strlit("6");
        reveal_strlit("7");
        reveal_strlit("8");
        reveal_strlit("9");
    }
    let s = if d == 0 {
        "0"
    } else if d == 1 {
        "1"
    } else if d == 2 {
        "2"
    } else if d == 3 {
        "3"
    } else if d == 4 {
        "4"
    } else if d == 5 {
        "5"
    } else if d == 6 {
        "6"
    } else if d == 7 {
        "7"
    } else if d == 8 {
        "8"
    } else {
        "9"
    };
    assert(s@ =~= seq![digit_char(d as nat)]);
    s
}

/// Writes `n` in decimal.
pub fn to_decimal(n: u64) -> (s: String)
    ensures
        s@ == decimal(n as nat),
    decreases n,
{
    if n < 10 {
        String::from_str(digit_str(n))
    } else {
        let mut s = to_decimal(n / 10);
        s.append(digit_str(n % 10));
        s
    }
}

/// The decimal numeral consists of digits, and reading it gives the number back.
pub proof fn decimal_round_trip(n: nat)
    ensures
        decimal(n).len() > 0,
        all_digits(decimal(n)),
        decimal_value(decimal(n)) == n,
    decreases n,
{
    if n < 10 {
        assert(decimal(n).drop_last() =~= Seq::<char>::empty());
        assert(decimal_value(decimal(n).drop_last()) == 0);
    } else {
        decimal_round_trip(n / 10);
        let d = decimal(n / 10);
        assert(decimal(n).drop_last() =~= d);
    }
}

/// Reads `s` as a `u64`, as [`parse_u64`] defines it.
pub fn parse_decimal(s: &str) -> (value: Option<u64>)
    ensures
        value == parse_u64(s@),
{
    let chars = chars_of(s);
    let start: usize = if chars.len() > 0 && chars[0] == '+' {
        1
    } else {
        0
    };
    let ghost digits = unsigned_digits(s@);
    assert(digits =~= chars@.subrange(start as int, chars.len() as int));
    if start == chars.len() {
        return None;
    }
    let mut value: u64 = 0;
    let mut i: usize = start;
    while i < chars.len()
        invariant
            start <= i <= chars.len(),
            digits == unsigned_digits(s@),
            digits == chars@.subrange(start as int, chars.len() as int),
            all_digits(digits.take(i - start)),
            value == decimal_value(digits.take(i - start)),
        decreases chars.len() - i,
    {
        let c = chars[i];
        let ghost prefix = digits.take(i - start);
        let ghost next = digits.take(i - start + 1);
        proof {
            assert(digits[i - start] == c);
            assert(next.drop_last() =~= prefix);
            assert(next.last() == c);
            assert(next =~= digits.take(next.len() as int));
            decimal_value_monotone(next, digits);
            assert(decimal_value(next) == decimal_value(prefix) * 10 + digit_value(c));
        }
        if !(c >= '0' && c <= '9') {
            assert(!is_digit(digits[i - start]));
            assert(!all_digits(digits));
            return None;
        }
        let d: u64 = (c as u32 - '0' as u32) as u64;
        if value > (u64::MAX - d) / 10 {
            return None;
        }
        value = value * 10 + d;
        i += 1;
        assert forall|j: int| 0 <= j < next.len() implies is_digit(#[trigger] next[j]) by {
            if j < prefix.len() {
                assert(next[j] == prefix[j]);
            }
        }
    }
    assert(digits.take(i - start) =~= digits);
    Some(value)
}

/// A prefix of a digit string writes no larger a number than the whole.
pub proof fn decimal_value_monotone(prefix: Seq<char>, digits: Seq<char>)
    requires
        prefix.len() <= digits.len(),
        prefix == digits.take(prefix.len() as int),
    ensures
        decimal_value(prefix) <= decimal_value(digits),
    decreases digits.len() - prefix.len(),
{
    if prefix.len() < digits.len() {
        let longer = digits.take(prefix.len() as int + 1);
        assert(longer.drop_last() =~= prefix);
        assert(longer =~= digits.take(longer.len() as int));
        decimal_value_monotone(longer, digits);
        assert(decimal_value(longer) >= decimal_value(prefix) * 10) by (nonlinear_arith)
            requires
                decimal_value(longer) == decimal_value(prefix) * 10 + digit_value(longer.last()),
        ;
    } else {
        assert(prefix =~= digits);
    }
}

} // verus!
