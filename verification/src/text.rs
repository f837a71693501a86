use vstd::prelude::*;
use vstd::string::StrSliceExecFns;
use vstd::string::StringExecFns;

verus! {

/// The character that stands for a digit below ten.
pub open spec fn digit_char(d: nat) -> char
    recommends
        d < 10,
{
    if d == 0 {
        '0'
    } else if d == 1 {
        '1'
    } else if d == 2 {
        '2'
    } else if d == 3 {
        '3'
    } else if d == 4 {
        '4'
    } else if d == 5 {
        '5'
    } else if d == 6 {
        '6'
    } else if d == 7 {
        '7'
    } else if d == 8 {
        '8'
    } else {
        '9'
    }
}

/// The digit that a character stands for, if it is one of `0` to `9`.
pub open spec fn digit_value(c: char) -> Option<nat> {
    if c == '0' {
        Some(0)
    } else if c == '1' {
        Some(1)
    } else if c == '2' {
        Some(2)
    } else if c == '3' {
        Some(3)
    } else if c == '4' {
        Some(4)
    } else if c == '5' {
        Some(5)
    } else if c == '6' {
        Some(6)
    } else if c == '7' {
        Some(7)
    } else if c == '8' {
        Some(8)
    } else if c == '9' {
        Some(9)
    } else {
        None
    }
}

/// A number in decimal notation, without sign or leading zeros.
pub open spec fn decimal(n: nat) -> Seq<char>
    decreases n,
{
    if n < 10 {
        seq![digit_char(n)]
    } else {
        decimal(n / 10).push(digit_char(n % 10))
    }
}

/// Whether every character of the text is a decimal digit.
pub open spec fn all_digits(s: Seq<char>) -> bool {
    forall|i: int| 0 <= i < s.len() ==> digit_value(#[trigger] s[i]) is Some
}

/// The number that a run of decimal digits denotes; the empty run denotes 0.
pub open spec fn digits_value(s: Seq<char>) -> nat
    recommends
        all_digits(s),
    decreases s.len(),
{
    if s.len() == 0 {
        0
    } else {
        digits_value(s.drop_last()) * 10 + digit_value(s.last()).unwrap_or(0)
    }
}

/// The number that a text denotes in decimal notation: an optional `+`, then
/// one digit or more, and nothing else.
pub open spec fn decimal_value(s: Seq<char>) -> Option<nat> {
    let digits = if s.len() > 0 && s[0] == '+' {
        s.subrange(1, s.len() as int)
    } else {
        s
    };
    if digits.len() > 0 && all_digits(digits) {
        Some(digits_value(digits))
    } else {
        None
    }
}

/// One decimal digit as a text of its own.
fn digit_text(d: usize) -> (t: &'static str)
    requires
        d < 10,
    ensures
        t@ == seq![digit_char(d as nat)],
{
    proof {
        reveal_strlit("0");
        reveal_strlit("1");
        reveal_strlit("2");
        reveal_strlit("3");
        reveal_strlit("4");
        reveal_strlit("5");
        reveal_strlit("6");
        reveal_strlit("7");
        reveal_strlit("8");
        reveal_strlit("9");
    }
    let t = if d == 0 {
        "0"
    } else if d == 1 {
        "1"
    } else if d == 2 {
        "2"
    } else if d == 3 {
        "3"
    } else if d == 4 {
        "4"
    } else if d == 5 {
        "5"
    } else if d == 6 {
        "6"
    } else if d == 7 {
        "7"
    } else if d == 8 {
        "8"
    } else {
        "9"
    };
    assert(t@ =~= seq![digit_char(d as nat)]);
    t
}

/// Writes a number at the end of a text, in decimal notation.
pub fn append_decimal(text: &mut String, n: usize)
    ensures
        final(text)@ == old(text)@ + decimal(n as nat),
    decreases n,
{
    if n >= 10 {
        append_decimal(text, n / 10);
    }
    text.append(digit_text(n % 10));
    proof {
        if n >= 10 {
            assert(old(text)@ + decimal(n as nat) =~= (old(text)@ + decimal((n / 10) as nat))
                + seq![digit_char((n % 10) as nat)]);
        }
    }
}

/// The digit that a character stands for, if it stands for one.
fn digit_of(c: char) -> (d: Option<usize>)
    ensures
        d is Some <==> digit_value(c) is Some,
        d matches Some(v) ==> digit_value(c) == Some(v as nat) && v < 10,
{
    if c == '0' {
        Some(0)
    } else if c == '1' {
        Some(1)
    } else if c == '2' {
        Some(2)
    } else if c == '3' {
        Some(3)
    } else if c == '4' {
        Some(4)
    } else if c == '5' {
        Some(5)
    } else if c == '6' {
        Some(6)
    } else if c == '7' {
        Some(7)
    } else if c == '8' {
        Some(8)
    } else if c == '9' {
        Some(9)
    } else {
        None
    }
}

/// A run of digits denotes at least what any of its prefixes denotes.
proof fn lemma_digits_value_grows(s: Seq<char>, k: int)
    requires
        0 <= k <= s.len(),
    ensures
        digits_value(s.take(k)) <= digits_value(s),
    decreases s.len(),
{
    if k == s.len() {
        assert(s.take(k) =~= s);
    } else {
        lemma_digits_value_grows(s.drop_last(), k);
        assert(s.drop_last().take(k) =~= s.take(k));
    }
}

/// Reads a number in decimal notation: an optional `+`, then one digit or
/// more, and nothing else. A number that does not fit in `usize` is no
/// result.
pub fn parse_decimal(s: &str) -> (r: Option<usize>)
    ensures
        r == match decimal_value(s@) {
            Some(v) => if v <= usize::MAX {
                Some(v as usize)
            } else {
                None
            },
            None => None,
        },
{
    let n = s.unicode_len();
    let mut i: usize = 0;
    if n > 0 && s.get_char(0) == '+' {
        i = 1;
    }
    let start = i;
    let ghost digits = s@.subrange(start as int, n as int);
    proof {
        if start == 0 {
            assert(digits =~= s@);
        }
    }
    if i == n {
        return None;
    }
    let mut acc: usize = 0;
    while i < n
        invariant
            start <= i <= n,
            n == s@.len(),
            digits == s@.subrange(start as int, n as int),
            decimal_value(s@) == (if all_digits(digits) {
                Some(digits_value(digits))
            } else {
                None
            }),
            all_digits(digits.take(i - start)),
            acc == digits_value(digits.take(i - start)),
        decreases n - i,
    {
        let c = s.get_char(i);
        let ghost seen = digits.take(i - start);
        let ghost next = digits.take(i - start + 1);
        proof {
            assert(next.drop_last() =~= seen);
            assert(next.last() == c);
            assert(digits[i - start] == c);
            lemma_digits_value_grows(digits, i - start + 1);
        }
        let d = match digit_of(c) {
            None => {
                return None;
            },
            Some(d) => d,
        };
        let tens = match acc.checked_mul(10) {
            None => {
                return None;
            },
            Some(tens) => tens,
        };
        acc = match tens.checked_add(d) {
            None => {
                return None;
            },
            Some(sum) => sum,
        };
        proof {
            assert forall|j: int| 0 <= j < next.len() implies digit_value(#[trigger] next[j])
                is Some by {
                if j < seen.len() {
                    assert(next[j] == seen[j]);
                }
            }
        }
        i += 1;
    }
    proof {
        assert(digits.take(i - start) =~= digits);
    }
    Some(acc)
}

/// Where the last `/` of a text stands, or -1 where the text has none.
pub open spec fn last_slash(s: Seq<char>) -> int
    decreases s.len(),
{
    if s.len() == 0 {
        -1
    } else if s.last() == '/' {
        s.len() - 1
    } else {
        last_slash(s.drop_last())
    }
}

/// The last segment of an absolute path: what follows its last `/`. A text
/// that does not begin with `/` is no absolute path and has no segments.
pub open spec fn last_segment(path: Seq<char>) -> Option<Seq<char>> {
    if path.len() > 0 && path[0] == '/' {
        Some(path.subrange(last_slash(path) + 1, path.len() as int))
    } else {
        None
    }
}

/// Reads the last segment of an absolute path.
pub fn read_last_segment(path: &str) -> (r: Option<&str>)
    ensures
        match r {
            Some(segment) => last_segment(path@) == Some(segment@),
            None => last_segment(path@) is None,
        },
{
    let n = path.unicode_len();
    if n == 0 || path.get_char(0) != '/' {
        return None;
    }
    let mut from: usize = 1;
    let mut i: usize = 1;
    proof {
        assert(path@.take(1).drop_last() =~= Seq::<char>::empty());
        assert(last_slash(path@.take(1)) == 0) by {
            reveal_with_fuel(last_slash, 2);
        }
    }
    while i < n
        invariant
            1 <= i <= n,
            n == path@.len(),
            from == last_slash(path@.take(i as int)) + 1,
            1 <= from <= i,
        decreases n - i,
    {
        proof {
            assert(path@.take(i + 1).drop_last() =~= path@.take(i as int));
        }
        if path.get_char(i) == '/' {
            from = i + 1;
        }
        i += 1;
    }
    proof {
        assert(path@.take(n as int) =~= path@);
    }
    Some(path.substring_char(from, n))
}

/// Decimal notation can be read back: the text that stands for a number
/// is one digit or more, has no sign, and denotes that number.
pub proof fn lemma_decimal_reads_back(n: nat)
    ensures
        decimal(n).len() >= 1,
        all_digits(decimal(n)),
        digits_value(decimal(n)) == n,
        decimal_value(decimal(n)) == Some(n),
    decreases n,
{
    let text = decimal(n);
    assert(digit_value(digit_char(n % 10)) == Some(n % 10));
    if n < 10 {
        assert(text.drop_last() =~= Seq::<char>::empty());
        assert(digits_value(text) == n) by {
            reveal_with_fuel(digits_value, 2);
        }
    } else {
        lemma_decimal_reads_back(n / 10);
        assert(text.drop_last() =~= decimal(n / 10));
        assert(text[0] == decimal(n / 10)[0]);
        assert forall|i: int| 0 <= i < text.len() implies digit_value(#[trigger] text[i])
            is Some by {
            if i < text.len() - 1 {
                assert(text[i] == decimal(n / 10)[i]);
            }
        }
    }
    assert(digit_value(text[0]) is Some);
}

} // verus!
