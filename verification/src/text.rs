use vstd::prelude::*;

verus! {

/// The character that writes a digit.
pub open spec fn digit(d: int) -> char {
    if d == 0 {
        '0'
    } else if d == 1 {
        '1'
    } else if d == 2 {
        '2'
    } else if d == 3 {
        '3'
    } else if d == 4 {
        '4'
    } else if d == 5 {
        '5'
    } else if d == 6 {
        '6'
    } else if d == 7 {
        '7'
    } else if d == 8 {
        '8'
    } else {
        '9'
    }
}

/// The digit that a character writes, if it writes one.
pub open spec fn digit_value(c: char) -> Option<int> {
    if c == '0' {
        Some(0)
    } else if c == '1' {
        Some(1)
    } else if c == '2' {
        Some(2)
    } else if c == '3' {
        Some(3)
    } else if c == '4' {
        Some(4)
    } else if c == '5' {
        Some(5)
    } else if c == '6' {
        Some(6)
    } else if c == '7' {
        Some(7)
    } else if c == '8' {
        Some(8)
    } else if c == '9' {
        Some(9)
    } else {
        None
    }
}

/// A natural number in decimal, without leading zeros.
pub open spec fn render_nat(n: nat) -> Seq<char>
    decreases n,
{
    if n < 10 {
        seq![digit(n as int)]
    } else {
        render_nat(n / 10).push(digit((n % 10) as int))
    }
}

/// An integer in decimal, with a minus sign in front where it is negative.
pub open spec fn render_int(i: int) -> Seq<char> {
    if i < 0 {
        seq!['-'] + render_nat((-i) as nat)
    } else {
        render_nat(i as nat)
    }
}

/// Whether every character writes a digit.
pub open spec fn is_digits(s: Seq<char>) -> bool {
    forall|i: int| 0 <= i < s.len() ==> (#[trigger] digit_value(s[i])) is Some
}

/// The number that a sequence of digits writes in decimal.
pub open spec fn decimal(digits: Seq<char>) -> nat
    decreases digits.len(),
{
    if digits.len() == 0 {
        0
    } else {
        match digit_value(digits.last()) {
            Some(d) => decimal(digits.drop_last()) * 10 + d as nat,
            None => decimal(digits.drop_last()) * 10,
        }
    }
}

/// The integer that a word writes: an optional sign, then one or more digits,
/// where the number fits in 64 bits. Any other word writes none.
pub open spec fn integer_of(word: Seq<char>) -> Option<i64> {
    let negative = word.len() > 0 && word[0] == '-';
    let signed = word.len() > 0 && (word[0] == '-' || word[0] == '+');
    let digits = if signed {
        word.drop_first()
    } else {
        word
    };
    let value = if negative {
        -(decimal(digits) as int)
    } else {
        decimal(digits) as int
    };
    if digits.len() > 0 && is_digits(digits) && i64::MIN <= value <= i64::MAX {
        Some(value as i64)
    } else {
        None
    }
}

/// `String::push`: the string with the character added at its end.
#[verifier::external_body]
pub(crate) fn push_char(text: &mut String, c: char)
    ensures
        final(text)@ == old(text)@.push(c),
{
    text.push(c)
}

/// `str::eq`: whether two strings hold the same characters.
#[verifier::external_body]
pub(crate) fn same_text(left: &str, right: &str) -> (same: bool)
    ensures
        same == (left@ == right@),
{
    left == right
}

fn digit_char(d: u8) -> (c: char)
    requires
        d < 10,
    ensures
        c == digit(d as int),
{
    if d == 0 {
        '0'
    } else if d == 1 {
        '1'
    } else if d == 2 {
        '2'
    } else if d == 3 {
        '3'
    } else if d == 4 {
        '4'
    } else if d == 5 {
        '5'
    } else if d == 6 {
        '6'
    } else if d == 7 {
        '7'
    } else if d == 8 {
        '8'
    } else {
        '9'
    }
}

/// Writes a natural number in decimal at the end of the text.
pub fn write_nat(text: &mut String, n: u64)
    ensures
        final(text)@ == old(text)@ + render_nat(n as nat),
    decreases n,
{
    if n >= 10 {
        write_nat(text, n / 10);
    }
    push_char(text, digit_char((n % 10) as u8));
    assert(final(text)@ =~= old(text)@ + render_nat(n as nat));
}

/// Writes an integer in decimal at the end of the text.
pub fn write_int(text: &mut String, i: i64)
    ensures
        final(text)@ == old(text)@ + render_int(i as int),
{
    if i < 0 {
        push_char(text, '-');
        let magnitude: u64 = if i == i64::MIN {
            0x8000_0000_0000_0000u64
        } else {
            (-i) as u64
        };
        write_nat(text, magnitude);
    } else {
        write_nat(text, i as u64);
    }
    assert(final(text)@ =~= old(text)@ + render_int(i as int));
}

/// A digit adds to the number that the digits before it write.
pub proof fn lemma_decimal_prefix(digits: Seq<char>, k: int)
    requires
        0 <= k <= digits.len(),
    ensures
        decimal(digits.take(k)) <= decimal(digits),
    decreases digits.len() - k,
{
    if k < digits.len() {
        lemma_decimal_prefix(digits.drop_last(), k);
        assert(digits.drop_last().take(k) =~= digits.take(k));
    } else {
        assert(digits.take(k) =~= digits);
    }
}

fn digit_of(c: char) -> (d: Option<u8>)
    ensures
        match d {
            Some(d) => digit_value(c) == Some(d as int),
            None => digit_value(c) is None,
        },
{
    if c == '0' {
        Some(0)
    } else if c == '1' {
        Some(1)
    } else if c == '2' {
        Some(2)
    } else if c == '3' {
        Some(3)
    } else if c == '4' {
        Some(4)
    } else if c == '5' {
        Some(5)
    } else if c == '6' {
        Some(6)
    } else if c == '7' {
        Some(7)
    } else if c == '8' {
        Some(8)
    } else if c == '9' {
        Some(9)
    } else {
        None
    }
}

/// The integer that a word writes, if it writes one.
pub fn parse_integer(word: &Vec<char>) -> (value: Option<i64>)
    ensures
        value == integer_of(word@),
{
    let n = word.len();
    if n == 0 {
        return None;
    }
    let negative = word[0] == '-';
    let start: usize = if word[0] == '-' || word[0] == '+' {
        1
    } else {
        0
    };
    if start == n {
        return None;
    }
    let limit: u64 = if negative {
        0x8000_0000_0000_0000
    } else {
        0x7fff_ffff_ffff_ffff
    };
    let ghost digits = word@.skip(start as int);
    assert(digits =~= if start == 1 {
        word@.drop_first()
    } else {
        word@
    });
    let mut total: u64 = 0;
    let mut i: usize = start;
    while i < n
        invariant
            start <= i <= n,
            0 < n == word.len(),
            negative == (word@[0] == '-'),
            start == (if word@[0] == '-' || word@[0] == '+' {
                1usize
            } else {
                0usize
            }),
            limit == (if negative {
                0x8000_0000_0000_0000u64
            } else {
                0x7fff_ffff_ffff_ffffu64
            }),
            digits == (if start == 1 {
                word@.drop_first()
            } else {
                word@
            }),
            digits == word@.skip(start as int),
            is_digits(digits.take(i - start)),
            total == decimal(digits.take(i - start)),
            total <= limit <= 0x8000_0000_0000_0000,
        decreases n - i,
    {
        let ghost next = digits.take(i - start + 1);
        proof {
            assert(next.drop_last() =~= digits.take(i - start));
            assert(next.last() == word[i as int]);
            assert(digits[i - start] == word[i as int]);
            lemma_decimal_prefix(digits, i - start + 1);
        }
        let d = match digit_of(word[i]) {
            Some(d) => d,
            None => {
                assert(digit_value(digits[i - start]) is None);
                assert(!is_digits(digits));
                return None;
            },
        };
        assert(d <= 9);
        if total > (limit - d as u64) / 10 {
            assert(decimal(next) == total * 10 + d);
            assert(decimal(digits) > limit);
            return None;
        }
        total = total * 10 + d as u64;
        assert forall|j: int| 0 <= j < next.len() implies (#[trigger] digit_value(
            next[j],
        )) is Some by {
            if j < next.len() - 1 {
                assert(next[j] == digits.take(i - start)[j]);
            }
        }
        i += 1;
    }
    assert(digits.take(i - start) =~= digits);
    if negative {
        if total == 0x8000_0000_0000_0000 {
            Some(i64::MIN)
        } else {
            Some(-(total as i64))
        }
    } else {
        Some(total as i64)
    }
}

/// The string that holds the given characters.
pub fn string_of(chars: &Vec<char>) -> (text: String)
    ensures
        text@ == chars@,
{
    let mut text = String::new();
    let mut i: usize = 0;
    while i < chars.len()
        invariant
            i <= chars.len(),
            text@ == chars@.take(i as int),
        decreases chars.len() - i,
    {
        push_char(&mut text, chars[i]);
        assert(chars@.take(i + 1) =~= chars@.take(i as int).push(chars[i as int]));
        i += 1;
    }
    assert(chars@.take(i as int) =~= chars@);
    text
}

} // verus!
