//! Small tools for reading and writing text one character at a time.

use vstd::prelude::*;
use vstd::string::{StrSliceExecFns, StringExecFns};

verus! {

/// Whether `word` stands in `s` at `pos`.
pub open spec fn has_at(s: Seq<char>, pos: int, word: Seq<char>) -> bool {
    0 <= pos && pos + word.len() <= s.len() && s.subrange(pos, pos + word.len()) == word
}

/// The characters of `s`, one by one.
pub fn chars_of(s: &str) -> (r: Vec<char>)
    ensures
        r@ == s@,
{
    let n: usize = s.unicode_len();
    let mut r: Vec<char> = Vec::new();
    let mut i: usize = 0;
    while i < n
        invariant
            i <= n,
            n == s@.len(),
            r@ == s@.take(i as int),
        decreases n - i,
    {
        r.push(s.get_char(i));
        proof {
            assert(s@.take(i + 1) =~= s@.take(i as int).push(s@[i as int]));
        }
        i = i + 1;
    }
    proof {
        assert(s@.take(n as int) =~= s@);
    }
    r
}

/// Whether `word` stands in the first `end` characters of `input` at `pos`.
pub fn starts_at(input: &[char], end: usize, pos: usize, word: &str) -> (r: bool)
    requires
        end <= input@.len(),
    ensures
        r == has_at(input@.take(end as int), pos as int, word@),
{
    let n: usize = word.unicode_len();
    if pos > end || n > end - pos {
        return false;
    }
    let ghost t = input@.take(end as int);
    let mut i: usize = 0;
    while i < n
        invariant
            i <= n,
            n == word@.len(),
            pos + n <= end <= input@.len(),
            t == input@.take(end as int),
            t.subrange(pos as int, pos + i) == word@.take(i as int),
        decreases n - i,
    {
        if input[pos + i] != word.get_char(i) {
            proof {
                assert(t.subrange(pos as int, pos + n)[i as int] == t[pos + i]);
            }
            return false;
        }
        proof {
            assert(t.subrange(pos as int, pos + i + 1) =~= t.subrange(pos as int, pos + i).push(
                t[pos + i],
            ));
            assert(word@.take(i + 1) =~= word@.take(i as int).push(word@[i as int]));
        }
        i = i + 1;
    }
    proof {
        assert(word@.take(n as int) =~= word@);
    }
    true
}

/// Whether the characters of `input` from `from` up to `to` are `word`.
pub fn range_is(input: &[char], from: usize, to: usize, word: &str) -> (r: bool)
    requires
        from <= to <= input@.len(),
    ensures
        r == (input@.subrange(from as int, to as int) == word@),
{
    let n: usize = word.unicode_len();
    if to - from != n {
        return false;
    }
    let r: bool = starts_at(input, to, from, word);
    proof {
        assert(input@.take(to as int).subrange(from as int, to as int) =~= input@.subrange(
            from as int,
            to as int,
        ));
    }
    r
}

/// Whether `c` is one of the ten digits.
pub open spec fn is_digit(c: char) -> bool {
    48 <= c as u32 <= 57
}

/// The number that the digit `c` stands for.
pub open spec fn digit_value(c: char) -> int {
    c as u32 - 48
}

/// The number that a text of digits stands for. The empty text stands for
/// zero.
pub open spec fn decimal_value(digits: Seq<char>) -> int
    decreases digits.len(),
{
    if digits.len() == 0 {
        0
    } else {
        decimal_value(digits.drop_last()) * 10 + digit_value(digits.last())
    }
}

/// Whether the text is made of digits only.
pub open spec fn all_digits(digits: Seq<char>) -> bool {
    forall|i: int| 0 <= i < digits.len() ==> is_digit(#[trigger] digits[i])
}

/// The end of the digits that stand in `s` from `pos` on: the place of the
/// first character behind `pos` that is no digit, or the end of the text.
pub open spec fn digits_end(s: Seq<char>, pos: int) -> int
    decreases s.len() - pos,
{
    if 0 <= pos < s.len() && is_digit(s[pos]) {
        digits_end(s, pos + 1)
    } else {
        pos
    }
}

/// From `pos` up to [`digits_end`] there are digits only, and no digit
/// follows.
pub proof fn lemma_digits_end(s: Seq<char>, pos: int)
    requires
        0 <= pos <= s.len(),
    ensures
        pos <= digits_end(s, pos) <= s.len(),
        all_digits(s.subrange(pos, digits_end(s, pos))),
        digits_end(s, pos) < s.len() ==> !is_digit(s[digits_end(s, pos)]),
    decreases s.len() - pos,
{
    if pos < s.len() && is_digit(s[pos]) {
        lemma_digits_end(s, pos + 1);
        let e = digits_end(s, pos);
        assert forall|i: int| 0 <= i < e - pos implies is_digit(
            #[trigger] s.subrange(pos, e)[i],
        ) by {
            if i > 0 {
                assert(s.subrange(pos, e)[i] == s.subrange(pos + 1, e)[i - 1]);
            }
        }
    }
}

/// A number of digits does not get less when a digit is put behind it.
pub proof fn lemma_decimal_value_grows(digits: Seq<char>)
    requires
        all_digits(digits),
    ensures
        decimal_value(digits) >= 0,
        digits.len() > 0 ==> decimal_value(digits) >= decimal_value(digits.drop_last()),
    decreases digits.len(),
{
    if digits.len() > 0 {
        assert(is_digit(digits[digits.len() - 1]));
        assert forall|i: int| 0 <= i < digits.drop_last().len() implies is_digit(
            #[trigger] digits.drop_last()[i],
        ) by {
            assert(digits.drop_last()[i] == digits[i]);
        }
        lemma_decimal_value_grows(digits.drop_last());
    }
}

/// Whether `c` is one of the ten digits.
pub fn digit(c: char) -> (r: bool)
    ensures
        r == is_digit(c),
{
    let code: u32 = c as u32;
    48 <= code && code <= 57
}

/// The end of the digits that stand in the first `end` characters of
/// `input` from `pos` on.
pub fn skip_digits(input: &[char], end: usize, pos: usize) -> (r: usize)
    requires
        pos <= end <= input@.len(),
    ensures
        r == digits_end(input@.take(end as int), pos as int),
        pos <= r <= end,
{
    let ghost t = input@.take(end as int);
    let mut i: usize = pos;
    while i < end && digit(input[i])
        invariant
            pos <= i <= end <= input@.len(),
            t == input@.take(end as int),
            digits_end(t, pos as int) == digits_end(t, i as int),
        decreases end - i,
    {
        i = i + 1;
    }
    i
}

/// The number that the digits from `from` up to `to` stand for, if it is at
/// most `max`.
pub fn number_in(input: &[char], from: usize, to: usize, max: u64) -> (r: Option<u64>)
    requires
        from <= to <= input@.len(),
        all_digits(input@.subrange(from as int, to as int)),
        max <= 0xffff_ffff_ffff,
    ensures
        r is Some <==> decimal_value(input@.subrange(from as int, to as int)) <= max,
        r matches Some(value) ==> value == decimal_value(input@.subrange(from as int, to as int)),
{
    let ghost digits = input@.subrange(from as int, to as int);
    let mut value: u64 = 0;
    let mut i: usize = from;
    proof {
        assert(input@.subrange(from as int, from as int) =~= Seq::<char>::empty());
    }
    while i < to
        invariant
            from <= i <= to <= input@.len(),
            digits == input@.subrange(from as int, to as int),
            all_digits(digits),
            max <= 0xffff_ffff_ffff,
            value <= max,
            value == decimal_value(input@.subrange(from as int, i as int)),
        decreases to - i,
    {
        let c: char = input[i];
        assert(c == digits[i - from]);
        assert(is_digit(c));
        let d: u64 = (c as u32 - 48) as u64;
        let ghost shorter = input@.subrange(from as int, i as int);
        let ghost longer = input@.subrange(from as int, i + 1);
        proof {
            assert(longer.drop_last() =~= shorter);
            assert(longer.last() == c);
            assert(decimal_value(longer) == value * 10 + d);
        }
        let next: u64 = value * 10 + d;
        if next > max {
            proof {
                lemma_prefix_value(digits, i + 1 - from);
                assert(digits.take(i + 1 - from) =~= longer);
            }
            return None;
        }
        value = next;
        i = i + 1;
    }
    Some(value)
}

/// The number of the first `n` digits is at most the number of all of them.
pub proof fn lemma_prefix_value(digits: Seq<char>, n: int)
    requires
        all_digits(digits),
        0 <= n <= digits.len(),
    ensures
        decimal_value(digits.take(n)) <= decimal_value(digits),
    decreases digits.len() - n,
{
    if n < digits.len() {
        lemma_prefix_value(digits, n + 1);
        let longer = digits.take(n + 1);
        assert(longer.drop_last() =~= digits.take(n));
        assert forall|i: int| 0 <= i < longer.len() implies is_digit(#[trigger] longer[i]) by {
            assert(longer[i] == digits[i]);
        }
        lemma_decimal_value_grows(longer);
    } else {
        assert(digits.take(n) =~= digits);
    }
}

/// The digit for a number below ten.
pub open spec fn digit_char(d: int) -> char {
    if d == 0 {
        '0'
    } else if d == 1 {
        '1'
    } else if d == 2 {
        '2'
    } else if d == 3 {
        '3'
    } else if d == 4 {
        '4'
    } else if d == 5 {
        '5'
    } else if d == 6 {
        '6'
    } else if d == 7 {
        '7'
    } else if d == 8 {
        '8'
    } else {
        '9'
    }
}

/// The digits of `n`, without leading zeros. Zero is one digit.
pub open spec fn decimal(n: nat) -> Seq<char>
    decreases n,
{
    if n < 10 {
        seq![digit_char(n as int)]
    } else {
        decimal(n / 10).push(digit_char((n % 10) as int))
    }
}

/// The digits of a number are digits, at least one, and stand for the
/// number.
pub proof fn lemma_decimal(n: nat)
    ensures
        decimal(n).len() > 0,
        all_digits(decimal(n)),
        decimal_value(decimal(n)) == n,
    decreases n,
{
    let d = digit_char((n % 10) as int);
    assert(is_digit(d) && digit_value(d) == n % 10);
    if n < 10 {
        let digits = decimal(n);
        assert(digits.drop_last() =~= Seq::<char>::empty());
        assert(decimal_value(digits.drop_last()) == 0);
    } else {
        lemma_decimal(n / 10);
        let digits = decimal(n);
        let shorter = decimal(n / 10);
        assert(digits.drop_last() =~= shorter);
        assert(digits.last() == d);
        assert forall|i: int| 0 <= i < digits.len() implies is_digit(#[trigger] digits[i]) by {
            if i < shorter.len() {
                assert(digits[i] == shorter[i]);
            }
        }
    }
}

/// The text of a number: its digits, behind a minus sign if it is negative.
pub open spec fn int_text(n: int) -> Seq<char> {
    if n < 0 {
        seq!['-'] + decimal((-n) as nat)
    } else {
        decimal(n as nat)
    }
}

/// The digit for a number below ten, as a text.
pub fn digit_text(d: u8) -> (r: &'static str)
    requires
        d < 10,
    ensures
        r@ == seq![digit_char(d as int)],
{
    proof {
        reveal_strlit("0");
        reveal_strlit("1");
        reveal_strlit("2");
        reveal_strlit("3");
        reveal_strlit("4");
        reveal_strlit("5");
        reveal_strlit("6");
        reveal_strlit("7");
        reveal_strlit("8");
        reveal_strlit("9");
    }
    let r: &'static str = match d {
        0 => "0",
        1 => "1",
        2 => "2",
        3 => "3",
        4 => "4",
        5 => "5",
        6 => "6",
        7 => "7",
        8 => "8",
        _ => "9",
    };
    assert(r@ =~= seq![digit_char(d as int)]);
    r
}

/// Writes the digits of `n` behind `out`.
pub fn push_decimal(out: &mut String, n: u64)
    ensures
        final(out)@ == old(out)@ + decimal(n as nat),
    decreases n,
{
    if n >= 10 {
        push_decimal(out, n / 10);
    }
    let ghost before = out@;
    out.append(digit_text((n % 10) as u8));
    proof {
        if n >= 10 {
            assert(out@ =~= old(out)@ + decimal(n as nat));
        } else {
            assert(out@ =~= old(out)@ + decimal(n as nat));
        }
    }
}

/// The last `places` digits of `n`, with zeros in front where `n` has fewer.
pub open spec fn fixed(n: nat, places: nat) -> Seq<char>
    decreases places,
{
    if places == 0 {
        Seq::empty()
    } else {
        fixed(n / 10, (places - 1) as nat).push(digit_char((n % 10) as int))
    }
}

/// Writes the last `places` digits of `n` behind `out`.
pub fn push_fixed(out: &mut String, n: u64, places: u8)
    ensures
        final(out)@ == old(out)@ + fixed(n as nat, places as nat),
    decreases places,
{
    if places == 0 {
        assert(out@ =~= old(out)@ + fixed(n as nat, places as nat));
        return ;
    }
    push_fixed(out, n / 10, places - 1);
    out.append(digit_text((n % 10) as u8));
    assert(out@ =~= old(out)@ + fixed(n as nat, places as nat));
}

/// Writes the text of `n` behind `out`.
pub fn push_int(out: &mut String, n: i64)
    ensures
        final(out)@ == old(out)@ + int_text(n as int),
{
    if n < 0 {
        proof {
            reveal_strlit("-");
        }
        out.append("-");
        let ghost signed = out@;
        assert(signed =~= old(out)@ + seq!['-']);
        let magnitude: u64 = if n == i64::MIN {
            0x8000_0000_0000_0000
        } else {
            (-n) as u64
        };
        push_decimal(out, magnitude);
        assert(out@ =~= old(out)@ + int_text(n as int));
    } else {
        push_decimal(out, n as u64);
    }
}

} // verus!
