//! What numbers and blanks in texts are, character by character.
use vstd::prelude::*;

use crate::text;

verus! {

/// A text of one character is a number if the character is a digit.
pub proof fn digits_are_numbers(c: char, max: int)
    requires
        max >= 0,
    ensures
        48 <= c as int <= 57 && c as int - 48 <= max ==> text::unsigned_value(seq![c], max) == Some(
            c as int - 48,
        ),
        !(48 <= c as int <= 57 && c as int - 48 <= max) ==> text::unsigned_value(
            seq![c],
            max,
        ) is None,
        text::unsigned_value(Seq::empty(), max) is None,
        c == '+' ==> text::unsigned_value(seq![c], max) is None,
{
    let s = seq![c];
    reveal_with_fuel(text::digits_value, 2);
    assert(s.drop_last() =~= Seq::<char>::empty());
    if c == '+' {
        assert(s.skip(1) =~= Seq::<char>::empty());
    } else {
        assert(s[0] == c);
        if text::is_digit(c) {
            assert(text::all_digits(s));
        } else {
            assert(!text::is_digit(s[0]));
        }
    }
}

/// One more character at the end of a text makes ten times the number and the
/// digit, if it is a digit and the number is not too great; otherwise there is no
/// number. Behind a plus sign a number begins as it does at the start.
pub proof fn digits_append(s: Seq<char>, c: char, max: int)
    requires
        max >= 0,
        s.len() > 0,
    ensures
        ({
            let before = text::unsigned_value(s, max);
            let after = text::unsigned_value(s.push(c), max);
            let digit = c as int - 48;
            let alone = s.len() == 1 && s[0] == '+';
            &&& alone ==> after == text::unsigned_value(seq![c], max) || c == '+'
            &&& alone && c == '+' ==> after is None
            &&& !alone && before is None ==> after is None
            &&& !alone && before is Some ==> after == if 0 <= digit <= 9 && 10 * before->0 + digit
                <= max {
                Some(10 * before->0 + digit)
            } else {
                None
            }
        }),
{
    let longer = s.push(c);
    let digits = text::unsigned_digits(s);
    assert(text::unsigned_digits(longer) =~= digits.push(c));
    assert(digits.push(c).drop_last() =~= digits);
    let more = digits.push(c);
    assert(more[digits.len() as int] == c);
    assert(forall|i: int| 0 <= i < digits.len() ==> more[i] == digits[i]);
    if text::all_digits(more) {
        assert forall|i: int| 0 <= i < digits.len() implies text::is_digit(
            #[trigger] digits[i],
        ) by {
            assert(text::is_digit(more[i]));
        }
        assert(text::is_digit(more[digits.len() as int]));
        text::lemma_digits_value(digits);
    } else if text::all_digits(digits) && text::is_digit(c) {
        assert forall|i: int| 0 <= i < more.len() implies text::is_digit(#[trigger] more[i]) by {
            if i < digits.len() {
                assert(text::is_digit(digits[i]));
            }
        }
    }
    if s.len() == 1 && s[0] == '+' {
        assert(digits =~= Seq::<char>::empty());
        assert(more =~= seq![c]);
        if c == '+' {
            assert(!text::is_digit(more[0]));
        } else {
            assert(text::unsigned_digits(seq![c]) =~= seq![c]);
        }
    }
}

/// A number is never below zero nor above the greatest that is allowed.
pub proof fn numbers_are_in_range(s: Seq<char>, max: int)
    ensures
        text::unsigned_value(s, max) matches Some(n) ==> 0 <= n <= max,
{
    if text::unsigned_value(s, max) is Some {
        text::lemma_digits_value(text::unsigned_digits(s));
    }
}

/// Reading a number out of a text gives the number that it writes.
pub proof fn numbers_are_read(s: &str, max: u64, r: Option<u64>)
    requires
        call_ensures(text::parse_unsigned, (s, max), r),
    ensures
        r is Some <==> text::unsigned_value(s@, max as int) is Some,
        r matches Some(n) ==> text::unsigned_value(s@, max as int) == Some(n as int) && n <= max,
{
    numbers_are_in_range(s@, max as int);
}

/// A number in decimal is the only run of digits that writes it and does not
/// begin with a zero, but for zero itself.
pub proof fn decimals_are_shortest(n: nat)
    ensures
        n < 10 ==> text::decimal(n) == seq![(48 + n) as char],
        n >= 10 ==> text::decimal(n).len() > 1 && text::decimal(n)[0] != '0',
        n >= 10 ==> text::decimal(n).last() as int == 48 + n % 10,
        n >= 10 ==> text::decimal(n).drop_last() == text::decimal(n / 10),
        text::unsigned_value(text::decimal(n), n as int) == Some(n as int),
    decreases n,
{
    text::decimal_reads_back(n, n as int);
    if n >= 10 {
        decimals_are_shortest(n / 10);
        text::lemma_decimal(n / 10);
        assert(text::decimal(n).drop_last() =~= text::decimal(n / 10));
        assert(text::decimal(n)[0] == text::decimal(n / 10)[0]);
    }
}

/// Writing a number gives its decimal.
pub proof fn numbers_are_written(n: u64, r: String)
    requires
        call_ensures(text::decimal_text, (n,), r),
    ensures
        r@ == text::decimal(n as nat),
        text::unsigned_value(r@, 18446744073709551615) == Some(n as int),
{
    text::decimal_reads_back(n as nat, 18446744073709551615);
}

/// A text is blank if it has nothing but white space: tabs, line ends, spaces and
/// the other characters that Unicode calls so.
pub proof fn blanks_are_white_space(s: &str, r: bool)
    requires
        call_ensures(text::is_blank, (s,), r),
    ensures
        r <==> forall|i: int|
            #![trigger s@[i]]
            0 <= i < s@.len() ==> {
                let n = s@[i] as int;
                ||| n == 9 || n == 10 || n == 11 || n == 12 || n == 13 || n == 32
                ||| n == 133 || n == 160 || n == 5760 || 8192 <= n <= 8202
                ||| n == 8232 || n == 8233 || n == 8239 || n == 8287 || n == 12288
            },
{
    if r {
        assert forall|i: int| #![trigger s@[i]] 0 <= i < s@.len() implies {
            let n = s@[i] as int;
            ||| n == 9 || n == 10 || n == 11 || n == 12 || n == 13 || n == 32
            ||| n == 133 || n == 160 || n == 5760 || 8192 <= n <= 8202
            ||| n == 8232 || n == 8233 || n == 8239 || n == 8287 || n == 12288
        } by {
            assert(text::is_white_space(s@[i]));
        }
    } else {
        let i = choose|i: int| 0 <= i < s@.len() && !text::is_white_space(#[trigger] s@[i]);
        assert(!text::is_white_space(s@[i]));
    }
}

/// Texts are compared character by character, and begin with each other so.
pub proof fn texts_are_compared(a: &str, b: &str, same: bool, begins: bool)
    requires
        call_ensures(text::same_text, (a, b), same),
        call_ensures(text::begins_with, (a, b), begins),
    ensures
        same <==> a@ == b@,
        begins <==> b@.len() <= a@.len() && a@.take(b@.len() as int) == b@,
        same ==> begins,
{
    assert(a@.take(a@.len() as int) =~= a@);
    if begins {
        assert(a@.take(b@.len() as int) =~= b@);
    }
    if b@.len() <= a@.len() && a@.take(b@.len() as int) == b@ {
        assert(b@ =~= a@.subrange(0, b@.len() as int));
    }
}

/// The characters of a text are all of them, in their order.
pub proof fn characters_are_all_there(s: &str, r: Vec<char>)
    requires
        call_ensures(text::chars_of, (s,), r),
    ensures
        r@.len() == s@.len(),
        forall|i: int| 0 <= i < s@.len() ==> #[trigger] r@[i] == s@[i],
{
}

/// A run of digits is a run of the characters from `0` to `9`, and spells the
/// number that it writes.
pub proof fn digits_spell_numbers(s: Seq<char>)
    ensures
        text::all_digits(s) <==> forall|i: int|
            #![trigger s[i]]
            0 <= i < s.len() ==> 48 <= s[i] as int <= 57,
        s.len() > 0 && text::all_digits(s) ==> text::unsigned_value(s, text::digits_value(s))
            == Some(text::digits_value(s)),
{
    if text::all_digits(s) {
        assert forall|i: int| #![trigger s[i]] 0 <= i < s.len() implies 48 <= s[i] as int
            <= 57 by {
            assert(text::is_digit(s[i]));
        }
        if s.len() > 0 {
            assert(text::is_digit(s[0]));
        }
    }
}

} // verus!
