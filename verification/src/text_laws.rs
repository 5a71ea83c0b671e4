//! What texts stand for: numbers, lines and white space, read back from what was written.

use vstd::arithmetic::power::{lemma_pow1, pow};
use vstd::prelude::*;

use crate::sorting::bytes_le;
use crate::text::{
    are_digits, decimal, digit_value, digits_value, has_line, hex, hex_byte, is_whitespace, lines,
    same_ignoring_case, split, trimmed, without_plus, without_return,
};

verus! {

/// The number that decimal digits write, each digit worth ten times the one after it.
pub open spec fn number(s: Seq<char>) -> nat
    decreases s.len(),
{
    if s.len() == 0 {
        0
    } else {
        (10 * number(s.drop_last()) + (s.last() as int - '0' as int)) as nat
    }
}

/// A number in decimal is made of decimal digits, has no needless zero in front, and is
/// read back as the number.
pub proof fn law_decimal_is_read_back(n: nat)
    ensures
        decimal(n).len() > 0,
        forall|i: int| 0 <= i < decimal(n).len() ==> '0' <= #[trigger] decimal(n)[i] <= '9',
        decimal(n)[0] == '0' ==> n == 0,
        number(decimal(n)) == n,
    decreases n,
{
    if n < 10 {
        assert(decimal(n).drop_last() =~= seq![]);
        assert(number(decimal(n).drop_last()) == 0);
        assert(decimal(n).last() as int == 48 + n);
    } else {
        law_decimal_is_read_back(n / 10);
        assert(decimal(n).drop_last() =~= decimal(n / 10));
        assert(decimal(n).last() as int == 48 + n % 10);
    }
}

/// No two numbers are written alike in decimal.
pub proof fn law_decimals_are_told_apart(a: nat, b: nat)
    ensures
        decimal(a) == decimal(b) <==> a == b,
{
    law_decimal_is_read_back(a);
    law_decimal_is_read_back(b);
}

/// The hexadecimal digits of a number are as many as asked for, in lower case, and are
/// read back as the number, less what has no place in them.
pub proof fn law_hex_is_read_back(n: nat, width: nat)
    ensures
        hex(n, width).len() == width,
        forall|i: int|
            0 <= i < width ==> ('0' <= #[trigger] hex(n, width)[i] <= '9') || ('a' <= hex(
                n,
                width,
            )[i] <= 'f'),
        digits_value(hex(n, width)) == n as int % pow(16, width),
        pow(16, width) > 0,
    decreases width,
{
    vstd::arithmetic::power::lemma_pow_positive(16, width);
    if width == 0 {
        vstd::arithmetic::power::lemma_pow0(16);
    } else {
        let before = (width - 1) as nat;
        law_hex_is_read_back(n / 16, before);
        assert(hex(n, width).drop_last() =~= hex(n / 16, before));
        vstd::arithmetic::power::lemma_pow_adds(16, before, 1);
        lemma_pow1(16);
        vstd::arithmetic::power::lemma_pow_positive(16, before);
        let p = pow(16, before);
        assert(pow(16, width) == p * 16);
        vstd::arithmetic::div_mod::lemma_breakdown(n as int, 16, p);
        assert(pow(16, width) == 16 * p) by (nonlinear_arith)
            requires
                pow(16, width) == p * 16,
        ;
    }
}

/// The two hexadecimal digits of a byte are read back as the byte.
pub proof fn law_hex_bytes_are_read_back(byte: u8)
    ensures
        hex(byte as nat, 2).len() == 2,
        hex_byte(hex(byte as nat, 2)) == Some(byte),
{
    let s = hex(byte as nat, 2);
    law_hex_is_read_back(byte as nat, 2);
    reveal_with_fuel(pow, 3);
    assert(pow(16, 2) == 256);
    assert(without_plus(s) == s);
    assert forall|i: int| 0 <= i < s.len() implies digit_value(#[trigger] s[i]) is Some by {}
    assert(are_digits(s));
}

/// Zeros in front of the digits of a byte change nothing.
pub proof fn law_leading_zeros_do_not_count(zeros: Seq<char>, digits: Seq<char>)
    requires
        forall|i: int| 0 <= i < zeros.len() ==> zeros[i] == '0',
        digits.len() > 0,
        digits[0] != '+',
    ensures
        hex_byte(zeros + digits) == hex_byte(digits),
    decreases zeros.len(),
{
    let all = zeros + digits;
    assert(without_plus(digits) == digits);
    assert(all[0] != '+') by {
        if zeros.len() > 0 {
            assert(all[0] == zeros[0]);
        } else {
            assert(all[0] == digits[0]);
        }
    }
    lemma_zeros_are_worth_nothing(zeros, digits);
    if are_digits(digits) {
        assert forall|i: int| 0 <= i < all.len() implies digit_value(#[trigger] all[i]) is Some by {
            if i < zeros.len() {
                assert(all[i] == zeros[i]);
            } else {
                assert(all[i] == digits[i - zeros.len()]);
            }
        }
    }
    if are_digits(all) {
        assert forall|i: int| 0 <= i < digits.len() implies digit_value(
            #[trigger] digits[i],
        ) is Some by {
            assert(all[i + zeros.len()] == digits[i]);
        }
    }
}

proof fn lemma_zeros_are_worth_nothing(zeros: Seq<char>, digits: Seq<char>)
    requires
        forall|i: int| 0 <= i < zeros.len() ==> zeros[i] == '0',
    ensures
        digits_value(zeros + digits) == digits_value(digits),
    decreases zeros.len() + digits.len(),
{
    if digits.len() > 0 {
        assert((zeros + digits).drop_last() =~= zeros + digits.drop_last());
        lemma_zeros_are_worth_nothing(zeros, digits.drop_last());
    } else if zeros.len() > 0 {
        assert((zeros + digits).drop_last() =~= zeros.drop_last() + digits);
        assert((zeros + digits).last() == zeros.last());
        lemma_zeros_are_worth_nothing(zeros.drop_last(), digits);
    }
}

/// White space around a text is taken away, and nothing of the text itself.
pub proof fn law_trimming_keeps_the_text(before: Seq<char>, text: Seq<char>, after: Seq<char>)
    requires
        forall|i: int| 0 <= i < before.len() ==> is_whitespace(#[trigger] before[i]),
        forall|i: int| 0 <= i < after.len() ==> is_whitespace(#[trigger] after[i]),
        text.len() > 0,
        !is_whitespace(text[0]),
        !is_whitespace(text.last()),
    ensures
        trimmed(before + text + after) == text,
    decreases before.len() + after.len(),
{
    let all = before + text + after;
    if before.len() > 0 {
        assert(all[0] == before[0]);
        assert(all.drop_first() =~= before.drop_first() + text + after);
        law_trimming_keeps_the_text(before.drop_first(), text, after);
    } else {
        assert(all[0] == text[0]);
        if after.len() > 0 {
            assert(all.last() == after.last());
            assert(all.drop_last() =~= before + text + after.drop_last());
            law_trimming_keeps_the_text(before, text, after.drop_last());
        } else {
            assert(all =~= text);
        }
    }
}

/// Blanks, tabs and line endings are white space; letters, digits and signs are not.
pub proof fn law_printed_characters_are_no_white_space(c: char)
    ensures
        c == ' ' || c == '\t' || c == '\n' || c == '\r' ==> is_whitespace(c),
        '!' <= c <= '~' ==> !is_whitespace(c),
{
}

/// What is split after a separator is split on its own.
pub proof fn law_split_after_a_separator<T>(before: Seq<T>, after: Seq<T>, separator: T)
    ensures
        split(before.push(separator) + after, separator) == split(before, separator) + split(
            after,
            separator,
        ),
    decreases after.len(),
{
    let all = before.push(separator) + after;
    crate::text::lemma_split_not_empty(after, separator);
    if after.len() == 0 {
        assert(all.drop_last() =~= before);
        assert(all.last() == separator);
        assert(split(all, separator) =~= split(before, separator) + split(after, separator));
    } else {
        let shorter = after.drop_last();
        assert(all.drop_last() =~= before.push(separator) + shorter);
        assert(all.last() == after.last());
        law_split_after_a_separator(before, shorter, separator);
        crate::text::lemma_split_not_empty(shorter, separator);
        let first = split(before, separator);
        let parts = split(shorter, separator);
        assert((first + parts).last() == parts.last());
        assert((first + parts).drop_last() =~= first + parts.drop_last());
        assert(split(all, separator) =~= first + split(after, separator));
    }
}

/// What holds no separator is split into itself.
pub proof fn law_nothing_to_split<T>(s: Seq<T>, separator: T)
    requires
        forall|i: int| 0 <= i < s.len() ==> s[i] != separator,
    ensures
        split(s, separator) == seq![s],
    decreases s.len(),
{
    if s.len() == 0 {
        assert(s =~= seq![]);
    } else {
        law_nothing_to_split(s.drop_last(), separator);
        assert(s.drop_last().push(s.last()) =~= s);
        assert(split(s, separator) =~= seq![s]);
    }
}

/// A line and its line ending in front of a text: the line is the first of its lines, and
/// the lines of the text come after it.
pub proof fn law_first_line(line: Seq<char>, after: Seq<char>)
    requires
        forall|i: int| 0 <= i < line.len() ==> line[i] != '\n',
        line.len() > 0 ==> line.last() != '\r',
    ensures
        lines(line.push('\n') + after) == seq![line] + lines(after),
        lines(line + seq!['\r', '\n'] + after) == seq![line] + lines(after),
        lines(seq![]) == Seq::<Seq<char>>::empty(),
{
    let returned = line.push('\r');
    crate::text::lemma_split_not_empty(after, '\n');
    law_nothing_to_split(line, '\n');
    law_nothing_to_split(returned, '\n');
    law_split_after_a_separator(line, after, '\n');
    law_split_after_a_separator(returned, after, '\n');
    assert(line + seq!['\r', '\n'] + after =~= returned.push('\n') + after);
    assert(returned.drop_last() =~= line);
    let rest = split(after, '\n');
    assert((seq![line] + rest).drop_last() =~= seq![line] + rest.drop_last());
    assert((seq![returned] + rest).drop_last() =~= seq![returned] + rest.drop_last());
    assert((seq![line] + rest).last() == rest.last());
    assert((seq![returned] + rest).last() == rest.last());
    assert(without_return(line) == line);
    assert(without_return(returned) == line);
    assert(lines(line.push('\n') + after) =~= seq![line] + lines(after));
    assert(lines(returned.push('\n') + after) =~= seq![line] + lines(after));
    assert(lines(seq![]) =~= Seq::<Seq<char>>::empty());
}

/// A text that holds no line ending is one line.
pub proof fn law_one_line(line: Seq<char>)
    requires
        line.len() > 0,
        forall|i: int| 0 <= i < line.len() ==> line[i] != '\n',
    ensures
        lines(line) == seq![line],
{
    law_nothing_to_split(line, '\n');
    assert(lines(line) =~= seq![line]);
}

/// A line is found wherever in a text it stands: at its start or after a line feed, and
/// with a line feed, or a carriage return and a line feed, behind it. The case of ASCII
/// letters does not matter.
pub proof fn law_line_is_found(
    before: Seq<char>,
    line: Seq<char>,
    after: Seq<char>,
    wanted: Seq<char>,
)
    requires
        before.len() > 0 ==> before.last() == '\n',
        line.len() > 0,
        line.last() != '\r',
        forall|i: int| 0 <= i < line.len() ==> line[i] != '\n',
        line.len() == wanted.len(),
        forall|i: int|
            0 <= i < line.len() ==> #[trigger] line[i] == wanted[i] || ('A' <= wanted[i] <= 'Z'
                && line[i] as int == wanted[i] as int + 32),
    ensures
        has_line(before + line.push('\n') + after, wanted),
        has_line(before + (line + seq!['\r', '\n']) + after, wanted),
{
    let plain = line.push('\n') + after;
    let returned = line + seq!['\r', '\n'] + after;
    law_first_line(line, after);
    assert(same_ignoring_case(line, wanted));
    lemma_lines_after(before, plain, 0);
    lemma_lines_after(before, returned, 0);
    assert(before + line.push('\n') + after =~= before + plain);
    assert(before + (line + seq!['\r', '\n']) + after =~= before + returned);
    assert(lines(plain)[0] == line);
    assert(lines(returned)[0] == line);
}

/// A line of a text is still there where whole lines stand before the text.
proof fn lemma_lines_after(before: Seq<char>, text: Seq<char>, i: int)
    requires
        before.len() > 0 ==> before.last() == '\n',
        0 <= i < lines(text).len(),
    ensures
        exists|j: int|
            0 <= j < lines(before + text).len() && #[trigger] lines(before + text)[j]
                == lines(text)[i],
{
    if before.len() == 0 {
        assert(before + text =~= text);
        assert(lines(before + text)[i] == lines(text)[i]);
    } else {
        let head = before.drop_last();
        assert(before =~= head.push('\n'));
        law_split_after_a_separator(head, text, '\n');
        crate::text::lemma_split_not_empty(text, '\n');
        let first = split(head, '\n');
        let parts = split(text, '\n');
        assert((first + parts).last() == parts.last());
        assert((first + parts).drop_last() =~= first + parts.drop_last());
        assert(lines(before + text)[first.len() + i] == lines(text)[i]);
    }
}

/// Byte strings are ordered by the first byte in which they differ, and one comes before
/// what it is the beginning of.
pub proof fn law_first_difference_decides(common: Seq<u8>, a: Seq<u8>, b: Seq<u8>)
    ensures
        a.len() > 0 && b.len() > 0 && a[0] < b[0] ==> bytes_le(common + a, common + b)
            && !bytes_le(common + b, common + a),
        bytes_le(common, common + b),
        b.len() > 0 ==> !bytes_le(common + b, common),
    decreases common.len(),
{
    if common.len() > 0 {
        let rest = common.drop_first();
        law_first_difference_decides(rest, a, b);
        assert((common + a).drop_first() =~= rest + a);
        assert((common + b).drop_first() =~= rest + b);
    } else {
        assert(common + a =~= a);
        assert(common + b =~= b);
    }
}

/// Texts that are the same but for case differ at most in ASCII letters, which are the same
/// letter in upper and lower case.
pub proof fn law_case_is_that_of_ascii_letters(a: Seq<char>, b: Seq<char>, i: int)
    requires
        same_ignoring_case(a, b),
        0 <= i < a.len(),
    ensures
        a.len() == b.len(),
        a[i] != b[i] ==> ('A' <= a[i] <= 'Z' && b[i] as int == a[i] as int + 32) || ('A' <= b[i]
            <= 'Z' && a[i] as int == b[i] as int + 32),
{
    if a[i] != b[i] {
        lemma_lower(a[i], b[i]);
    }
}

proof fn lemma_lower(a: char, b: char)
    requires
        crate::text::ascii_lower(a) == crate::text::ascii_lower(b),
        a != b,
    ensures
        ('A' <= a <= 'Z' && b as int == a as int + 32) || ('A' <= b <= 'Z' && a as int == b as int
            + 32),
{
}

/// The values of the hexadecimal digits, in either case; other characters have none.
pub proof fn law_digits_have_their_values(c: char)
    ensures
        '0' <= c <= '9' ==> digit_value(c) == Some((c as int - '0' as int) as nat),
        'a' <= c <= 'f' ==> digit_value(c) == Some((c as int - 'a' as int + 10) as nat),
        'A' <= c <= 'F' ==> digit_value(c) == Some((c as int - 'A' as int + 10) as nat),
        digit_value(c) is Some ==> ('0' <= c <= '9') || ('a' <= c <= 'f') || ('A' <= c <= 'F'),
{
}

/// A number in hexadecimal is read digit by digit, each worth sixteen times the one after.
pub proof fn law_digits_are_worth_their_place(digits: Seq<char>, c: char)
    requires
        digit_value(c) is Some,
    ensures
        digits_value(seq![]) == 0,
        digits_value(digits.push(c)) == 16 * digits_value(digits) + digit_value(c)->0,
{
    assert(digits.push(c).drop_last() =~= digits);
}

/// A byte is read from hexadecimal digits up to its greatest value and from nothing else;
/// one plus sign before them does not count.
pub proof fn law_bytes_are_read_from_digits(digits: Seq<char>)
    requires
        digits.len() > 0 ==> digits[0] != '+',
    ensures
        digits.len() == 0 ==> hex_byte(digits) is None,
        (exists|i: int| 0 <= i < digits.len() && digit_value(#[trigger] digits[i]) is None)
            ==> hex_byte(digits) is None,
        digits_value(digits) > 255 ==> hex_byte(digits) is None,
        digits.len() > 0 && digits_value(digits) <= 255 && (forall|i: int|
            0 <= i < digits.len() ==> digit_value(#[trigger] digits[i]) is Some) ==> hex_byte(
            digits,
        ) == Some(digits_value(digits) as u8),
        hex_byte(seq!['+'] + digits) == hex_byte(digits),
{
    assert(without_plus(digits) == digits);
    assert((seq!['+'] + digits).drop_first() =~= digits);
    assert(without_plus(seq!['+'] + digits) == digits);
}

/// Of white space alone nothing is left.
pub proof fn law_white_space_is_taken_away(space: Seq<char>)
    requires
        forall|i: int| 0 <= i < space.len() ==> is_whitespace(#[trigger] space[i]),
    ensures
        trimmed(space) == Seq::<char>::empty(),
    decreases space.len(),
{
    if space.len() > 0 {
        law_white_space_is_taken_away(space.drop_first());
    } else {
        assert(space =~= Seq::<char>::empty());
    }
}

} // verus!
