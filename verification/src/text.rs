//! Text and bytes: digits, splitting, comparison and UTF-8.

use vstd::prelude::*;
use vstd::utf8::{decode_utf8, valid_utf8};

verus! {

/// `String::push`: the character is appended to the end of the string.
pub assume_specification[ String::push ](s: &mut String, c: char)
    ensures
        final(s)@ == old(s)@.push(c),
;

/// What `String::from_utf8_lossy` makes of bytes that are not valid UTF-8.
pub uninterp spec fn replaced_text(bytes: Seq<u8>) -> Seq<char>;

/// The text in which a byte string is shown: what it encodes where it is valid
/// UTF-8, and else what replacing the invalid parts gives.
pub open spec fn lossy_text(bytes: Seq<u8>) -> Seq<char> {
    if valid_utf8(bytes) {
        decode_utf8(bytes)
    } else {
        replaced_text(bytes)
    }
}

/// Calls `String::from_utf8_lossy`: bytes that are valid UTF-8 are decoded as they
/// stand, and of others the result is a function of the bytes alone. Which
/// replacement characters then stand where is not said.
#[verifier::external_body]
pub(crate) fn to_lossy_text(bytes: &[u8]) -> (text: String)
    ensures
        valid_utf8(bytes@) ==> text@ == decode_utf8(bytes@),
        !valid_utf8(bytes@) ==> text@ == replaced_text(bytes@),
{
    String::from_utf8_lossy(bytes).into_owned()
}

/// The text that bytes encode, where they are valid UTF-8.
pub open spec fn utf8_text(bytes: Seq<u8>) -> Option<Seq<char>> {
    if valid_utf8(bytes) {
        Some(decode_utf8(bytes))
    } else {
        None
    }
}

/// Calls `core::str::from_utf8`: it succeeds on valid UTF-8 and on nothing else,
/// and hands back the text that the bytes encode.
#[verifier::external_body]
pub(crate) fn to_utf8_text(bytes: &[u8]) -> (text: Option<String>)
    ensures
        match text {
            Some(text) => utf8_text(bytes@) == Some(text@),
            None => utf8_text(bytes@) is None,
        },
{
    core::str::from_utf8(bytes).ok().map(String::from)
}

/// The digit of value `d`, in lower case from ten on.
pub open spec fn digit(d: int) -> char {
    if d < 10 {
        (48 + d) as char
    } else {
        (87 + d) as char
    }
}

/// `n` in decimal, without leading zeros.
pub open spec fn decimal(n: nat) -> Seq<char>
    decreases n,
{
    if n < 10 {
        seq![digit(n as int)]
    } else {
        decimal(n / 10).push(digit((n % 10) as int))
    }
}

/// The last `width` hexadecimal digits of `n`.
pub open spec fn hex(n: nat, width: nat) -> Seq<char>
    decreases width,
{
    if width == 0 {
        seq![]
    } else {
        hex(n / 16, (width - 1) as nat).push(digit((n % 16) as int))
    }
}

fn digit_char(d: u8) -> (c: char)
    requires
        d < 16,
    ensures
        c == digit(d as int),
{
    if d < 10 {
        (48 + d) as char
    } else {
        (87 + d) as char
    }
}

/// Appends `n` in decimal.
pub fn push_decimal(out: &mut String, n: u128)
    ensures
        final(out)@ == old(out)@ + decimal(n as nat),
    decreases n,
{
    if n >= 10 {
        push_decimal(out, n / 10);
    }
    out.push(digit_char((n % 10) as u8));
}

/// Appends the last `width` hexadecimal digits of `n`.
pub fn push_hex(out: &mut String, n: u32, width: u8)
    ensures
        final(out)@ == old(out)@ + hex(n as nat, width as nat),
    decreases width,
{
    if width > 0 {
        push_hex(out, n / 16, width - 1);
        out.push(digit_char((n % 16) as u8));
    }
}

/// The characters of `s`.
pub fn chars_of(s: &str) -> (v: Vec<char>)
    ensures
        v@ == s@,
{
    let mut v: Vec<char> = Vec::new();
    for c in it: s.chars()
        invariant
            v@ == it.seq().take(it.index() as int),
            it.seq() == s@,
    {
        v.push(c);
    }
    v
}

/// Whether two byte strings are the same.
pub fn same_bytes(a: &[u8], b: &[u8]) -> (same: bool)
    ensures
        same == (a@ == b@),
{
    if a.len() != b.len() {
        return false;
    }
    for i in 0..a.len()
        invariant
            a@.len() == b@.len(),
            forall|j: int| 0 <= j < i ==> a@[j] == b@[j],
    {
        if a[i] != b[i] {
            return false;
        }
    }
    assert(a@ =~= b@);
    true
}

/// Whether two texts are the same.
pub fn same_text(a: &str, b: &str) -> (same: bool)
    ensures
        same == (a@ == b@),
{
    proof {
        vstd::utf8::encode_utf8_decode_utf8(a@);
        vstd::utf8::encode_utf8_decode_utf8(b@);
    }
    same_bytes(a.as_bytes(), b.as_bytes())
}

/// The parts of `s` between the separators: always one more than there are separators.
pub open spec fn split<T>(s: Seq<T>, separator: T) -> Seq<Seq<T>>
    decreases s.len(),
{
    if s.len() == 0 {
        seq![seq![]]
    } else {
        let parts = split(s.drop_last(), separator);
        if s.last() == separator {
            parts.push(seq![])
        } else {
            parts.drop_last().push(parts.last().push(s.last()))
        }
    }
}

/// `split` never gives an empty list.
pub proof fn lemma_split_not_empty<T>(s: Seq<T>, separator: T)
    ensures
        split(s, separator).len() > 0,
    decreases s.len(),
{
    if s.len() > 0 {
        lemma_split_not_empty(s.drop_last(), separator);
    }
}

/// The contents of each part.
pub open spec fn views<T>(parts: Seq<Vec<T>>) -> Seq<Seq<T>> {
    parts.map_values(|part: Vec<T>| part@)
}

/// The parts of a byte string between the separators.
pub fn split_bytes(s: &[u8], separator: u8) -> (parts: Vec<Vec<u8>>)
    ensures
        views(parts@) == split(s@, separator),
{
    let mut parts: Vec<Vec<u8>> = Vec::new();
    let mut current: Vec<u8> = Vec::new();
    assert(views(parts@).push(current@) =~= split(s@.take(0), separator));
    for i in 0..s.len()
        invariant
            views(parts@).push(current@) == split(s@.take(i as int), separator),
    {
        let ghost before = views(parts@).push(current@);
        proof {
            assert(s@.take(i + 1).drop_last() =~= s@.take(i as int));
            assert(before.drop_last() =~= views(parts@));
        }
        if s[i] == separator {
            let ghost finished = current@;
            let ghost earlier = parts@;
            parts.push(current);
            current = Vec::new();
            assert(views(parts@) =~= views(earlier).push(finished));
            assert(current@ =~= seq![]);
        } else {
            current.push(s[i]);
        }
    }
    assert(s@.take(s@.len() as int) =~= s@);
    let ghost earlier = parts@;
    let ghost finished = current@;
    parts.push(current);
    assert(views(parts@) =~= views(earlier).push(finished));
    parts
}

/// The parts of a list of characters between the separators.
pub fn split_chars(s: &[char], separator: char) -> (parts: Vec<Vec<char>>)
    ensures
        views(parts@) == split(s@, separator),
{
    let mut parts: Vec<Vec<char>> = Vec::new();
    let mut current: Vec<char> = Vec::new();
    assert(views(parts@).push(current@) =~= split(s@.take(0), separator));
    for i in 0..s.len()
        invariant
            views(parts@).push(current@) == split(s@.take(i as int), separator),
    {
        let ghost before = views(parts@).push(current@);
        proof {
            assert(s@.take(i + 1).drop_last() =~= s@.take(i as int));
            assert(before.drop_last() =~= views(parts@));
        }
        if s[i] == separator {
            let ghost finished = current@;
            let ghost earlier = parts@;
            parts.push(current);
            current = Vec::new();
            assert(views(parts@) =~= views(earlier).push(finished));
            assert(current@ =~= seq![]);
        } else {
            current.push(s[i]);
        }
    }
    assert(s@.take(s@.len() as int) =~= s@);
    let ghost earlier = parts@;
    let ghost finished = current@;
    parts.push(current);
    assert(views(parts@) =~= views(earlier).push(finished));
    parts
}

/// A line without the carriage return that goes with its line feed.
pub open spec fn without_return(line: Seq<char>) -> Seq<char> {
    if line.len() > 0 && line.last() == '\r' {
        line.drop_last()
    } else {
        line
    }
}

/// The lines of a text, each without its line ending: a line feed, or a carriage
/// return and a line feed. The last line needs no ending and keeps a carriage return.
pub open spec fn lines(s: Seq<char>) -> Seq<Seq<char>> {
    let parts = split(s, '\n');
    let ended = parts.drop_last().map_values(|line: Seq<char>| without_return(line));
    if parts.last().len() == 0 {
        ended
    } else {
        ended.push(parts.last())
    }
}

/// The character in lower case, where it is an ASCII letter.
pub open spec fn ascii_lower(c: char) -> char {
    if 'A' <= c <= 'Z' {
        (c as int + 32) as char
    } else {
        c
    }
}

/// Whether two texts are the same but for the case of ASCII letters.
pub open spec fn same_ignoring_case(a: Seq<char>, b: Seq<char>) -> bool {
    &&& a.len() == b.len()
    &&& forall|i: int| 0 <= i < a.len() ==> ascii_lower(#[trigger] a[i]) == ascii_lower(b[i])
}

fn to_ascii_lower(c: char) -> (lower: char)
    ensures
        lower == ascii_lower(c),
{
    if 'A' <= c && c <= 'Z' {
        (c as u8 + 32) as char
    } else {
        c
    }
}

/// Whether the first `count` characters of a list and a text are the same but for the
/// case of ASCII letters.
fn range_matches(s: &Vec<char>, count: usize, text: &Vec<char>) -> (same: bool)
    requires
        count <= s@.len(),
    ensures
        same == same_ignoring_case(s@.take(count as int), text@),
{
    if count != text.len() {
        return false;
    }
    for i in 0..count
        invariant
            count == text@.len(),
            count <= s@.len(),
            forall|j: int| 0 <= j < i ==> ascii_lower(s@[j]) == ascii_lower(text@[j]),
    {
        if to_ascii_lower(s[i]) != to_ascii_lower(text[i]) {
            assert(ascii_lower(s@.take(count as int)[i as int]) != ascii_lower(text@[i as int]));
            return false;
        }
    }
    true
}

/// Whether one of the lines of a text is the given one but for the case of ASCII letters.
pub open spec fn has_line(s: Seq<char>, line: Seq<char>) -> bool {
    exists|i: int|
        0 <= i < lines(s).len() && same_ignoring_case(#[trigger] lines(s)[i], line)
}

/// Whether one of the lines of a text is the given one but for the case of ASCII letters.
pub fn text_has_line(s: &str, line: &str) -> (found: bool)
    ensures
        found == has_line(s@, line@),
{
    let wanted = chars_of(line);
    let characters = chars_of(s);
    let parts = split_chars(characters.as_slice(), '\n');
    let ghost all = views(parts@);
    proof {
        lemma_split_not_empty(s@, '\n');
    }
    let n: usize = parts.len() - 1;
    for i in 0..n
        invariant
            n == parts@.len() - 1,
            all == views(parts@),
            all == split(s@, '\n'),
            wanted@ == line@,
            forall|j: int| 0 <= j < i ==> !same_ignoring_case(#[trigger] lines(s@)[j], line@),
    {
        let part = &parts[i];
        let len: usize = part.len();
        let count: usize = if len > 0 && part[len - 1] == '\r' {
            len - 1
        } else {
            len
        };
        proof {
            assert(all.drop_last()[i as int] == part@);
            assert(part@.take(count as int) =~= without_return(part@));
            assert(lines(s@)[i as int] == without_return(part@));
        }
        if range_matches(part, count, &wanted) {
            return true;
        }
    }
    let last = &parts[n];
    assert(all.last() == last@);
    assert(last@.take(last@.len() as int) =~= last@);
    if last.len() == 0 {
        assert(lines(s@).len() == n);
        false
    } else {
        assert(lines(s@).len() == n + 1);
        assert(lines(s@)[n as int] == last@);
        range_matches(last, last.len(), &wanted)
    }
}

/// Whether a character has the Unicode property `White_Space`.
pub open spec fn is_whitespace(c: char) -> bool {
    ||| 0x09 <= c as int <= 0x0d
    ||| c as int == 0x20
    ||| c as int == 0x85
    ||| c as int == 0xa0
    ||| c as int == 0x1680
    ||| 0x2000 <= c as int <= 0x200a
    ||| c as int == 0x2028
    ||| c as int == 0x2029
    ||| c as int == 0x202f
    ||| c as int == 0x205f
    ||| c as int == 0x3000
}

fn is_whitespace_char(c: char) -> (white: bool)
    ensures
        white == is_whitespace(c),
{
    let code: u32 = c as u32;
    (0x09 <= code && code <= 0x0d) || code == 0x20 || code == 0x85 || code == 0xa0 || code == 0x1680
        || (0x2000 <= code && code <= 0x200a) || code == 0x2028 || code == 0x2029 || code == 0x202f
        || code == 0x205f || code == 0x3000
}

/// A text without white space at its ends.
pub open spec fn trimmed(s: Seq<char>) -> Seq<char>
    decreases s.len(),
{
    if s.len() > 0 && is_whitespace(s[0]) {
        trimmed(s.drop_first())
    } else if s.len() > 0 && is_whitespace(s.last()) {
        trimmed(s.drop_last())
    } else {
        s
    }
}

/// The characters of a text without white space at its ends.
pub fn trimmed_chars(s: &str) -> (v: Vec<char>)
    ensures
        v@ == trimmed(s@),
{
    let all = chars_of(s);
    let mut start: usize = 0;
    let mut end: usize = all.len();
    assert(all@.subrange(0, end as int) =~= s@);
    while start < end && is_whitespace_char(all[start])
        invariant
            start <= end == all@.len(),
            trimmed(all@.subrange(start as int, end as int)) == trimmed(s@),
        ensures
            start <= end == all@.len(),
            trimmed(all@.subrange(start as int, end as int)) == trimmed(s@),
            start < end ==> !is_whitespace(all@[start as int]),
        decreases end - start,
    {
        assert(all@.subrange(start as int, end as int).drop_first() =~= all@.subrange(
            start + 1,
            end as int,
        ));
        start = start + 1;
    }
    while start < end && is_whitespace_char(all[end - 1])
        invariant
            start <= end <= all@.len(),
            trimmed(all@.subrange(start as int, end as int)) == trimmed(s@),
            start < end ==> !is_whitespace(all@[start as int]),
        ensures
            start <= end <= all@.len(),
            trimmed(all@.subrange(start as int, end as int)) == trimmed(s@),
            start < end ==> !is_whitespace(all@[start as int]),
            start < end ==> !is_whitespace(all@[end - 1]),
        decreases end - start,
    {
        assert(all@.subrange(start as int, end as int).drop_last() =~= all@.subrange(
            start as int,
            end - 1,
        ));
        end = end - 1;
    }
    vstd::slice::slice_to_vec(vstd::slice::slice_subrange(all.as_slice(), start, end))
}

/// The value of a hexadecimal digit of either case.
pub open spec fn digit_value(c: char) -> Option<nat> {
    if '0' <= c <= '9' {
        Some((c as int - 48) as nat)
    } else if 'a' <= c <= 'f' {
        Some((c as int - 87) as nat)
    } else if 'A' <= c <= 'F' {
        Some((c as int - 55) as nat)
    } else {
        None
    }
}

/// The number that hexadecimal digits write, zero of none.
pub open spec fn digits_value(s: Seq<char>) -> nat
    decreases s.len(),
{
    if s.len() == 0 {
        0
    } else {
        16 * digits_value(s.drop_last()) + digit_value(s.last())->0
    }
}

/// Whether there is at least one character and all are hexadecimal digits.
pub open spec fn are_digits(s: Seq<char>) -> bool {
    &&& s.len() > 0
    &&& forall|i: int| 0 <= i < s.len() ==> digit_value(#[trigger] s[i]) is Some
}

/// A text without one plus sign at its start.
pub open spec fn without_plus(s: Seq<char>) -> Seq<char> {
    if s.len() > 0 && s[0] == '+' {
        s.drop_first()
    } else {
        s
    }
}

/// The byte that a text writes in hexadecimal, with or without a plus sign.
pub open spec fn hex_byte(s: Seq<char>) -> Option<u8> {
    let digits = without_plus(s);
    if are_digits(digits) && digits_value(digits) <= 255 {
        Some(digits_value(digits) as u8)
    } else {
        None
    }
}

fn to_digit_value(c: char) -> (value: Option<u32>)
    ensures
        match value {
            Some(value) => digit_value(c) == Some(value as nat) && value < 16,
            None => digit_value(c) is None,
        },
{
    if '0' <= c && c <= '9' {
        Some(c as u32 - 48)
    } else if 'a' <= c && c <= 'f' {
        Some(c as u32 - 87)
    } else if 'A' <= c && c <= 'F' {
        Some(c as u32 - 55)
    } else {
        None
    }
}

/// The byte that a text writes in hexadecimal, with or without a plus sign.
pub fn parse_hex_byte(s: &[char]) -> (byte: Option<u8>)
    ensures
        byte == hex_byte(s@),
{
    let start: usize = if s.len() > 0 && s[0] == '+' {
        1
    } else {
        0
    };
    let ghost digits = without_plus(s@);
    if start == s.len() {
        assert(digits.len() == 0);
        return None;
    }
    let mut value: u32 = 0;
    assert(digits.take(0) =~= seq![]);
    for i in start..s.len()
        invariant
            start <= 1,
            start < s@.len(),
            digits == without_plus(s@),
            start == 1 <==> (s@.len() > 0 && s@[0] == '+'),
            value <= 4095,
            forall|j: int| 0 <= j < i - start ==> digit_value(#[trigger] digits[j]) is Some,
            digits_value(digits.take(i - start)) <= 255 ==> value == digits_value(
                digits.take(i - start),
            ),
            digits_value(digits.take(i - start)) > 255 ==> value > 255,
    {
        let ghost k = i - start;
        proof {
            assert(digits[k] == s@[i as int]);
            assert(digits.take(k + 1).drop_last() =~= digits.take(k));
        }
        match to_digit_value(s[i]) {
            Some(digit) => {
                if value <= 255 {
                    value = 16 * value + digit;
                }
            },
            None => {
                return None;
            },
        }
    }
    assert(digits.take(digits.len() as int) =~= digits);
    if value <= 255 {
        Some(value as u8)
    } else {
        None
    }
}

} // verus!
