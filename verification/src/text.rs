//! Text as sequences of characters: conversions between strings and character vectors, searching,
//! and decimal numbers.

use vstd::prelude::*;
use vstd::string::StringExecFns;

verus! {

/// `std::string::String::push`: appends the character `c` to the end of `text`.
pub assume_specification[ std::string::String::push ](text: &mut std::string::String, c: char)
    ensures
        final(text)@ == old(text)@.push(c),
;

/// The characters of `text`.
pub fn chars_of(text: &str) -> (chars: Vec<char>)
    ensures
        chars@ == text@,
{
    let mut chars: Vec<char> = Vec::new();
    for c in iter: text.chars()
        invariant
            iter.seq() == text@,
            chars@ == text@.take(iter.index()),
    {
        chars.push(c);
    }
    chars
}

/// The text made of the characters of `chars` from `from` up to `to`.
pub fn string_of(chars: &Vec<char>, from: usize, to: usize) -> (text: String)
    requires
        from <= to <= chars@.len(),
    ensures
        text@ == chars@.subrange(from as int, to as int),
{
    let mut text = String::new();
    let mut i = from;
    while i < to
        invariant
            from <= i <= to <= chars@.len(),
            text@ == chars@.subrange(from as int, i as int),
        decreases to - i,
    {
        text.push(chars[i]);
        i = i + 1;
    }
    text
}

/// Whether `pattern` stands in `text` at position `at`.
pub open spec fn occurs_at(text: Seq<char>, at: int, pattern: Seq<char>) -> bool {
    &&& 0 <= at
    &&& at + pattern.len() <= text.len()
    &&& text.subrange(at, at + pattern.len()) == pattern
}

/// Whether `pattern` stands in `text` at position `at`.
pub fn matches_at(text: &Vec<char>, at: usize, pattern: &Vec<char>) -> (found: bool)
    ensures
        found == occurs_at(text@, at as int, pattern@),
{
    if at > text.len() || pattern.len() > text.len() - at {
        return false;
    }
    let mut i: usize = 0;
    while i < pattern.len()
        invariant
            at + pattern@.len() <= text@.len() <= usize::MAX,
            i <= pattern@.len(),
            forall|j: int| 0 <= j < i ==> text@[at + j] == pattern@[j],
        decreases pattern@.len() - i,
    {
        if text[at + i] != pattern[i] {
            assert(text@.subrange(at as int, at + pattern@.len())[i as int] != pattern@[i as int]);
            return false;
        }
        i = i + 1;
    }
    assert(text@.subrange(at as int, at + pattern@.len()) =~= pattern@);
    true
}

/// Whether `at` is the first position from `from` on at which `pattern` stands in `text`.
pub open spec fn is_first_occurrence(
    text: Seq<char>,
    from: int,
    pattern: Seq<char>,
    at: int,
) -> bool {
    &&& from <= at
    &&& occurs_at(text, at, pattern)
    &&& forall|earlier: int| from <= earlier < at ==> !occurs_at(text, earlier, pattern)
}

/// Whether `at` is the last position at which `pattern` stands in `text`.
pub open spec fn is_last_occurrence(text: Seq<char>, pattern: Seq<char>, at: int) -> bool {
    &&& occurs_at(text, at, pattern)
    &&& forall|later: int| at < later ==> !occurs_at(text, later, pattern)
}

/// The first position from `from` on at which `pattern` stands in `text`, if there is one.
pub open spec fn first_occurrence(text: Seq<char>, from: int, pattern: Seq<char>) -> Option<int> {
    if exists|at: int| is_first_occurrence(text, from, pattern, at) {
        Some(choose|at: int| is_first_occurrence(text, from, pattern, at))
    } else {
        None
    }
}

/// The last position at which `pattern` stands in `text`, if there is one.
pub open spec fn last_occurrence(text: Seq<char>, pattern: Seq<char>) -> Option<int> {
    if exists|at: int| is_last_occurrence(text, pattern, at) {
        Some(choose|at: int| is_last_occurrence(text, pattern, at))
    } else {
        None
    }
}

/// A first occurrence is the only first occurrence.
pub proof fn lemma_first_occurrence(text: Seq<char>, from: int, pattern: Seq<char>, at: int)
    requires
        is_first_occurrence(text, from, pattern, at),
    ensures
        first_occurrence(text, from, pattern) == Some(at),
{
    let chosen = choose|at: int| is_first_occurrence(text, from, pattern, at);
    assert(is_first_occurrence(text, from, pattern, chosen));
    if chosen < at {
        assert(!occurs_at(text, chosen, pattern));
    } else if at < chosen {
        assert(!occurs_at(text, at, pattern));
    }
}

/// A last occurrence is the only last occurrence.
pub proof fn lemma_last_occurrence(text: Seq<char>, pattern: Seq<char>, at: int)
    requires
        is_last_occurrence(text, pattern, at),
    ensures
        last_occurrence(text, pattern) == Some(at),
{
    let chosen = choose|at: int| is_last_occurrence(text, pattern, at);
    assert(is_last_occurrence(text, pattern, chosen));
    if chosen < at {
        assert(!occurs_at(text, at, pattern));
    } else if at < chosen {
        assert(!occurs_at(text, chosen, pattern));
    }
}

/// Finds the first position from `from` on at which `pattern` stands in `text`.
pub fn find_from(text: &Vec<char>, from: usize, pattern: &Vec<char>) -> (found: Option<usize>)
    ensures
        match found {
            Some(at) => is_first_occurrence(text@, from as int, pattern@, at as int),
            None => forall|at: int| from <= at ==> !occurs_at(text@, at, pattern@),
        },
        found is Some <==> first_occurrence(text@, from as int, pattern@) is Some,
        found matches Some(at) ==> first_occurrence(text@, from as int, pattern@) == Some(
            at as int,
        ),
{
    let found = find_first(text, from, pattern);
    proof {
        if let Some(at) = found {
            lemma_first_occurrence(text@, from as int, pattern@, at as int);
        }
    }
    found
}

fn find_first(text: &Vec<char>, from: usize, pattern: &Vec<char>) -> (found: Option<usize>)
    ensures
        match found {
            Some(at) => is_first_occurrence(text@, from as int, pattern@, at as int),
            None => forall|at: int| from <= at ==> !occurs_at(text@, at, pattern@),
        },
{
    if from > text.len() {
        return None;
    }
    let mut at = from;
    loop
        invariant
            from <= at <= text@.len(),
            forall|earlier: int| from <= earlier < at ==> !occurs_at(text@, earlier, pattern@),
        decreases text@.len() - at,
    {
        if matches_at(text, at, pattern) {
            return Some(at);
        }
        if at == text.len() {
            return None;
        }
        at = at + 1;
    }
}

/// Finds the last position at which `pattern` stands in `text`.
pub fn find_last(text: &Vec<char>, pattern: &Vec<char>) -> (found: Option<usize>)
    ensures
        match found {
            Some(at) => is_last_occurrence(text@, pattern@, at as int),
            None => forall|at: int| !occurs_at(text@, at, pattern@),
        },
        found is Some <==> last_occurrence(text@, pattern@) is Some,
        found matches Some(at) ==> last_occurrence(text@, pattern@) == Some(at as int),
{
    let found = find_final(text, pattern);
    proof {
        if let Some(at) = found {
            lemma_last_occurrence(text@, pattern@, at as int);
        }
    }
    found
}

fn find_final(text: &Vec<char>, pattern: &Vec<char>) -> (found: Option<usize>)
    ensures
        match found {
            Some(at) => is_last_occurrence(text@, pattern@, at as int),
            None => forall|at: int| !occurs_at(text@, at, pattern@),
        },
{
    let mut at = text.len();
    loop
        invariant
            at <= text@.len(),
            forall|later: int| at < later ==> !occurs_at(text@, later, pattern@),
        decreases at,
    {
        if matches_at(text, at, pattern) {
            return Some(at);
        }
        if at == 0 {
            return None;
        }
        at = at - 1;
    }
}

/// The character of a decimal digit.
pub open spec fn digit_char(digit: int) -> char {
    if digit == 0 {
        '0'
    } else if digit == 1 {
        '1'
    } else if digit == 2 {
        '2'
    } else if digit == 3 {
        '3'
    } else if digit == 4 {
        '4'
    } else if digit == 5 {
        '5'
    } else if digit == 6 {
        '6'
    } else if digit == 7 {
        '7'
    } else if digit == 8 {
        '8'
    } else {
        '9'
    }
}

/// Whether `c` is one of the decimal digits `0` to `9`.
pub open spec fn is_digit(c: char) -> bool {
    '0' <= c <= '9'
}

/// The value of a decimal digit.
pub open spec fn digit_value(c: char) -> int {
    c as int - '0' as int
}

/// Whether all characters of `text` are decimal digits.
pub open spec fn all_digits(text: Seq<char>) -> bool {
    forall|i: int| 0 <= i < text.len() ==> is_digit(#[trigger] text[i])
}

/// The number that the decimal digits of `text` stand for; zero for the empty text.
pub open spec fn decimal_value(text: Seq<char>) -> nat
    decreases text.len(),
{
    if text.len() == 0 {
        0
    } else {
        (decimal_value(text.drop_last()) * 10 + digit_value(text.last())) as nat
    }
}

/// The decimal digits of `n`, without leading zeros.
pub open spec fn decimal(n: nat) -> Seq<char>
    decreases n,
{
    if n < 10 {
        seq![digit_char(n as int)]
    } else {
        decimal(n / 10).push(digit_char((n % 10) as int))
    }
}

/// The decimal digits of a number are digits, and they stand for the number.
pub proof fn lemma_decimal(n: nat)
    ensures
        decimal(n).len() > 0,
        all_digits(decimal(n)),
        decimal_value(decimal(n)) == n,
        n < 10 ==> decimal(n).len() == 1,
    decreases n,
{
    if n < 10 {
        let text = decimal(n);
        assert(text.drop_last() =~= Seq::<char>::empty());
        assert(decimal_value(text.drop_last()) == 0);
    } else {
        lemma_decimal(n / 10);
        let text = decimal(n);
        assert(text.drop_last() =~= decimal(n / 10));
    }
}

/// The character of the decimal digit `digit`.
pub fn digit_to_char(digit: u8) -> (c: char)
    requires
        digit < 10,
    ensures
        c == digit_char(digit as int),
        is_digit(c),
        digit_value(c) == digit,
{
    match digit {
        0 => '0',
        1 => '1',
        2 => '2',
        3 => '3',
        4 => '4',
        5 => '5',
        6 => '6',
        7 => '7',
        8 => '8',
        _ => '9',
    }
}

/// The value of `c` if it is a decimal digit.
pub fn char_to_digit(c: char) -> (digit: Option<u8>)
    ensures
        digit is Some <==> is_digit(c),
        digit matches Some(d) ==> d == digit_value(c) && d < 10 && c == digit_char(d as int),
{
    match c {
        '0' => Some(0),
        '1' => Some(1),
        '2' => Some(2),
        '3' => Some(3),
        '4' => Some(4),
        '5' => Some(5),
        '6' => Some(6),
        '7' => Some(7),
        '8' => Some(8),
        '9' => Some(9),
        _ => None,
    }
}

/// Appends the decimal digits of `n` to `text`.
pub fn push_decimal(text: &mut String, n: u64)
    ensures
        final(text)@ == old(text)@ + decimal(n as nat),
    decreases n,
{
    if n >= 10 {
        push_decimal(text, n / 10);
    }
    text.push(digit_to_char((n % 10) as u8));
    proof {
        if n < 10 {
            assert(old(text)@.push(digit_char(n as int)) =~= old(text)@ + decimal(n as nat));
        } else {
            assert((old(text)@ + decimal((n / 10) as nat)).push(digit_char((n % 10) as int))
                =~= old(text)@ + decimal(n as nat));
        }
    }
}

/// The decimal digits of `n`, without leading zeros.
pub fn format_u64(n: u64) -> (text: String)
    ensures
        text@ == decimal(n as nat),
{
    let mut text = String::new();
    push_decimal(&mut text, n);
    assert(Seq::<char>::empty() + decimal(n as nat) =~= decimal(n as nat));
    text
}

/// The characters that `'+'` followed by digits and plain digits share: `text` without a leading
/// plus sign.
pub open spec fn unsigned_digits(text: Seq<char>) -> Seq<char> {
    if text.len() > 0 && text[0] == '+' {
        text.skip(1)
    } else {
        text
    }
}

/// The number that `text` denotes as an unsigned decimal number of at most 64 bits: an optional
/// plus sign and at least one digit. `None` for any other text and for a number that is too
/// large.
pub open spec fn unsigned_value(text: Seq<char>) -> Option<u64> {
    let digits = unsigned_digits(text);
    if digits.len() > 0 && all_digits(digits) && decimal_value(digits) <= u64::MAX {
        Some(decimal_value(digits) as u64)
    } else {
        None
    }
}

/// The value of a text of digits does not fall when digits are appended.
pub proof fn lemma_decimal_value_grows(text: Seq<char>, len: int)
    requires
        all_digits(text),
        0 <= len <= text.len(),
    ensures
        decimal_value(text.take(len)) <= decimal_value(text),
    decreases text.len() - len,
{
    if len < text.len() {
        lemma_decimal_value_grows(text, len + 1);
        assert(text.take(len + 1).drop_last() =~= text.take(len));
        assert(is_digit(text[len]));
    } else {
        assert(text.take(len) =~= text);
    }
}

/// Reads the digits of `chars` from `from` up to `to` as a number, if they are digits and the
/// number fits.
pub fn parse_digits(chars: &Vec<char>, from: usize, to: usize) -> (value: Option<u64>)
    requires
        from <= to <= chars@.len(),
    ensures
        ({
            let digits = chars@.subrange(from as int, to as int);
            value == (if all_digits(digits) && decimal_value(digits) <= u64::MAX {
                Some(decimal_value(digits) as u64)
            } else {
                None
            })
        }),
{
    let ghost digits = chars@.subrange(from as int, to as int);
    let mut value: u64 = 0;
    let mut i = from;
    while i < to
        invariant
            from <= i <= to <= chars@.len(),
            digits == chars@.subrange(from as int, to as int),
            all_digits(digits.take(i - from)),
            value == decimal_value(digits.take(i - from)),
        decreases to - i,
    {
        let ghost before = digits.take(i - from);
        let ghost after = digits.take(i - from + 1);
        assert(after.drop_last() =~= before);
        assert(after.last() == chars@[i as int]);
        match char_to_digit(chars[i]) {
            None => {
                assert(!is_digit(digits[i - from]));
                return None;
            },
            Some(digit) => {
                assert forall|j: int| 0 <= j < after.len() implies is_digit(
                    #[trigger] after[j],
                ) by {
                    if j < before.len() {
                        assert(after[j] == before[j]);
                    }
                }
                if value > (u64::MAX - digit as u64) / 10 {
                    proof {
                        assert(decimal_value(after) > u64::MAX);
                        if all_digits(digits) {
                            lemma_decimal_value_grows(digits, i - from + 1);
                        }
                    }
                    return None;
                }
                value = value * 10 + digit as u64;
            },
        }
        i = i + 1;
    }
    assert(digits.take(to - from) =~= digits);
    Some(value)
}

/// Reads `text` as an unsigned decimal number of at most 64 bits: an optional plus sign and at
/// least one digit.
pub fn parse_u64(text: &Vec<char>) -> (value: Option<u64>)
    ensures
        value == unsigned_value(text@),
{
    let from: usize = if text.len() > 0 && text[0] == '+' {
        1
    } else {
        0
    };
    assert(text@.subrange(from as int, text@.len() as int) =~= unsigned_digits(text@));
    if from == text.len() {
        return None;
    }
    parse_digits(text, from, text.len())
}

/// Reading the decimal digits of a number gives the number back.
pub proof fn lemma_parse_format(n: u64)
    ensures
        unsigned_value(decimal(n as nat)) == Some(n),
{
    lemma_decimal(n as nat);
    let text = decimal(n as nat);
    assert(is_digit(text[0]));
}

/// The position behind `pattern` if it stands in `text` at position `at`.
pub fn prefix_end(text: &Vec<char>, at: usize, pattern: &str) -> (end: Option<usize>)
    ensures
        end is Some <==> occurs_at(text@, at as int, pattern@),
        end matches Some(e) ==> e == at + pattern@.len(),
{
    let pattern = chars_of(pattern);
    if matches_at(text, at, &pattern) {
        let len = text.len();
        assert(at + pattern@.len() <= len);
        Some(at + pattern.len())
    } else {
        None
    }
}

/// Whether `c` is white space, which is a character with the Unicode property `White_Space`.
pub open spec fn is_whitespace(c: char) -> bool {
    ||| '\u{9}' <= c <= '\u{d}'
    ||| c == ' '
    ||| c == '\u{85}'
    ||| c == '\u{a0}'
    ||| c == '\u{1680}'
    ||| '\u{2000}' <= c <= '\u{200a}'
    ||| c == '\u{2028}'
    ||| c == '\u{2029}'
    ||| c == '\u{202f}'
    ||| c == '\u{205f}'
    ||| c == '\u{3000}'
}

/// Whether `c` is white space.
pub fn char_is_whitespace(c: char) -> (whitespace: bool)
    ensures
        whitespace == is_whitespace(c),
{
    ('\u{9}' <= c && c <= '\u{d}') || c == ' ' || c == '\u{85}' || c == '\u{a0}' || c
        == '\u{1680}' || ('\u{2000}' <= c && c <= '\u{200a}') || c == '\u{2028}' || c
        == '\u{2029}' || c == '\u{202f}' || c == '\u{205f}' || c == '\u{3000}'
}

/// The length of `text` without the white space at its end.
pub open spec fn trimmed_len(text: Seq<char>) -> int
    decreases text.len(),
{
    if text.len() > 0 && is_whitespace(text.last()) {
        trimmed_len(text.drop_last())
    } else {
        text.len() as int
    }
}

/// Finds the end of the characters of `text` from `from` up to `to` without the white space at
/// their end.
pub fn trim_end(text: &Vec<char>, from: usize, to: usize) -> (end: usize)
    requires
        from <= to <= text@.len(),
    ensures
        end == from + trimmed_len(text@.subrange(from as int, to as int)),
        from <= end <= to,
{
    let mut end = to;
    while end > from && char_is_whitespace(text[end - 1])
        invariant
            from <= end <= to <= text@.len(),
            trimmed_len(text@.subrange(from as int, end as int)) == trimmed_len(
                text@.subrange(from as int, to as int),
            ),
        decreases end,
    {
        assert(text@.subrange(from as int, end as int).drop_last() =~= text@.subrange(
            from as int,
            end - 1,
        ));
        end = end - 1;
    }
    end
}

/// The decimal digits of `n`, with a minus sign in front if `n` is negative.
pub open spec fn signed_decimal(n: int) -> Seq<char> {
    if n < 0 {
        seq!['-'] + decimal((-n) as nat)
    } else {
        decimal(n as nat)
    }
}

/// Appends the decimal digits of `n` to `text`, with a minus sign in front if `n` is negative.
pub fn push_signed_decimal(text: &mut String, n: i32)
    ensures
        final(text)@ == old(text)@ + signed_decimal(n as int),
{
    if n < 0 {
        text.push('-');
        push_decimal(text, (-(n as i64)) as u64);
        assert(old(text)@.push('-') + decimal((-n) as nat) =~= old(text)@ + signed_decimal(
            n as int,
        ));
    } else {
        push_decimal(text, n as u64);
    }
}

/// `text` without a leading plus or minus sign.
pub open spec fn signed_digits(text: Seq<char>) -> Seq<char> {
    if text.len() > 0 && (text[0] == '+' || text[0] == '-') {
        text.skip(1)
    } else {
        text
    }
}

/// The number that `text` denotes as a signed decimal number of 32 bits: an optional plus or
/// minus sign and at least one digit. `None` for any other text and for a number out of range.
pub open spec fn signed_value(text: Seq<char>) -> Option<i32> {
    let negative = text.len() > 0 && text[0] == '-';
    let digits = signed_digits(text);
    let magnitude = decimal_value(digits);
    if digits.len() > 0 && all_digits(digits) && (if negative {
        magnitude <= 2147483648
    } else {
        magnitude <= 2147483647
    }) {
        Some((if negative {
            -magnitude
        } else {
            magnitude as int
        }) as i32)
    } else {
        None
    }
}

/// Reads the characters of `chars` from `from` up to `to` as a signed decimal number of 32 bits.
pub fn parse_i32(chars: &Vec<char>, from: usize, to: usize) -> (value: Option<i32>)
    requires
        from <= to <= chars@.len(),
    ensures
        value == signed_value(chars@.subrange(from as int, to as int)),
{
    let ghost text = chars@.subrange(from as int, to as int);
    if from == to {
        return None;
    }
    assert(text[0] == chars@[from as int]);
    let negative = chars[from] == '-';
    let start = if negative || chars[from] == '+' {
        from + 1
    } else {
        from
    };
    assert(chars@.subrange(start as int, to as int) =~= signed_digits(text));
    if start == to {
        return None;
    }
    match parse_digits(chars, start, to) {
        None => None,
        Some(magnitude) => {
            if negative {
                if magnitude <= 2147483648 {
                    Some((-(magnitude as i64)) as i32)
                } else {
                    None
                }
            } else {
                if magnitude <= 2147483647 {
                    Some(magnitude as i32)
                } else {
                    None
                }
            }
        },
    }
}

/// Reading the signed decimal digits of a number gives the number back.
pub proof fn lemma_parse_signed(n: i32)
    ensures
        signed_value(signed_decimal(n as int)) == Some(n),
{
    let text = signed_decimal(n as int);
    if n < 0 {
        lemma_decimal((-n) as nat);
        assert(text.skip(1) =~= decimal((-n) as nat));
    } else {
        lemma_decimal(n as nat);
        assert(is_digit(decimal(n as nat)[0]));
    }
}

/// Whether `first` comes before `second` in the order of a dictionary, in which the characters
/// are ordered by their code points.
pub open spec fn text_less(first: Seq<char>, second: Seq<char>) -> bool
    decreases first.len(),
{
    if second.len() == 0 {
        false
    } else if first.len() == 0 {
        true
    } else if first[0] != second[0] {
        first[0] < second[0]
    } else {
        text_less(first.skip(1), second.skip(1))
    }
}

/// `text` with every occurrence of `pattern` replaced by `with`. The occurrences are found
/// from left to right and do not overlap. The empty pattern occurs before every character and
/// at the end.
pub open spec fn replaced(text: Seq<char>, pattern: Seq<char>, with: Seq<char>) -> Seq<char>
    decreases text.len(),
{
    if text.len() == 0 {
        if pattern.len() == 0 {
            with
        } else {
            text
        }
    } else if pattern.len() == 0 {
        with + seq![text[0]] + replaced(text.skip(1), pattern, with)
    } else if occurs_at(text, 0, pattern) {
        with + replaced(text.skip(pattern.len() as int), pattern, with)
    } else {
        seq![text[0]] + replaced(text.skip(1), pattern, with)
    }
}

/// Replaces every occurrence of `pattern` in `text` by `with`.
pub fn replace(text: &str, pattern: &str, with: &str) -> (result: String)
    ensures
        result@ == replaced(text@, pattern@, with@),
{
    let chars = chars_of(text);
    let pattern = chars_of(pattern);
    let len = chars.len();
    let mut result = String::new();
    let mut at: usize = 0;
    assert(chars@.skip(0) =~= chars@);
    assert(Seq::<char>::empty() + replaced(chars@, pattern@, with@) =~= replaced(
        chars@,
        pattern@,
        with@,
    ));
    while at < len
        invariant
            at <= len == chars@.len(),
            result@ + replaced(chars@.skip(at as int), pattern@, with@) == replaced(
                chars@,
                pattern@,
                with@,
            ),
        decreases len - at,
    {
        let ghost rest = chars@.skip(at as int);
        let ghost before = result@;
        if pattern.len() == 0 {
            assert(rest.skip(1) =~= chars@.skip(at + 1));
            result.append(with);
            result.push(chars[at]);
            at = at + 1;
            assert(before + (with@ + seq![rest[0]] + replaced(
                chars@.skip(at as int),
                pattern@,
                with@,
            )) =~= (before + with@).push(rest[0]) + replaced(
                chars@.skip(at as int),
                pattern@,
                with@,
            ));
        } else if matches_at(&chars, at, &pattern) {
            assert(rest.subrange(0, pattern@.len() as int) =~= chars@.subrange(
                at as int,
                at + pattern@.len(),
            ));
            assert(rest.skip(pattern@.len() as int) =~= chars@.skip(at + pattern@.len()));
            result.append(with);
            at = at + pattern.len();
            assert(before + (with@ + replaced(chars@.skip(at as int), pattern@, with@)) =~= (before
                + with@) + replaced(chars@.skip(at as int), pattern@, with@));
        } else {
            assert(!occurs_at(rest, 0, pattern@)) by {
                if occurs_at(rest, 0, pattern@) {
                    assert(rest.subrange(0, pattern@.len() as int) =~= chars@.subrange(
                        at as int,
                        at + pattern@.len(),
                    ));
                }
            }
            assert(rest.skip(1) =~= chars@.skip(at + 1));
            result.push(chars[at]);
            at = at + 1;
            assert(before + (seq![rest[0]] + replaced(chars@.skip(at as int), pattern@, with@))
                =~= before.push(rest[0]) + replaced(chars@.skip(at as int), pattern@, with@));
        }
    }
    if pattern.len() == 0 {
        result.append(with);
    } else {
        assert(result@ + Seq::<char>::empty() =~= result@);
    }
    result
}

} // verus!
