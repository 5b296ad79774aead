//! The events that Minecraft writes to its log file.

pub mod observer;

use crate::text::{
    all_digits, chars_of, decimal, decimal_value, digit_char, digit_value, find_from, is_digit,
    lemma_decimal, lemma_first_occurrence, first_occurrence, occurs_at,
    parse_digits, prefix_end, push_decimal, string_of, trim_end, trimmed_len,
};
use vstd::prelude::*;
use vstd::string::StringExecFns;

verus! {

/// A [`LogEvent`] is created for every command that is successfully executed and logged.
///
/// This is what a [`LogEvent`] looks like in the log file of Minecraft:
/// ```none
/// [13:14:30] [Server thread/INFO]: [executor: output]
/// ```
#[derive(Clone, Debug, Eq, PartialEq)]
pub struct LogEvent {
    /// The hour at which the command was executed.
    pub hour: u8,
    /// The minute at which the command was executed.
    pub minute: u8,
    /// The second at which the command was executed.
    pub second: u8,
    /// The name of the player, command block or command block minecart that executed the command.
    pub executor: String,
    /// The output of the command.
    pub output: String,
}

/// What a [`LogEvent`] holds.
pub struct LogEventView {
    pub hour: int,
    pub minute: int,
    pub second: int,
    pub executor: Seq<char>,
    pub output: Seq<char>,
}

impl View for LogEvent {
    type V = LogEventView;

    open spec fn view(&self) -> LogEventView {
        LogEventView {
            hour: self.hour as int,
            minute: self.minute as int,
            second: self.second as int,
            executor: self.executor@,
            output: self.output@,
        }
    }
}

/// The text that stands between the time and the executor in a line of the log file.
pub open spec fn thread_marker() -> Seq<char> {
    "] [Server thread/INFO]: ["@
}

/// The text that stands between the executor and the output in a line of the log file.
pub open spec fn separator() -> Seq<char> {
    ": "@
}

/// The number that the `len` characters of `text` from `at` on denote, if they are digits and
/// there is at least one of them.
pub open spec fn digits_at(text: Seq<char>, at: int, len: int) -> Option<int> {
    if 0 <= at && 0 < len && at + len <= text.len() && all_digits(text.subrange(at, at + len)) {
        Some(decimal_value(text.subrange(at, at + len)) as int)
    } else {
        None
    }
}

/// The decimal digits of `n`, with a zero in front if there is only one.
pub open spec fn two_digits(n: int) -> Seq<char> {
    if n < 10 {
        seq!['0'] + decimal(n as nat)
    } else {
        decimal(n as nat)
    }
}

impl LogEventView {
    /// The line of the log file that reports this event.
    pub open spec fn line(self) -> Seq<char> {
        seq!['['] + two_digits(self.hour) + seq![':'] + two_digits(self.minute) + seq![':']
            + two_digits(self.second) + thread_marker() + self.executor + separator()
            + self.output + seq![']']
    }
}

/// The event that `line` reports. The line has to have the form
/// `[HH:MM:SS] [Server thread/INFO]: [executor: output]`, where white space may follow at the
/// end. The executor ends where `: ` stands first. `None` for any other line.
pub open spec fn parsed_line(line: Seq<char>) -> Option<LogEventView> {
    let body_start = 9 + thread_marker().len() as int;
    let end = body_start + trimmed_len(line.skip(body_start));
    let split = first_occurrence(line, body_start, separator());
    if line.len() >= 9 && line[0] == '[' && line[3] == ':' && line[6] == ':' && digits_at(
        line,
        1,
        2,
    ) is Some && digits_at(line, 4, 2) is Some && digits_at(line, 7, 2) is Some && occurs_at(
        line,
        9,
        thread_marker(),
    ) && end > body_start && line[end - 1] == ']' && split is Some && split->Some_0
        + separator().len() <= end - 1 {
        Some(
            LogEventView {
                hour: digits_at(line, 1, 2)->Some_0,
                minute: digits_at(line, 4, 2)->Some_0,
                second: digits_at(line, 7, 2)->Some_0,
                executor: line.subrange(body_start, split->Some_0),
                output: line.subrange(split->Some_0 + separator().len(), end - 1),
            },
        )
    } else {
        None
    }
}

/// Two digits denote a number below one hundred.
pub proof fn lemma_two_digits_value(text: Seq<char>)
    requires
        text.len() == 2,
        all_digits(text),
    ensures
        decimal_value(text) == digit_value(text[0]) * 10 + digit_value(text[1]),
        decimal_value(text) <= 99,
{
    reveal_with_fuel(decimal_value, 3);
    assert(text.drop_last().drop_last().len() == 0);
    assert(is_digit(text[0]) && is_digit(text[1]));
}

/// The two digits of a number below one hundred denote the number.
pub proof fn lemma_two_digits(n: int)
    requires
        0 <= n < 100,
    ensures
        two_digits(n).len() == 2,
        all_digits(two_digits(n)),
        decimal_value(two_digits(n)) == n,
{
    lemma_decimal(n as nat);
    lemma_decimal((n / 10) as nat);
    let text = two_digits(n);
    if n >= 10 {
        assert(decimal(n as nat) == decimal((n / 10) as nat).push(digit_char(n % 10)));
    } else {
        assert(text[0] == '0');
        assert(text[1] == decimal(n as nat)[0]);
        assert(is_digit(decimal(n as nat)[0]));
        lemma_two_digits_value(text);
        assert(decimal(n as nat).drop_last() =~= Seq::<char>::empty());
        assert(decimal_value(decimal(n as nat)) == digit_value(decimal(n as nat)[0])) by {
            reveal_with_fuel(decimal_value, 2);
        }
    }
}

/// Parsing the line that reports an event gives the event back, if hour, minute and second
/// have at most two digits and `: ` does not stand in the executor.
#[verifier::rlimit(60)]
pub proof fn lemma_parse_line(event: LogEventView)
    requires
        0 <= event.hour < 100,
        0 <= event.minute < 100,
        0 <= event.second < 100,
        forall|at: int| !occurs_at(event.executor, at, separator()),
    ensures
        parsed_line(event.line()) == Some(event),
{
    reveal_strlit(": ");
    let line = event.line();
    let marker = thread_marker();
    let sep = separator();
    assert(sep.len() == 2 && sep[0] == ':' && sep[1] == ' ');
    lemma_two_digits(event.hour);
    lemma_two_digits(event.minute);
    lemma_two_digits(event.second);
    let time = seq!['['] + two_digits(event.hour) + seq![':'] + two_digits(event.minute) + seq![
        ':',
    ] + two_digits(event.second);
    assert(time.len() == 9);
    let head = time + marker;
    let body_start = 9 + marker.len() as int;
    let body = event.executor + sep + event.output + seq![']'];
    assert(line =~= head + body);
    assert(line.subrange(1, 3) =~= two_digits(event.hour));
    assert(line.subrange(4, 6) =~= two_digits(event.minute));
    assert(line.subrange(7, 9) =~= two_digits(event.second));
    assert(line.subrange(9, body_start) =~= marker);
    assert(line.skip(body_start) =~= body);
    assert(trimmed_len(body) == body.len());
    let split = body_start + event.executor.len();
    assert(line.subrange(split, split + 2) =~= sep);
    assert forall|earlier: int| body_start <= earlier < split implies !occurs_at(
        line,
        earlier,
        sep,
    ) by {
        if occurs_at(line, earlier, sep) {
            let found = line.subrange(earlier, earlier + 2);
            assert(found[0] == line[earlier] && found[1] == line[earlier + 1]);
            if earlier + 2 <= split {
                assert(event.executor.subrange(earlier - body_start, earlier - body_start + 2)
                    =~= sep);
                assert(occurs_at(event.executor, earlier - body_start, sep));
            } else {
                assert(line[earlier + 1] == sep[0]);
            }
        }
    }
    lemma_first_occurrence(line, body_start, sep, split);
    assert(line.subrange(body_start, split) =~= event.executor);
    assert(line.subrange(split + 2, line.len() - 1) =~= event.output);
}

/// Reads the `len` characters of `chars` from `at` on as a number of at most 8 bits, and gives
/// the number and the position behind it.
pub fn read_digits(chars: &Vec<char>, at: usize, len: usize) -> (read: Option<(u8, usize)>)
    ensures
        read is Some <==> digits_at(chars@, at as int, len as int) is Some && digits_at(
            chars@,
            at as int,
            len as int,
        )->Some_0 <= u8::MAX,
        read matches Some((number, end)) ==> Some(number as int) == digits_at(
            chars@,
            at as int,
            len as int,
        ) && end == at + len,
{
    if len == 0 || at > chars.len() || len > chars.len() - at {
        return None;
    }
    match parse_digits(chars, at, at + len) {
        None => {
            proof {
                let digits = chars@.subrange(at as int, at + len);
                if all_digits(digits) {
                    assert(decimal_value(digits) > u8::MAX);
                }
            }
            None
        },
        Some(number) => {
            if number <= 255 {
                Some((number as u8, at + len))
            } else {
                None
            }
        },
    }
}

impl LogEvent {
    /// Parses a line of the log file.
    pub fn from_str(line: &str) -> (result: Result<LogEvent, ()>)
        ensures
            result is Ok <==> parsed_line(line@) is Some,
            result matches Ok(event) ==> Some(event@) == parsed_line(line@),
    {
        let chars = chars_of(line);
        let len = chars.len();
        proof {
            if len >= 9 {
                if all_digits(chars@.subrange(1, 3)) {
                    lemma_two_digits_value(chars@.subrange(1, 3));
                }
                if all_digits(chars@.subrange(4, 6)) {
                    lemma_two_digits_value(chars@.subrange(4, 6));
                }
                if all_digits(chars@.subrange(7, 9)) {
                    lemma_two_digits_value(chars@.subrange(7, 9));
                }
            }
        }
        if len < 9 || chars[0] != '[' {
            return Err(());
        }
        let hour = match read_digits(&chars, 1, 2) {
            None => { return Err(()); },
            Some((hour, _)) => hour,
        };
        if chars[3] != ':' {
            return Err(());
        }
        let minute = match read_digits(&chars, 4, 2) {
            None => { return Err(()); },
            Some((minute, _)) => minute,
        };
        if chars[6] != ':' {
            return Err(());
        }
        let second = match read_digits(&chars, 7, 2) {
            None => { return Err(()); },
            Some((second, _)) => second,
        };
        let body_start = match prefix_end(&chars, 9, "] [Server thread/INFO]: [") {
            None => { return Err(()); },
            Some(body_start) => body_start,
        };
        assert(chars@.subrange(body_start as int, len as int) =~= chars@.skip(body_start as int));
        let end = trim_end(&chars, body_start, len);
        if end == body_start || chars[end - 1] != ']' {
            return Err(());
        }
        let separator = chars_of(": ");
        match find_from(&chars, body_start, &separator) {
            None => Err(()),
            Some(split) => {
                if split > end - 1 || separator.len() > end - 1 - split {
                    return Err(());
                }
                let executor = string_of(&chars, body_start, split);
                let output = string_of(&chars, split + separator.len(), end - 1);
                Ok(LogEvent { hour, minute, second, executor, output })
            },
        }
    }

    /// The line of the log file that reports this event.
    pub fn to_string(&self) -> (line: String)
        ensures
            line@ == self@.line(),
    {
        let mut line = String::new();
        line.push('[');
        push_two_digits(&mut line, self.hour);
        line.push(':');
        push_two_digits(&mut line, self.minute);
        line.push(':');
        push_two_digits(&mut line, self.second);
        line.append("] [Server thread/INFO]: [");
        line.append(self.executor.as_str());
        line.append(": ");
        line.append(self.output.as_str());
        line.push(']');
        assert(line@ =~= self@.line());
        line
    }
}

/// Appends the decimal digits of `n` to `text`, with a zero in front if there is only one.
fn push_two_digits(text: &mut String, n: u8)
    ensures
        final(text)@ == old(text)@ + two_digits(n as int),
{
    if n < 10 {
        text.push('0');
    }
    push_decimal(text, n as u64);
    assert(final(text)@ =~= old(text)@ + two_digits(n as int));
}

} // verus!
