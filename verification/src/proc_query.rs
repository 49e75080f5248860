//! What the kernel says about a pane's processes.
//!
//! Every query is best-effort: a dead child, a refused query or a closed
//! descriptor is no answer, never an error. What the kernel reported is handed
//! in as it was read; here it is taken apart.

use crate::text::chars_of;
use vstd::prelude::*;
use vstd::slice::*;
use vstd::string::*;
use vstd::utf8::*;

verus! {

// ---- numbers in text --------------------------------------------------------

/// Whether a character is a decimal digit.
pub open spec fn is_digit(c: char) -> bool {
    '0' <= c <= '9'
}

/// The number that some digits stand for.
pub open spec fn value_of(digits: Seq<char>) -> int
    decreases digits.len(),
{
    if digits.len() == 0 {
        0
    } else {
        value_of(digits.drop_last()) * 10 + (digits.last() as int - '0' as int)
    }
}

/// A text without the sign that may stand before a number.
pub open spec fn unsigned(text: Seq<char>) -> Seq<char> {
    if text.len() > 0 && text[0] == '+' {
        text.skip(1)
    } else {
        text
    }
}

/// The number that a text holds: digits alone, after at most one plus sign, and
/// not too large.
pub open spec fn number_in(text: Seq<char>) -> Option<u64> {
    let digits = unsigned(text);
    if digits.len() > 0 && (forall|i: int| 0 <= i < digits.len() ==> is_digit(#[trigger] digits[i]))
        && value_of(digits) <= u64::MAX {
        Some(value_of(digits) as u64)
    } else {
        None
    }
}

proof fn lemma_value_grows(digits: Seq<char>, n: int)
    requires
        0 <= n <= digits.len(),
        forall|i: int| 0 <= i < digits.len() ==> is_digit(#[trigger] digits[i]),
    ensures
        0 <= value_of(digits.take(n)) <= value_of(digits),
    decreases digits.len(),
{
    if digits.len() == 0 {
        assert(digits.take(n) =~= digits);
    } else {
        assert(digits.last() == digits[digits.len() - 1]);
        let fewer = digits.drop_last();
        assert forall|i: int| 0 <= i < fewer.len() implies is_digit(#[trigger] fewer[i]) by {
            assert(fewer[i] == digits[i]);
        }
        if n == digits.len() {
            assert(digits.take(n) =~= digits);
            lemma_value_grows(fewer, 0);
        } else {
            lemma_value_grows(fewer, n);
            assert(fewer.take(n) =~= digits.take(n));
        }
    }
}

fn parse_number(chars: &Vec<char>, from: usize, to: usize) -> (number: Option<u64>)
    requires
        from <= to <= chars@.len(),
    ensures
        number == number_in(chars@.subrange(from as int, to as int)),
{
    let ghost text = chars@.subrange(from as int, to as int);
    let ghost digits = unsigned(text);
    let start: usize = if from < to && chars[from] == '+' {
        from + 1
    } else {
        from
    };
    assert(from < to ==> text[0] == chars@[from as int]);
    assert(digits =~= chars@.subrange(start as int, to as int));
    if start == to {
        return None;
    }
    let mut value: u64 = 0;
    let mut i: usize = start;
    assert(digits.take(0) =~= Seq::empty());
    while i < to
        invariant
            from <= start <= i <= to <= chars@.len(),
            text == chars@.subrange(from as int, to as int),
            digits == unsigned(text),
            digits == chars@.subrange(start as int, to as int),
            value == value_of(digits.take(i - start)),
            forall|j: int| 0 <= j < i - start ==> is_digit(#[trigger] digits[j]),
        decreases to - i,
    {
        let c = chars[i];
        assert(digits[i - start] == c);
        if c < '0' || c > '9' {
            return None;
        }
        let digit: u64 = c as u64 - '0' as u64;
        let ghost next = digits.take(i + 1 - start);
        proof {
            assert(next.drop_last() =~= digits.take(i - start));
            assert(next.last() == c);
            assert(value_of(next) == value * 10 + digit);
            if value_of(next) > u64::MAX {
                if forall|j: int| 0 <= j < digits.len() ==> is_digit(#[trigger] digits[j]) {
                    lemma_value_grows(digits, i + 1 - start);
                }
            }
        }
        let tens: u64 = match value.checked_mul(10) {
            Some(tens) => tens,
            None => {
                return None;
            },
        };
        value = match tens.checked_add(digit) {
            Some(sum) => sum,
            None => {
                return None;
            },
        };
        i += 1;
    }
    assert(digits.take(i - start) =~= digits);
    Some(value)
}

// ---- words and lines --------------------------------------------------------

/// Whether a character separates words: Unicode's `White_Space` property.
pub open spec fn is_space(c: char) -> bool {
    ||| '\u{9}' <= c <= '\u{d}'
    ||| c == ' '
    ||| c == '\u{85}'
    ||| c == '\u{a0}'
    ||| c == '\u{1680}'
    ||| '\u{2000}' <= c <= '\u{200a}'
    ||| c == '\u{2028}'
    ||| c == '\u{2029}'
    ||| c == '\u{202f}'
    ||| c == '\u{205f}'
    ||| c == '\u{3000}'
}

fn separates(c: char) -> (space: bool)
    ensures
        space == is_space(c),
{
    ('\u{9}' <= c && c <= '\u{d}') || c == ' ' || c == '\u{85}' || c == '\u{a0}' || c == '\u{1680}'
        || ('\u{2000}' <= c && c <= '\u{200a}') || c == '\u{2028}' || c == '\u{2029}' || c
        == '\u{202f}' || c == '\u{205f}' || c == '\u{3000}'
}

/// A text without separators at its start.
pub open spec fn without_leading_space(text: Seq<char>) -> Seq<char>
    decreases text.len(),
{
    if text.len() > 0 && is_space(text[0]) {
        without_leading_space(text.skip(1))
    } else {
        text
    }
}

/// A text without separators at its end.
pub open spec fn without_trailing_space(text: Seq<char>) -> Seq<char>
    decreases text.len(),
{
    if text.len() > 0 && is_space(text.last()) {
        without_trailing_space(text.drop_last())
    } else {
        text
    }
}

/// Where the word at the start of a text ends, looking from `from` on.
pub open spec fn word_end(text: Seq<char>, from: int) -> int
    decreases text.len() - from,
{
    if from < 0 || from >= text.len() {
        text.len() as int
    } else if is_space(text[from]) {
        from
    } else {
        word_end(text, from + 1)
    }
}

/// Word `n` of a text, where it has so many.
pub open spec fn nth_word(text: Seq<char>, n: nat) -> Option<Seq<char>>
    decreases n,
{
    let rest = without_leading_space(text);
    if rest.len() == 0 {
        None
    } else if n == 0 {
        Some(rest.take(word_end(rest, 0)))
    } else {
        nth_word(rest.skip(word_end(rest, 0)), (n - 1) as nat)
    }
}

fn skip_space(chars: &Vec<char>, from: usize, to: usize) -> (start: usize)
    requires
        from <= to <= chars@.len(),
    ensures
        from <= start <= to,
        chars@.subrange(start as int, to as int) == without_leading_space(
            chars@.subrange(from as int, to as int),
        ),
{
    let mut start: usize = from;
    while start < to && separates(chars[start])
        invariant
            from <= start <= to <= chars@.len(),
            without_leading_space(chars@.subrange(start as int, to as int))
                == without_leading_space(chars@.subrange(from as int, to as int)),
        decreases to - start,
    {
        proof {
            let rest = chars@.subrange(start as int, to as int);
            assert(rest[0] == chars@[start as int]);
            assert(rest.skip(1) =~= chars@.subrange(start + 1, to as int));
        }
        start += 1;
    }
    assert(start < to ==> chars@.subrange(start as int, to as int)[0] == chars@[start as int]);
    start
}

fn drop_space(chars: &Vec<char>, from: usize, to: usize) -> (end: usize)
    requires
        from <= to <= chars@.len(),
    ensures
        from <= end <= to,
        chars@.subrange(from as int, end as int) == without_trailing_space(
            chars@.subrange(from as int, to as int),
        ),
{
    let mut end: usize = to;
    while from < end && separates(chars[end - 1])
        invariant
            from <= end <= to <= chars@.len(),
            without_trailing_space(chars@.subrange(from as int, end as int))
                == without_trailing_space(chars@.subrange(from as int, to as int)),
        decreases end,
    {
        proof {
            let rest = chars@.subrange(from as int, end as int);
            assert(rest.last() == chars@[end - 1]);
            assert(rest.drop_last() =~= chars@.subrange(from as int, end - 1));
        }
        end -= 1;
    }
    assert(from < end ==> chars@.subrange(from as int, end as int).last() == chars@[end - 1]);
    end
}

fn find_word_end(chars: &Vec<char>, from: usize, to: usize) -> (end: usize)
    requires
        from <= to <= chars@.len(),
    ensures
        from <= end <= to,
        end - from == word_end(chars@.subrange(from as int, to as int), 0),
{
    let ghost rest = chars@.subrange(from as int, to as int);
    let mut end: usize = from;
    while end < to && !separates(chars[end])
        invariant
            from <= end <= to <= chars@.len(),
            rest == chars@.subrange(from as int, to as int),
            word_end(rest, 0) == word_end(rest, end - from),
        decreases to - end,
    {
        assert(rest[end - from] == chars@[end as int]);
        end += 1;
    }
    assert(end < to ==> rest[end - from] == chars@[end as int]);
    end
}

/// Where the last closing parenthesis among the first `n` characters stands.
pub open spec fn last_paren(text: Seq<char>, n: nat) -> Option<int>
    decreases n,
{
    if n == 0 || n > text.len() {
        None
    } else if text[n - 1] == ')' {
        Some(n - 1)
    } else {
        last_paren(text, (n - 1) as nat)
    }
}

/// The start time in the contents of `/proc/<pid>/stat`: field 22. The
/// executable's name, field 2, stands in parentheses and may hold both spaces
/// and parentheses, so the fields are counted from the last parenthesis on.
pub open spec fn starttime_in(stat: Seq<char>) -> Option<u64> {
    match last_paren(stat, stat.len()) {
        Some(at) => match nth_word(stat.skip(at + 1), 19) {
            Some(word) => number_in(word),
            None => None,
        },
        None => None,
    }
}

fn find_last_paren(chars: &Vec<char>) -> (at: Option<usize>)
    ensures
        match at {
            Some(i) => i < chars@.len() && last_paren(chars@, chars@.len()) == Some(i as int),
            None => last_paren(chars@, chars@.len()) is None,
        },
{
    let mut n: usize = chars.len();
    while n > 0
        invariant
            n <= chars@.len(),
            last_paren(chars@, n as nat) == last_paren(chars@, chars@.len()),
        decreases n,
    {
        if chars[n - 1] == ')' {
            return Some(n - 1);
        }
        n -= 1;
    }
    None
}

/// The start time in the contents of `/proc/<pid>/stat`, in clock ticks since
/// boot.
pub fn parse_stat_starttime(stat: &str) -> (ticks: Option<u64>)
    ensures
        ticks == starttime_in(stat@),
{
    let chars = chars_of(stat);
    let to: usize = chars.len();
    let at: usize = match find_last_paren(&chars) {
        Some(at) => at,
        None => {
            return None;
        },
    };
    let mut from: usize = at + 1;
    let mut n: usize = 19;
    assert(chars@.subrange(from as int, to as int) =~= stat@.skip(at + 1));
    let ghost fields = stat@.skip(at + 1);
    while n > 0
        invariant
            from <= to == chars@.len(),
            n <= 19,
            starttime_in(stat@) == (match nth_word(fields, 19) {
                Some(word) => number_in(word),
                None => None,
            }),
            nth_word(chars@.subrange(from as int, to as int), n as nat) == nth_word(fields, 19),
        decreases n,
    {
        let start: usize = skip_space(&chars, from, to);
        if start == to {
            return None;
        }
        let end: usize = find_word_end(&chars, start, to);
        proof {
            let rest = chars@.subrange(start as int, to as int);
            assert(rest.skip(end - start) =~= chars@.subrange(end as int, to as int));
        }
        from = end;
        n -= 1;
    }
    let start: usize = skip_space(&chars, from, to);
    if start == to {
        return None;
    }
    let end: usize = find_word_end(&chars, start, to);
    proof {
        let rest = chars@.subrange(start as int, to as int);
        assert(rest.take(end - start) =~= chars@.subrange(start as int, end as int));
    }
    parse_number(&chars, start, end)
}

/// Where a line ends, looking from `from` on.
pub open spec fn line_break(text: Seq<char>, from: int) -> int
    decreases text.len() - from,
{
    if from < 0 || from >= text.len() {
        text.len() as int
    } else if text[from] == '\n' {
        from
    } else {
        line_break(text, from + 1)
    }
}

/// What follows `btime ` on its line, where the line starts with that.
pub open spec fn btime_line(line: Seq<char>) -> Option<Seq<char>> {
    if line.len() >= 6 && line.take(6) == "btime "@ {
        Some(line.skip(6))
    } else {
        None
    }
}

/// The boot time in the contents of `/proc/stat`: the number on the first line
/// that starts with `btime `.
pub open spec fn btime_in(text: Seq<char>) -> Option<u64>
    decreases text.len(),
{
    let end = line_break(text, 0);
    match btime_line(text.take(end)) {
        Some(rest) => number_in(without_trailing_space(without_leading_space(rest))),
        None => if 0 <= end < text.len() {
            btime_in(text.skip(end + 1))
        } else {
            None
        },
    }
}

fn find_line_break(chars: &Vec<char>, from: usize) -> (end: usize)
    requires
        from <= chars@.len(),
    ensures
        from <= end <= chars@.len(),
        end - from == line_break(chars@.skip(from as int), 0),
{
    let ghost rest = chars@.skip(from as int);
    let mut end: usize = from;
    while end < chars.len() && chars[end] != '\n'
        invariant
            from <= end <= chars@.len(),
            rest == chars@.skip(from as int),
            line_break(rest, 0) == line_break(rest, end - from),
        decreases chars@.len() - end,
    {
        assert(rest[end - from] == chars@[end as int]);
        end += 1;
    }
    assert(end < chars@.len() ==> rest[end - from] == chars@[end as int]);
    end
}

fn is_btime_line(chars: &Vec<char>, from: usize, to: usize) -> (found: bool)
    requires
        from <= to <= chars@.len(),
    ensures
        found == (btime_line(chars@.subrange(from as int, to as int)) is Some),
{
    let ghost line = chars@.subrange(from as int, to as int);
    proof {
        reveal_strlit("btime ");
    }
    if to - from < 6 {
        return false;
    }
    let found = chars[from] == 'b' && chars[from + 1] == 't' && chars[from + 2] == 'i' && chars[from
        + 3] == 'm' && chars[from + 4] == 'e' && chars[from + 5] == ' ';
    proof {
        let start = line.take(6);
        assert forall|i: int| 0 <= i < 6 implies start[i] == #[trigger] chars@[from + i] by {}
        assert(start[0] == chars@[from as int]);
        assert(start[1] == chars@[from + 1]);
        assert(start[2] == chars@[from + 2]);
        assert(start[3] == chars@[from + 3]);
        assert(start[4] == chars@[from + 4]);
        assert(start[5] == chars@[from + 5]);
        if found {
            assert(start =~= "btime "@);
        }
    }
    found
}

/// The boot time in the contents of `/proc/stat`, in whole Unix seconds.
pub fn parse_btime(proc_stat: &str) -> (secs: Option<u64>)
    ensures
        secs == btime_in(proc_stat@),
{
    let chars = chars_of(proc_stat);
    let mut from: usize = 0;
    assert(chars@.skip(0) =~= chars@);
    loop
        invariant
            from <= chars@.len(),
            btime_in(chars@.skip(from as int)) == btime_in(proc_stat@),
        decreases chars@.len() - from,
    {
        let ghost rest = chars@.skip(from as int);
        let end: usize = find_line_break(&chars, from);
        assert(rest.take(end - from) =~= chars@.subrange(from as int, end as int));
        if is_btime_line(&chars, from, end) {
            let ghost line = chars@.subrange(from as int, end as int);
            assert(line.skip(6) =~= chars@.subrange(from + 6, end as int));
            let start: usize = skip_space(&chars, from + 6, end);
            let stop: usize = drop_space(&chars, start, end);
            return parse_number(&chars, start, stop);
        }
        if end < chars.len() {
            assert(rest.skip(end - from + 1) =~= chars@.skip(end + 1));
            from = end + 1;
        } else {
            return None;
        }
    }
}

// ---- start times ------------------------------------------------------------

/// A start time in Unix milliseconds, from clock ticks since boot.
pub open spec fn unix_ms(ticks: int, boot_secs: int, ticks_per_sec: int) -> Option<u64> {
    if ticks_per_sec == 0 || ticks * 1000 > u64::MAX || boot_secs * 1000 > u64::MAX || boot_secs
        * 1000 + ticks * 1000 / ticks_per_sec > u64::MAX {
        None
    } else {
        Some((boot_secs * 1000 + ticks * 1000 / ticks_per_sec) as u64)
    }
}

/// Convert a start time in clock ticks since boot into Unix milliseconds. A zero
/// rate or an overflow is no answer.
pub fn ticks_since_boot_to_unix_ms(ticks: u64, boot_secs: u64, ticks_per_sec: u64) -> (ms: Option<
    u64,
>)
    ensures
        ms == unix_ms(ticks as int, boot_secs as int, ticks_per_sec as int),
{
    if ticks_per_sec == 0 {
        return None;
    }
    let since_boot_ms: u64 = match ticks.checked_mul(1000) {
        Some(millis) => millis / ticks_per_sec,
        None => {
            return None;
        },
    };
    match boot_secs.checked_mul(1000) {
        Some(boot_ms) => boot_ms.checked_add(since_boot_ms),
        None => None,
    }
}

/// `nix::unistd::sysconf(CLK_TCK)`: the clock's rate. Nothing is stated of it:
/// it is the machine's.
#[verifier::external_body]
fn clock_rate() -> (rate: Option<i64>) {
    nix::unistd::sysconf(nix::unistd::SysconfVar::CLK_TCK).ok().flatten()
}

/// A clock's rate, where it is one: more than zero ticks per second.
pub fn usable_rate(rate: Option<i64>) -> (ticks: Option<u64>)
    ensures
        ticks == (match rate {
            Some(rate) if rate > 0 => Some(rate as u64),
            _ => None,
        }),
{
    match rate {
        Some(rate) => if rate > 0 {
            Some(rate as u64)
        } else {
            None
        },
        None => None,
    }
}

/// The unit of field 22 of `/proc/<pid>/stat`, in ticks per second.
pub fn clock_ticks_per_second() -> (ticks: Option<u64>)
    ensures
        ticks matches Some(ticks) ==> ticks > 0,
{
    usable_rate(clock_rate())
}

/// The boot time, once it was read.
#[derive(Debug, Clone, Copy, PartialEq, Eq, Structural)]
pub struct BootClock {
    /// Whole Unix seconds.
    pub secs: Option<u64>,
}

impl BootClock {
    /// Nothing was read yet.
    pub fn new() -> (clock: Self)
        ensures
            clock.secs is None,
    {
        BootClock { secs: None }
    }

    /// The boot time, from the contents of `/proc/stat`. The kernel derives it
    /// from the wall clock, so a clock step moves it; the first reading stands,
    /// so that one process keeps one start time. A reading without an answer is
    /// not kept.
    pub fn boot_secs(&mut self, proc_stat: Option<&str>) -> (secs: Option<u64>)
        ensures
            secs == final(self).secs,
            final(self).secs == (match old(self).secs {
                Some(secs) => Some(secs),
                None => match proc_stat {
                    Some(text) => btime_in(text@),
                    None => None,
                },
            }),
    {
        if self.secs.is_none() {
            match proc_stat {
                Some(text) => {
                    self.secs = parse_btime(text);
                },
                None => {},
            }
        }
        self.secs
    }
}

/// The start time of a process, from what `/proc/<pid>/stat` held. No process
/// has a pid that is not positive.
pub fn process_start_time(pid: i32, stat: Option<&str>) -> (ticks: Option<u64>)
    ensures
        ticks == (match stat {
            Some(text) if pid > 0 => starttime_in(text@),
            _ => None,
        }),
{
    if pid <= 0 {
        return None;
    }
    match stat {
        Some(text) => parse_stat_starttime(text),
        None => None,
    }
}

/// The start time of a process in Unix milliseconds, where everything it takes
/// is known.
pub fn process_start_ms(
    pid: i32,
    stat: Option<&str>,
    boot_secs: Option<u64>,
    ticks_per_sec: Option<u64>,
) -> (ms: Option<u64>)
    ensures
        ms == (match (stat, boot_secs, ticks_per_sec) {
            (Some(text), Some(boot), Some(rate)) if pid > 0 => match starttime_in(text@) {
                Some(ticks) => unix_ms(ticks as int, boot as int, rate as int),
                None => None,
            },
            _ => None,
        }),
{
    match (process_start_time(pid, stat), boot_secs, ticks_per_sec) {
        (Some(ticks), Some(boot), Some(rate)) => ticks_since_boot_to_unix_ms(ticks, boot, rate),
        _ => None,
    }
}

/// The foreground process group of a terminal, from what `tcgetpgrp` answered.
pub fn foreground_pgid(master_fd: i32, answer: Option<i32>) -> (pgid: Option<i32>)
    ensures
        pgid == (match answer {
            Some(pgid) if master_fd >= 0 && pgid > 0 => Some(pgid),
            _ => None,
        }),
{
    if master_fd < 0 {
        return None;
    }
    match answer {
        Some(pgid) => if pgid > 0 {
            Some(pgid)
        } else {
            None
        },
        None => None,
    }
}

// ---- arguments --------------------------------------------------------------

/// What `String::from_utf8_lossy` makes of some bytes.
pub uninterp spec fn lossy(bytes: Seq<u8>) -> Seq<char>;

/// `String::from_utf8_lossy`: the text that the bytes encode, with a replacement
/// character for whatever is not UTF-8. UTF-8 comes back unchanged.
#[verifier::external_body]
pub(crate) fn lossy_text(bytes: &[u8]) -> (text: String)
    ensures
        text@ == lossy(bytes@),
        valid_utf8(bytes@) ==> text@ == decode_utf8(bytes@),
{
    String::from_utf8_lossy(bytes).into_owned()
}

/// Texts as contracts speak of them.
pub open spec fn texts(items: Seq<String>) -> Seq<Seq<char>> {
    items.map_values(|item: String| item@)
}

/// Where a run of bytes ends at a zero, looking from `from` on.
pub open spec fn zero_at(bytes: Seq<u8>, from: int) -> int
    decreases bytes.len() - from,
{
    if from < 0 || from >= bytes.len() {
        bytes.len() as int
    } else if bytes[from] == 0 {
        from
    } else {
        zero_at(bytes, from + 1)
    }
}

/// The runs between zeros that hold anything, as texts, after `found`.
pub open spec fn arguments_in(bytes: Seq<u8>, found: Seq<Seq<char>>) -> Seq<Seq<char>>
    decreases bytes.len(),
{
    let end = zero_at(bytes, 0);
    let now = if end > 0 {
        found.push(lossy(bytes.take(end)))
    } else {
        found
    };
    if 0 <= end < bytes.len() {
        arguments_in(bytes.skip(end + 1), now)
    } else {
        now
    }
}

fn find_zero(bytes: &[u8], from: usize) -> (end: usize)
    requires
        from <= bytes@.len(),
    ensures
        from <= end <= bytes@.len(),
        end - from == zero_at(bytes@.skip(from as int), 0),
        end < bytes@.len() ==> bytes@[end as int] == 0,
        forall|i: int| from <= i < end ==> bytes@[i] != 0,
{
    let ghost rest = bytes@.skip(from as int);
    let mut end: usize = from;
    while end < bytes.len() && bytes[end] != 0
        invariant
            from <= end <= bytes@.len(),
            rest == bytes@.skip(from as int),
            zero_at(rest, 0) == zero_at(rest, end - from),
            forall|i: int| from <= i < end ==> bytes@[i] != 0,
        decreases bytes@.len() - end,
    {
        assert(rest[end - from] == bytes@[end as int]);
        end += 1;
    }
    assert(end < bytes@.len() ==> rest[end - from] == bytes@[end as int]);
    end
}

/// The arguments of a process, from what `/proc/<pid>/cmdline` held: separated
/// by zeros. A kernel thread has none, which is no answer.
pub fn process_argv(pid: i32, cmdline: Option<&[u8]>) -> (argv: Option<Vec<String>>)
    ensures
        match cmdline {
            Some(raw) if pid > 0 && arguments_in(raw@, Seq::empty()).len() > 0 => {
                &&& argv matches Some(argv)
                &&& texts(argv@) == arguments_in(raw@, Seq::empty())
            },
            _ => argv is None,
        },
{
    if pid <= 0 {
        return None;
    }
    let raw = match cmdline {
        Some(raw) => raw,
        None => {
            return None;
        },
    };
    let mut argv: Vec<String> = Vec::new();
    let mut from: usize = 0;
    let mut open = true;
    assert(raw@.skip(0) =~= raw@);
    assert(texts(argv@) =~= Seq::empty());
    while open
        invariant
            from <= raw@.len(),
            open ==> arguments_in(raw@.skip(from as int), texts(argv@)) == arguments_in(
                raw@,
                Seq::empty(),
            ),
            !open ==> texts(argv@) == arguments_in(raw@, Seq::empty()),
        decreases raw@.len() - from + (if open {
            1int
        } else {
            0
        }),
    {
        let ghost rest = raw@.skip(from as int);
        let end: usize = find_zero(raw, from);
        assert(rest.take(end - from) =~= raw@.subrange(from as int, end as int));
        if end > from {
            let ghost before = texts(argv@);
            let part = lossy_text(slice_subrange(raw, from, end));
            argv.push(part);
            assert(texts(argv@) =~= before.push(part@));
        }
        if end < raw.len() {
            assert(rest.skip(end - from + 1) =~= raw@.skip(end + 1));
            from = end + 1;
        } else {
            open = false;
        }
    }
    assert(texts(argv@).len() == argv@.len());
    if argv.len() == 0 {
        return None;
    }
    Some(argv)
}

/// Where the last slash among the first `n` characters ends; 0 without one.
pub open spec fn after_last_slash(text: Seq<char>, n: nat) -> int
    decreases n,
{
    if n == 0 || n > text.len() {
        0
    } else if text[n - 1] == '/' {
        n as int
    } else {
        after_last_slash(text, (n - 1) as nat)
    }
}

/// A text without dashes at its start.
pub open spec fn without_dashes(text: Seq<char>) -> Seq<char>
    decreases text.len(),
{
    if text.len() > 0 && text[0] == '-' {
        without_dashes(text.skip(1))
    } else {
        text
    }
}

/// The display name of a program: what follows the last slash of its path,
/// without the dash of a login shell.
pub open spec fn display_name(path: Seq<char>) -> Seq<char> {
    without_dashes(path.skip(after_last_slash(path, path.len())))
}

/// The display name of a process, from its arguments. Nothing else of them may
/// leave the server: the tail can carry secrets.
pub fn argv0_name(argv: &[String]) -> (name: Option<String>)
    ensures
        if argv@.len() > 0 && display_name(argv@[0]@).len() > 0 {
            name matches Some(name) && name@ == display_name(argv@[0]@)
        } else {
            name is None
        },
{
    if argv.len() == 0 {
        return None;
    }
    let path = argv[0].as_str();
    let chars = chars_of(path);
    let mut from: usize = chars.len();
    while from > 0 && chars[from - 1] != '/'
        invariant
            from <= chars@.len(),
            chars@ == path@,
            after_last_slash(path@, path@.len()) == after_last_slash(path@, from as nat),
        decreases from,
    {
        from -= 1;
    }
    let ghost base = path@.skip(from as int);
    while from < chars.len() && chars[from] == '-'
        invariant
            from <= chars@.len(),
            chars@ == path@,
            without_dashes(path@.skip(from as int)) == without_dashes(base),
        decreases chars@.len() - from,
    {
        proof {
            let rest = path@.skip(from as int);
            assert(rest[0] == chars@[from as int]);
            assert(rest.skip(1) =~= path@.skip(from + 1));
        }
        from += 1;
    }
    assert(from < chars@.len() ==> path@.skip(from as int)[0] == chars@[from as int]);
    if from == chars.len() {
        return None;
    }
    assert(path@.subrange(from as int, chars@.len() as int) =~= path@.skip(from as int));
    Some(path.substring_char(from, chars.len()).to_owned())
}

/// The number that four bytes hold, with the lowest byte first or last.
pub open spec fn int_in(bytes: Seq<u8>, lowest_first: bool) -> int {
    let raw = if lowest_first {
        bytes[0] + bytes[1] * 256 + bytes[2] * 65536 + bytes[3] * 16777216
    } else {
        bytes[3] + bytes[2] * 256 + bytes[1] * 65536 + bytes[0] * 16777216
    };
    if raw >= 2147483648 {
        raw - 4294967296
    } else {
        raw
    }
}

/// `i32::from_ne_bytes`: the number that four bytes hold on this machine. Which
/// byte is the lowest is the machine's.
#[verifier::external_body]
fn native_int(bytes: [u8; 4]) -> (number: i32)
    ensures
        number == int_in(bytes@, true) || number == int_in(bytes@, false),
{
    i32::from_ne_bytes(bytes)
}

/// The next `argc` texts, each ended by a zero, after `found`. A text without
/// its zero is missing.
pub open spec fn strings_in(bytes: Seq<u8>, from: int, argc: nat, found: Seq<Seq<char>>) -> Option<
    Seq<Seq<char>>,
>
    decreases argc,
{
    if argc == 0 {
        Some(found)
    } else if from < 0 || from >= bytes.len() {
        None
    } else {
        let tail = bytes.skip(from);
        let end = zero_at(tail, 0);
        if end >= tail.len() {
            None
        } else {
            strings_in(bytes, from + end + 1, (argc - 1) as nat, found.push(lossy(tail.take(end))))
        }
    }
}

/// The first byte from `from` on that is not zero.
pub open spec fn past_zeros(bytes: Seq<u8>, from: int) -> int
    decreases bytes.len() - from,
{
    if from < 0 || from >= bytes.len() || bytes[from] != 0 {
        from
    } else {
        past_zeros(bytes, from + 1)
    }
}

/// The arguments in what follows their count: past the executable's path and
/// the zeros that pad it. A path without an end is no answer.
pub open spec fn arguments_after_path(rest: Seq<u8>, argc: int) -> Option<Seq<Seq<char>>> {
    let path_end = zero_at(rest, 0);
    if argc <= 0 || path_end >= rest.len() {
        None
    } else {
        strings_in(rest, past_zeros(rest, path_end + 1), argc as nat, Seq::empty())
    }
}

/// The arguments in what follows their count.
pub fn argv_after_path(rest: &[u8], argc: i32) -> (argv: Option<Vec<String>>)
    ensures
        match arguments_after_path(rest@, argc as int) {
            Some(found) => argv matches Some(argv) && texts(argv@) == found,
            None => argv is None,
        },
{
    if argc <= 0 {
        return None;
    }
    assert(rest@.skip(0) =~= rest@);
    let path_end: usize = find_zero(rest, 0);
    if path_end >= rest.len() {
        return None;
    }
    let mut cursor: usize = path_end + 1;
    while cursor < rest.len() && rest[cursor] == 0
        invariant
            cursor <= rest@.len(),
            past_zeros(rest@, path_end + 1) == past_zeros(rest@, cursor as int),
        decreases rest@.len() - cursor,
    {
        cursor += 1;
    }
    let ghost all = arguments_after_path(rest@, argc as int);
    let mut argv: Vec<String> = Vec::new();
    let mut left: i32 = argc;
    assert(texts(argv@) =~= Seq::empty());
    while left > 0
        invariant
            0 <= left <= argc,
            cursor <= rest@.len(),
            all == arguments_after_path(rest@, argc as int),
            all == strings_in(rest@, cursor as int, left as nat, texts(argv@)),
        decreases left,
    {
        let ghost tail = rest@.skip(cursor as int);
        let end: usize = find_zero(rest, cursor);
        if end >= rest.len() {
            return None;
        }
        let ghost before = texts(argv@);
        assert(tail.take(end - cursor) =~= rest@.subrange(cursor as int, end as int));
        let part = lossy_text(slice_subrange(rest, cursor, end));
        argv.push(part);
        assert(texts(argv@) =~= before.push(part@));
        cursor = end + 1;
        left -= 1;
    }
    Some(argv)
}

/// The arguments in what `KERN_PROCARGS2` reports: their count, the path of the
/// executable, padding, and the arguments themselves. What follows them is the
/// environment, which is left alone.
pub fn parse_procargs2(buf: &[u8]) -> (argv: Option<Vec<String>>)
    ensures
        buf@.len() < 4 ==> argv is None,
        buf@.len() >= 4 ==> exists|lowest_first: bool|
            match arguments_after_path(buf@.skip(4), #[trigger] int_in(buf@, lowest_first)) {
                Some(found) => argv matches Some(argv) && texts(argv@) == found,
                None => argv is None,
            },
{
    if buf.len() < 4 {
        return None;
    }
    let argc: i32 = native_int([buf[0], buf[1], buf[2], buf[3]]);
    let ghost count: Seq<u8> = [buf[0], buf[1], buf[2], buf[3]]@;
    assert(int_in(count, true) == int_in(buf@, true));
    assert(int_in(count, false) == int_in(buf@, false));
    let rest = slice_subrange(buf, 4, buf.len());
    assert(rest@ =~= buf@.skip(4));
    argv_after_path(rest, argc)
}

proof fn lemma_last_paren(name: Seq<char>, fields: Seq<char>, n: nat)
    requires
        name.len() < n <= name.len() + 1 + fields.len(),
        forall|i: int| 0 <= i < fields.len() ==> #[trigger] fields[i] != ')',
    ensures
        last_paren(name.push(')') + fields, n) == Some(name.len() as int),
    decreases n,
{
    let text = name.push(')') + fields;
    if n > name.len() + 1 {
        assert(text[n - 1] == fields[n - 2 - name.len()]);
        lemma_last_paren(name, fields, (n - 1) as nat);
    } else {
        assert(text[n - 1] == ')');
    }
}

/// Whatever an executable is called, its name does not shift the fields behind
/// it: they are counted from the last parenthesis on.
pub proof fn law_names_do_not_shift_fields(name: Seq<char>, fields: Seq<char>)
    requires
        forall|i: int| 0 <= i < fields.len() ==> #[trigger] fields[i] != ')',
    ensures
        starttime_in(name.push(')') + fields) == (match nth_word(fields, 19) {
            Some(word) => number_in(word),
            None => None,
        }),
{
    let text = name.push(')') + fields;
    lemma_last_paren(name, fields, text.len());
    assert(text.skip((name.len() + 1) as int) =~= fields);
}

proof fn lemma_no_slash_behind(path: Seq<char>, n: nat)
    requires
        n <= path.len(),
    ensures
        0 <= after_last_slash(path, n) <= n,
        forall|i: int| after_last_slash(path, n) <= i < n ==> path[i] != '/',
    decreases n,
{
    if n > 0 && path[n - 1] != '/' {
        lemma_no_slash_behind(path, (n - 1) as nat);
    }
}

proof fn lemma_without_dashes(text: Seq<char>)
    ensures
        without_dashes(text).len() <= text.len(),
        without_dashes(text) == text.skip(text.len() - without_dashes(text).len()),
        without_dashes(text).len() > 0 ==> without_dashes(text)[0] != '-',
    decreases text.len(),
{
    if text.len() > 0 && text[0] == '-' {
        lemma_without_dashes(text.skip(1));
        let name = without_dashes(text);
        assert(name =~= text.skip(text.len() - name.len()));
    } else {
        assert(text.skip(0) =~= text);
    }
}

/// A display name holds no path and no login dash.
pub proof fn law_display_names_hold_no_path(path: Seq<char>)
    ensures
        forall|i: int| 0 <= i < display_name(path).len() ==> display_name(path)[i] != '/',
        display_name(path).len() > 0 ==> display_name(path)[0] != '-',
{
    lemma_no_slash_behind(path, path.len());
    let from = after_last_slash(path, path.len());
    let base = path.skip(from);
    lemma_without_dashes(base);
    let name = display_name(path);
    assert forall|i: int| 0 <= i < name.len() implies name[i] != '/' by {
        let k = base.len() - name.len() + i;
        assert(name[i] == base[k]);
        assert(base[k] == path[from + k]);
    }
}

/// A display name is the end of the argument that it is taken from.
pub proof fn law_display_names_end_the_argument(path: Seq<char>)
    ensures
        display_name(path).len() <= path.len(),
        display_name(path) == path.skip(path.len() - display_name(path).len()),
{
    lemma_no_slash_behind(path, path.len());
    let from = after_last_slash(path, path.len());
    lemma_without_dashes(path.skip(from));
    let name = display_name(path);
    assert(name =~= path.skip(path.len() - name.len()));
}

} // verus!
