//! What is read back from the texts and bytes that a kernel writes.

use crate::proc_query::{
    arguments_after_path, arguments_in, btime_in, btime_line, display_name, int_in, is_digit,
    is_space, line_break, lossy, nth_word, number_in, past_zeros, starttime_in, strings_in,
    unix_ms, unsigned, value_of, without_leading_space, without_trailing_space, word_end, zero_at,
};
use crate::resource::terminal::process_facet::{kernel_pid, name_in, ChildProcess};
use crate::text::{before, decimal, digit_char};
use vstd::prelude::*;

verus! {

proof fn lemma_decimal_digits(n: nat)
    ensures
        decimal(n).len() >= 1,
        value_of(decimal(n)) == n,
        forall|i: int| 0 <= i < decimal(n).len() ==> is_digit(#[trigger] decimal(n)[i]),
    decreases n,
{
    reveal_with_fuel(value_of, 2);
    if n < 10 {
        let text = decimal(n);
        assert(text == seq![digit_char(n)]);
        assert(text.drop_last() == Seq::<char>::empty());
        assert(text.last() as int == 48 + n);
    } else {
        lemma_decimal_digits(n / 10);
        let text = decimal(n);
        assert(text == decimal(n / 10).push(digit_char(n % 10)));
        assert(text.drop_last() == decimal(n / 10));
        assert(text.last() as int == 48 + n % 10);
        assert forall|i: int| 0 <= i < text.len() implies is_digit(#[trigger] text[i]) by {
            if i < text.len() - 1 {
                assert(text[i] == decimal(n / 10)[i]);
            }
        }
    }
}

/// A number is read back from its decimal text, also behind a plus sign, and two
/// numbers are never written alike.
pub proof fn law_numbers_are_read_back(n: u64, other: u64)
    ensures
        number_in(decimal(n as nat)) == Some(n),
        number_in(seq!['+'] + decimal(n as nat)) == Some(n),
        decimal(n as nat) == decimal(other as nat) ==> n == other,
{
    let text = decimal(n as nat);
    lemma_decimal_digits(n as nat);
    lemma_decimal_digits(other as nat);
    assert(is_digit(text[0]));
    assert(unsigned(text) == text);
    let signed = seq!['+'] + text;
    assert(signed[0] == '+');
    assert(unsigned(signed) == text);
}

/// What holds anything but digits, or nothing at all, is no number.
pub proof fn law_other_texts_are_no_numbers(text: Seq<char>, i: int)
    ensures
        text.len() == 0 ==> number_in(text) is None,
        0 <= i < text.len() && text[0] != '+' && !('0' <= text[i] <= '9') ==> number_in(text)
            is None,
{
    if 0 <= i < text.len() && text[0] != '+' && !('0' <= text[i] <= '9') {
        assert(unsigned(text) == text);
        assert(!is_digit(text[i]));
    }
}

proof fn lemma_word_end(text: Seq<char>, from: int)
    requires
        0 <= from <= text.len(),
    ensures
        from <= word_end(text, from) <= text.len(),
        forall|i: int| from <= i < word_end(text, from) ==> !is_space(#[trigger] text[i]),
        word_end(text, from) < text.len() ==> is_space(text[word_end(text, from)]),
    decreases text.len() - from,
{
    if from < text.len() && !is_space(text[from]) {
        lemma_word_end(text, from + 1);
    }
}

/// Words are separated by white space: the first word comes first, what follows
/// it is counted from there, and white space in front does not count.
pub proof fn law_words_are_counted_in_order(
    word: Seq<char>,
    gap: char,
    rest: Seq<char>,
    n: nat,
)
    requires
        word.len() > 0,
        forall|i: int| 0 <= i < word.len() ==> !is_space(#[trigger] word[i]),
        is_space(gap),
    ensures
        nth_word(word.push(gap) + rest, 0) == Some(word),
        nth_word(word.push(gap) + rest, n + 1) == nth_word(rest, n),
        nth_word(seq![gap] + rest, n) == nth_word(rest, n),
        nth_word(word, 0) == Some(word),
        nth_word(word, n + 1) is None,
        nth_word(Seq::<char>::empty(), n) is None,
{
    let text = word.push(gap) + rest;
    assert(text[0] == word[0]);
    assert(!is_space(text[0]));
    assert(without_leading_space(text) == text);
    lemma_word_end(text, 0);
    let end = word_end(text, 0);
    assert(text[word.len() as int] == gap);
    if end < word.len() {
        assert(text[end] == word[end]);
    }
    assert(end == word.len());
    assert(text.take(end) == word);
    let tail = text.skip(end);
    assert(tail == seq![gap] + rest);
    assert((seq![gap] + rest)[0] == gap);
    assert((seq![gap] + rest).skip(1) == rest);
    assert(without_leading_space(seq![gap] + rest) == without_leading_space(rest));
    assert(nth_word(text, n + 1) == nth_word(tail, n));
    assert(without_leading_space(word) == word);
    lemma_word_end(word, 0);
    let whole = word_end(word, 0);
    if whole < word.len() {
        assert(!is_space(word[whole]));
    }
    assert(word.take(whole) == word);
    assert(word.skip(whole) == Seq::<char>::empty());
    assert(nth_word(word, n + 1) == nth_word(word.skip(whole), n));
    assert(without_leading_space(Seq::<char>::empty()).len() == 0);
}

/// The start of a process is its twentieth field behind its name, as a number:
/// whatever the name holds, what comes after that field does not matter, and
/// without it there is none.
pub proof fn law_the_start_is_the_twentieth_field(
    name: Seq<char>,
    fields: Seq<char>,
    ticks: u64,
)
    requires
        forall|i: int| 0 <= i < fields.len() ==> #[trigger] fields[i] != ')',
    ensures
        nth_word(fields, 19) == Some(decimal(ticks as nat)) ==> starttime_in(
            name.push(')') + fields,
        ) == Some(ticks),
        nth_word(fields, 19) is None ==> starttime_in(name.push(')') + fields) is None,
{
    crate::proc_query::law_names_do_not_shift_fields(name, fields);
    law_numbers_are_read_back(ticks, ticks);
}

proof fn lemma_line_break(text: Seq<char>, from: int)
    requires
        0 <= from <= text.len(),
    ensures
        from <= line_break(text, from) <= text.len(),
        forall|i: int| from <= i < line_break(text, from) ==> #[trigger] text[i] != '\n',
        line_break(text, from) < text.len() ==> text[line_break(text, from)] == '\n',
    decreases text.len() - from,
{
    if from < text.len() && text[from] != '\n' {
        lemma_line_break(text, from + 1);
    }
}

/// The boot time stands on the first line that announces it; lines before that
/// do not matter, and neither does anything after it.
pub proof fn law_the_boot_time_stands_on_its_line(
    line: Seq<char>,
    rest: Seq<char>,
    seconds: u64,
)
    requires
        forall|i: int| 0 <= i < line.len() ==> #[trigger] line[i] != '\n',
    ensures
        line == "btime "@ + decimal(seconds as nat) ==> btime_in(line.push('\n') + rest) == Some(
            seconds,
        ),
        !("btime "@.is_prefix_of(line)) ==> btime_in(line.push('\n') + rest) == btime_in(rest),
{
    let text = line.push('\n') + rest;
    lemma_line_break(text, 0);
    let end = line_break(text, 0);
    assert(text[line.len() as int] == '\n');
    if end < line.len() {
        assert(text[end] == line[end]);
    }
    assert(end == line.len());
    assert(text.take(end) == line);
    assert(text.skip(end + 1) == rest);
    reveal_strlit("btime ");
    if line == "btime "@ + decimal(seconds as nat) {
        let digits = decimal(seconds as nat);
        lemma_decimal_digits(seconds as nat);
        assert(line.take(6) == "btime "@);
        assert(line.skip(6) == digits);
        assert(btime_line(line) == Some(digits));
        assert(is_digit(digits[0]));
        assert(is_digit(digits[digits.len() - 1]));
        assert(without_leading_space(digits) == digits);
        assert(without_trailing_space(digits) == digits);
        law_numbers_are_read_back(seconds, seconds);
    }
    if !("btime "@.is_prefix_of(line)) {
        if line.len() >= 6 && line.take(6) == "btime "@ {
            assert("btime "@.is_prefix_of(line));
        }
        assert(btime_line(line) is None);
    }
}

/// A process that started so many whole seconds after boot started that many
/// seconds after the boot time, in milliseconds; a clock without ticks and a
/// result that does not fit give none. Later ticks never give an earlier time.
pub proof fn law_start_times_add_up(seconds: int, boot_secs: int, ticks_per_sec: int, more: int)
    requires
        0 <= seconds,
        0 <= boot_secs,
        0 < ticks_per_sec,
        0 <= more,
    ensures
        seconds * ticks_per_sec * 1000 <= u64::MAX && (boot_secs + seconds) * 1000 <= u64::MAX
            ==> unix_ms(seconds * ticks_per_sec, boot_secs, ticks_per_sec) == Some(
            ((boot_secs + seconds) * 1000) as u64,
        ),
        unix_ms(seconds, boot_secs, 0) is None,
        unix_ms(more, boot_secs, ticks_per_sec) matches Some(at) ==> at >= boot_secs * 1000,
        unix_ms(more, boot_secs, ticks_per_sec) matches Some(at) ==> (unix_ms(
            more + seconds,
            boot_secs,
            ticks_per_sec,
        ) matches Some(later) ==> later >= at),
{
    assert(seconds * ticks_per_sec * 1000 / ticks_per_sec == seconds * 1000) by (nonlinear_arith)
        requires
            0 < ticks_per_sec,
            0 <= seconds,
    ;
    assert(more * 1000 / ticks_per_sec >= 0) by (nonlinear_arith)
        requires
            0 < ticks_per_sec,
            0 <= more,
    ;
    assert((more + seconds) * 1000 / ticks_per_sec >= more * 1000 / ticks_per_sec)
        by (nonlinear_arith)
        requires
            0 < ticks_per_sec,
            0 <= more,
            0 <= seconds,
    ;
    assert(0 <= seconds * ticks_per_sec) by (nonlinear_arith)
        requires
            0 < ticks_per_sec,
            0 <= seconds,
    ;
}

proof fn lemma_zero_at(bytes: Seq<u8>, from: int)
    requires
        0 <= from <= bytes.len(),
    ensures
        from <= zero_at(bytes, from) <= bytes.len(),
        forall|i: int| from <= i < zero_at(bytes, from) ==> #[trigger] bytes[i] != 0,
        zero_at(bytes, from) < bytes.len() ==> bytes[zero_at(bytes, from)] == 0,
    decreases bytes.len() - from,
{
    if from < bytes.len() && bytes[from] != 0 {
        lemma_zero_at(bytes, from + 1);
    }
}

/// Arguments are told apart by the zero behind each, in their order; an empty one
/// is passed over, and the last one may stand without its zero.
pub proof fn law_arguments_are_told_apart_by_zeros(
    argument: Seq<u8>,
    rest: Seq<u8>,
    found: Seq<Seq<char>>,
)
    requires
        forall|i: int| 0 <= i < argument.len() ==> #[trigger] argument[i] != 0,
    ensures
        argument.len() > 0 ==> arguments_in(argument.push(0) + rest, found) == arguments_in(
            rest,
            found.push(lossy(argument)),
        ),
        argument.len() > 0 ==> arguments_in(argument, found) == found.push(lossy(argument)),
        arguments_in(seq![0u8] + rest, found) == arguments_in(rest, found),
        arguments_in(Seq::<u8>::empty(), found) == found,
{
    let bytes = argument.push(0) + rest;
    lemma_zero_at(bytes, 0);
    let end = zero_at(bytes, 0);
    assert(bytes[argument.len() as int] == 0);
    if end < argument.len() {
        assert(bytes[end] == argument[end]);
    }
    assert(end == argument.len());
    assert(bytes.take(end) == argument);
    assert(bytes.skip(end + 1) == rest);
    lemma_zero_at(argument, 0);
    let whole = zero_at(argument, 0);
    if whole < argument.len() {
        assert(argument[whole] != 0);
    }
    assert(argument.take(whole) == argument);
    let gap = seq![0u8] + rest;
    assert(gap[0] == 0);
    assert(gap.skip(1) == rest);
}

/// Of a counted argument list exactly the counted strings are taken, in their
/// order, each up to its zero, and none where one is cut short.
pub proof fn law_counted_arguments_are_taken_in_order(
    head: Seq<u8>,
    argument: Seq<u8>,
    rest: Seq<u8>,
    argc: nat,
    found: Seq<Seq<char>>,
)
    requires
        forall|i: int| 0 <= i < argument.len() ==> #[trigger] argument[i] != 0,
    ensures
        strings_in(
            head + argument.push(0) + rest,
            head.len() as int,
            argc + 1,
            found,
        ) == strings_in(
            head + argument.push(0) + rest,
            (head.len() + argument.len() + 1) as int,
            argc,
            found.push(lossy(argument)),
        ),
        strings_in(head + argument, head.len() as int, argc + 1, found) is None,
        strings_in(head, head.len() as int, 0, found) == Some(found),
{
    let bytes = head + argument.push(0) + rest;
    let from = head.len() as int;
    let tail = bytes.skip(from);
    assert(tail == argument.push(0) + rest);
    lemma_zero_at(tail, 0);
    let end = zero_at(tail, 0);
    assert(tail[argument.len() as int] == 0);
    if end < argument.len() {
        assert(tail[end] == argument[end]);
    }
    assert(end == argument.len());
    assert(tail.take(end) == argument);
    let short = (head + argument).skip(from);
    assert(short == argument);
    lemma_zero_at(argument, 0);
    if zero_at(argument, 0) < argument.len() {
        assert(argument[zero_at(argument, 0)] != 0);
    }
}

/// Behind the path of the program come zeros, and behind those the arguments.
pub proof fn law_arguments_come_behind_the_path(
    path: Seq<u8>,
    argument: Seq<u8>,
    rest: Seq<u8>,
    argc: int,
)
    requires
        forall|i: int| 0 <= i < path.len() ==> #[trigger] path[i] != 0,
        argument.len() > 0,
        forall|i: int| 0 <= i < argument.len() ==> #[trigger] argument[i] != 0,
    ensures
        arguments_after_path(path.push(0) + (argument.push(0) + rest), 1) == Some(
            seq![lossy(argument)],
        ),
        argc <= 0 ==> arguments_after_path(path.push(0) + (argument.push(0) + rest), argc) is None,
        arguments_after_path(path, argc) is None,
{
    let bytes = path.push(0) + (argument.push(0) + rest);
    lemma_zero_at(bytes, 0);
    let end = zero_at(bytes, 0);
    assert(bytes[path.len() as int] == 0);
    if end < path.len() {
        assert(bytes[end] == path[end]);
    }
    assert(end == path.len());
    assert(bytes[end + 1] == argument[0]);
    assert(past_zeros(bytes, end + 1) == end + 1);
    let head = path.push(0);
    assert(bytes == head + argument.push(0) + rest);
    law_counted_arguments_are_taken_in_order(
        head,
        argument,
        rest,
        0,
        Seq::<Seq<char>>::empty(),
    );
    assert(Seq::<Seq<char>>::empty().push(lossy(argument)) == seq![lossy(argument)]);
    lemma_zero_at(path, 0);
    if zero_at(path, 0) < path.len() {
        assert(path[zero_at(path, 0)] != 0);
    }
}

/// The name that is shown is what stands behind the last slash, without the
/// dashes of a login shell; a plain name is shown as it is.
pub proof fn law_plain_names_are_shown_whole(folder: Seq<char>, name: Seq<char>)
    requires
        name.len() > 0,
        name[0] != '-',
        forall|i: int| 0 <= i < name.len() ==> #[trigger] name[i] != '/',
    ensures
        display_name(name) == name,
        display_name(folder.push('/') + name) == name,
        display_name(seq!['-'] + name) == name,
        display_name(folder.push('/') + (seq!['-'] + name)) == name,
{
    lemma_no_slash(name, name.len());
    assert(name.skip(0) == name);
    let long = folder.push('/') + name;
    lemma_slash_before(folder, name, long.len());
    assert(long.skip((folder.len() + 1) as int) == name);
    let login = seq!['-'] + name;
    assert forall|i: int| 0 <= i < login.len() implies #[trigger] login[i] != '/' by {
        if i > 0 {
            assert(login[i] == name[i - 1]);
        }
    }
    lemma_no_slash(login, login.len());
    assert(login.skip(0) == login);
    assert(login[0] == '-');
    assert(login.skip(1) == name);
    let both = folder.push('/') + login;
    lemma_slash_before(folder, login, both.len());
    assert(both.skip((folder.len() + 1) as int) == login);
}

proof fn lemma_no_slash(name: Seq<char>, n: nat)
    requires
        n <= name.len(),
        forall|i: int| 0 <= i < name.len() ==> #[trigger] name[i] != '/',
    ensures
        crate::proc_query::after_last_slash(name, n) == 0,
    decreases n,
{
    if n > 0 {
        lemma_no_slash(name, (n - 1) as nat);
    }
}

proof fn lemma_slash_before(folder: Seq<char>, name: Seq<char>, n: nat)
    requires
        folder.len() < n <= folder.len() + 1 + name.len(),
        forall|i: int| 0 <= i < name.len() ==> #[trigger] name[i] != '/',
    ensures
        crate::proc_query::after_last_slash(folder.push('/') + name, n) == folder.len() + 1,
    decreases n,
{
    let text = folder.push('/') + name;
    if n > folder.len() + 1 {
        assert(text[n - 1] == name[n - 2 - folder.len()]);
        lemma_slash_before(folder, name, (n - 1) as nat);
    } else {
        assert(text[n - 1] == '/');
    }
}

/// A count reads the same from either end once its bytes are turned round; small
/// counts are their lowest byte, and a count with its highest bit set is
/// negative.
pub proof fn law_counts_read_alike_from_either_end(bytes: Seq<u8>)
    requires
        bytes.len() == 4,
    ensures
        int_in(bytes, true) == int_in(seq![bytes[3], bytes[2], bytes[1], bytes[0]], false),
        bytes[1] == 0 && bytes[2] == 0 && bytes[3] == 0 ==> int_in(bytes, true) == bytes[0],
        bytes[0] == 0 && bytes[2] == 0 && bytes[3] == 0 ==> int_in(bytes, true) == bytes[1] * 256,
        int_in(bytes, true) < 0 <==> bytes[3] >= 128,
        i32::MIN <= int_in(bytes, true) <= i32::MAX,
{
}

/// A process number is one that the kernel can hold, unchanged, or none.
pub proof fn law_process_numbers_fit_the_kernel(pid: Option<u32>)
    ensures
        kernel_pid(pid) matches Some(kept) ==> pid == Some(kept as u32) && kept >= 0,
        kernel_pid(pid) is Some <==> pid is Some && pid->Some_0 <= i32::MAX,
{
}

/// Names are ordered: of two, either one comes first or they are the same, and a
/// beginning comes before what it begins.
pub proof fn law_names_are_ordered(a: Seq<char>, b: Seq<char>, c: char)
    ensures
        a != b ==> before(a, b) || before(b, a),
        !(before(a, b) && before(b, a)),
        !before(a, a),
        before(a, a.push(c)),
    decreases a.len(),
{
    crate::text::lemma_before_is_total(a, b);
    crate::text::lemma_before_is_strict(a);
    if before(a, b) && before(b, a) {
        crate::text::lemma_before_is_transitive(a, b, a);
    }
    if a.len() > 0 {
        law_names_are_ordered(a.drop_first(), b, c);
        assert(a.push(c).drop_first() == a.drop_first().push(c));
        assert(a.push(c)[0] == a[0]);
    }
}

/// When the leader of a group is the terminal's own child, what was captured of
/// the child stands, whatever is read later; of any other leader the reading is
/// what is known.
pub proof fn law_the_child_keeps_its_start(
    child: ChildProcess,
    pgid: i32,
    reading: Option<u64>,
    other: Option<u64>,
)
    ensures
        child.leader_start(pgid, reading) != child.leader_start(pgid, other) ==> kernel_pid(
            child.pid,
        ) != Some(pgid),
        kernel_pid(child.pid) == Some(pgid) ==> child.leader_start(pgid, reading)
            == child.start_ms,
        kernel_pid(child.pid) != Some(pgid) ==> child.leader_start(pgid, reading) == reading,
{
}

/// A process is called by its first argument, as that is displayed, and has no
/// name where that displays as nothing; later arguments do not matter.
pub proof fn law_processes_are_called_by_their_first_argument(
    argv: Vec<String>,
    other: Vec<String>,
)
    requires
        argv@.len() > 0,
        other@.len() > 0,
        argv@[0]@ == other@[0]@,
    ensures
        name_in(Some(argv)) == name_in(Some(other)),
        name_in(Some(argv)) matches Some(name) ==> name == display_name(argv@[0]@) && name.len()
            > 0,
        name_in(Some(argv)) is None <==> display_name(argv@[0]@).len() == 0,
        name_in(None) is None,
{
}

} // verus!
