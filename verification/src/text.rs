//! Text as sequences of characters: lines, words, quotes and hexadecimal numbers.
use vstd::prelude::*;

verus! {

/// The characters of `s`, in order.
pub fn chars_of(s: &str) -> (chars: Vec<char>)
    ensures
        chars@ == s@,
{
    let mut chars: Vec<char> = Vec::new();
    for c in it: s.chars()
        invariant
            it.seq() == s@,
            chars@ == it.seq().take(it.index() as int),
    {
        proof {
            assert(s@.take(it.index() + 1) == s@.take(it.index() as int).push(c));
        }
        chars.push(c);
    }
    assert(s@.take(s@.len() as int) == s@);
    chars
}

/// A copy of the characters from `from` up to `to`.
pub fn slice_of(text: &Vec<char>, from: usize, to: usize) -> (part: Vec<char>)
    requires
        from <= to <= text@.len(),
    ensures
        part@ == text@.subrange(from as int, to as int),
{
    let mut part: Vec<char> = Vec::new();
    let mut i: usize = from;
    while i < to
        invariant
            from <= i <= to <= text@.len(),
            part@ == text@.subrange(from as int, i as int),
        decreases to - i,
    {
        part.push(text[i]);
        i = i + 1;
    }
    part
}

/// Whether a character stands in a text.
pub fn has_char(text: &Vec<char>, c: char) -> (yes: bool)
    ensures
        yes == text@.contains(c),
{
    let mut i: usize = 0;
    while i < text.len()
        invariant
            i <= text@.len(),
            forall|k: int| 0 <= k < i ==> #[trigger] text@[k] != c,
        decreases text.len() - i,
    {
        if text[i] == c {
            return true;
        }
        i = i + 1;
    }
    false
}

/// Whether `text` starts with `prefix`.
pub fn starts_with(text: &Vec<char>, prefix: &str) -> (yes: bool)
    ensures
        yes == prefix@.is_prefix_of(text@),
{
    let head: Vec<char> = chars_of(prefix);
    if head.len() > text.len() {
        return false;
    }
    let mut i: usize = 0;
    while i < head.len()
        invariant
            head@ == prefix@,
            i <= head@.len() <= text@.len(),
            forall|k: int| 0 <= k < i ==> head@[k] == text@[k],
        decreases head.len() - i,
    {
        if head[i] != text[i] {
            assert(prefix@[i as int] != text@.subrange(0, prefix@.len() as int)[i as int]);
            return false;
        }
        i = i + 1;
    }
    assert(prefix@ =~= text@.subrange(0, prefix@.len() as int));
    true
}

/// Whether `text` is exactly `other`.
pub fn same_text(text: &Vec<char>, other: &str) -> (yes: bool)
    ensures
        yes == (text@ == other@),
{
    let chars: Vec<char> = chars_of(other);
    if chars.len() != text.len() {
        return false;
    }
    let yes: bool = starts_with(text, other);
    proof {
        if yes {
            assert(text@.subrange(0, other@.len() as int) == text@);
        } else {
            assert(text@.subrange(0, text@.len() as int) == text@);
        }
    }
    yes
}

/// Where the line that holds position `from` ends: at the next line feed, or with the text.
pub open spec fn line_end(text: Seq<char>, from: int) -> int
    decreases text.len() - from,
{
    if from >= text.len() {
        text.len() as int
    } else if text[from] == '\n' {
        from
    } else {
        line_end(text, from + 1)
    }
}

/// A line without the carriage return that stood before its line feed.
pub open spec fn without_return(line: Seq<char>) -> Seq<char> {
    if line.len() > 0 && line.last() == '\r' {
        line.drop_last()
    } else {
        line
    }
}

proof fn line_end_bounds(text: Seq<char>, from: int)
    requires
        0 <= from <= text.len(),
    ensures
        from <= line_end(text, from) <= text.len(),
        line_end(text, from) < text.len() ==> text[line_end(text, from)] == '\n',
    decreases text.len() - from,
{
    if from < text.len() && text[from] != '\n' {
        line_end_bounds(text, from + 1);
    }
}

/// The lines of the text from position `from` on. A line ends with a line feed, or with a
/// carriage return and a line feed; the last line may end with the text instead.
pub open spec fn lines_from(text: Seq<char>, from: int) -> Seq<Seq<char>>
    decreases text.len() - from,
    when 0 <= from
    via lines_from_decreases
{
    if from >= text.len() {
        seq![]
    } else {
        let end = line_end(text, from);
        if end == text.len() {
            seq![text.subrange(from, end)]
        } else {
            seq![without_return(text.subrange(from, end))] + lines_from(text, end + 1)
        }
    }
}

#[via_fn]
proof fn lines_from_decreases(text: Seq<char>, from: int) {
    if from < text.len() {
        line_end_bounds(text, from);
    }
}

/// The lines of a text.
pub open spec fn lines(text: Seq<char>) -> Seq<Seq<char>> {
    lines_from(text, 0)
}

/// The characters behind each line.
pub open spec fn views(list: Seq<Vec<char>>) -> Seq<Seq<char>> {
    Seq::new(list.len(), |i: int| list[i]@)
}

/// Splits a text into its lines.
pub fn split_lines(text: &Vec<char>) -> (out: Vec<Vec<char>>)
    ensures
        views(out@) == lines(text@),
{
    let mut out: Vec<Vec<char>> = Vec::new();
    let mut from: usize = 0;
    assert(views(out@) + lines_from(text@, 0) =~= lines(text@));
    while from < text.len()
        invariant
            from <= text@.len(),
            views(out@) + lines_from(text@, from as int) == lines(text@),
        decreases text.len() - from,
    {
        let mut end: usize = from;
        while end < text.len() && text[end] != '\n'
            invariant
                from <= end <= text@.len(),
                line_end(text@, from as int) == line_end(text@, end as int),
            decreases text.len() - end,
        {
            end = end + 1;
        }
        let ghost before = views(out@);
        if end == text.len() {
            let line: Vec<char> = slice_of(text, from, end);
            out.push(line);
            from = end;
            proof {
                assert(views(out@) =~= before.push(line@));
                assert(before.push(line@) + lines_from(text@, from as int) =~= before + seq![line@]);
            }
        } else {
            let mut stop: usize = end;
            if from < end && text[end - 1] == '\r' {
                stop = end - 1;
            }
            let line: Vec<char> = slice_of(text, from, stop);
            proof {
                let whole = text@.subrange(from as int, end as int);
                assert(line@ =~= without_return(whole));
                assert(lines_from(text@, from as int) == seq![line@] + lines_from(
                    text@,
                    end + 1,
                ));
            }
            out.push(line);
            from = end + 1;
            proof {
                assert(views(out@) =~= before.push(line@));
                assert(before.push(line@) + lines_from(text@, from as int) =~= before + (
                seq![line@] + lines_from(text@, from as int)));
            }
        }
    }
    assert(views(out@) + lines_from(text@, from as int) =~= views(out@));
    out
}

/// The characters with Unicode's `White_Space` property.
pub open spec fn is_space(c: char) -> bool {
    let n = c as int;
    ||| 0x09 <= n <= 0x0D
    ||| n == 0x20
    ||| n == 0x85
    ||| n == 0xA0
    ||| n == 0x1680
    ||| 0x2000 <= n <= 0x200A
    ||| n == 0x2028
    ||| n == 0x2029
    ||| n == 0x202F
    ||| n == 0x205F
    ||| n == 0x3000
}

/// Whether `c` separates words.
pub fn separates_words(c: char) -> (yes: bool)
    ensures
        yes == is_space(c),
{
    let n: u32 = c as u32;
    (0x09 <= n && n <= 0x0D) || n == 0x20 || n == 0x85 || n == 0xA0 || n == 0x1680 || (0x2000 <= n
        && n <= 0x200A) || n == 0x2028 || n == 0x2029 || n == 0x202F || n == 0x205F || n == 0x3000
}

/// The text up to its first white space.
pub open spec fn word_at_start(text: Seq<char>) -> Seq<char>
    decreases text.len(),
{
    if text.len() == 0 || is_space(text[0]) {
        seq![]
    } else {
        seq![text[0]] + word_at_start(text.skip(1))
    }
}

/// The first word of a text; empty where there is none.
pub open spec fn first_word(text: Seq<char>) -> Seq<char>
    decreases text.len(),
{
    if text.len() > 0 && is_space(text[0]) {
        first_word(text.skip(1))
    } else {
        word_at_start(text)
    }
}

proof fn word_is_a_run(text: Seq<char>, end: int)
    requires
        0 <= end <= text.len(),
        forall|k: int| 0 <= k < end ==> !is_space(#[trigger] text[k]),
        end < text.len() ==> is_space(text[end]),
    ensures
        word_at_start(text) == text.take(end),
    decreases end,
{
    if end > 0 {
        let rest = text.skip(1);
        assert forall|k: int| 0 <= k < end - 1 implies !is_space(#[trigger] rest[k]) by {
            assert(rest[k] == text[k + 1]);
        }
        word_is_a_run(rest, end - 1);
        assert(seq![text[0]] + rest.take(end - 1) =~= text.take(end));
    } else {
        assert(text.take(0) =~= seq![]);
    }
}

/// The first word of `text`.
pub fn take_first_word(text: &Vec<char>) -> (word: Vec<char>)
    ensures
        word@ == first_word(text@),
{
    let mut from: usize = 0;
    assert(text@.skip(0) =~= text@);
    while from < text.len() && separates_words(text[from])
        invariant
            from <= text@.len(),
            first_word(text@) == first_word(text@.skip(from as int)),
        decreases text.len() - from,
    {
        assert(text@.skip(from as int).skip(1) =~= text@.skip(from + 1));
        assert(text@.skip(from as int)[0] == text@[from as int]);
        from = from + 1;
    }
    let mut to: usize = from;
    while to < text.len() && !separates_words(text[to])
        invariant
            from <= to <= text@.len(),
            forall|k: int| from <= k < to ==> !is_space(#[trigger] text@[k]),
        decreases text.len() - to,
    {
        to = to + 1;
    }
    proof {
        let rest = text@.skip(from as int);
        assert forall|k: int| 0 <= k < to - from implies !is_space(#[trigger] rest[k]) by {
            assert(rest[k] == text@[from + k]);
        }
        if to < text@.len() {
            assert(rest[to - from] == text@[to as int]);
        }
        if from < text@.len() {
            assert(rest[0] == text@[from as int]);
        }
        word_is_a_run(rest, to - from);
        assert(rest.take(to - from) =~= text@.subrange(from as int, to as int));
    }
    slice_of(text, from, to)
}

/// The value of a hexadecimal digit, in either case.
pub open spec fn hex_digit(c: char) -> Option<int> {
    if '0' <= c <= '9' {
        Some(c as int - '0' as int)
    } else if 'a' <= c <= 'f' {
        Some(c as int - 'a' as int + 10)
    } else if 'A' <= c <= 'F' {
        Some(c as int - 'A' as int + 10)
    } else {
        None
    }
}

/// The number that a run of hexadecimal digits writes; `None` where a character is no digit.
pub open spec fn hex_value(digits: Seq<char>) -> Option<int>
    decreases digits.len(),
{
    if digits.len() == 0 {
        Some(0)
    } else {
        match (hex_value(digits.drop_last()), hex_digit(digits.last())) {
            (Some(high), Some(low)) => Some(16 * high + low),
            _ => None,
        }
    }
}

/// The unsigned 64-bit number that a word writes in hexadecimal, with or without a plus sign in
/// front; `None` where it writes no such number.
pub open spec fn hex_number(word: Seq<char>) -> Option<int> {
    let digits = if word.len() > 1 && word[0] == '+' {
        word.skip(1)
    } else {
        word
    };
    match hex_value(digits) {
        Some(n) => if word.len() > 0 && n <= u64::MAX {
            Some(n)
        } else {
            None
        },
        None => None,
    }
}

/// The first word of a text as a hexadecimal number; 0 where it is none.
pub open spec fn hex_word_value(text: Seq<char>) -> int {
    match hex_number(first_word(text)) {
        Some(n) => n,
        None => 0,
    }
}

proof fn hex_value_grows(digits: Seq<char>, n: int)
    requires
        0 <= n <= digits.len(),
    ensures
        hex_value(digits.take(n)) is None ==> hex_value(digits) is None,
        hex_value(digits) is Some ==> 0 <= hex_value(digits.take(n))->0 <= hex_value(digits)->0,
    decreases digits.len(),
{
    if n == digits.len() {
        assert(digits.take(n) =~= digits);
        if n > 0 {
            hex_value_grows(digits.drop_last(), n - 1);
            assert(digits.drop_last().take(n - 1) =~= digits.drop_last());
        }
    } else {
        hex_value_grows(digits.drop_last(), n);
        assert(digits.drop_last().take(n) =~= digits.take(n));
    }
}

fn digit_of(c: char) -> (digit: Option<u64>)
    ensures
        digit is Some <==> hex_digit(c) is Some,
        digit is Some ==> digit->0 == hex_digit(c)->0 && digit->0 < 16,
{
    let n: u32 = c as u32;
    if '0' <= c && c <= '9' {
        Some((n - 48) as u64)
    } else if 'a' <= c && c <= 'f' {
        Some((n - 87) as u64)
    } else if 'A' <= c && c <= 'F' {
        Some((n - 55) as u64)
    } else {
        None
    }
}

/// The first word of `text` as a hexadecimal number, or 0.
pub fn hex_word_of(text: &Vec<char>) -> (n: u64)
    ensures
        n == hex_word_value(text@),
{
    let word: Vec<char> = take_first_word(text);
    if word.len() == 0 {
        return 0;
    }
    let from: usize = if word.len() > 1 && word[0] == '+' {
        1
    } else {
        0
    };
    let ghost digits = word@.skip(from as int);
    proof {
        if from == 0 {
            assert(digits =~= word@);
        }
    }
    let mut n: u64 = 0;
    let mut i: usize = from;
    assert(digits.take(0) =~= seq![]);
    while i < word.len()
        invariant
            from <= i <= word@.len(),
            word@ == first_word(text@),
            word@.len() > 0,
            digits == word@.skip(from as int),
            digits == (if word@.len() > 1 && word@[0] == '+' {
                word@.skip(1)
            } else {
                word@
            }),
            hex_value(digits.take(i - from)) == Some(n as int),
        decreases word.len() - i,
    {
        proof {
            let next = digits.take(i - from + 1);
            assert(next.drop_last() =~= digits.take(i - from));
            assert(next.last() == word@[i as int]);
            hex_value_grows(digits, i - from + 1);
        }
        match digit_of(word[i]) {
            Some(d) => {
                if n > 0x0FFF_FFFF_FFFF_FFFF {
                    return 0;
                }
                n = n * 16 + d;
            },
            None => {
                return 0;
            },
        }
        i = i + 1;
    }
    assert(digits.take(i - from) =~= digits);
    n
}

/// A text without the quotes at its two ends, however many there are.
pub open spec fn without_quotes(text: Seq<char>) -> Seq<char>
    decreases text.len(),
{
    if text.len() > 0 && text[0] == '"' {
        without_quotes(text.skip(1))
    } else if text.len() > 0 && text.last() == '"' {
        without_quotes(text.drop_last())
    } else {
        text
    }
}

/// `text` without the quotes at its two ends.
pub fn trim_quotes(text: &Vec<char>) -> (inner: Vec<char>)
    ensures
        inner@ == without_quotes(text@),
{
    let mut from: usize = 0;
    let mut to: usize = text.len();
    assert(text@.subrange(0, to as int) =~= text@);
    while from < to && text[from] == '"'
        invariant
            from <= to == text@.len(),
            without_quotes(text@) == without_quotes(text@.subrange(from as int, to as int)),
        decreases to - from,
    {
        assert(text@.subrange(from as int, to as int).skip(1) =~= text@.subrange(
            from + 1,
            to as int,
        ));
        from = from + 1;
    }
    while from < to && text[to - 1] == '"'
        invariant
            from <= to <= text@.len(),
            from < to ==> text@[from as int] != '"',
            without_quotes(text@) == without_quotes(text@.subrange(from as int, to as int)),
        decreases to - from,
    {
        assert(text@.subrange(from as int, to as int).drop_last() =~= text@.subrange(
            from as int,
            to - 1,
        ));
        to = to - 1;
    }
    slice_of(text, from, to)
}

/// Where a line ends does not depend on what stands before it.
proof fn line_end_shifts(before: Seq<char>, text: Seq<char>, from: int)
    requires
        0 <= from <= text.len(),
    ensures
        line_end(before + text, before.len() + from) == before.len() + line_end(text, from),
    decreases text.len() - from,
{
    if from < text.len() && text[from] != '\n' {
        line_end_shifts(before, text, from + 1);
    }
}

/// Nor do the lines from there on.
proof fn lines_shift(before: Seq<char>, text: Seq<char>, from: int)
    requires
        0 <= from <= text.len(),
    ensures
        lines_from(before + text, before.len() + from) == lines_from(text, from),
    decreases text.len() - from,
{
    if from < text.len() {
        let end = line_end(text, from);
        let shift = before.len() as int;
        line_end_bounds(text, from);
        line_end_shifts(before, text, from);
        assert((before + text).subrange(shift + from, shift + end) =~= text.subrange(from, end));
        if end < text.len() {
            lines_shift(before, text, end + 1);
        }
    }
}

/// A line that ends inside `text` ends there whatever follows.
proof fn line_end_stays(text: Seq<char>, after: Seq<char>, from: int)
    requires
        0 <= from < text.len(),
        text.last() == '\n',
    ensures
        line_end(text + after, from) == line_end(text, from),
        line_end(text, from) < text.len(),
    decreases text.len() - from,
{
    if text[from] != '\n' {
        line_end_stays(text, after, from + 1);
    }
}

proof fn lines_join_from(text: Seq<char>, after: Seq<char>, from: int)
    requires
        0 <= from <= text.len(),
        text.len() > 0 ==> text.last() == '\n',
    ensures
        lines_from(text + after, from) == lines_from(text, from) + lines(after),
    decreases text.len() - from,
{
    if from == text.len() {
        lines_shift(text, after, 0);
        assert(lines_from(text, from) + lines(after) =~= lines(after));
    } else {
        let end = line_end(text, from);
        line_end_stays(text, after, from);
        line_end_bounds(text, from);
        lines_join_from(text, after, end + 1);
        assert((text + after).subrange(from, end) =~= text.subrange(from, end));
        assert(lines_from(text + after, from) =~= lines_from(text, from) + lines(after));
    }
}

/// Texts of whole lines join line by line.
pub proof fn lemma_lines_join(text: Seq<char>, after: Seq<char>)
    requires
        text.len() > 0 ==> text.last() == '\n',
    ensures
        lines(text + after) == lines(text) + lines(after),
{
    lines_join_from(text, after, 0);
}

/// The lower-case character of a hexadecimal digit.
pub open spec fn hex_char(d: int) -> char {
    seq![
        '0',
        '1',
        '2',
        '3',
        '4',
        '5',
        '6',
        '7',
        '8',
        '9',
        'a',
        'b',
        'c',
        'd',
        'e',
        'f',
    ][d]
}

/// A number in hexadecimal, without leading zeros.
pub open spec fn hex_text(n: nat) -> Seq<char>
    decreases n,
{
    if n < 16 {
        seq![hex_char(n as int)]
    } else {
        hex_text(n / 16).push(hex_char((n % 16) as int))
    }
}

proof fn hex_char_reads_back(d: int)
    requires
        0 <= d < 16,
    ensures
        hex_digit(hex_char(d)) == Some(d),
        !is_space(hex_char(d)),
        hex_char(d) != '+',
{
}

proof fn hex_text_reads_back(n: nat)
    ensures
        hex_value(hex_text(n)) == Some(n as int),
        hex_text(n).len() > 0,
        hex_text(n)[0] != '+',
        forall|k: int| 0 <= k < hex_text(n).len() ==> !is_space(#[trigger] hex_text(n)[k]),
    decreases n,
{
    let d = (n % 16) as int;
    let text = hex_text(n);
    hex_char_reads_back(d);
    if n < 16 {
        assert(text.drop_last() =~= Seq::empty());
        assert(hex_value(Seq::empty()) == Some(0int));
    } else {
        hex_text_reads_back(n / 16);
        assert(text.drop_last() =~= hex_text(n / 16));
        assert(text[0] == hex_text(n / 16)[0]);
        assert forall|k: int| 0 <= k < text.len() implies !is_space(#[trigger] text[k]) by {
            if k < text.len() - 1 {
                assert(text[k] == hex_text(n / 16)[k]);
            }
        }
    }
}

/// Reading the first word as a hexadecimal number undoes writing one, whatever words follow.
pub proof fn lemma_hex_reads_back(n: u64, rest: Seq<char>)
    requires
        rest.len() > 0 ==> is_space(rest[0]),
    ensures
        hex_word_value(hex_text(n as nat) + rest) == n,
{
    let word = hex_text(n as nat);
    let text = word + rest;
    hex_text_reads_back(n as nat);
    assert forall|k: int| 0 <= k < word.len() implies !is_space(#[trigger] text[k]) by {
        assert(text[k] == word[k]);
    }
    word_is_a_run(text, word.len() as int);
    assert(text.take(word.len() as int) =~= word);
    assert(!is_space(text[0]));
    assert(first_word(text) == word);
}

/// Numbers in hexadecimal are written without spaces and line ends.
pub(crate) proof fn lemma_hex_text_is_plain(n: nat)
    ensures
        hex_text(n).len() > 0,
        forall|k: int|
            0 <= k < hex_text(n).len() ==> (#[trigger] hex_text(n)[k]) != '\n' && hex_text(n)[k]
                != '\r',
{
    hex_text_reads_back(n);
    assert forall|k: int| 0 <= k < hex_text(n).len() implies (#[trigger] hex_text(n)[k]) != '\n'
        && hex_text(n)[k] != '\r' by {
        assert(!is_space(hex_text(n)[k]));
    }
}

/// A line without line feeds inside is one line, whether it ends with a line feed, with a carriage
/// return before it, or with the text; of its own carriage returns it loses none.
pub proof fn lemma_one_line_is_one_line(line: Seq<char>)
    requires
        !line.contains('\n'),
    ensures
        line.len() == 0 || line.last() != '\r' ==> lines(line.push('\n')) == seq![line],
        lines(line.push('\r').push('\n')) == seq![line],
        line.len() > 0 ==> lines(line) == seq![line],
        lines(seq![]) == Seq::<Seq<char>>::empty(),
{
    let n = line.len() as int;
    let a = line.push('\n');
    let b = line.push('\r').push('\n');
    assert forall|k: int| 0 <= k < n implies #[trigger] line[k] != '\n' by {
        assert(line.contains(line[k]));
    }
    line_end_is(a, 0, n);
    assert(a.subrange(0, n) =~= line);
    assert(lines_from(a, n + 1) =~= seq![]);
    if n == 0 || line.last() != '\r' {
        assert(lines(a) =~= seq![line]);
    }
    line_end_is(b, 0, n + 1);
    assert(b.subrange(0, n + 1) =~= line.push('\r'));
    assert(line.push('\r').drop_last() =~= line);
    assert(lines_from(b, n + 2) =~= seq![]);
    assert(lines(b) =~= seq![line]);
    if n > 0 {
        line_end_is(line, 0, n);
        assert(line.subrange(0, n) =~= line);
        assert(lines(line) =~= seq![line]);
    }
    assert(lines(seq![]) =~= Seq::<Seq<char>>::empty());
}

proof fn line_end_is(text: Seq<char>, from: int, end: int)
    requires
        0 <= from <= end <= text.len(),
        forall|k: int| from <= k < end ==> #[trigger] text[k] != '\n',
        end < text.len() ==> text[end] == '\n',
    ensures
        line_end(text, from) == end,
    decreases end - from,
{
    if from < end {
        line_end_is(text, from + 1, end);
    }
}

/// The first word is what stands behind leading spaces and before the next one.
pub proof fn lemma_first_words_stand_between_spaces(
    before: Seq<char>,
    word: Seq<char>,
    rest: Seq<char>,
)
    requires
        forall|k: int| 0 <= k < before.len() ==> is_space(#[trigger] before[k]),
        forall|k: int| 0 <= k < word.len() ==> !is_space(#[trigger] word[k]),
        rest.len() > 0 ==> is_space(rest[0]) && word.len() > 0,
    ensures
        first_word(before + word + rest) == word,
    decreases before.len(),
{
    let text = before + word + rest;
    if before.len() > 0 {
        assert(text[0] == before[0]);
        assert(text.skip(1) =~= before.skip(1) + word + rest);
        lemma_first_words_stand_between_spaces(before.skip(1), word, rest);
    } else {
        assert(text =~= word + rest);
        assert forall|k: int| 0 <= k < word.len() implies !is_space(#[trigger] text[k]) by {
            assert(text[k] == word[k]);
        }
        word_is_a_run(text, word.len() as int);
        assert(text.take(word.len() as int) =~= word);
        if word.len() > 0 {
            assert(text[0] == word[0]);
        }
    }
}

/// Hexadecimal digits count from 0 to 15 in either case, and no other character is one; of the ASCII
/// characters exactly the blank and those from tab to carriage return separate words.
pub proof fn lemma_hex_digits_count_in_either_case(c: char, space: bool)
    requires
        call_ensures(separates_words, (c,), space),
    ensures
        '0' <= c <= '9' ==> hex_digit(c) == Some(c as int - 48),
        'a' <= c <= 'f' ==> hex_digit(c) == Some(c as int - 87),
        'A' <= c <= 'F' ==> hex_digit(c) == Some(c as int - 55),
        !('0' <= c <= '9') && !('a' <= c <= 'f') && !('A' <= c <= 'F') ==> hex_digit(c) is None,
        (c as int) < 128 ==> (space <==> c as int == 32 || 9 <= c as int <= 13),
        space ==> hex_digit(c) is None && c != '"' && c != '+',
{
}

/// A word that holds anything but digits, behind one plus sign at most, counts as 0, and so does one
/// that writes a number of more than 64 bits; a plus sign in front changes nothing.
pub proof fn lemma_odd_hex_words_count_as_zero(word: Seq<char>)
    requires
        word.len() > 0,
        forall|k: int| 0 <= k < word.len() ==> !is_space(#[trigger] word[k]),
    ensures
        hex_value(word) is None && word[0] != '+' ==> hex_word_value(word) == 0,
        hex_value(word) matches Some(n) ==> (n > u64::MAX ==> hex_word_value(word) == 0),
        hex_value(word) matches Some(n) ==> (n <= u64::MAX ==> hex_word_value(word) == n
            && hex_word_value(seq!['+'] + word) == n),
        hex_word_value(seq!['+']) == 0,
        hex_word_value(seq![]) == 0,
{
    lemma_first_words_stand_between_spaces(seq![], word, seq![]);
    assert(seq![] + word + seq![] =~= word);
    let plus = seq!['+'];
    let signed = plus + word;
    assert forall|k: int| 0 <= k < signed.len() implies !is_space(#[trigger] signed[k]) by {
        if k > 0 {
            assert(signed[k] == word[k - 1]);
        }
    }
    lemma_first_words_stand_between_spaces(seq![], signed, seq![]);
    assert(seq![] + signed + seq![] =~= signed);
    assert(signed.skip(1) =~= word);
    lemma_first_words_stand_between_spaces(seq![], plus, seq![]);
    assert(seq![] + plus + seq![] =~= plus);
    assert(plus.drop_last() =~= Seq::empty());
    assert(hex_value(Seq::empty()) == Some(0int));
    if hex_value(word) is Some && word[0] == '+' {
        hex_value_has_digits(word, 0);
    }
    assert(first_word(Seq::<char>::empty()) =~= seq![]);
}

proof fn hex_value_has_digits(digits: Seq<char>, k: int)
    requires
        hex_value(digits) is Some,
        0 <= k < digits.len(),
    ensures
        hex_digit(digits[k]) is Some,
    decreases digits.len(),
{
    if k < digits.len() - 1 {
        hex_value_has_digits(digits.drop_last(), k);
    }
}

/// Each further digit counts sixteen times less than the ones before it.
pub proof fn lemma_hex_digits_have_their_places(high: Seq<char>, low: char)
    requires
        hex_value(high) is Some,
        hex_digit(low) is Some,
    ensures
        hex_value(high.push(low)) == Some(16 * hex_value(high)->0 + hex_digit(low)->0),
        hex_value(seq![]) == Some(0int),
{
    assert(high.push(low).drop_last() =~= high);
}

/// Quotes are taken off both ends, however many there are, and none from inside.
pub proof fn lemma_quotes_are_taken_off_the_ends(left: Seq<char>, inner: Seq<char>, right: Seq<char>)
    requires
        forall|k: int| 0 <= k < left.len() ==> #[trigger] left[k] == '"',
        forall|k: int| 0 <= k < right.len() ==> #[trigger] right[k] == '"',
        inner.len() > 0,
        inner[0] != '"',
        inner.last() != '"',
    ensures
        without_quotes(left + inner + right) == inner,
        without_quotes(left) == Seq::<char>::empty(),
    decreases left.len() + right.len(),
{
    let text = left + inner + right;
    if left.len() > 0 {
        assert(text[0] == left[0]);
        assert(text.skip(1) =~= left.skip(1) + inner + right);
        lemma_quotes_are_taken_off_the_ends(left.skip(1), inner, right);
    } else if right.len() > 0 {
        assert(text[0] == inner[0]);
        assert(text.last() == right.last());
        assert(text.drop_last() =~= left + inner + right.drop_last());
        lemma_quotes_are_taken_off_the_ends(left, inner, right.drop_last());
        assert(left =~= seq![]);
    } else {
        assert(text =~= inner);
        assert(left =~= seq![]);
    }
}

} // verus!
