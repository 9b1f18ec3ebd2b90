//! Finding a mouse in the text of `/proc/bus/input/devices`.
use vstd::prelude::*;
use crate::node::{builtin_name, is_builtin_name};
use crate::text::{
    chars_of, hex_word_of, hex_word_value, hex_text, lemma_hex_reads_back, lemma_hex_text_is_plain,
    lemma_lines_join, lemma_one_line_is_one_line, lemma_quotes_are_taken_off_the_ends, line_end, lines, lines_from, slice_of,
    split_lines, starts_with, trim_quotes, views, without_quotes,
};

verus! {

/// The rest of the last line of a block that starts with `prefix`; empty where no line does.
pub open spec fn last_field(block: Seq<Seq<char>>, prefix: Seq<char>) -> Seq<char>
    decreases block.len(),
{
    if block.len() == 0 {
        seq![]
    } else if prefix.is_prefix_of(block.last()) {
        block.last().skip(prefix.len() as int)
    } else {
        last_field(block.drop_last(), prefix)
    }
}

/// Whether the two lowest bits are set: the bits of the X and the Y axis.
pub open spec fn both_axes(word: int) -> bool {
    word % 4 == 3
}

/// The lines of one device describe a mouse: not one of the TV's own, moving relatively on both
/// axes, and not an absolute pointer.
pub open spec fn is_mouse_block(block: Seq<Seq<char>>) -> bool {
    &&& !builtin_name(without_quotes(last_field(block, "N: Name="@)))
    &&& both_axes(hex_word_value(last_field(block, "B: REL="@)))
    &&& !both_axes(hex_word_value(last_field(block, "B: ABS="@)))
}

/// The lines from `i` up to `j` are one device: none of them is empty, and empty lines or the ends
/// of the text stand around them.
pub open spec fn is_block(all: Seq<Seq<char>>, i: int, j: int) -> bool {
    &&& 0 <= i <= j <= all.len()
    &&& forall|k: int| i <= k < j ==> (#[trigger] all[k]).len() > 0
    &&& i == 0 || all[i - 1].len() == 0
    &&& j == all.len() || all[j].len() == 0
}

/// Some device of the text is a mouse.
pub open spec fn lists_hid_mouse(all: Seq<Seq<char>>) -> bool {
    exists|i: int, j: int| #[trigger] is_block(all, i, j) && is_mouse_block(all.subrange(i, j))
}

/// The first word of `s` as a hexadecimal number, or 0.
pub fn hex_word(s: &str) -> (n: u64)
    ensures
        n == hex_word_value(s@),
{
    hex_word_of(&chars_of(s))
}

proof fn low_bits(word: u64)
    ensures
        (word & 0b11 == 0b11) == both_axes(word as int),
{
    assert(word & 0b11 == word % 4) by (bit_vector);
}

/// Blocks end where the lines say: the one that ends at `i` is the run of filled lines before it.
proof fn block_ends(all: Seq<Seq<char>>, start: int, i: int, a: int, b: int)
    requires
        is_block(all, start, i),
        is_block(all, a, b),
        start <= b <= i,
    ensures
        a == start && b == i,
{
    if b < i {
        assert(all[b].len() > 0);
    }
    if a < start {
        assert(all[start - 1].len() > 0);
    }
    if a > start {
        assert(all[a - 1].len() > 0);
    }
}

/// Decides whether the fields of one device are those of a mouse.
fn is_mouse(name: &Vec<char>, rel: u64, abs: u64) -> (yes: bool)
    ensures
        yes == (!builtin_name(name@) && both_axes(rel as int) && !both_axes(abs as int)),
{
    proof {
        low_bits(rel);
        low_bits(abs);
    }
    !is_builtin_name(name) && rel & 0b11 == 0b11 && abs & 0b11 != 0b11
}

/// One more line at the end of a block: it gives each field it starts with a new value.
proof fn field_step(block: Seq<Seq<char>>, line: Seq<char>, prefix: Seq<char>)
    ensures
        last_field(block.push(line), prefix) == (if prefix.is_prefix_of(line) {
            line.skip(prefix.len() as int)
        } else {
            last_field(block, prefix)
        }),
{
    assert(block.push(line).drop_last() =~= block);
}

/// No line gives two fields.
proof fn fields_stay_apart(line: Seq<char>)
    ensures
        "N: Name="@.is_prefix_of(line) ==> !"B: REL="@.is_prefix_of(line) && !"B: ABS="@.is_prefix_of(
            line,
        ),
        "B: REL="@.is_prefix_of(line) ==> !"B: ABS="@.is_prefix_of(line),
        "N: Name="@.len() == 8,
        "B: REL="@.len() == 7,
        "B: ABS="@.len() == 7,
{
    reveal_strlit("N: Name=");
    reveal_strlit("B: REL=");
    reveal_strlit("B: ABS=");
    let name = "N: Name="@;
    let rel = "B: REL="@;
    let abs = "B: ABS="@;
    if name.is_prefix_of(line) {
        assert(line[0] == line.subrange(0, 8)[0]);
    }
    if rel.is_prefix_of(line) {
        assert(line[0] == line.subrange(0, 7)[0]);
        assert(line[3] == line.subrange(0, 7)[3]);
    }
    if abs.is_prefix_of(line) {
        assert(line[0] == line.subrange(0, 7)[0]);
        assert(line[3] == line.subrange(0, 7)[3]);
    }
}

/// Whether the text of `/proc/bus/input/devices` lists a mouse.
pub fn proc_has_hid_mouse(text: &str) -> (yes: bool)
    ensures
        yes == lists_hid_mouse(lines(text@)),
{
    let all: Vec<Vec<char>> = split_lines(&chars_of(text));
    let ghost seen = lines(text@);
    let ghost mut start: int = 0;
    let mut name: Vec<char> = Vec::new();
    let mut rel: u64 = 0;
    let mut abs: u64 = 0;
    let mut i: usize = 0;
    proof {
        assert(seen.subrange(0, 0) =~= seq![]);
        empty_block();
        assert(name@ =~= seq![]);
    }
    while i < all.len()
        invariant
            seen == lines(text@),
            seen == views(all@),
            seen.len() == all@.len(),
            0 <= start <= i <= all@.len(),
            forall|k: int| start <= k < i ==> (#[trigger] seen[k]).len() > 0,
            start == 0 || seen[start - 1].len() == 0,
            name@ == without_quotes(last_field(seen.subrange(start, i as int), "N: Name="@)),
            rel == hex_word_value(last_field(seen.subrange(start, i as int), "B: REL="@)),
            abs == hex_word_value(last_field(seen.subrange(start, i as int), "B: ABS="@)),
            forall|a: int, b: int|
                #[trigger] is_block(seen, a, b) && b < start ==> !is_mouse_block(
                    seen.subrange(a, b),
                ),
        decreases all.len() - i,
    {
        let line: &Vec<char> = &all[i];
        assert(line@ == seen[i as int]);
        if line.len() == 0 {
            proof {
                assert(is_block(seen, start, i as int));
            }
            if is_mouse(&name, rel, abs) {
                assert(is_mouse_block(seen.subrange(start, i as int)));
                return true;
            }
            proof {
                assert forall|a: int, b: int|
                    #[trigger] is_block(seen, a, b) && b < i + 1 implies !is_mouse_block(
                    seen.subrange(a, b),
                ) by {
                    if b >= start {
                        block_ends(seen, start, i as int, a, b);
                    }
                }
                start = i + 1;
                assert(seen.subrange(start, i + 1) =~= seq![]);
                empty_block();
            }
            name = Vec::new();
            assert(name@ =~= seq![]);
            rel = 0;
            abs = 0;
        } else {
            proof {
                let block = seen.subrange(start, i as int);
                assert(seen.subrange(start, i + 1) =~= block.push(line@));
                field_step(block, line@, "N: Name="@);
                field_step(block, line@, "B: REL="@);
                field_step(block, line@, "B: ABS="@);
                fields_stay_apart(line@);
            }
            if starts_with(line, "N: Name=") {
                let rest: Vec<char> = slice_of(line, 8, line.len());
                name = trim_quotes(&rest);
            } else if starts_with(line, "B: REL=") {
                rel = hex_word_of(&slice_of(line, 7, line.len()));
            } else if starts_with(line, "B: ABS=") {
                abs = hex_word_of(&slice_of(line, 7, line.len()));
            }
        }
        i = i + 1;
    }
    proof {
        assert(is_block(seen, start, i as int));
        assert forall|a: int, b: int|
            #[trigger] is_block(seen, a, b) && !is_mouse_block(
                seen.subrange(start, i as int),
            ) implies !is_mouse_block(seen.subrange(a, b)) by {
            if b >= start {
                block_ends(seen, start, i as int, a, b);
            }
        }
    }
    is_mouse(&name, rel, abs)
}

/// A device without lines has empty fields, and they count as no name and no axes.
proof fn empty_block()
    ensures
        forall|prefix: Seq<char>|
            #[trigger] last_field(Seq::<Seq<char>>::empty(), prefix) == Seq::<char>::empty(),
        without_quotes(Seq::<char>::empty()) == Seq::<char>::empty(),
        hex_word_value(Seq::<char>::empty()) == 0,
{
}

/// The lines of two lists of devices, with an empty line between them.
pub open spec fn listed_apart(a: Seq<Seq<char>>, b: Seq<Seq<char>>) -> Seq<Seq<char>> {
    a.push(Seq::empty()) + b
}

/// A device of one of the two lists is a device of both together.
proof fn blocks_stay(a: Seq<Seq<char>>, b: Seq<Seq<char>>, i: int, j: int)
    ensures
        is_block(a, i, j) ==> is_block(listed_apart(a, b), i, j) && listed_apart(a, b).subrange(
            i,
            j,
        ) == a.subrange(i, j),
        is_block(b, i, j) ==> is_block(
            listed_apart(a, b),
            a.len() + 1 + i,
            a.len() + 1 + j,
        ) && listed_apart(a, b).subrange(a.len() + 1 + i, a.len() + 1 + j) == b.subrange(i, j),
{
    let all = listed_apart(a, b);
    let n = a.len() as int + 1;
    if is_block(a, i, j) {
        assert(all.subrange(i, j) =~= a.subrange(i, j));
        assert(forall|k: int| 0 <= k < a.len() ==> #[trigger] all[k] == a[k]);
        assert(all[a.len() as int].len() == 0);
    }
    if is_block(b, i, j) {
        assert(all.subrange(n + i, n + j) =~= b.subrange(i, j));
        assert forall|k: int| n + i <= k < n + j implies (#[trigger] all[k]).len() > 0 by {
            assert(all[k] == b[k - n]);
        }
        assert(i > 0 ==> all[n + i - 1] == b[i - 1]);
        assert(all[n - 1].len() == 0);
        assert(j < b.len() ==> all[n + j] == b[j]);
    }
}

/// A device of both lists together is a device of one of them.
proof fn blocks_come_from(a: Seq<Seq<char>>, b: Seq<Seq<char>>, i: int, j: int)
    requires
        is_block(listed_apart(a, b), i, j),
    ensures
        if j <= a.len() {
            is_block(a, i, j) && listed_apart(a, b).subrange(i, j) == a.subrange(i, j)
        } else {
            is_block(b, i - a.len() - 1, j - a.len() - 1) && listed_apart(a, b).subrange(i, j)
                == b.subrange(i - a.len() - 1, j - a.len() - 1)
        },
{
    let all = listed_apart(a, b);
    let n = a.len() as int + 1;
    assert(all[n - 1].len() == 0);
    if j <= a.len() {
        assert(forall|k: int| 0 <= k < a.len() ==> #[trigger] all[k] == a[k]);
        assert forall|k: int| i <= k < j implies (#[trigger] a[k]).len() > 0 by {
            assert(all[k] == a[k]);
        }
        assert(all.subrange(i, j) =~= a.subrange(i, j));
    } else {
        if i < n {
            assert(all[n - 1].len() > 0);
        }
        assert forall|k: int| i - n <= k < j - n implies (#[trigger] b[k]).len() > 0 by {
            assert(all[k + n] == b[k]);
        }
        assert(i > n ==> all[i - 1] == b[i - n - 1]);
        assert(j < all.len() ==> all[j] == b[j - n]);
        assert(all.subrange(i, j) =~= b.subrange(i - n, j - n));
    }
}

/// Devices count one by one: two lists with an empty line between them list a mouse exactly where one
/// of them does.
pub proof fn lemma_devices_count_apart(a: Seq<Seq<char>>, b: Seq<Seq<char>>)
    ensures
        lists_hid_mouse(listed_apart(a, b)) <==> lists_hid_mouse(a) || lists_hid_mouse(b),
{
    let all = listed_apart(a, b);
    let n = a.len() as int + 1;
    if lists_hid_mouse(a) {
        let (i, j) = choose|i: int, j: int| #[trigger]
            is_block(a, i, j) && is_mouse_block(a.subrange(i, j));
        blocks_stay(a, b, i, j);
        assert(is_block(all, i, j));
    }
    if lists_hid_mouse(b) {
        let (i, j) = choose|i: int, j: int| #[trigger]
            is_block(b, i, j) && is_mouse_block(b.subrange(i, j));
        blocks_stay(a, b, i, j);
        assert(is_block(all, n + i, n + j));
    }
    if lists_hid_mouse(all) {
        let (i, j) = choose|i: int, j: int| #[trigger]
            is_block(all, i, j) && is_mouse_block(all.subrange(i, j));
        blocks_come_from(a, b, i, j);
        if j > a.len() {
            assert(is_block(b, i - n, j - n));
        }
    }
}

/// The same of texts: whole lines, an empty line, and more text list a mouse exactly where the text
/// before or the text behind the empty line does.
pub proof fn lemma_records_count_apart(first: Seq<char>, second: Seq<char>)
    requires
        first.len() > 0 ==> first.last() == '\n',
    ensures
        lists_hid_mouse(lines(first + seq!['\n'] + second)) <==> lists_hid_mouse(lines(first))
            || lists_hid_mouse(lines(second)),
{
    let gap = seq!['\n'];
    lemma_lines_join(first, gap + second);
    lemma_lines_join(gap, second);
    assert(first + gap + second =~= first + (gap + second));
    lemma_empty_line();
    assert(lines(first + gap + second) =~= listed_apart(lines(first), lines(second)));
    lemma_devices_count_apart(lines(first), lines(second));
}

/// A lone line feed is one empty line.
proof fn lemma_empty_line()
    ensures
        lines(seq!['\n']) == seq![Seq::<char>::empty()],
{
    let gap = seq!['\n'];
    assert(line_end(gap, 0) == 0);
    assert(gap.subrange(0, 0) =~= Seq::empty());
    assert(lines_from(gap, 1) =~= seq![]);
    assert(lines(gap) =~= seq![Seq::<char>::empty()]);
}

/// A line that gives none of the three fields does not matter, wherever it stands.
pub proof fn lemma_other_lines_do_not_matter(
    before: Seq<Seq<char>>,
    line: Seq<char>,
    after: Seq<Seq<char>>,
)
    requires
        !"N: Name="@.is_prefix_of(line),
        !"B: REL="@.is_prefix_of(line),
        !"B: ABS="@.is_prefix_of(line),
    ensures
        is_mouse_block(before + seq![line] + after) <==> is_mouse_block(before + after),
{
    line_without_field(before, line, after, "N: Name="@);
    line_without_field(before, line, after, "B: REL="@);
    line_without_field(before, line, after, "B: ABS="@);
}

proof fn line_without_field(
    before: Seq<Seq<char>>,
    line: Seq<char>,
    after: Seq<Seq<char>>,
    prefix: Seq<char>,
)
    requires
        !prefix.is_prefix_of(line),
    ensures
        last_field(before + seq![line] + after, prefix) == last_field(before + after, prefix),
    decreases after.len(),
{
    let with = before + seq![line] + after;
    let plain = before + after;
    if after.len() > 0 {
        let head = after.drop_last();
        assert(with.drop_last() =~= before + seq![line] + head);
        assert(plain.drop_last() =~= before + head);
        assert(with.last() == plain.last());
        line_without_field(before, line, head, prefix);
    } else {
        assert(with.drop_last() =~= before);
        assert(plain =~= before);
    }
}

/// The line with the name of a record, as the kernel prints it.
pub open spec fn name_line(name: Seq<char>) -> Seq<char> {
    "N: Name="@ + seq!['"'] + name + seq!['"']
}

/// The line with the relative axes.
pub open spec fn rel_line(rel: u64, rest: Seq<char>) -> Seq<char> {
    "B: REL="@ + (hex_text(rel as nat) + rest)
}

/// The line with the absolute axes.
pub open spec fn abs_line(abs: u64, rest: Seq<char>) -> Seq<char> {
    "B: ABS="@ + (hex_text(abs as nat) + rest)
}

/// A record is a mouse's exactly where its name is not the TV's own, the lowest two bits of its
/// relative axes are set, and those of its absolute axes are not both set; without a line on absolute
/// axes it has none. Words behind the first do not matter.
pub proof fn lemma_records_are_judged_by_their_fields(
    name: Seq<char>,
    rel: u64,
    abs: u64,
    rel_rest: Seq<char>,
    abs_rest: Seq<char>,
)
    requires
        name.len() > 0,
        name[0] != '"',
        name.last() != '"',
        rel_rest.len() > 0 ==> rel_rest[0] == ' ',
        abs_rest.len() > 0 ==> abs_rest[0] == ' ',
    ensures
        is_mouse_block(
            seq![name_line(name), rel_line(rel, rel_rest), abs_line(abs, abs_rest)],
        ) <==> !builtin_name(name) && rel % 4 == 3 && abs % 4 != 3,
        is_mouse_block(seq![name_line(name), rel_line(rel, rel_rest)]) <==> !builtin_name(name)
            && rel % 4 == 3,
        !is_mouse_block(seq![name_line(name)]),
{
    let n = name_line(name);
    let r = rel_line(rel, rel_rest);
    let a = abs_line(abs, abs_rest);
    let np = "N: Name="@;
    let rp = "B: REL="@;
    let ap = "B: ABS="@;
    fields_stay_apart(n);
    fields_stay_apart(r);
    fields_stay_apart(a);
    let quoted = seq!['"'] + name + seq!['"'];
    assert(n =~= np + quoted);
    assert(n.subrange(0, 8) =~= np && n.skip(8) =~= quoted);
    assert(r.subrange(0, 7) =~= rp && r.skip(7) =~= hex_text(rel as nat) + rel_rest);
    assert(a.subrange(0, 7) =~= ap && a.skip(7) =~= hex_text(abs as nat) + abs_rest);
    assert(!np.is_prefix_of(r) && !np.is_prefix_of(a) && !rp.is_prefix_of(n) && !rp.is_prefix_of(a)
        && !ap.is_prefix_of(n) && !ap.is_prefix_of(r));
    lemma_quotes_are_taken_off_the_ends(seq!['"'], name, seq!['"']);
    lemma_hex_reads_back(rel, rel_rest);
    lemma_hex_reads_back(abs, abs_rest);
    empty_block();
    let one = seq![n];
    let two = seq![n, r];
    let three = seq![n, r, a];
    assert(one =~= Seq::<Seq<char>>::empty().push(n));
    assert(two =~= one.push(r));
    assert(three =~= two.push(a));
    field_step(seq![], n, np);
    field_step(seq![], n, rp);
    field_step(seq![], n, ap);
    field_step(one, r, np);
    field_step(one, r, rp);
    field_step(one, r, ap);
    field_step(two, a, np);
    field_step(two, a, rp);
    field_step(two, a, ap);
}

/// The order of a record's lines does not matter where they give different fields.
pub proof fn lemma_fields_come_in_any_order(
    before: Seq<Seq<char>>,
    x: Seq<char>,
    y: Seq<char>,
    after: Seq<Seq<char>>,
)
    requires
        !("N: Name="@.is_prefix_of(x) && "N: Name="@.is_prefix_of(y)),
        !("B: REL="@.is_prefix_of(x) && "B: REL="@.is_prefix_of(y)),
        !("B: ABS="@.is_prefix_of(x) && "B: ABS="@.is_prefix_of(y)),
    ensures
        is_mouse_block(before + seq![x, y] + after) <==> is_mouse_block(
            before + seq![y, x] + after,
        ),
{
    lines_swap(before, x, y, after, "N: Name="@);
    lines_swap(before, x, y, after, "B: REL="@);
    lines_swap(before, x, y, after, "B: ABS="@);
}

proof fn lines_swap(
    before: Seq<Seq<char>>,
    x: Seq<char>,
    y: Seq<char>,
    after: Seq<Seq<char>>,
    prefix: Seq<char>,
)
    requires
        !(prefix.is_prefix_of(x) && prefix.is_prefix_of(y)),
    ensures
        last_field(before + seq![x, y] + after, prefix) == last_field(
            before + seq![y, x] + after,
            prefix,
        ),
    decreases after.len(),
{
    let a = before + seq![x, y] + after;
    let b = before + seq![y, x] + after;
    if after.len() > 0 {
        let head = after.drop_last();
        assert(a.drop_last() =~= before + seq![x, y] + head);
        assert(b.drop_last() =~= before + seq![y, x] + head);
        lines_swap(before, x, y, head, prefix);
    } else {
        assert(a =~= before.push(x).push(y));
        assert(b =~= before.push(y).push(x));
        field_step(before.push(x), y, prefix);
        field_step(before, x, prefix);
        field_step(before.push(y), x, prefix);
        field_step(before, y, prefix);
    }
}

/// Lines of which none is empty are one record.
pub proof fn lemma_filled_lines_are_one_record(block: Seq<Seq<char>>)
    requires
        forall|k: int| 0 <= k < block.len() ==> (#[trigger] block[k]).len() > 0,
    ensures
        lists_hid_mouse(block) <==> is_mouse_block(block),
{
    let n = block.len() as int;
    assert(block.subrange(0, n) =~= block);
    assert(is_block(block, 0, n));
    if lists_hid_mouse(block) {
        let (i, j) = choose|i: int, j: int| #[trigger]
            is_block(block, i, j) && is_mouse_block(block.subrange(i, j));
        if i > 0 {
            assert(block[i - 1].len() > 0);
        }
        if j < n {
            assert(block[j].len() > 0);
        }
    }
}

/// A text of one record lists a mouse exactly where the record is a mouse's.
pub proof fn lemma_texts_are_judged_by_their_fields(
    text: &str,
    name: Seq<char>,
    rel: u64,
    abs: u64,
    yes: bool,
)
    requires
        call_ensures(proc_has_hid_mouse, (text,), yes),
        name.len() > 0,
        name[0] != '"',
        name.last() != '"',
        !name.contains('\n'),
        text@ == name_line(name).push('\n') + (rel_line(rel, seq![]).push('\n') + abs_line(
            abs,
            seq![],
        ).push('\n')),
    ensures
        yes <==> !builtin_name(name) && rel % 4 == 3 && abs % 4 != 3,
{
    let n = name_line(name);
    let r = rel_line(rel, seq![]);
    let a = abs_line(abs, seq![]);
    reveal_strlit("N: Name=");
    reveal_strlit("B: REL=");
    reveal_strlit("B: ABS=");
    lemma_hex_text_is_plain(rel as nat);
    lemma_hex_text_is_plain(abs as nat);
    assert forall|k: int| 0 <= k < n.len() implies #[trigger] n[k] != '\n' by {
        if 9 <= k < 9 + name.len() {
            assert(n[k] == name[k - 9]);
            assert(name.contains(name[k - 9]));
        }
    }
    assert(!n.contains('\n'));
    hex_line_is_plain("B: REL="@, rel);
    hex_line_is_plain("B: ABS="@, abs);
    assert(n.last() == '"');
    lemma_one_line_is_one_line(n);
    lemma_one_line_is_one_line(r);
    lemma_one_line_is_one_line(a);
    lemma_lines_join(r.push('\n'), a.push('\n'));
    lemma_lines_join(n.push('\n'), r.push('\n') + a.push('\n'));
    let block = seq![n, r, a];
    assert(lines(text@) =~= block);
    lemma_filled_lines_are_one_record(block);
    lemma_records_are_judged_by_their_fields(name, rel, abs, seq![], seq![]);
}

proof fn hex_line_is_plain(prefix: Seq<char>, n: u64)
    requires
        prefix.len() == 7,
        forall|k: int| 0 <= k < 7 ==> #[trigger] prefix[k] != '\n',
    ensures
        !(prefix + (hex_text(n as nat) + seq![])).contains('\n'),
        (prefix + (hex_text(n as nat) + seq![])).len() > 0,
        (prefix + (hex_text(n as nat) + seq![])).last() != '\r',
{
    let digits = hex_text(n as nat);
    let line = prefix + (digits + seq![]);
    lemma_hex_text_is_plain(n as nat);
    assert(line =~= prefix + digits);
    assert forall|k: int| 0 <= k < line.len() implies #[trigger] line[k] != '\n' by {
        if k >= 7 {
            assert(line[k] == digits[k - 7]);
        }
    }
    assert(line.last() == digits.last());
}

} // verus!
