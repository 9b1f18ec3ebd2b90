//! Which nodes of `/dev/input` to try, and in which order.
use vstd::prelude::*;
use vstd::seq_lib::{to_multiset_build, to_multiset_contains, to_multiset_insert};
use vstd::string::StringExecFns;
use crate::text::{chars_of, starts_with};

verus! {

/// The texts behind a list of strings.
pub open spec fn texts(list: Seq<String>) -> Seq<Seq<char>> {
    Seq::new(list.len(), |i: int| list[i]@)
}

/// The path of the node with this name.
pub open spec fn node_path(name: Seq<char>) -> Seq<char> {
    "/dev/input/"@ + name
}

/// Whether to try a directory entry: it has a readable name, the name starts with `event`, and the
/// node is not settled yet.
pub open spec fn is_candidate(entry: Option<String>, seen: Seq<Seq<char>>) -> bool {
    entry is Some && "event"@.is_prefix_of(entry->0@) && !seen.contains(node_path(entry->0@))
}

/// The paths of the entries to try, in the order of the entries.
pub open spec fn candidate_paths(entries: Seq<Option<String>>, seen: Seq<Seq<char>>) -> Seq<
    Seq<char>,
>
    decreases entries.len(),
{
    if entries.len() == 0 {
        seq![]
    } else {
        let before = candidate_paths(entries.drop_last(), seen);
        if is_candidate(entries.last(), seen) {
            before.push(node_path(entries.last()->0@))
        } else {
            before
        }
    }
}

/// Alphabetical order by character number.
pub open spec fn text_le(a: Seq<char>, b: Seq<char>) -> bool
    decreases a.len(),
{
    if a.len() == 0 {
        true
    } else if b.len() == 0 {
        false
    } else if a[0] == b[0] {
        text_le(a.skip(1), b.skip(1))
    } else {
        (a[0] as int) < b[0] as int
    }
}

/// In alphabetical order.
pub open spec fn in_order(list: Seq<Seq<char>>) -> bool {
    forall|i: int, j: int|
        0 <= i <= j < list.len() ==> text_le(#[trigger] list[i], #[trigger] list[j])
}

proof fn text_le_reflexive(a: Seq<char>)
    ensures
        text_le(a, a),
    decreases a.len(),
{
    if a.len() > 0 {
        text_le_reflexive(a.skip(1));
    }
}

proof fn text_le_total(a: Seq<char>, b: Seq<char>)
    ensures
        text_le(a, b) || text_le(b, a),
    decreases a.len(),
{
    if a.len() > 0 && b.len() > 0 && a[0] == b[0] {
        text_le_total(a.skip(1), b.skip(1));
    }
}

proof fn text_le_transitive(a: Seq<char>, b: Seq<char>, c: Seq<char>)
    requires
        text_le(a, b),
        text_le(b, c),
    ensures
        text_le(a, c),
    decreases a.len(),
{
    if a.len() > 0 && a[0] == b[0] && b[0] == c[0] {
        text_le_transitive(a.skip(1), b.skip(1), c.skip(1));
    }
}

/// Whether `a` comes no later than `b` in alphabetical order.
fn comes_first(a: &String, b: &String) -> (yes: bool)
    ensures
        yes == text_le(a@, b@),
{
    let x: Vec<char> = chars_of(a.as_str());
    let y: Vec<char> = chars_of(b.as_str());
    let mut i: usize = 0;
    assert(x@.skip(0) =~= x@);
    assert(y@.skip(0) =~= y@);
    while i < x.len() && i < y.len() && x[i] == y[i]
        invariant
            i <= x@.len(),
            i <= y@.len(),
            text_le(x@, y@) == text_le(x@.skip(i as int), y@.skip(i as int)),
        decreases x.len() - i,
    {
        assert(x@.skip(i as int).skip(1) =~= x@.skip(i + 1));
        assert(y@.skip(i as int).skip(1) =~= y@.skip(i + 1));
        assert(x@.skip(i as int)[0] == x@[i as int]);
        assert(y@.skip(i as int)[0] == y@[i as int]);
        i = i + 1;
    }
    if i >= x.len() {
        return true;
    }
    assert(x@.skip(i as int)[0] == x@[i as int]);
    if i >= y.len() {
        return false;
    }
    assert(y@.skip(i as int)[0] == y@[i as int]);
    let p: char = x[i];
    let q: char = y[i];
    p < q
}

/// Puts a path in its place of an ordered list.
fn insert_in_order(list: &mut Vec<String>, path: String)
    requires
        in_order(texts(old(list)@)),
    ensures
        in_order(texts(final(list)@)),
        texts(final(list)@).to_multiset() == texts(old(list)@).to_multiset().insert(path@),
{
    let ghost before = texts(list@);
    let mut at: usize = 0;
    while at < list.len() && comes_first(&list[at], &path)
        invariant
            at <= list@.len(),
            list@ == old(list)@,
            before == texts(list@),
            forall|k: int| 0 <= k < at ==> text_le(#[trigger] before[k], path@),
        decreases list.len() - at,
    {
        assert(before[at as int] == list@[at as int]@);
        at = at + 1;
    }
    list.insert(at, path);
    proof {
        let after = before.insert(at as int, path@);
        assert(texts(list@) =~= after);
        to_multiset_insert(before, at as int, path@);
        if at < before.len() {
            assert(before[at as int] == old(list)@[at as int]@);
            text_le_total(path@, before[at as int]);
        }
        assert forall|i: int, j: int| 0 <= i <= j < after.len() implies text_le(
            #[trigger] after[i],
            #[trigger] after[j],
        ) by {
            text_le_reflexive(path@);
            if i < at && j > at {
                assert(text_le(before[i], before[j - 1]));
            } else if i == at && j > at {
                assert(text_le(before[at as int], before[j - 1]));
                text_le_transitive(path@, before[at as int], before[j - 1]);
            } else if i > at {
                assert(text_le(before[i - 1], before[j - 1]));
            } else if j < at {
                assert(text_le(before[i], before[j]));
            }
        }
    }
}

/// Whether the list has this text.
pub fn has_text(list: &Vec<String>, text: &String) -> (yes: bool)
    ensures
        yes == texts(list@).contains(text@),
{
    let mut i: usize = 0;
    while i < list.len()
        invariant
            i <= list@.len(),
            forall|k: int| 0 <= k < i ==> (#[trigger] list@[k])@ != text@,
        decreases list.len() - i,
    {
        if list[i] == *text {
            assert(texts(list@)[i as int] == text@);
            return true;
        }
        i = i + 1;
    }
    assert forall|k: int| 0 <= k < texts(list@).len() implies texts(list@)[k] != text@ by {
        assert(list@[k]@ != text@);
    }
    false
}

/// The nodes to try next, by the names of the directory's entries (`None` for a name that is not
/// text) and the paths already settled. In alphabetical order, so that the order does not shuffle
/// between scans.
pub fn candidates(entries: &Vec<Option<String>>, seen: &Vec<String>) -> (paths: Vec<String>)
    ensures
        in_order(texts(paths@)),
        texts(paths@).to_multiset() == candidate_paths(entries@, texts(seen@)).to_multiset(),
{
    let mut paths: Vec<String> = Vec::new();
    let ghost settled = texts(seen@);
    let mut i: usize = 0;
    assert(entries@.take(0) =~= seq![]);
    assert(texts(paths@) =~= seq![]);
    while i < entries.len()
        invariant
            i <= entries@.len(),
            settled == texts(seen@),
            in_order(texts(paths@)),
            texts(paths@).to_multiset() == candidate_paths(
                entries@.take(i as int),
                settled,
            ).to_multiset(),
        decreases entries.len() - i,
    {
        proof {
            assert(entries@.take(i + 1).drop_last() =~= entries@.take(i as int));
            assert(entries@.take(i + 1).last() == entries@[i as int]);
        }
        if let Some(name) = &entries[i] {
            if starts_with(&chars_of(name.as_str()), "event") {
                let dir: String = String::from_str("/dev/input/");
                let path: String = dir.concat(name.as_str());
                if !has_text(seen, &path) {
                    proof {
                        to_multiset_build(candidate_paths(entries@.take(i as int), settled), path@);
                    }
                    insert_in_order(&mut paths, path);
                }
            }
        }
        i = i + 1;
    }
    assert(entries@.take(i as int) =~= entries@);
    paths
}

proof fn candidates_are_candidates(
    entries: Seq<Option<String>>,
    seen: Seq<Seq<char>>,
    path: Seq<char>,
)
    ensures
        candidate_paths(entries, seen).contains(path) <==> exists|i: int|
            0 <= i < entries.len() && is_candidate(#[trigger] entries[i], seen) && path
                == node_path(entries[i]->0@),
    decreases entries.len(),
{
    if entries.len() > 0 {
        let head = entries.drop_last();
        let before = candidate_paths(head, seen);
        candidates_are_candidates(head, seen, path);
        let all = candidate_paths(entries, seen);
        if all.contains(path) {
            let k = choose|k: int| 0 <= k < all.len() && all[k] == path;
            if k < before.len() {
                assert(before[k] == path);
                let i = choose|i: int|
                    0 <= i < head.len() && is_candidate(#[trigger] head[i], seen) && path
                        == node_path(head[i]->0@);
                assert(entries[i] == head[i]);
            } else {
                assert(is_candidate(entries[entries.len() - 1], seen));
            }
        }
        if exists|i: int|
            0 <= i < entries.len() && is_candidate(#[trigger] entries[i], seen) && path
                == node_path(entries[i]->0@) {
            let i = choose|i: int|
                0 <= i < entries.len() && is_candidate(#[trigger] entries[i], seen) && path
                    == node_path(entries[i]->0@);
            if i < head.len() {
                assert(head[i] == entries[i]);
                let k = choose|k: int| 0 <= k < before.len() && before[k] == path;
                assert(all[k] == path);
            } else {
                assert(all[all.len() - 1] == path);
            }
        }
    }
}

/// A settled node is never tried again, and every other event node is tried.
pub proof fn lemma_only_unsettled_nodes_are_tried(
    entries: Seq<Option<String>>,
    seen: Seq<Seq<char>>,
    name: String,
)
    requires
        entries.contains(Some(name)),
        "event"@.is_prefix_of(name@),
    ensures
        candidate_paths(entries, seen).contains(node_path(name@)) <==> !seen.contains(
            node_path(name@),
        ),
{
    candidates_are_candidates(entries, seen, node_path(name@));
    let i = choose|i: int| 0 <= i < entries.len() && entries[i] == Some(name);
    assert(entries[i] == Some(name));
}

/// No name twice among the entries of a directory.
pub open spec fn names_differ(entries: Seq<Option<String>>) -> bool {
    forall|i: int, j: int|
        0 <= i < j < entries.len() && (#[trigger] entries[i]) is Some && (#[trigger] entries[j]) is Some
            ==> entries[i]->0@ != entries[j]->0@
}

proof fn candidates_differ(entries: Seq<Option<String>>, seen: Seq<Seq<char>>)
    requires
        names_differ(entries),
    ensures
        candidate_paths(entries, seen).no_duplicates(),
    decreases entries.len(),
{
    if entries.len() > 0 {
        let head = entries.drop_last();
        candidates_differ(head, seen);
        if is_candidate(entries.last(), seen) {
            let name = entries.last()->0@;
            candidates_are_candidates(head, seen, node_path(name));
            if candidate_paths(head, seen).contains(node_path(name)) {
                let i = choose|i: int|
                    0 <= i < head.len() && is_candidate(#[trigger] head[i], seen) && node_path(name)
                        == node_path(head[i]->0@);
                let other = head[i]->0@;
                let skip = "/dev/input/"@.len() as int;
                assert(node_path(name).skip(skip) =~= name);
                assert(node_path(other).skip(skip) =~= other);
                assert(entries[i] == head[i]);
            }
        }
    }
}

/// A look at a directory, where no name stands twice, tries each node once and no settled one.
pub proof fn lemma_each_node_is_tried_once(
    entries: Seq<Option<String>>,
    seen: Seq<Seq<char>>,
    paths: Seq<Seq<char>>,
)
    requires
        names_differ(entries),
        paths.to_multiset() == candidate_paths(entries, seen).to_multiset(),
    ensures
        paths.no_duplicates(),
        forall|i: int| 0 <= i < paths.len() ==> !seen.contains(#[trigger] paths[i]),
{
    let all = candidate_paths(entries, seen);
    candidates_differ(entries, seen);
    all.lemma_multiset_has_no_duplicates();
    paths.lemma_multiset_has_no_duplicates_conv();
    assert forall|i: int| 0 <= i < paths.len() implies !seen.contains(#[trigger] paths[i]) by {
        to_multiset_contains(paths, paths[i]);
        to_multiset_contains(all, paths[i]);
        candidates_are_candidates(entries, seen, paths[i]);
    }
}

/// The nodes to try are those of the directory whose names start with `event`, under `/dev/input/`,
/// and that are not settled; they come in order.
pub proof fn lemma_candidates_are_the_unsettled_nodes(
    entries: Vec<Option<String>>,
    seen: Vec<String>,
    paths: Vec<String>,
    path: Seq<char>,
)
    requires
        call_ensures(candidates, (&entries, &seen), paths),
    ensures
        texts(paths@).contains(path) <==> !texts(seen@).contains(path) && exists|i: int|
            0 <= i < entries@.len() && (#[trigger] entries@[i]) is Some && entries@[i]->0@.len() >= 5
                && entries@[i]->0@.take(5) == "event"@ && path == "/dev/input/"@ + entries@[i]->0@,
        forall|i: int, j: int|
            0 <= i < j < paths@.len() ==> text_le(
                (#[trigger] paths@[i])@,
                (#[trigger] paths@[j])@,
            ),
{
    reveal_strlit("event");
    let all = candidate_paths(entries@, texts(seen@));
    to_multiset_contains(texts(paths@), path);
    to_multiset_contains(all, path);
    candidates_are_candidates(entries@, texts(seen@), path);
    assert forall|i: int| 0 <= i < entries@.len() && (#[trigger] entries@[i]) is Some implies (
    "event"@.is_prefix_of(entries@[i]->0@) <==> entries@[i]->0@.len() >= 5 && entries@[i]->0@.take(5)
        == "event"@) by {
        let name = entries@[i]->0@;
        if name.len() >= 5 {
            assert(name.take(5) =~= name.subrange(0, 5));
        }
    }
    if all.contains(path) {
        let i = choose|i: int|
            0 <= i < entries@.len() && is_candidate(#[trigger] entries@[i], texts(seen@)) && path
                == node_path(entries@[i]->0@);
        assert(entries@[i] is Some);
    }
    assert forall|i: int, j: int| 0 <= i < j < paths@.len() implies text_le(
        (#[trigger] paths@[i])@,
        (#[trigger] paths@[j])@,
    ) by {
        assert(text_le(texts(paths@)[i], texts(paths@)[j]));
    }
}

/// Texts are ordered by the first character in which they differ, and a text comes before every
/// longer one that starts with it.
pub proof fn lemma_the_first_difference_decides(
    same: Seq<char>,
    a: char,
    b: char,
    x: Seq<char>,
    y: Seq<char>,
)
    requires
        (a as int) < b as int,
    ensures
        text_le(same + seq![a] + x, same + seq![b] + y),
        !text_le(same + seq![b] + y, same + seq![a] + x),
        text_le(same, same + x),
        x.len() > 0 ==> !text_le(same + x, same),
    decreases same.len(),
{
    if same.len() > 0 {
        let rest = same.skip(1);
        lemma_the_first_difference_decides(rest, a, b, x, y);
        assert((same + seq![a] + x).skip(1) =~= rest + seq![a] + x);
        assert((same + seq![b] + y).skip(1) =~= rest + seq![b] + y);
        assert((same + x).skip(1) =~= rest + x);
    } else {
        assert(same + seq![a] + x =~= seq![a] + x);
        assert(same + seq![b] + y =~= seq![b] + y);
        assert(same + x =~= x);
    }
}

/// A list has a text exactly where one of its entries is that text.
pub proof fn lemma_texts_are_found(list: Vec<String>, text: String, yes: bool)
    requires
        call_ensures(has_text, (&list, &text), yes),
    ensures
        yes <==> exists|i: int| 0 <= i < list@.len() && (#[trigger] list@[i])@ == text@,
{
    let all = texts(list@);
    if all.contains(text@) {
        let i = choose|i: int| 0 <= i < all.len() && all[i] == text@;
        assert(list@[i]@ == text@);
    }
    if exists|i: int| 0 <= i < list@.len() && (#[trigger] list@[i])@ == text@ {
        let i = choose|i: int| 0 <= i < list@.len() && (#[trigger] list@[i])@ == text@;
        assert(all[i] == text@);
    }
}

} // verus!
