//! Paths as texts with `/` between their components: names, extensions,
//! joining, and the order in which listings are kept.

use crate::text::{
    chars_le, chars_of, chars_start_with, lemma_lex_le_antisymmetric, lemma_lex_le_connected,
    lemma_lex_le_reflexive, lemma_lex_le_transitive, lex_le, optional_text, texts,
};
use vstd::prelude::*;
use vstd::relations::{sorted_by, total_ordering};

verus! {

/// The position just behind the last `mark` in `text`: 0 where there is none.
pub open spec fn after_last(text: Seq<char>, mark: char) -> int
    decreases text.len(),
{
    if text.len() == 0 {
        0
    } else if text.last() == mark {
        text.len() as int
    } else {
        after_last(text.drop_last(), mark)
    }
}

/// The final component of `path`: what follows its last `/`.
pub open spec fn file_name(path: Seq<char>) -> Seq<char> {
    path.skip(after_last(path, '/'))
}

/// The extension of a file name: what follows its last `.`, unless the
/// name has no `.` or its only `.` is its first character.
pub open spec fn extension(name: Seq<char>) -> Option<Seq<char>> {
    let start = after_last(name, '.');
    if start <= 1 {
        None
    } else {
        Some(name.skip(start))
    }
}

/// The extension that marks a template as a partial.
pub open spec fn partial_extension() -> Seq<char> {
    seq!['t', 'p', 'l']
}

/// A partial is a template that other templates include: its file name
/// starts with `_` and its extension is the partial extension.
pub open spec fn is_partial(path: Seq<char>) -> bool {
    let name = file_name(path);
    name.len() > 0 && name[0] == '_' && extension(name) == Some(partial_extension())
}

/// `dir` extended by `rel`. A `rel` that starts at the root replaces `dir`.
pub open spec fn joined(dir: Seq<char>, rel: Seq<char>) -> Seq<char> {
    if rel.len() > 0 && rel[0] == '/' {
        rel
    } else if dir.len() == 0 || dir.last() == '/' {
        dir + rel
    } else {
        dir + seq!['/'] + rel
    }
}

/// `text` without the `/` characters it starts with.
pub open spec fn without_leading_separators(text: Seq<char>) -> Seq<char>
    decreases text.len(),
{
    if text.len() > 0 && text[0] == '/' {
        without_leading_separators(text.skip(1))
    } else {
        text
    }
}

/// The path that leads from the directory `base` to `path`, where `path`
/// lies below `base`: `base` is a prefix of `path` that ends where a
/// component ends, and something follows it.
pub open spec fn relative_to(path: Seq<char>, base: Seq<char>) -> Option<Seq<char>> {
    if base.is_prefix_of(path) {
        let rest = path.skip(base.len() as int);
        let below = without_leading_separators(rest);
        let at_boundary = base.len() == 0 || base.last() == '/' || (rest.len() > 0 && rest[0]
            == '/');
        if at_boundary && below.len() > 0 {
            Some(below)
        } else {
            None
        }
    } else {
        None
    }
}

/// Behind the position that [`after_last`] gives there is no `mark`, and
/// before it, unless it is 0, stands one.
pub proof fn lemma_after_last(text: Seq<char>, mark: char)
    ensures
        0 <= after_last(text, mark) <= text.len(),
        after_last(text, mark) > 0 ==> text[after_last(text, mark) - 1] == mark,
        forall|i: int| after_last(text, mark) <= i < text.len() ==> text[i] != mark,
    decreases text.len(),
{
    if text.len() > 0 && text.last() != mark {
        let before = text.drop_last();
        lemma_after_last(before, mark);
        assert forall|i: int| after_last(text, mark) <= i < text.len() implies text[i] != mark by {
            if i < before.len() {
                assert(before[i] != mark);
            }
        }
    }
}

/// The position just behind a `mark` that no other follows is the one
/// that [`after_last`] gives.
pub proof fn lemma_after_last_is(text: Seq<char>, mark: char, at: int)
    requires
        0 <= at < text.len(),
        text[at] == mark,
        forall|i: int| at < i < text.len() ==> text[i] != mark,
    ensures
        after_last(text, mark) == at + 1,
    decreases text.len(),
{
    if at + 1 < text.len() {
        lemma_after_last_is(text.drop_last(), mark, at);
    }
}

/// A file name is the name of a partial exactly where it starts with `_`
/// and ends with `.` and the partial extension.
pub proof fn lemma_partial_file_name(name: Seq<char>)
    requires
        forall|i: int| 0 <= i < name.len() ==> name[i] != '/',
    ensures
        is_partial(name) <==> name.len() > 0 && name[0] == '_' && (seq!['.']
            + partial_extension()).is_suffix_of(name),
{
    lemma_after_last(name, '/');
    assert(file_name(name) =~= name);
    let ending = seq!['.'] + partial_extension();
    lemma_after_last(name, '.');
    if name.len() > 0 && name[0] == '_' && ending.is_suffix_of(name) {
        let dot = name.len() - 4;
        let tail = name.subrange(dot, name.len() as int);
        assert(tail[0] == '.' && tail[1] == 't' && tail[2] == 'p' && tail[3] == 'l');
        lemma_after_last_is(name, '.', dot);
        assert(name.skip(dot + 1) =~= partial_extension());
    }
}

/// What [`without_leading_separators`] leaves does not start with `/`.
pub proof fn lemma_without_leading_separators(text: Seq<char>)
    ensures
        without_leading_separators(text).len() > 0 ==> without_leading_separators(text)[0] != '/',
    decreases text.len(),
{
    if text.len() > 0 && text[0] == '/' {
        lemma_without_leading_separators(text.skip(1));
    }
}

/// The order of paths, as a relation.
pub open spec fn path_order() -> spec_fn(Seq<char>, Seq<char>) -> bool {
    |a: Seq<char>, b: Seq<char>| lex_le(a, b)
}

/// `ordered` holds the paths of `listing`, each as often as `listing`
/// does, in ascending order.
pub open spec fn in_path_order(ordered: Seq<Seq<char>>, listing: Seq<Seq<char>>) -> bool {
    &&& sorted_by(ordered, path_order())
    &&& ordered.to_multiset() == listing.to_multiset()
}

/// The paths of `listing` in ascending order.
pub open spec fn ordered_paths(listing: Seq<Seq<char>>) -> Seq<Seq<char>> {
    listing.sort_by(path_order())
}

/// The order of paths is a total order.
pub proof fn lemma_path_order_total()
    ensures
        total_ordering(path_order()),
{
    let leq = path_order();
    assert forall|x: Seq<char>| #[trigger] leq(x, x) by {
        lemma_lex_le_reflexive(x);
    }
    assert forall|x: Seq<char>, y: Seq<char>| #[trigger] leq(x, y) && #[trigger] leq(y, x) implies x
        == y by {
        lemma_lex_le_antisymmetric(x, y);
    }
    assert forall|x: Seq<char>, y: Seq<char>, z: Seq<char>| #[trigger] leq(x, y) && #[trigger] leq(
        y,
        z,
    ) implies leq(x, z) by {
        lemma_lex_le_transitive(x, y, z);
    }
    assert forall|x: Seq<char>, y: Seq<char>| #[trigger] leq(x, y) || #[trigger] leq(y, x) by {
        lemma_lex_le_connected(x, y);
    }
}

/// The order in which a listing is kept does not depend on the order in
/// which it was enumerated: two listings that hold the same paths, each
/// as often, are the same once ordered.
pub proof fn lemma_path_order_unique(
    first: Seq<Seq<char>>,
    first_listing: Seq<Seq<char>>,
    second: Seq<Seq<char>>,
    second_listing: Seq<Seq<char>>,
)
    requires
        in_path_order(first, first_listing),
        in_path_order(second, second_listing),
        first_listing.to_multiset() == second_listing.to_multiset(),
    ensures
        first == second,
{
    lemma_path_order_total();
    vstd::seq_lib::lemma_sorted_unique(first, second, path_order());
}

/// [`ordered_paths`] is the one arrangement of a listing in ascending order.
pub proof fn lemma_ordered_paths(ordered: Seq<Seq<char>>, listing: Seq<Seq<char>>)
    ensures
        in_path_order(ordered_paths(listing), listing),
        in_path_order(ordered, listing) ==> ordered == ordered_paths(listing),
{
    lemma_path_order_total();
    listing.lemma_sort_by_ensures(path_order());
    if in_path_order(ordered, listing) {
        lemma_path_order_unique(ordered, listing, ordered_paths(listing), listing);
    }
}

/// The position just behind the last `mark` in `text`: 0 where there is none.
pub fn chars_after_last(text: &Vec<char>, mark: char) -> (position: usize)
    ensures
        position == after_last(text@, mark),
        position <= text.len(),
{
    let mut i: usize = text.len();
    assert(text@.take(i as int) =~= text@);
    while i > 0 && text[i - 1] != mark
        invariant
            i <= text.len(),
            after_last(text@, mark) == after_last(text@.take(i as int), mark),
        decreases i,
    {
        assert(text@.take(i as int).drop_last() =~= text@.take(i - 1));
        i -= 1;
    }
    i
}

/// The characters of `text` from position `start` on.
pub fn chars_from(text: &Vec<char>, start: usize) -> (tail: Vec<char>)
    requires
        start <= text.len(),
    ensures
        tail@ == text@.skip(start as int),
{
    let mut tail: Vec<char> = Vec::new();
    let mut i: usize = start;
    while i < text.len()
        invariant
            start <= i <= text.len(),
            tail@ == text@.subrange(start as int, i as int),
        decreases text.len() - i,
    {
        tail.push(text[i]);
        i += 1;
    }
    tail
}

/// The final component of `path`.
pub fn file_name_of(path: &str) -> (name: String)
    ensures
        name@ == file_name(path@),
{
    let chars = chars_of(path);
    let start = chars_after_last(&chars, '/');
    let name = path.substring_char(start, chars.len());
    String::from_str(name)
}

/// Whether the template at `path` is a partial.
pub fn is_partial_template(path: &str) -> (partial: bool)
    ensures
        partial == is_partial(path@),
{
    let chars = chars_of(path);
    let start = chars_after_last(&chars, '/');
    let name = chars_from(&chars, start);
    if name.len() == 0 || name[0] != '_' {
        return false;
    }
    let dot = chars_after_last(&name, '.');
    if dot <= 1 {
        return false;
    }
    let found = chars_from(&name, dot);
    let partial = found.len() == 3 && found[0] == 't' && found[1] == 'p' && found[2] == 'l';
    assert(partial == (found@ =~= partial_extension()));
    partial
}

/// `dir` extended by `rel`.
pub fn join(dir: &str, rel: &str) -> (path: String)
    ensures
        path@ == joined(dir@, rel@),
{
    let dir_chars = chars_of(dir);
    let rel_chars = chars_of(rel);
    if rel_chars.len() > 0 && rel_chars[0] == '/' {
        return String::from_str(rel);
    }
    let mut path = String::from_str(dir);
    if dir_chars.len() > 0 && dir_chars[dir_chars.len() - 1] != '/' {
        proof {
            reveal_strlit("/");
        }
        path.append("/");
    }
    path.append(rel);
    path
}

/// The path that leads from the directory `base` to `path`, where `path`
/// lies below `base`.
pub fn relative_path(path: &str, base: &str) -> (below: Option<String>)
    ensures
        optional_text(below) == relative_to(path@, base@),
{
    let path_chars = chars_of(path);
    let base_chars = chars_of(base);
    if !chars_start_with(&path_chars, &base_chars) {
        return None;
    }
    let at_boundary = base_chars.len() == 0 || base_chars[base_chars.len() - 1] == '/' || (
    path_chars.len() > base_chars.len() && path_chars[base_chars.len()] == '/');
    let mut start: usize = base_chars.len();
    while start < path_chars.len() && path_chars[start] == '/'
        invariant
            base_chars.len() <= start <= path_chars.len(),
            without_leading_separators(path_chars@.skip(base_chars.len() as int))
                == without_leading_separators(path_chars@.skip(start as int)),
        decreases path_chars.len() - start,
    {
        assert(path_chars@.skip(start as int).skip(1) =~= path_chars@.skip(start + 1));
        start += 1;
    }
    if at_boundary && start < path_chars.len() {
        let below = path.substring_char(start, path_chars.len());
        Some(String::from_str(below))
    } else {
        None
    }
}

/// The paths of `paths` in ascending order.
pub fn sort_paths(paths: &Vec<String>) -> (ordered: Vec<String>)
    ensures
        texts(ordered@) == ordered_paths(texts(paths@)),
        in_path_order(texts(ordered@), texts(paths@)),
{
    let mut ordered: Vec<String> = Vec::new();
    let mut keys: Vec<Vec<char>> = Vec::new();
    let mut i: usize = 0;
    assert(texts(ordered@) =~= texts(paths@.take(0)));
    while i < paths.len()
        invariant
            i <= paths.len(),
            keys@.len() == ordered@.len(),
            forall|k: int| 0 <= k < keys@.len() ==> keys@[k]@ == #[trigger] ordered@[k]@,
            sorted_by(texts(ordered@), path_order()),
            texts(ordered@).to_multiset() == texts(paths@.take(i as int)).to_multiset(),
        decreases paths.len() - i,
    {
        let path = paths[i].clone();
        let key = chars_of(path.as_str());
        let mut at: usize = 0;
        while at < keys.len() && chars_le(&keys[at], &key)
            invariant
                at <= keys@.len(),
                keys@.len() == ordered@.len(),
                forall|k: int| 0 <= k < keys@.len() ==> keys@[k]@ == #[trigger] ordered@[k]@,
                forall|k: int| 0 <= k < at ==> lex_le(#[trigger] texts(ordered@)[k], key@),
            decreases keys@.len() - at,
        {
            at += 1;
        }
        proof {
            let before = texts(ordered@);
            let after = before.insert(at as int, key@);
            assert(texts(ordered@.insert(at as int, path)) =~= after);
            assert forall|a: int, b: int| 0 <= a < b < after.len() implies path_order()(
                after[a],
                after[b],
            ) by {
                if b == at {
                    assert(lex_le(before[a], key@));
                } else if a == at {
                    lemma_lex_le_connected(before[at as int], key@);
                    assert(path_order()(before[at as int], before[b - 1]) || b - 1 == at);
                    lemma_lex_le_reflexive(before[at as int]);
                    lemma_lex_le_transitive(key@, before[at as int], before[b - 1]);
                } else {
                    let a0 = if a < at { a } else { a - 1 };
                    let b0 = if b < at { b } else { b - 1 };
                    assert(path_order()(before[a0], before[b0]));
                }
            }
            let seen = texts(paths@.take(i as int));
            assert(texts(paths@.take(i + 1)) =~= seen.push(key@));
            vstd::seq_lib::to_multiset_insert(before, at as int, key@);
            vstd::seq_lib::to_multiset_build(seen, key@);
        }
        ordered.insert(at, path);
        keys.insert(at, key);
        i += 1;
    }
    assert(paths@.take(i as int) =~= paths@);
    proof {
        lemma_ordered_paths(texts(ordered@), texts(paths@));
    }
    ordered
}

} // verus!
