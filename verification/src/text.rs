//! Strings as sequences of characters: prefixes, suffixes and the
//! lexicographic order by code point.

use vstd::prelude::*;
use vstd::std_specs::iter::IteratorSpec;

verus! {

/// The texts that `strings` hold, in order.
pub open spec fn texts(strings: Seq<String>) -> Seq<Seq<char>> {
    strings.map_values(|s: String| s@)
}

/// The text that `string` holds, where there is one.
pub open spec fn optional_text(string: Option<String>) -> Option<Seq<char>> {
    match string {
        Some(s) => Some(s@),
        None => None,
    }
}

/// The position of the first of `names` that is `wanted`, if there is one.
pub open spec fn first_position(names: Seq<Seq<char>>, wanted: Seq<char>) -> Option<int>
    decreases names.len(),
{
    if names.len() == 0 {
        None
    } else if names[0] == wanted {
        Some(0)
    } else {
        match first_position(names.skip(1), wanted) {
            Some(i) => Some(i + 1),
            None => None,
        }
    }
}

/// What [`first_position`] finds is within `names`, is `wanted`, and has
/// no `wanted` before it; it finds nothing only where there is none.
pub proof fn lemma_first_position(names: Seq<Seq<char>>, wanted: Seq<char>)
    ensures
        match first_position(names, wanted) {
            Some(at) => 0 <= at < names.len() && names[at] == wanted && forall|i: int|
                0 <= i < at ==> names[i] != wanted,
            None => forall|i: int| 0 <= i < names.len() ==> names[i] != wanted,
        },
    decreases names.len(),
{
    if names.len() > 0 && names[0] != wanted {
        let rest = names.skip(1);
        lemma_first_position(rest, wanted);
        match first_position(rest, wanted) {
            Some(at) => {
                assert forall|i: int| 0 <= i < at + 1 implies names[i] != wanted by {
                    if i > 0 {
                        assert(rest[i - 1] != wanted);
                    }
                }
            },
            None => {
                assert forall|i: int| 0 <= i < names.len() implies names[i] != wanted by {
                    if i > 0 {
                        assert(rest[i - 1] != wanted);
                    }
                }
            },
        }
    }
}

/// A `wanted` at position `at`, with none before it, is the first.
pub proof fn lemma_first_position_found(names: Seq<Seq<char>>, wanted: Seq<char>, at: int)
    requires
        0 <= at < names.len(),
        names[at] == wanted,
        forall|i: int| 0 <= i < at ==> names[i] != wanted,
    ensures
        first_position(names, wanted) == Some(at),
    decreases at,
{
    if at > 0 {
        lemma_first_position_found(names.skip(1), wanted, at - 1);
    }
}

/// Where none of `names` is `wanted`, none is found.
pub proof fn lemma_first_position_absent(names: Seq<Seq<char>>, wanted: Seq<char>)
    requires
        forall|i: int| 0 <= i < names.len() ==> names[i] != wanted,
    ensures
        first_position(names, wanted) is None,
    decreases names.len(),
{
    if names.len() > 0 {
        lemma_first_position_absent(names.skip(1), wanted);
    }
}

/// `a` comes no later than `b` in the lexicographic order by code point.
pub open spec fn lex_le(a: Seq<char>, b: Seq<char>) -> bool
    decreases a.len(),
{
    if a.len() == 0 {
        true
    } else if b.len() == 0 {
        false
    } else if a[0] != b[0] {
        a[0] < b[0]
    } else {
        lex_le(a.skip(1), b.skip(1))
    }
}

/// Every text comes no later than itself.
pub proof fn lemma_lex_le_reflexive(a: Seq<char>)
    ensures
        lex_le(a, a),
    decreases a.len(),
{
    if a.len() > 0 {
        lemma_lex_le_reflexive(a.skip(1));
    }
}

/// Two texts that each come no later than the other are the same text.
pub proof fn lemma_lex_le_antisymmetric(a: Seq<char>, b: Seq<char>)
    requires
        lex_le(a, b),
        lex_le(b, a),
    ensures
        a == b,
    decreases a.len(),
{
    if a.len() > 0 && b.len() > 0 {
        lemma_lex_le_antisymmetric(a.skip(1), b.skip(1));
        assert(a =~= seq![a[0]] + a.skip(1));
    }
}

/// The order carries over from `a` and `b`, and `b` and `c`, to `a` and `c`.
pub proof fn lemma_lex_le_transitive(a: Seq<char>, b: Seq<char>, c: Seq<char>)
    requires
        lex_le(a, b),
        lex_le(b, c),
    ensures
        lex_le(a, c),
    decreases a.len(),
{
    if a.len() > 0 && b.len() > 0 && c.len() > 0 {
        if a[0] == b[0] && b[0] == c[0] {
            lemma_lex_le_transitive(a.skip(1), b.skip(1), c.skip(1));
        }
    }
}

/// Of two texts, one comes no later than the other.
pub proof fn lemma_lex_le_connected(a: Seq<char>, b: Seq<char>)
    ensures
        lex_le(a, b) || lex_le(b, a),
    decreases a.len(),
{
    if a.len() > 0 && b.len() > 0 && a[0] == b[0] {
        lemma_lex_le_connected(a.skip(1), b.skip(1));
    }
}

/// The characters of `text`, in order.
pub fn chars_of(text: &str) -> (chars: Vec<char>)
    ensures
        chars@ == text@,
{
    broadcast use vstd::string::group_string_axioms;

    let mut chars: Vec<char> = Vec::new();
    let mut rest = text.chars();
    loop
        invariant_except_break
            rest.obeys_prophetic_iter_laws(),
            rest.decrease() is Some,
            chars@ + rest.remaining() == text@,
        ensures
            chars@ == text@,
        decreases rest.decrease()->0,
    {
        match rest.next() {
            Some(c) => {
                chars.push(c);
            },
            None => {
                break ;
            },
        }
    }
    chars
}

/// Whether `a` comes no later than `b` in the lexicographic order by code point.
pub fn chars_le(a: &Vec<char>, b: &Vec<char>) -> (le: bool)
    ensures
        le == lex_le(a@, b@),
{
    let mut i: usize = 0;
    assert(a@.skip(0) =~= a@ && b@.skip(0) =~= b@);
    while i < a.len() && i < b.len()
        invariant
            i <= a.len(),
            i <= b.len(),
            lex_le(a@, b@) == lex_le(a@.skip(i as int), b@.skip(i as int)),
        decreases a.len() - i,
    {
        let x = a[i];
        let y = b[i];
        proof {
            assert(a@.skip(i as int).skip(1) =~= a@.skip(i + 1));
            assert(b@.skip(i as int).skip(1) =~= b@.skip(i + 1));
        }
        if x != y {
            return x < y;
        }
        i += 1;
    }
    i == a.len()
}

/// Whether `text` begins with `prefix`.
pub fn chars_start_with(text: &Vec<char>, prefix: &Vec<char>) -> (found: bool)
    ensures
        found == prefix@.is_prefix_of(text@),
{
    if prefix.len() > text.len() {
        return false;
    }
    let mut i: usize = 0;
    while i < prefix.len()
        invariant
            i <= prefix.len() <= text.len(),
            forall|j: int| 0 <= j < i ==> text@[j] == prefix@[j],
        decreases prefix.len() - i,
    {
        if text[i] != prefix[i] {
            return false;
        }
        i += 1;
    }
    true
}

/// Whether `text` ends with `suffix`.
pub fn chars_end_with(text: &Vec<char>, suffix: &Vec<char>) -> (found: bool)
    ensures
        found == suffix@.is_suffix_of(text@),
{
    if suffix.len() > text.len() {
        return false;
    }
    let offset: usize = text.len() - suffix.len();
    let mut i: usize = 0;
    while i < suffix.len()
        invariant
            i <= suffix.len() <= text.len(),
            offset == text.len() - suffix.len(),
            forall|j: int| 0 <= j < i ==> text@[offset + j] == suffix@[j],
        decreases suffix.len() - i,
    {
        if text[offset + i] != suffix[i] {
            return false;
        }
        i += 1;
    }
    true
}

/// Whether `text` begins with `prefix`.
pub fn starts_with(text: &str, prefix: &str) -> (found: bool)
    ensures
        found == prefix@.is_prefix_of(text@),
{
    let text_chars = chars_of(text);
    let prefix_chars = chars_of(prefix);
    chars_start_with(&text_chars, &prefix_chars)
}

/// Whether `text` ends with `suffix`.
pub fn ends_with(text: &str, suffix: &str) -> (found: bool)
    ensures
        found == suffix@.is_suffix_of(text@),
{
    let text_chars = chars_of(text);
    let suffix_chars = chars_of(suffix);
    chars_end_with(&text_chars, &suffix_chars)
}

} // verus!
