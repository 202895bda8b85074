//! The keyword list: which strings may be keywords, and the order they are kept in.

use crate::text::char_is_alphabetic;
use regex::Regex;
use vstd::prelude::*;

verus! {

/// The pattern a keyword has to match.
pub const KEYWORD_PATTERN: &'static str = "^[_a-zA-Z][A-Za-z_0-9]*$";

/// Whether `c` is one of the letters `a` to `z` or `A` to `Z`.
pub open spec fn is_letter(c: char) -> bool {
    ('a' <= c && c <= 'z') || ('A' <= c && c <= 'Z')
}

/// Whether `c` is one of the digits `0` to `9`.
pub open spec fn is_digit(c: char) -> bool {
    '0' <= c && c <= '9'
}

/// Whether `word` may be a keyword: it starts with a letter or an underscore, and holds
/// nothing but letters, digits and underscores.
pub open spec fn is_valid_keyword(word: Seq<char>) -> bool {
    &&& word.len() > 0
    &&& (is_letter(word[0]) || word[0] == '_')
    &&& forall|i: int|
        0 <= i < word.len() ==> is_letter(#[trigger] word[i]) || is_digit(word[i]) || word[i]
            == '_'
}

/// Whether `word` starts with a character that `std` classifies as alphabetic.
pub open spec fn starts_alphabetic(word: Seq<char>) -> bool {
    word.len() > 0 && char_is_alphabetic(word[0])
}

/// Whether `a` comes before `b`, or equals it, when strings are compared character by
/// character: the first difference decides, by code point, and a prefix comes first.
pub open spec fn precedes(a: Seq<char>, b: Seq<char>) -> bool
    decreases a.len(),
{
    if a.len() == 0 {
        true
    } else if b.len() == 0 {
        false
    } else if a[0] != b[0] {
        a[0] < b[0]
    } else {
        precedes(a.drop_first(), b.drop_first())
    }
}

/// Whether `words` stand in ascending order.
pub open spec fn is_sorted(words: Seq<Seq<char>>) -> bool {
    forall|i: int, j: int| 0 <= i <= j < words.len() ==> precedes(words[i], words[j])
}

/// The valid keywords among `words`, in their order.
pub open spec fn valid_keywords(words: Seq<Seq<char>>) -> Seq<Seq<char>> {
    words.filter(|w: Seq<char>| is_valid_keyword(w))
}

/// The words among `words` that start with an alphabetic character, in their order.
pub open spec fn alphabetic_keywords(words: Seq<Seq<char>>) -> Seq<Seq<char>> {
    words.filter(|w: Seq<char>| starts_alphabetic(w))
}

/// Two strings that precede each other are the same string.
pub proof fn lemma_precedes_is_antisymmetric(a: Seq<char>, b: Seq<char>)
    requires
        precedes(a, b),
        precedes(b, a),
    ensures
        a == b,
    decreases a.len(),
{
    if a.len() == 0 {
        assert(b.len() == 0);
        assert(a =~= b);
    } else {
        assert(b.len() > 0);
        assert(a[0] == b[0]);
        lemma_precedes_is_antisymmetric(a.drop_first(), b.drop_first());
        assert(a =~= seq![a[0]] + a.drop_first());
        assert(b =~= seq![b[0]] + b.drop_first());
    }
}

/// Ascending order leaves no choice: two lists in ascending order that hold the same
/// strings, each as often as the other, are the same list.
pub proof fn lemma_sorted_order_is_unique(a: Seq<Seq<char>>, b: Seq<Seq<char>>)
    requires
        is_sorted(a),
        is_sorted(b),
        a.to_multiset() == b.to_multiset(),
    ensures
        a == b,
    decreases a.len(),
{
    broadcast use vstd::seq_lib::group_to_multiset_ensures;

    assert(a.len() == a.to_multiset().len());
    assert(b.len() == b.to_multiset().len());
    if a.len() == 0 {
        assert(a =~= b);
    } else {
        let x = a[0];
        let y = b[0];
        assert(a.contains(x));
        assert(b.to_multiset().count(x) > 0);
        assert(b.contains(x));
        let j = choose|j: int| 0 <= j < b.len() && b[j] == x;
        assert(precedes(b[0], b[j]));
        assert(b.contains(y));
        assert(a.to_multiset().count(y) > 0);
        assert(a.contains(y));
        let i = choose|i: int| 0 <= i < a.len() && a[i] == y;
        assert(precedes(a[0], a[i]));
        lemma_precedes_is_antisymmetric(x, y);
        let rest_a = a.remove(0);
        let rest_b = b.remove(0);
        assert(rest_a.to_multiset() == a.to_multiset().remove(x));
        assert(rest_b.to_multiset() == b.to_multiset().remove(y));
        assert forall|i: int, j: int| 0 <= i <= j < rest_a.len() implies precedes(
            rest_a[i],
            rest_a[j],
        ) by {
            assert(rest_a[i] == a[i + 1] && rest_a[j] == a[j + 1]);
        }
        assert forall|i: int, j: int| 0 <= i <= j < rest_b.len() implies precedes(
            rest_b[i],
            rest_b[j],
        ) by {
            assert(rest_b[i] == b[i + 1] && rest_b[j] == b[j + 1]);
        }
        lemma_sorted_order_is_unique(rest_a, rest_b);
        assert(a =~= seq![x] + rest_a);
        assert(b =~= seq![y] + rest_b);
    }
}

/// `regex::Regex::new` on the keyword pattern, and `Regex::is_match` of the compiled
/// pattern on `text`. The pattern is anchored at both ends of the text and asks for one
/// character out of `[_a-zA-Z]` followed by any number out of `[A-Za-z_0-9]`; the contract
/// says so in terms of the text's characters. It is stated for this one pattern only, which
/// compiles.
#[verifier::external_body]
fn matches_keyword_pattern(pattern: &str, text: &str) -> (r: bool)
    requires
        pattern@ == KEYWORD_PATTERN@,
    ensures
        r == is_valid_keyword(text@),
{
    match Regex::new(pattern) {
        Ok(re) => re.is_match(text),
        Err(_) => false,
    }
}

/// `<[String]>::sort`: puts the strings in ascending order and keeps each as often as it
/// occurred. `String` compares byte by byte, which orders strings by the code points of
/// their characters, the first difference deciding and a prefix coming first.
#[verifier::external_body]
fn sort_strings(words: &mut Vec<String>)
    ensures
        is_sorted(final(words).deep_view()),
        final(words).deep_view().to_multiset() == old(words).deep_view().to_multiset(),
{
    words.sort();
}

/// Keeps the valid keywords of a list, in their order.
pub fn get_valid_keywords(keywords: Vec<String>) -> (r: Vec<String>)
    ensures
        r.deep_view() == valid_keywords(keywords.deep_view()),
{
    let ghost all = keywords.deep_view();
    let ghost valid = |w: Seq<char>| is_valid_keyword(w);
    let mut kept: Vec<String> = Vec::new();
    let mut i: usize = 0;
    proof {
        reveal(Seq::filter);
        assert(all.take(0) =~= Seq::<Seq<char>>::empty());
        assert(kept.deep_view() =~= all.take(0).filter(valid));
    }
    while i < keywords.len()
        invariant
            i <= keywords.len(),
            all == keywords.deep_view(),
            valid == |w: Seq<char>| is_valid_keyword(w),
            kept.deep_view() == all.take(i as int).filter(valid),
        decreases keywords.len() - i,
    {
        proof {
            reveal(Seq::filter);
            assert(all.take(i + 1).drop_last() =~= all.take(i as int));
            assert(all.take(i + 1).last() == keywords[i as int]@);
        }
        if matches_keyword_pattern(KEYWORD_PATTERN, keywords[i].as_str()) {
            let ghost before = kept.deep_view();
            kept.push(keywords[i].clone());
            assert(kept.deep_view() =~= before.push(keywords[i as int]@));
        }
        i = i + 1;
    }
    assert(all.take(keywords.len() as int) =~= all);
    kept
}

/// Turns a list of candidate keywords into the list the editor keeps: the valid ones, in
/// ascending order.
pub fn ingest_keywords(keywords: Vec<String>) -> (r: Vec<String>)
    ensures
        is_keyword_list(r.deep_view()),
        r.deep_view().to_multiset() == valid_keywords(keywords.deep_view()).to_multiset(),
{
    let mut kept: Vec<String> = get_valid_keywords(keywords);
    let ghost unsorted = kept.deep_view();
    sort_strings(&mut kept);
    proof {
        lemma_valid_survives_reordering(unsorted, kept.deep_view());
        broadcast use vstd::seq_lib::group_filter_ensures;

    }
    kept
}

/// Whether `words` is a list as the editor keeps it: valid keywords only, in ascending
/// order.
pub open spec fn is_keyword_list(words: Seq<Seq<char>>) -> bool {
    &&& is_sorted(words)
    &&& forall|i: int| 0 <= i < words.len() ==> is_valid_keyword(#[trigger] words[i])
}

/// Reordering a list keeps a property that every entry has.
proof fn lemma_valid_survives_reordering(before: Seq<Seq<char>>, after: Seq<Seq<char>>)
    requires
        before.to_multiset() == after.to_multiset(),
        forall|i: int| 0 <= i < before.len() ==> is_valid_keyword(#[trigger] before[i]),
    ensures
        forall|i: int| 0 <= i < after.len() ==> is_valid_keyword(#[trigger] after[i]),
{
    broadcast use vstd::seq_lib::group_to_multiset_ensures;

    assert forall|i: int| 0 <= i < after.len() implies is_valid_keyword(#[trigger] after[i]) by {
        assert(after.contains(after[i]));
        assert(after.to_multiset().count(after[i]) > 0);
        assert(before.to_multiset().count(after[i]) > 0);
        assert(before.contains(after[i]));
        let j = choose|j: int| 0 <= j < before.len() && before[j] == after[i];
        assert(is_valid_keyword(before[j]));
    }
}

} // verus!
