//! The completion index: which keywords match what has been typed, what they have in
//! common, and which of them is selected while the user cycles with Tab.

use crate::terminal::action_views;
use crate::terminal::push_action;
use crate::terminal::Action;
use crate::terminal::ActionView;
use crate::text::byte_len;
use crate::text::byte_length;
use crate::text::lemma_byte_len_push_space;
use crate::text::lemma_byte_len_spaces;
use crate::text::lemma_trimmed_ignores_padding;
use crate::text::spaces;
use crate::text::starts_with;
use crate::text::trim_end;
use crate::text::trimmed;
use crate::theme::Color;
use vstd::prelude::*;

verus! {

/// The keywords that start with `prefix`, in the order in which `keywords` lists them.
pub open spec fn matching(prefix: Seq<char>, keywords: Seq<Seq<char>>) -> Seq<Seq<char>> {
    keywords.filter(|k: Seq<char>| prefix.is_prefix_of(k))
}

/// Whether every one of `words` starts with `p`.
pub open spec fn is_common_prefix(p: Seq<char>, words: Seq<Seq<char>>) -> bool {
    forall|i: int| 0 <= i < words.len() ==> p.is_prefix_of(#[trigger] words[i])
}

/// What is left of `candidate` after dropping characters from its end until every one of
/// `words` starts with it.
pub open spec fn shrink_to_common(candidate: Seq<char>, words: Seq<Seq<char>>) -> Seq<char>
    decreases candidate.len(),
{
    if candidate.len() == 0 || is_common_prefix(candidate, words) {
        candidate
    } else {
        shrink_to_common(candidate.drop_last(), words)
    }
}

/// The longest string that every one of `words` starts with; empty if there are no words.
pub open spec fn common_prefix(words: Seq<Seq<char>>) -> Seq<char> {
    if words.len() == 0 {
        Seq::empty()
    } else {
        shrink_to_common(words[0], words)
    }
}

/// The greatest byte length among `words`; zero if there are none.
pub open spec fn max_byte_len(words: Seq<Seq<char>>) -> nat
    decreases words.len(),
{
    if words.len() == 0 {
        0
    } else if byte_len(words.last()) > max_byte_len(words.drop_last()) {
        byte_len(words.last())
    } else {
        max_byte_len(words.drop_last())
    }
}

/// `word` followed by as many spaces as it takes to reach `width` bytes; `word` itself if
/// it is that long already.
pub open spec fn padded(word: Seq<char>, width: nat) -> Seq<char> {
    word + spaces((width - byte_len(word)) as nat)
}

/// `words`, each padded to the byte length of the longest.
pub open spec fn amortized(words: Seq<Seq<char>>) -> Seq<Seq<char>> {
    Seq::new(words.len(), |i: int| padded(words[i], max_byte_len(words)))
}

/// The part of the common prefix that lies beyond the line as typed.
pub open spec fn completion(common: Seq<char>, line: Seq<char>) -> Seq<char> {
    if line.len() <= common.len() {
        common.skip(line.len() as int)
    } else {
        Seq::empty()
    }
}

/// The requests that show the completion behind the cursor, or clear what was shown
/// where the suggestions have nothing in common.
pub open spec fn completion_actions(common: Seq<char>, line: Seq<char>, color: Color) -> Seq<
    ActionView,
> {
    if common.len() > 0 {
        seq![
            ActionView::SaveCursor,
            ActionView::PrintColored { text: completion(common, line), color },
            ActionView::RestoreCursor,
        ]
    } else {
        seq![ActionView::ClearFromCursor]
    }
}

/// The selection that follows `index` when cycling through `count` suggestions: the next
/// suggestion, the first one after the last, and `index + 1` modulo `count` for an index
/// beyond the suggestions. Without suggestions the selection stays.
pub open spec fn next_index(index: nat, count: nat) -> nat {
    if count == 0 {
        index
    } else if index + 1 < count {
        index + 1
    } else if index + 1 == count {
        0
    } else {
        (index + 1) % count
    }
}

/// The selection from which the first step of a cycle lands on the first suggestion.
pub open spec fn rest_index(count: nat) -> nat {
    if count == 0 {
        0
    } else {
        (count - 1) as nat
    }
}

/// The selection after `steps` steps of a cycle that starts at `index`.
pub open spec fn index_after(index: nat, count: nat, steps: nat) -> nat
    decreases steps,
{
    if steps == 0 {
        index
    } else {
        next_index(index_after(index, count, (steps - 1) as nat), count)
    }
}

/// The empty string starts every word.
proof fn lemma_empty_is_common(words: Seq<Seq<char>>)
    ensures
        is_common_prefix(Seq::empty(), words),
{
    assert forall|i: int| 0 <= i < words.len() implies Seq::<char>::empty().is_prefix_of(
        #[trigger] words[i],
    ) by {
        assert(Seq::<char>::empty() =~= words[i].subrange(0, 0));
    }
}

/// Shrinking a candidate ends on a common prefix, and on one that is a prefix of the
/// candidate.
proof fn lemma_shrink_is_common(candidate: Seq<char>, words: Seq<Seq<char>>)
    ensures
        is_common_prefix(shrink_to_common(candidate, words), words),
        shrink_to_common(candidate, words).is_prefix_of(candidate),
    decreases candidate.len(),
{
    if candidate.len() == 0 {
        lemma_empty_is_common(words);
        assert(candidate =~= Seq::<char>::empty());
        assert(candidate =~= candidate.subrange(0, 0));
    } else if is_common_prefix(candidate, words) {
        assert(candidate =~= candidate.subrange(0, candidate.len() as int));
    } else {
        lemma_shrink_is_common(candidate.drop_last(), words);
        let r = shrink_to_common(candidate.drop_last(), words);
        assert(r =~= candidate.subrange(0, r.len() as int));
    }
}

/// Shrinking a candidate never passes a common prefix that the candidate starts with.
proof fn lemma_shrink_keeps_common(candidate: Seq<char>, words: Seq<Seq<char>>, q: Seq<char>)
    requires
        is_common_prefix(q, words),
        q.is_prefix_of(candidate),
    ensures
        q.is_prefix_of(shrink_to_common(candidate, words)),
    decreases candidate.len(),
{
    if candidate.len() == 0 || is_common_prefix(candidate, words) {
    } else {
        if q.len() == candidate.len() {
            assert(q =~= candidate);
        }
        assert(q =~= candidate.drop_last().subrange(0, q.len() as int));
        lemma_shrink_keeps_common(candidate.drop_last(), words, q);
    }
}

/// No keywords, no suggestions, nothing in common.
pub proof fn lemma_common_prefix_of_nothing(prefix: Seq<char>)
    ensures
        common_prefix(Seq::empty()) == Seq::<char>::empty(),
        matching(prefix, Seq::empty()) == Seq::<Seq<char>>::empty(),
{
    reveal(Seq::filter);
    assert(matching(prefix, Seq::empty()) =~= Seq::<Seq<char>>::empty());
}

/// The suggestions are exactly the keywords that start with the prefix, in keyword order:
/// every suggestion is such a keyword, every such keyword is a suggestion, and a keyword
/// added at the end of the list is added, if at all, at the end of the suggestions.
pub proof fn lemma_matching_is_the_filter(prefix: Seq<char>, keywords: Seq<Seq<char>>)
    ensures
        forall|i: int|
            0 <= i < matching(prefix, keywords).len() ==> prefix.is_prefix_of(
                #[trigger] matching(prefix, keywords)[i],
            ) && keywords.contains(matching(prefix, keywords)[i]),
        forall|j: int|
            0 <= j < keywords.len() && prefix.is_prefix_of(#[trigger] keywords[j])
                ==> matching(prefix, keywords).contains(keywords[j]),
        matching(prefix, keywords).len() <= keywords.len(),
        forall|k: Seq<char>|
            #[trigger] matching(prefix, keywords.push(k)) == if prefix.is_prefix_of(k) {
                matching(prefix, keywords).push(k)
            } else {
                matching(prefix, keywords)
            },
{
    broadcast use vstd::seq_lib::group_filter_ensures;

    let starts = |k: Seq<char>| prefix.is_prefix_of(k);
    let found = matching(prefix, keywords);
    assert forall|i: int| 0 <= i < found.len() implies prefix.is_prefix_of(#[trigger] found[i])
        && keywords.contains(found[i]) by {
        assert(starts(found[i]));
        assert(keywords.filter(starts).contains(found[i]));
        keywords.lemma_filter_contains_rev(starts, found[i]);
    }
    assert forall|j: int|
        0 <= j < keywords.len() && prefix.is_prefix_of(
            #[trigger] keywords[j],
        ) implies found.contains(keywords[j]) by {
        assert(starts(keywords[j]));
        keywords.lemma_filter_contains(starts, j);
    }
    assert forall|k: Seq<char>|
        #[trigger] matching(prefix, keywords.push(k)) == if prefix.is_prefix_of(k) {
            matching(prefix, keywords).push(k)
        } else {
            matching(prefix, keywords)
        } by {
        reveal(Seq::filter);
        assert(keywords.push(k).drop_last() =~= keywords);
    }
}

/// The common prefix starts every word.
pub proof fn lemma_common_prefix_is_common(words: Seq<Seq<char>>)
    ensures
        is_common_prefix(common_prefix(words), words),
{
    if words.len() > 0 {
        lemma_shrink_is_common(words[0], words);
    }
}

/// The common prefix is the longest: any string that starts every word is a prefix of it.
pub proof fn lemma_common_prefix_is_longest(words: Seq<Seq<char>>, q: Seq<char>)
    requires
        words.len() > 0,
        is_common_prefix(q, words),
    ensures
        q.is_prefix_of(common_prefix(words)),
        q.len() <= common_prefix(words).len(),
{
    assert(q.is_prefix_of(words[0]));
    lemma_shrink_keeps_common(words[0], words, q);
}

/// The common prefix cannot be extended: with one more character, whichever it is, it no
/// longer starts every word.
pub proof fn lemma_common_prefix_is_maximal(words: Seq<Seq<char>>, c: char)
    requires
        words.len() > 0,
    ensures
        !is_common_prefix(common_prefix(words).push(c), words),
{
    if is_common_prefix(common_prefix(words).push(c), words) {
        lemma_common_prefix_is_longest(words, common_prefix(words).push(c));
    }
}

/// The common prefix is the only common prefix that cannot be extended: a string that
/// starts every word, and no longer does with one more character, whichever it is, is the
/// common prefix.
pub proof fn lemma_common_prefix_is_unique(words: Seq<Seq<char>>, p: Seq<char>)
    requires
        words.len() > 0,
        is_common_prefix(p, words),
        forall|c: char| !is_common_prefix(#[trigger] p.push(c), words),
    ensures
        common_prefix(words) == p,
{
    let r = common_prefix(words);
    lemma_common_prefix_is_common(words);
    lemma_common_prefix_is_longest(words, p);
    if p.len() < r.len() {
        let longer = p.push(r[p.len() as int]);
        assert(longer =~= r.subrange(0, p.len() as int + 1));
        assert forall|i: int| 0 <= i < words.len() implies longer.is_prefix_of(
            #[trigger] words[i],
        ) by {
            assert(r.is_prefix_of(words[i]));
            assert(longer =~= words[i].subrange(0, longer.len() as int));
        }
        assert(is_common_prefix(longer, words));
    }
    assert(p =~= r);
}

/// For a prefix that is not empty, there is something in common exactly when there are
/// suggestions, and what is in common starts with the prefix.
pub proof fn lemma_common_prefix_of_matches(prefix: Seq<char>, keywords: Seq<Seq<char>>)
    requires
        prefix.len() > 0,
    ensures
        common_prefix(matching(prefix, keywords)).len() > 0 <==> matching(prefix, keywords).len()
            > 0,
        matching(prefix, keywords).len() > 0 ==> prefix.is_prefix_of(
            common_prefix(matching(prefix, keywords)),
        ),
{
    let found = matching(prefix, keywords);
    if found.len() > 0 {
        lemma_matching_is_the_filter(prefix, keywords);
        lemma_common_prefix_is_longest(found, prefix);
    }
}

/// Each word is no longer than the longest.
pub proof fn lemma_max_byte_len_bounds(words: Seq<Seq<char>>, i: int)
    requires
        0 <= i < words.len(),
    ensures
        byte_len(words[i]) <= max_byte_len(words),
    decreases words.len(),
{
    if i < words.len() - 1 {
        lemma_max_byte_len_bounds(words.drop_last(), i);
    }
}

/// Some word is as long as the longest.
proof fn lemma_max_byte_len_attained(words: Seq<Seq<char>>) -> (i: int)
    requires
        words.len() > 0,
    ensures
        0 <= i < words.len(),
        byte_len(words[i]) == max_byte_len(words),
    decreases words.len(),
{
    if words.len() == 1 || byte_len(words.last()) > max_byte_len(words.drop_last()) {
        assert(words.len() == 1 ==> max_byte_len(words.drop_last()) == 0);
        words.len() - 1
    } else {
        lemma_max_byte_len_attained(words.drop_last())
    }
}

/// Padding is stable in length: afterwards every entry is as long as the longest entry was,
/// every entry still starts with what it was, and there are as many entries as before.
pub proof fn lemma_amortized_is_length_stable(words: Seq<Seq<char>>)
    ensures
        amortized(words).len() == words.len(),
        max_byte_len(amortized(words)) == max_byte_len(words),
        forall|i: int|
            0 <= i < words.len() ==> byte_len(#[trigger] amortized(words)[i]) == max_byte_len(
                words,
            ) && words[i].is_prefix_of(amortized(words)[i]) && byte_len(words[i]) <= byte_len(
                amortized(words)[i],
            ),
{
    let width = max_byte_len(words);
    let wide = amortized(words);
    assert forall|i: int| 0 <= i < words.len() implies byte_len(#[trigger] wide[i]) == width
        && words[i].is_prefix_of(wide[i]) && byte_len(words[i]) <= byte_len(wide[i]) by {
        lemma_max_byte_len_bounds(words, i);
        lemma_byte_len_spaces(words[i], (width - byte_len(words[i])) as nat);
        assert(words[i] =~= wide[i].subrange(0, words[i].len() as int));
    }
    if words.len() > 0 {
        let top = lemma_max_byte_len_attained(wide);
        assert(byte_len(wide[top]) == width);
    }
}

/// Padding what is padded already changes nothing.
pub proof fn lemma_amortized_is_idempotent(words: Seq<Seq<char>>)
    ensures
        amortized(amortized(words)) == amortized(words),
{
    lemma_amortized_is_length_stable(words);
    let wide = amortized(words);
    assert forall|i: int| 0 <= i < wide.len() implies #[trigger] amortized(wide)[i]
        == wide[i] by {
        assert(spaces(0) =~= Seq::<char>::empty());
        assert(wide[i] + spaces(0) =~= wide[i]);
    }
    assert(amortized(wide) =~= wide);
}

/// A padded suggestion trims to what the bare keyword trims to.
pub proof fn lemma_amortized_trims_alike(words: Seq<Seq<char>>, i: int)
    requires
        0 <= i < words.len(),
    ensures
        trimmed(amortized(words)[i]) == trimmed(words[i]),
{
    lemma_trimmed_ignores_padding(words[i], (max_byte_len(words) - byte_len(words[i])) as nat);
}

/// One step of a cycle adds one modulo the number of suggestions.
pub proof fn lemma_next_index_is_modular(index: nat, count: nat)
    requires
        count > 0,
    ensures
        next_index(index, count) == (index + 1) % count,
        next_index(index, count) < count,
{
    let n = count as int;
    let i = index as int;
    assert((i + 1 < n ==> (i + 1) % n == i + 1) && (i + 1 == n ==> (i + 1) % n == 0) && 0 <= (i
        + 1) % n < n) by (nonlinear_arith)
        requires
            n > 0,
            i >= 0,
    ;
}

/// After `steps` steps, at least one, a cycle that started at `index` stands at
/// `(index + steps) % count`.
pub proof fn lemma_index_after(index: nat, count: nat, steps: nat)
    requires
        count > 0,
        steps > 0,
    ensures
        index_after(index, count, steps) == (index + steps) % count,
    decreases steps,
{
    let before = index_after(index, count, (steps - 1) as nat);
    lemma_next_index_is_modular(before, count);
    assert(index_after(index, count, steps) == (before + 1) % count);
    if steps > 1 {
        lemma_index_after(index, count, (steps - 1) as nat);
        let n = count as int;
        let sum: int = (index + steps) as int;
        let at = (sum - 1) % n;
        assert(before == at);
        assert((at + 1) % n == sum % n) by (nonlinear_arith)
            requires
                n > 0,
                at == (sum - 1) % n,
        ;
    } else {
        assert(before == index);
    }
}

/// Cycling visits the suggestions in order and wraps around: from rest, step `k` of the
/// first `count` steps selects suggestion `k - 1`, and the step after them selects the
/// first suggestion again.
pub proof fn lemma_cycle_visits_all_in_order(count: nat)
    requires
        count > 0,
    ensures
        forall|k: nat|
            1 <= k <= count ==> #[trigger] index_after(rest_index(count), count, k) == k - 1,
        index_after(rest_index(count), count, count + 1) == 0,
{
    assert forall|k: nat| 1 <= k <= count implies #[trigger] index_after(
        rest_index(count),
        count,
        k,
    ) == k - 1 by {
        lemma_index_after(rest_index(count), count, k);
        let n = count as int;
        let j = k as int;
        assert((n - 1 + j) % n == j - 1) by (nonlinear_arith)
            requires
                1 <= j <= n,
        ;
    }
    lemma_index_after(rest_index(count), count, count + 1);
    let n = count as int;
    assert((n - 1 + n + 1) % n == 0) by (nonlinear_arith)
        requires
            n > 0,
    ;
}

/// The first step after a reset selects the first suggestion; without suggestions the
/// selection stays at zero.
pub proof fn lemma_first_step_selects_first(count: nat)
    ensures
        next_index(rest_index(count), count) == 0,
{
    if count > 0 {
        lemma_next_index_is_modular(rest_index(count), count);
        let n = count as int;
        assert((n - 1 + 1) % n == 0) by (nonlinear_arith)
            requires
                n > 0,
        ;
    }
}

/// The state of a completion index as plain values.
pub struct AutocompleteView {
    /// The suggestions, in keyword order.
    pub matches: Seq<Seq<char>>,
    /// What the suggestions had in common when they were computed.
    pub common: Seq<char>,
    /// Whether the user is cycling through the suggestions.
    pub tabbed: bool,
    /// The selected suggestion.
    pub index: nat,
}

impl AutocompleteView {
    /// An index with no suggestions and nothing selected.
    pub open spec fn empty() -> Self {
        AutocompleteView { matches: Seq::empty(), common: Seq::empty(), tabbed: false, index: 0 }
    }

    /// The selected suggestion without its padding, while the user is cycling and the
    /// selection points at a suggestion.
    pub open spec fn selection(self) -> Option<Seq<char>> {
        if self.tabbed && self.index < self.matches.len() {
            Some(trimmed(self.matches[self.index as int]))
        } else {
            None
        }
    }

    /// The index with cycling switched on or off.
    pub open spec fn tabbing(self, tabbed: bool) -> Self {
        AutocompleteView { tabbed, ..self }
    }

    /// The index after leaving cycling: the selection rests on the last suggestion.
    pub open spec fn rested(self) -> Self {
        AutocompleteView { tabbed: false, index: rest_index(self.matches.len()), ..self }
    }

    /// The index after one step of the cycle.
    pub open spec fn advanced(self) -> Self {
        AutocompleteView { index: next_index(self.index, self.matches.len()), ..self }
    }

    /// The index with every suggestion padded to the byte length of the longest.
    pub open spec fn amortized(self) -> Self {
        AutocompleteView { matches: amortized(self.matches), ..self }
    }

    /// The index with the suggestions recomputed for `word`: none for an empty word, else
    /// the keywords that start with it, and what they have in common.
    pub open spec fn updated(self, word: Seq<char>, keywords: Seq<Seq<char>>) -> Self {
        if word.len() == 0 {
            AutocompleteView { matches: Seq::empty(), common: Seq::empty(), ..self }
        } else {
            AutocompleteView {
                matches: matching(word, keywords),
                common: common_prefix(matching(word, keywords)),
                ..self
            }
        }
    }
}

/// The completion index.
#[derive(Debug)]
pub struct Autocomplete {
    keywords: Vec<String>,
    common: String,
    tabbed: bool,
    tabbed_idx: usize,
}

impl View for Autocomplete {
    type V = AutocompleteView;

    closed spec fn view(&self) -> AutocompleteView {
        AutocompleteView {
            matches: self.keywords.deep_view(),
            common: self.common@,
            tabbed: self.tabbed,
            index: self.tabbed_idx as nat,
        }
    }
}

/// Whether every one of `words` starts with `prefix`.
fn all_start_with(words: &Vec<String>, prefix: &str) -> (r: bool)
    ensures
        r == is_common_prefix(prefix@, words.deep_view()),
{
    let mut i: usize = 0;
    while i < words.len()
        invariant
            i <= words.len(),
            forall|j: int| 0 <= j < i ==> prefix@.is_prefix_of(#[trigger] words.deep_view()[j]),
        decreases words.len() - i,
    {
        if !starts_with(words[i].as_str(), prefix) {
            assert(!prefix@.is_prefix_of(words.deep_view()[i as int]));
            return false;
        }
        i = i + 1;
    }
    true
}

/// Returns what the strings of a collection have in common at their start, or `None` for
/// an empty collection. The first entry is used as the candidate and is left shortened to
/// the result. The order of the collection does not matter.
pub fn return_common_str_from_sorted_collection(collection: &mut Vec<String>) -> (r: Option<
    String,
>)
    ensures
        old(collection).len() == 0 ==> r is None && final(collection).deep_view() == old(
            collection,
        ).deep_view(),
        old(collection).len() > 0 ==> r.is_some() && r.unwrap()@ == common_prefix(
            old(collection).deep_view(),
        ) && final(collection).deep_view() == old(collection).deep_view().update(
            0,
            common_prefix(old(collection).deep_view()),
        ),
{
    if collection.len() == 0 {
        return None;
    }
    let ghost words = collection.deep_view();
    let mut candidate: String = collection[0].clone();
    while !all_start_with(collection, candidate.as_str())
        invariant
            collection.deep_view() == words,
            words.len() > 0,
            shrink_to_common(candidate@, words) == shrink_to_common(words[0], words),
        decreases candidate@.len(),
    {
        proof {
            if candidate@.len() == 0 {
                assert forall|i: int| 0 <= i < words.len() implies candidate@.is_prefix_of(
                    #[trigger] words[i],
                ) by {
                    assert(candidate@ =~= words[i].subrange(0, 0));
                }
            }
        }
        candidate.pop();
    }
    let shortened: String = candidate.clone();
    collection.set(0, shortened);
    assert(collection.deep_view() =~= words.update(0, candidate@));
    Some(candidate)
}

/// Returns the keywords that start with `word`, in keyword order, and what they have in
/// common; the latter is `None` when no keyword matches.
pub fn autocomplete(word: &str, keywords: &Vec<String>) -> (r: (Vec<String>, Option<String>))
    ensures
        r.0.deep_view() == matching(word@, keywords.deep_view()),
        r.0.len() == 0 ==> r.1 is None,
        r.0.len() > 0 ==> r.1.is_some() && r.1.unwrap()@ == common_prefix(r.0.deep_view()),
{
    let mut similar: Vec<String> = Vec::new();
    let mut scratch: Vec<String> = Vec::new();
    let ghost all = keywords.deep_view();
    let ghost starts = |k: Seq<char>| word@.is_prefix_of(k);
    let mut i: usize = 0;
    proof {
        reveal(Seq::filter);
        assert(all.take(0) =~= Seq::<Seq<char>>::empty());
        assert(similar.deep_view() =~= all.take(0).filter(starts));
    }
    while i < keywords.len()
        invariant
            i <= keywords.len(),
            all == keywords.deep_view(),
            starts == |k: Seq<char>| word@.is_prefix_of(k),
            similar.deep_view() == all.take(i as int).filter(starts),
            scratch.deep_view() == similar.deep_view(),
        decreases keywords.len() - i,
    {
        proof {
            reveal(Seq::filter);
            assert(all.take(i + 1).drop_last() =~= all.take(i as int));
            assert(all.take(i + 1).last() == keywords[i as int]@);
        }
        if starts_with(keywords[i].as_str(), word) {
            let ghost before = similar.deep_view();
            similar.push(keywords[i].clone());
            scratch.push(keywords[i].clone());
            assert(similar.deep_view() =~= before.push(keywords[i as int]@));
            assert(scratch.deep_view() =~= before.push(keywords[i as int]@));
        }
        i = i + 1;
    }
    assert(all.take(keywords.len() as int) =~= all);
    let common = return_common_str_from_sorted_collection(&mut scratch);
    (similar, common)
}

impl Autocomplete {
    /// An index with no suggestions and nothing selected.
    pub fn new() -> (r: Self)
        ensures
            r@ == AutocompleteView::empty(),
    {
        let r = Autocomplete {
            keywords: Vec::new(),
            common: String::new(),
            tabbed: false,
            tabbed_idx: 0,
        };
        assert(r@.matches =~= Seq::<Seq<char>>::empty());
        r
    }

    /// What the suggestions had in common when they were last computed.
    pub fn get_common(&self) -> (r: &String)
        ensures
            r@ == self@.common,
    {
        &self.common
    }

    /// The suggestions.
    pub fn get_keywords(&self) -> (r: &Vec<String>)
        ensures
            r.deep_view() == self@.matches,
    {
        &self.keywords
    }

    /// The selected suggestion.
    pub fn get_idx(&self) -> (r: usize)
        ensures
            r == self@.index,
    {
        self.tabbed_idx
    }

    /// Whether the user is cycling through the suggestions.
    pub fn is_tabbed(&self) -> (r: bool)
        ensures
            r == self@.tabbed,
    {
        self.tabbed
    }

    /// Records whether the user is cycling through the suggestions.
    pub fn set_tabbed(&mut self, tabbed: bool)
        ensures
            final(self)@ == old(self)@.tabbing(tabbed),
    {
        self.tabbed = tabbed;
    }

    /// Pads every suggestion with trailing spaces to the byte length of the longest.
    pub fn amortisize(&mut self)
        ensures
            final(self)@ == old(self)@.amortized(),
    {
        let ghost words = self.keywords.deep_view();
        let count: usize = self.keywords.len();
        let mut width: usize = 0;
        let mut i: usize = 0;
        while i < count
            invariant
                i <= count,
                count == self.keywords.len(),
                words == self.keywords.deep_view(),
                width == max_byte_len(words.take(i as int)),
            decreases count - i,
        {
            proof {
                assert(words.take(i + 1).drop_last() =~= words.take(i as int));
            }
            let len: usize = byte_length(self.keywords[i].as_str());
            if len > width {
                width = len;
            }
            i = i + 1;
        }
        assert(words.take(count as int) =~= words);
        let mut out: Vec<String> = Vec::new();
        let mut k: usize = 0;
        while k < count
            invariant
                k <= count,
                count == self.keywords.len(),
                words == self.keywords.deep_view(),
                width == max_byte_len(words),
                out.len() == k,
                forall|j: int| 0 <= j < k ==> (#[trigger] out[j])@ == padded(words[j], width as nat),
            decreases count - k,
        {
            let mut word: String = self.keywords[k].clone();
            let ghost bare = word@;
            let mut len: usize = byte_length(word.as_str());
            proof {
                lemma_max_byte_len_bounds(words, k as int);
                assert(bare + spaces(0) =~= bare);
            }
            while len < width
                invariant
                    len <= width,
                    len == byte_len(word@),
                    word@ == bare + spaces((len - byte_len(bare)) as nat),
                    byte_len(bare) <= len,
                decreases width - len,
            {
                proof {
                    lemma_byte_len_push_space(word@);
                    assert((bare + spaces((len - byte_len(bare)) as nat)).push(' ') =~= bare
                        + spaces((len + 1 - byte_len(bare)) as nat));
                }
                word.push(' ');
                len = len + 1;
            }
            out.push(word);
            k = k + 1;
        }
        self.keywords = out;
        assert(self.keywords.deep_view() =~= amortized(words));
    }

    /// Leaves cycling and rests the selection on the last suggestion, so that the next step
    /// lands on the first.
    pub fn reset_tabbed(&mut self)
        ensures
            final(self)@ == old(self)@.rested(),
    {
        self.tabbed = false;
        if self.keywords.len() == 0 {
            self.tabbed_idx = 0;
        } else {
            self.tabbed_idx = self.keywords.len() - 1;
        }
    }

    /// Moves the selection to the next suggestion, wrapping around after the last. Without
    /// suggestions nothing changes.
    pub fn incr_idx(&mut self)
        ensures
            final(self)@ == old(self)@.advanced(),
    {
        let count: usize = self.keywords.len();
        if count > 0 {
            let at: usize = self.tabbed_idx % count;
            proof {
                lemma_next_index_is_modular(self.tabbed_idx as nat, count as nat);
            }
            assert((self.tabbed_idx + 1) % (count as int) == if at + 1 == count {
                0
            } else {
                at + 1
            }) by (nonlinear_arith)
                requires
                    count > 0,
                    at == self.tabbed_idx % count,
            ;
            if at + 1 == count {
                self.tabbed_idx = 0;
            } else {
                self.tabbed_idx = at + 1;
            }
        }
    }

    /// Recomputes the suggestions for `word`: the keywords that start with it, and what
    /// they have in common. An empty `word` yields no suggestions.
    pub fn update(&mut self, word: &String, keywords: &Vec<String>)
        ensures
            final(self)@ == old(self)@.updated(word@, keywords.deep_view()),
    {
        if word.as_str().is_empty() {
            self.keywords = Vec::new();
            self.common = String::new();
            assert(self.keywords.deep_view() =~= Seq::<Seq<char>>::empty());
            return;
        }
        let (similar, common) = autocomplete(word.as_str(), keywords);
        self.keywords = similar;
        self.common = match common {
            Some(c) => c,
            None => String::new(),
        };
    }

    /// Recomputes the suggestions for `word`, as `update` does.
    pub fn autocomplete(&mut self, word: &String, keywords: &Vec<String>)
        ensures
            final(self)@ == old(self)@.updated(word@, keywords.deep_view()),
    {
        self.update(word, keywords);
    }

    /// The requests that show, behind the cursor, what the suggestions have in common
    /// beyond `buffer`; where they have nothing in common, the request to clear what
    /// follows the cursor.
    pub fn print_same_line_autocompleted(&self, color: Color, buffer: &String) -> (actions: Vec<
        Action,
    >)
        ensures
            action_views(actions@) == completion_actions(self@.common, buffer@, color),
    {
        let mut actions: Vec<Action> = Vec::new();
        assert(action_views(actions@) =~= Seq::<ActionView>::empty());
        if !self.common.as_str().is_empty() {
            let skip: usize = buffer.as_str().unicode_len();
            let len: usize = self.common.as_str().unicode_len();
            let text: String = if skip <= len {
                let rest: &str = self.common.as_str().substring_char(skip, len);
                assert(rest@ =~= self.common@.skip(skip as int));
                rest.to_owned()
            } else {
                String::new()
            };
            push_action(&mut actions, Action::SaveCursor);
            push_action(&mut actions, Action::PrintColored { text, color });
            push_action(&mut actions, Action::RestoreCursor);
            assert(action_views(actions@) =~= completion_actions(self@.common, buffer@, color));
        } else {
            push_action(&mut actions, Action::ClearFromCursor);
            assert(action_views(actions@) =~= completion_actions(self@.common, buffer@, color));
        }
        actions
    }

    /// The selected suggestion without its padding, while the user is cycling and the
    /// selection points at a suggestion.
    pub fn get_current_tabbed_autocomplete(&self) -> (r: Option<String>)
        ensures
            r.is_some() == self@.selection().is_some(),
            r.is_some() ==> r.unwrap()@ == self@.selection().unwrap(),
    {
        if self.tabbed && self.tabbed_idx < self.keywords.len() {
            Some(trim_end(self.keywords[self.tabbed_idx].as_str()))
        } else {
            None
        }
    }
}

} // verus!
