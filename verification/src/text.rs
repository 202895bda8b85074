//! Character and string primitives shared by the scanner, the completion index and the line
//! editor.
//!
//! Every string is modelled by its view, a `Seq<char>`. Lengths are measured the way
//! `str::len` measures them, in UTF-8 bytes, so that padding decisions agree with what the
//! terminal is handed.

use vstd::prelude::*;
use vstd::utf8::encode_scalar;
use vstd::utf8::encode_utf8;

verus! {

/// What `char::is_alphanumeric` answers for `c`.
pub uninterp spec fn char_is_alphanumeric(c: char) -> bool;

/// What `char::is_alphabetic` answers for `c`.
pub uninterp spec fn char_is_alphabetic(c: char) -> bool;

/// What `char::is_whitespace` answers for `c`.
pub uninterp spec fn char_is_whitespace(c: char) -> bool;

/// `char::is_alphanumeric`. The answer comes from the Unicode tables compiled into `std`
/// and depends on `c` alone, so the contract only names it.
pub assume_specification[ char::is_alphanumeric ](c: char) -> (r: bool)
    ensures
        r == char_is_alphanumeric(c),
;

/// `char::is_alphabetic`. The answer comes from the Unicode tables compiled into `std`
/// and depends on `c` alone, so the contract only names it.
pub assume_specification[ char::is_alphabetic ](c: char) -> (r: bool)
    ensures
        r == char_is_alphabetic(c),
;

/// `char::is_whitespace`. The answer is the Unicode `White_Space` property of `c` and
/// depends on `c` alone; the contract names it and records the one member the editor
/// relies on, the space character.
pub assume_specification[ char::is_whitespace ](c: char) -> (r: bool)
    ensures
        r == char_is_whitespace(c),
        c == ' ' ==> r,
;

/// `String::push`: appends `ch` to the end of the string.
pub assume_specification[ String::push ](s: &mut String, ch: char)
    ensures
        final(s)@ == old(s)@.push(ch),
;

/// `String::pop`: removes the last character and returns it; on an empty string it returns
/// `None` and changes nothing.
pub assume_specification[ String::pop ](s: &mut String) -> (r: Option<char>)
    ensures
        old(s)@.len() == 0 ==> r is None && final(s)@ == old(s)@,
        old(s)@.len() > 0 ==> r == Some(old(s)@.last()) && final(s)@ == old(s)@.drop_last(),
;

/// `str::starts_with` with a string pattern: whether `prefix` is a prefix of `s`.
#[verifier::external_body]
pub(crate) fn starts_with(s: &str, prefix: &str) -> (r: bool)
    ensures
        r == prefix@.is_prefix_of(s@),
{
    s.starts_with(prefix)
}

/// The number of bytes in the UTF-8 encoding of `s`.
pub open spec fn byte_len(s: Seq<char>) -> nat {
    encode_utf8(s).len()
}

/// `n` space characters.
pub open spec fn spaces(n: nat) -> Seq<char> {
    Seq::new(n, |i: int| ' ')
}

/// Whether trimming removes `c`: a space, or any other character that `std` classifies as
/// white space.
pub open spec fn is_blank(c: char) -> bool {
    c == ' ' || char_is_whitespace(c)
}

/// `s` without its trailing white space.
pub open spec fn trimmed(s: Seq<char>) -> Seq<char>
    decreases s.len(),
{
    if s.len() > 0 && is_blank(s.last()) {
        trimmed(s.drop_last())
    } else {
        s
    }
}

/// The part of `s` before its first space character; all of `s` if it has none.
pub open spec fn first_word(s: Seq<char>) -> Seq<char>
    decreases s.len(),
{
    if s.len() == 0 || s[0] == ' ' {
        Seq::empty()
    } else {
        seq![s[0]] + first_word(s.drop_first())
    }
}

/// Whether `word` occurs in `list`.
pub open spec fn listed(list: Seq<Seq<char>>, word: Seq<char>) -> bool {
    exists|i: int| 0 <= i < list.len() && #[trigger] list[i] == word
}

/// Appending one character lengthens the encoding by the width of that character.
pub proof fn lemma_byte_len_push(s: Seq<char>, c: char)
    ensures
        byte_len(s.push(c)) == byte_len(s) + encode_scalar(c as u32).len(),
    decreases s.len(),
{
    if s.len() == 0 {
        assert(s.push(c).drop_first() =~= Seq::<char>::empty());
        assert(encode_utf8(s.push(c).drop_first()) =~= Seq::<u8>::empty());
        assert(encode_utf8(s) =~= Seq::<u8>::empty());
    } else {
        assert(s.push(c).drop_first() =~= s.drop_first().push(c));
        lemma_byte_len_push(s.drop_first(), c);
    }
}

/// A space is encoded in one byte.
pub proof fn lemma_byte_len_push_space(s: Seq<char>)
    ensures
        byte_len(s.push(' ')) == byte_len(s) + 1,
{
    lemma_byte_len_push(s, ' ');
}

/// Padding with `n` spaces lengthens the encoding by `n` bytes.
pub proof fn lemma_byte_len_spaces(s: Seq<char>, n: nat)
    ensures
        byte_len(s + spaces(n)) == byte_len(s) + n,
    decreases n,
{
    if n == 0 {
        assert(s + spaces(0) =~= s);
    } else {
        lemma_byte_len_spaces(s, (n - 1) as nat);
        assert(s + spaces(n) =~= (s + spaces((n - 1) as nat)).push(' '));
        lemma_byte_len_push_space(s + spaces((n - 1) as nat));
    }
}

/// Trailing spaces do not survive trimming: a padded string trims to what the bare string
/// trims to.
pub proof fn lemma_trimmed_ignores_padding(s: Seq<char>, n: nat)
    ensures
        trimmed(s + spaces(n)) == trimmed(s),
    decreases n,
{
    if n == 0 {
        assert(s + spaces(0) =~= s);
    } else {
        let t = s + spaces(n);
        assert(t.last() == ' ');
        assert(t.drop_last() =~= s + spaces((n - 1) as nat));
        lemma_trimmed_ignores_padding(s, (n - 1) as nat);
    }
}

/// A trimmed string is a prefix of the string it was trimmed from, and it does not end in
/// white space.
pub proof fn lemma_trimmed_is_prefix(s: Seq<char>)
    ensures
        trimmed(s).is_prefix_of(s),
        trimmed(s).len() > 0 ==> !is_blank(trimmed(s).last()),
    decreases s.len(),
{
    if s.len() > 0 && is_blank(s.last()) {
        lemma_trimmed_is_prefix(s.drop_last());
        let t = trimmed(s.drop_last());
        assert(t =~= s.subrange(0, t.len() as int));
    } else {
        assert(s =~= s.subrange(0, s.len() as int));
    }
}

/// The first word is a prefix of the string, holds no space, and is followed by a space
/// or by the end of the string.
pub proof fn lemma_first_word(s: Seq<char>)
    ensures
        first_word(s).is_prefix_of(s),
        forall|i: int| 0 <= i < first_word(s).len() ==> first_word(s)[i] != ' ',
        first_word(s).len() < s.len() ==> s[first_word(s).len() as int] == ' ',
    decreases s.len(),
{
    if s.len() == 0 || s[0] == ' ' {
        assert(first_word(s) =~= s.subrange(0, 0));
    } else {
        lemma_first_word(s.drop_first());
        let w = first_word(s.drop_first());
        assert(w =~= s.drop_first().subrange(0, w.len() as int));
        assert(first_word(s) =~= s.subrange(0, first_word(s).len() as int));
        assert forall|i: int| 0 <= i < first_word(s).len() implies first_word(s)[i] != ' ' by {
            if i > 0 {
                assert(first_word(s)[i] == w[i - 1]);
            }
        }
        if first_word(s).len() < s.len() {
            assert(s[first_word(s).len() as int] == s.drop_first()[w.len() as int]);
        }
    }
}

/// Returns `s` without its trailing white space.
pub fn trim_end(s: &str) -> (r: String)
    ensures
        r@ == trimmed(s@),
{
    let mut t: String = s.to_owned();
    loop
        invariant
            trimmed(t@) == trimmed(s@),
        decreases t@.len(),
    {
        match t.pop() {
            None => {
                return t;
            },
            Some(c) => {
                if !c.is_whitespace() {
                    t.push(c);
                    assert(t@ =~= trimmed(s@));
                    return t;
                }
            },
        }
    }
}

/// Returns the part of `s` before its first space character, or all of `s` if it has none.
pub fn leading_word(s: &str) -> (r: String)
    ensures
        r@ == first_word(s@),
{
    let mut word: String = String::new();
    let mut open: bool = true;
    proof {
        assert(s@.skip(0) =~= s@);
        assert(word@ + first_word(s@) =~= first_word(s@));
    }
    for c in it: s.chars()
        invariant
            it.seq() == s@,
            open ==> first_word(s@) == word@ + first_word(s@.skip(it.index() as int)),
            !open ==> first_word(s@) == word@,
    {
        proof {
            let rest = s@.skip(it.index() as int);
            assert(rest[0] == c);
            assert(rest.drop_first() =~= s@.skip(it.index() + 1));
        }
        if open {
            if c == ' ' {
                open = false;
                assert(word@ + Seq::<char>::empty() =~= word@);
            } else {
                let ghost before = word@;
                word.push(c);
                assert(before + (seq![c] + first_word(s@.skip(it.index() + 1))) =~= word@
                    + first_word(s@.skip(it.index() + 1)));
            }
        }
    }
    proof {
        if open {
            assert(s@.skip(s@.len() as int) =~= Seq::<char>::empty());
            assert(word@ + Seq::<char>::empty() =~= word@);
        }
    }
    word
}

/// The length of `s` in bytes.
pub fn byte_length(s: &str) -> (n: usize)
    ensures
        n == byte_len(s@),
{
    s.as_bytes().len()
}

/// Whether `word` occurs in `list`.
pub fn contains(list: &Vec<String>, word: &String) -> (r: bool)
    ensures
        r == listed(list.deep_view(), word@),
{
    let mut i: usize = 0;
    while i < list.len()
        invariant
            i <= list.len(),
            forall|j: int| 0 <= j < i ==> list.deep_view()[j] != word@,
        decreases list.len() - i,
    {
        if list[i] == *word {
            assert(list.deep_view()[i as int] == word@);
            return true;
        }
        i = i + 1;
    }
    false
}

} // verus!
