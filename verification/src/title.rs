//! Titles of sessions.

use vstd::prelude::*;
use vstd::utf8::{encode_scalar, encode_utf8};

use crate::error::Error;
use crate::persistence::chunks::lemma_encode_concat;
use crate::text::{
    blank, byte_count, byte_len, from_chars, has_trimmed_ends, is_blank, is_trimmed, is_white,
    to_chars, white,
};

verus! {

/// The most bytes that a title has.
pub const MAX_TITLE_BYTES: usize = 200;

/// The most characters that a title takes from an input.
pub const MAX_TITLE_CHARS: usize = 60;

/// Whether a session can have this title: something visible, nothing blank at its ends, and not
/// too long.
pub open spec fn valid_title(title: Seq<char>) -> bool {
    !is_blank(title) && is_trimmed(title) && byte_count(title) <= MAX_TITLE_BYTES
}

/// Checks that a session can have this title.
pub fn validate_title(title: &str) -> (r: Result<(), Error>)
    ensures
        if valid_title(title@) {
            r is Ok
        } else {
            r matches Err(Error::InvalidState(message)) && message@ == "invalid session title"@
        },
{
    if blank(title) || !has_trimmed_ends(title) || byte_len(title) > MAX_TITLE_BYTES {
        Err(Error::InvalidState("invalid session title".to_owned()))
    } else {
        Ok(())
    }
}

/// The words of a text with one blank between each two.
pub open spec fn squeezed(s: Seq<char>) -> Seq<char>
    decreases s.len(),
{
    if s.len() == 0 {
        Seq::empty()
    } else {
        let before = squeezed(s.drop_last());
        if is_white(s.last()) {
            before
        } else if before.len() > 0 && is_white(s[s.len() - 2]) {
            before.push(' ').push(s.last())
        } else {
            before.push(s.last())
        }
    }
}

/// How many characters of a text fit into a title before the sign that it was cut, from `taken`
/// on.
pub open spec fn fitting(s: Seq<char>, taken: int) -> int
    decreases MAX_TITLE_CHARS - taken,
{
    if taken < MAX_TITLE_CHARS && taken < s.len() && byte_count(s.take(taken + 1)) + byte_count(
        seq!['…'],
    ) <= MAX_TITLE_BYTES {
        fitting(s, taken + 1)
    } else {
        taken
    }
}

/// The title that the first input of a session gives it: its words, cut off where they are too
/// long.
pub open spec fn first_title(input: Seq<char>) -> Option<Seq<char>> {
    let words = squeezed(input);
    if words.len() == 0 {
        None
    } else if words.len() <= MAX_TITLE_CHARS && byte_count(words) <= MAX_TITLE_BYTES {
        Some(words)
    } else {
        Some(words.take(fitting(words, 0)).push('…'))
    }
}

/// A character takes one to four bytes.
proof fn lemma_char_bytes(c: char)
    ensures
        1 <= byte_count(seq![c]) <= 4,
{
    assert(seq![c].drop_first() =~= Seq::<char>::empty());
    assert(encode_utf8(seq![c].drop_first()).len() == 0);
    assert(encode_utf8(seq![c]) == encode_scalar(c as u32) + encode_utf8(seq![c].drop_first()));
}

/// One more character adds its bytes.
proof fn lemma_push_bytes(s: Seq<char>, c: char)
    ensures
        byte_count(s.push(c)) == byte_count(s) + byte_count(seq![c]),
{
    lemma_encode_concat(s, seq![c]);
    assert(s.push(c) =~= s + seq![c]);
}

fn squeeze(s: &str) -> (r: Vec<char>)
    ensures
        r@ == squeezed(s@),
{
    let chars = to_chars(s);
    let mut r: Vec<char> = Vec::new();
    let mut i: usize = 0;
    while i < chars.len()
        invariant
            chars@ == s@,
            i <= chars@.len(),
            r@ == squeezed(chars@.take(i as int)),
        decreases chars@.len() - i,
    {
        proof {
            assert(chars@.take(i + 1).drop_last() =~= chars@.take(i as int));
            assert(chars@.take(i + 1).last() == chars@[i as int]);
            if i > 0 {
                assert(chars@.take(i + 1)[i - 1] == chars@[i - 1]);
            }
        }
        let c = chars[i];
        if !white(c) {
            if r.len() > 0 && i > 0 && white(chars[i - 1]) {
                r.push(' ');
            }
            r.push(c);
        }
        proof {
            if i == 0 {
                assert(chars@.take(0).len() == 0);
            }
        }
        i = i + 1;
    }
    proof {
        assert(chars@.take(chars@.len() as int) =~= chars@);
    }
    r
}

/// The title that the first input of a session gives it, unless it is blank.
pub fn title_from_first_input(input: &str) -> (r: Option<String>)
    ensures
        match first_title(input@) {
            Some(title) => r matches Some(text) && text@ == title,
            None => r is None,
        },
{
    let words = squeeze(input);
    let count: usize = words.len();
    if count == 0 {
        return None;
    }
    let whole = from_chars(&words, 0, count);
    proof {
        assert(words@.subrange(0, count as int) =~= words@);
    }
    if count <= MAX_TITLE_CHARS && byte_len(whole.as_str()) <= MAX_TITLE_BYTES {
        return Some(whole);
    }
    let mut title = String::new();
    let mut taken: usize = 0;
    proof {
        assert(words@.take(0) =~= Seq::<char>::empty());
    }
    loop
        invariant
            count == words@.len(),
            taken <= count,
            taken <= MAX_TITLE_CHARS,
            title@ == words@.take(taken as int),
            fitting(words@, 0) == fitting(words@, taken as int),
        ensures
            title@ == words@.take(fitting(words@, 0)),
        decreases MAX_TITLE_CHARS - taken,
    {
        if taken >= MAX_TITLE_CHARS || taken >= count {
            break ;
        }
        let mut longer = title.clone();
        longer.push(words[taken]);
        proof {
            assert(longer@ =~= words@.take(taken + 1));
            lemma_push_bytes(longer@, '…');
        }
        let mut marked = longer.clone();
        marked.push('…');
        if byte_len(marked.as_str()) > MAX_TITLE_BYTES {
            break ;
        }
        title = longer;
        taken = taken + 1;
    }
    title.push('…');
    Some(title)
}

proof fn lemma_squeezed(s: Seq<char>)
    ensures
        squeezed(s).len() > 0 ==> !is_white(squeezed(s)[0]) && !is_white(squeezed(s).last()),
    decreases s.len(),
{
    if s.len() > 0 {
        lemma_squeezed(s.drop_last());
    }
}

proof fn lemma_fitting(s: Seq<char>, taken: int)
    requires
        0 <= taken <= s.len(),
        taken == 0 || byte_count(s.take(taken)) + byte_count(seq!['…']) <= MAX_TITLE_BYTES,
    ensures
        taken <= fitting(s, taken) <= s.len(),
        fitting(s, taken) == 0 || byte_count(s.take(fitting(s, taken))) + byte_count(seq!['…'])
            <= MAX_TITLE_BYTES,
    decreases MAX_TITLE_CHARS - taken,
{
    if taken < MAX_TITLE_CHARS && taken < s.len() && byte_count(s.take(taken + 1)) + byte_count(
        seq!['…'],
    ) <= MAX_TITLE_BYTES {
        lemma_fitting(s, taken + 1);
    }
}

/// Every title that an input gives is one that a session can have.
pub proof fn law_first_titles_are_valid(input: Seq<char>)
    ensures
        first_title(input) matches Some(title) ==> valid_title(title),
{
    let words = squeezed(input);
    lemma_squeezed(input);
    if words.len() > 0 {
        if words.len() <= MAX_TITLE_CHARS && byte_count(words) <= MAX_TITLE_BYTES {
            assert(!is_white(words[0]));
        } else {
            let kept = fitting(words, 0);
            lemma_fitting(words, 0);
            lemma_char_bytes(words[0]);
            lemma_char_bytes('…');
            assert(words.take(1) =~= seq![words[0]]);
            lemma_fitting(words, 1);
            assert(kept >= 1);
            let title = words.take(kept).push('…');
            lemma_push_bytes(words.take(kept), '…');
            assert(title[0] == words[0]);
            assert(title.last() == '…');
            assert(!is_white('…'));
        }
    }
}

/// A text gives no title exactly where it is blank.
pub proof fn law_only_blank_inputs_give_no_title(input: Seq<char>)
    ensures
        first_title(input) is None <==> is_blank(input),
    decreases input.len(),
{
    if input.len() > 0 {
        law_only_blank_inputs_give_no_title(input.drop_last());
        let before = input.drop_last();
        if is_blank(input) {
            assert forall|i: int| 0 <= i < before.len() implies is_white(#[trigger] before[i]) by {
                assert(is_white(input[i]));
            }
            assert(is_white(input[input.len() - 1]));
        } else if is_white(input.last()) {
            let i = choose|i: int| 0 <= i < input.len() && !is_white(#[trigger] input[i]);
            assert(before[i] == input[i]);
        }
    }
}

/// Whether a text is made of words with one blank between each two, perhaps with one at its end.
spec fn is_squeezed(s: Seq<char>) -> bool {
    forall|i: int|
        0 <= i < s.len() && is_white(#[trigger] s[i]) ==> i > 0 && s[i] == ' ' && !is_white(s[i - 1])
}

proof fn lemma_is_squeezed(s: Seq<char>)
    ensures
        is_squeezed(squeezed(s)),
    decreases s.len(),
{
    if s.len() > 0 {
        lemma_is_squeezed(s.drop_last());
        lemma_squeezed(s.drop_last());
        let before = squeezed(s.drop_last());
        let r = squeezed(s);
        assert forall|i: int| 0 <= i < r.len() && is_white(#[trigger] r[i]) implies i > 0 && r[i]
            == ' ' && !is_white(r[i - 1]) by {
            if i < before.len() {
                assert(r[i] == before[i]);
            } else {
                assert(before.len() > 0);
                assert(r[i - 1] == before.last());
            }
        }
    }
}

/// Nothing is left to squeeze in a squeezed text but a blank at its end.
proof fn lemma_squeezing_again(s: Seq<char>)
    requires
        is_squeezed(s),
    ensures
        squeezed(s) == (if s.len() > 0 && is_white(s.last()) {
            s.drop_last()
        } else {
            s
        }),
    decreases s.len(),
{
    if s.len() > 0 {
        let rest = s.drop_last();
        assert forall|i: int| 0 <= i < rest.len() && is_white(#[trigger] rest[i]) implies i > 0
            && rest[i] == ' ' && !is_white(rest[i - 1]) by {
            assert(rest[i] == s[i]);
            if i > 0 {
                assert(rest[i - 1] == s[i - 1]);
            }
        }
        lemma_squeezing_again(rest);
        assert(s.last() == s[s.len() - 1]);
        if rest.len() > 0 {
            assert(rest.last() == s[s.len() - 2]);
        }
        if is_white(s.last()) {
            assert(squeezed(s) =~= rest);
        } else if rest.len() > 0 && is_white(rest.last()) {
            assert(rest.drop_last().push(' ').push(s.last()) =~= s);
        } else {
            assert(rest.push(s.last()) =~= s);
        }
    } else {
        assert(squeezed(s) =~= s);
    }
}

proof fn lemma_fitting_bound(s: Seq<char>, taken: int)
    requires
        taken <= MAX_TITLE_CHARS,
    ensures
        fitting(s, taken) <= MAX_TITLE_CHARS,
    decreases MAX_TITLE_CHARS - taken,
{
    if taken < MAX_TITLE_CHARS && taken < s.len() && byte_count(s.take(taken + 1)) + byte_count(
        seq!['…'],
    ) <= MAX_TITLE_BYTES {
        lemma_fitting_bound(s, taken + 1);
    }
}

/// Texts that start alike fit alike.
proof fn lemma_fitting_alike(a: Seq<char>, b: Seq<char>, taken: int)
    requires
        0 <= taken <= MAX_TITLE_CHARS <= a.len(),
        MAX_TITLE_CHARS <= b.len(),
        a.take(MAX_TITLE_CHARS as int) == b.take(MAX_TITLE_CHARS as int),
    ensures
        fitting(a, taken) == fitting(b, taken),
    decreases MAX_TITLE_CHARS - taken,
{
    if taken < MAX_TITLE_CHARS {
        assert(a.take(taken + 1) =~= a.take(MAX_TITLE_CHARS as int).take(taken + 1));
        assert(b.take(taken + 1) =~= b.take(MAX_TITLE_CHARS as int).take(taken + 1));
        lemma_fitting_alike(a, b, taken + 1);
    }
}

/// A title that an input gives is short: it has the sign that it was cut behind as many characters
/// as it takes at most. Deriving it again changes nothing: as an input it gives itself.
pub proof fn law_derived_titles_are_final(input: Seq<char>)
    ensures
        first_title(input) matches Some(title) ==> title.len() <= MAX_TITLE_CHARS + 1
            && first_title(title) == Some(title),
{
    let words = squeezed(input);
    lemma_squeezed(input);
    lemma_is_squeezed(input);
    if words.len() > 0 {
        if words.len() <= MAX_TITLE_CHARS && byte_count(words) <= MAX_TITLE_BYTES {
            lemma_squeezing_again(words);
        } else {
            let kept = fitting(words, 0);
            lemma_fitting(words, 0);
            lemma_fitting_bound(words, 0);
            let title = words.take(kept).push('…');
            law_first_titles_are_valid(input);
            assert(!is_white('…'));
            assert forall|i: int| 0 <= i < title.len() && is_white(#[trigger] title[i]) implies i
                > 0 && title[i] == ' ' && !is_white(title[i - 1]) by {
                assert(title[i] == words[i]);
                assert(title[i - 1] == words[i - 1]);
            }
            lemma_squeezing_again(title);
            assert(squeezed(title) == title);
            if title.len() > MAX_TITLE_CHARS {
                assert(title.take(MAX_TITLE_CHARS as int) =~= words.take(MAX_TITLE_CHARS as int));
                lemma_fitting_alike(words, title, 0);
                assert(title.take(kept) =~= words.take(kept));
            }
        }
    }
}

/// Words on both sides of white space stay apart by one space, however wide the white space is.
pub proof fn law_words_stay_apart(first: Seq<char>, between: char, rest: Seq<char>)
    requires
        is_white(between),
        squeezed(first).len() > 0,
        squeezed(rest).len() > 0,
    ensures
        squeezed(first + seq![between] + rest) == squeezed(first).push(' ') + squeezed(rest),
    decreases rest.len(),
{
    let all = first + seq![between] + rest;
    let shorter = rest.drop_last();
    assert(all.drop_last() =~= first + seq![between] + shorter);
    assert(all.last() == rest.last());
    if squeezed(shorter).len() > 0 {
        law_words_stay_apart(first, between, shorter);
        assert(all[all.len() - 2] == rest[rest.len() - 2]);
        assert(squeezed(all) =~= squeezed(first).push(' ') + squeezed(rest));
    } else {
        lemma_only_white_vanishes(shorter);
        assert(all.drop_last() =~= first + (seq![between] + shorter));
        lemma_white_end_vanishes(first, seq![between] + shorter);
        if rest.len() > 1 {
            assert(all[all.len() - 2] == shorter[shorter.len() - 1]);
        } else {
            assert(all[all.len() - 2] == between);
        }
        assert(squeezed(all) =~= squeezed(first).push(' ') + squeezed(rest));
    }
}

/// A text without white space is one word and stays as it is.
pub proof fn law_words_stay_whole(word: Seq<char>)
    requires
        forall|i: int| 0 <= i < word.len() ==> !is_white(#[trigger] word[i]),
    ensures
        squeezed(word) == word,
    decreases word.len(),
{
    if word.len() > 0 {
        law_words_stay_whole(word.drop_last());
        if word.len() > 1 {
            assert(!is_white(word[word.len() - 2]));
        }
        assert(squeezed(word) =~= word);
    }
}

proof fn lemma_only_white_vanishes(s: Seq<char>)
    requires
        squeezed(s).len() == 0,
    ensures
        forall|i: int| 0 <= i < s.len() ==> is_white(#[trigger] s[i]),
    decreases s.len(),
{
    if s.len() > 0 {
        lemma_only_white_vanishes(s.drop_last());
        assert forall|i: int| 0 <= i < s.len() implies is_white(#[trigger] s[i]) by {
            if i < s.len() - 1 {
                assert(s[i] == s.drop_last()[i]);
            }
        }
    }
}

proof fn lemma_white_end_vanishes(s: Seq<char>, end: Seq<char>)
    requires
        forall|i: int| 0 <= i < end.len() ==> is_white(#[trigger] end[i]),
    ensures
        squeezed(s + end) == squeezed(s),
    decreases end.len(),
{
    if end.len() == 0 {
        assert(s + end =~= s);
    } else {
        assert((s + end).drop_last() =~= s + end.drop_last());
        assert((s + end).last() == end.last());
        assert forall|i: int| 0 <= i < end.drop_last().len() implies is_white(
            #[trigger] end.drop_last()[i],
        ) by {
            assert(end.drop_last()[i] == end[i]);
        }
        lemma_white_end_vanishes(s, end.drop_last());
    }
}

/// A text that is too long for a title is cut behind as many of its characters as fit: at most
/// sixty, and no more than leave room for the mark of the cut.
pub proof fn law_long_titles_are_cut(input: Seq<char>)
    requires
        squeezed(input).len() > 60 || byte_count(squeezed(input)) > 200,
        squeezed(input).len() > 0,
    ensures
        exists|n: int|
            {
                &&& 0 <= n <= 60
                &&& n <= squeezed(input).len()
                &&& first_title(input) == Some((#[trigger] squeezed(input).take(n)).push('…'))
                &&& n == 60 || n == squeezed(input).len() || byte_count(squeezed(input).take(n + 1))
                    + byte_count(seq!['…']) > 200
            },
{
    let words = squeezed(input);
    lemma_fitting_bound(words, 0);
    lemma_fitting_stops(words, 0);
    assert(first_title(input) == Some(words.take(fitting(words, 0)).push('…')));
}

proof fn lemma_fitting_stops(s: Seq<char>, taken: int)
    requires
        0 <= taken <= s.len(),
        taken <= MAX_TITLE_CHARS,
    ensures
        ({
            let n = fitting(s, taken);
            &&& taken <= n <= s.len()
            &&& n == MAX_TITLE_CHARS || n == s.len() || byte_count(s.take(n + 1)) + byte_count(
                seq!['…'],
            ) > MAX_TITLE_BYTES
        }),
    decreases MAX_TITLE_CHARS - taken,
{
    if taken < MAX_TITLE_CHARS && taken < s.len() && byte_count(s.take(taken + 1)) + byte_count(
        seq!['…'],
    ) <= MAX_TITLE_BYTES {
        lemma_fitting_stops(s, taken + 1);
    }
}

} // verus!
