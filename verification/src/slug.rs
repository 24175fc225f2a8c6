//! Anchor tokens for heading text.
//!
//! A character with a known romanisation becomes that romanisation without
//! tone marks, ASCII punctuation is dropped, and every other character stands
//! for itself.

use vstd::prelude::*;
use pinyin::ToPinyin;
use crate::text::{joined, join_strings, strings_view, lemma_strings_view_push};

verus! {

/// The tone-free romanisation that the `pinyin` crate's table holds for `c`,
/// or `None` where the table has no entry.
pub uninterp spec fn plain_pinyin(c: char) -> Option<Seq<char>>;

/// Looks `c` up in the `pinyin` crate: `ToPinyin::to_pinyin` on a `char`,
/// then `Pinyin::plain` on the entry found. The table is fixed data, so the
/// answer depends on `c` alone; nothing is claimed of what the table holds.
#[verifier::external_body]
fn lookup_pinyin(c: char) -> (found: Option<String>)
    ensures
        match found {
            Some(s) => plain_pinyin(c) == Some(s@),
            None => plain_pinyin(c) is None,
        },
{
    c.to_pinyin().map(|p| p.plain().to_string())
}

/// The ASCII punctuation characters: the four runs `!`..`/`, `:`..`@`,
/// `[`..`` ` `` and `{`..`~`.
pub open spec fn ascii_punctuation(c: char) -> bool {
    ||| '!' <= c <= '/'
    ||| ':' <= c <= '@'
    ||| '[' <= c <= '`'
    ||| '{' <= c <= '~'
}

/// `char::is_ascii_punctuation` is true exactly of the four ASCII runs
/// U+0021..=U+002F, U+003A..=U+0040, U+005B..=U+0060 and U+007B..=U+007E.
pub assume_specification[ char::is_ascii_punctuation ](c: &char) -> (b: bool)
    ensures
        b == ascii_punctuation(*c),
;

/// The token that stands for `c` when its table entry is `romanised`.
pub open spec fn token_of(c: char, romanised: Option<Seq<char>>) -> Option<Seq<char>> {
    match romanised {
        Some(p) => Some(p),
        None => if ascii_punctuation(c) {
            None
        } else {
            Some(seq![c])
        },
    }
}

/// The tokens of `text`, one for each character that is kept, in order.
pub open spec fn slug_tokens(text: Seq<char>) -> Seq<Seq<char>>
    decreases text.len(),
{
    if text.len() == 0 {
        Seq::empty()
    } else {
        let front = slug_tokens(text.drop_last());
        match token_of(text.last(), plain_pinyin(text.last())) {
            Some(token) => front.push(token),
            None => front,
        }
    }
}

/// The anchor id of a heading with the given text: its tokens joined by `-`.
pub open spec fn anchor_of(text: Seq<char>) -> Seq<char> {
    joined(slug_tokens(text), seq!['-'])
}

/// The tokens are fixed by the text: two texts that are the same have the
/// same tokens and the same anchor id.
pub proof fn lemma_same_text_same_tokens(first: Seq<char>, second: Seq<char>)
    requires
        first =~= second,
    ensures
        slug_tokens(first) == slug_tokens(second),
        anchor_of(first) == anchor_of(second),
{
}

/// The tokens of two texts written one after the other are the tokens of the
/// first followed by those of the second.
pub proof fn lemma_tokens_of_joined_texts(first: Seq<char>, second: Seq<char>)
    ensures
        slug_tokens(first + second) == slug_tokens(first) + slug_tokens(second),
    decreases second.len(),
{
    if second.len() == 0 {
        assert(first + second == first);
        assert(slug_tokens(first) + Seq::<Seq<char>>::empty() == slug_tokens(first));
    } else {
        lemma_tokens_of_joined_texts(first, second.drop_last());
        assert((first + second).drop_last() == first + second.drop_last());
        assert((first + second).last() == second.last());
        let front = slug_tokens(first) + slug_tokens(second.drop_last());
        match token_of(second.last(), plain_pinyin(second.last())) {
            Some(token) => {
                assert(front.push(token) == slug_tokens(first) + slug_tokens(
                    second.drop_last(),
                ).push(token));
            },
            None => {},
        }
    }
}

/// The token for one character, given what the romanisation table holds for it.
pub fn char_token(c: char, romanised: Option<String>) -> (token: Option<String>)
    ensures
        match token {
            Some(t) => token_of(
                c,
                match romanised {
                    Some(p) => Some(p@),
                    None => None,
                },
            ) == Some(t@),
            None => romanised is None && ascii_punctuation(c),
        },
{
    match romanised {
        Some(p) => Some(p),
        None => {
            if c.is_ascii_punctuation() {
                None
            } else {
                let mut single = String::new();
                single.push(c);
                assert(single@ =~= seq![c]);
                Some(single)
            }
        },
    }
}

/// Splits `text` into anchor tokens.
///
/// The result is fixed by the text alone: equal texts give equal tokens.
pub fn to_pinyin(text: &str) -> (tokens: Vec<String>)
    ensures
        strings_view(tokens@) == slug_tokens(text@),
{
    let mut tokens: Vec<String> = Vec::new();
    for c in it: text.chars()
        invariant
            it.seq() == text@,
            strings_view(tokens@) == slug_tokens(text@.take(it.index() as int)),
    {
        let ghost done = text@.take(it.index() as int);
        let ghost next = text@.take(it.index() + 1);
        proof {
            assert(next.drop_last() == done);
            assert(next.last() == c);
        }
        let romanised = lookup_pinyin(c);
        match char_token(c, romanised) {
            Some(token) => {
                proof {
                    lemma_strings_view_push(tokens@, token);
                }
                tokens.push(token);
            },
            None => {},
        }
    }
    proof {
        assert(text@.take(text@.len() as int) == text@);
    }
    tokens
}

/// The anchor id for a heading with the given text.
pub fn anchor_id(text: &str) -> (id: String)
    ensures
        id@ == anchor_of(text@),
{
    let tokens = to_pinyin(text);
    proof {
        reveal_strlit("-");
        assert("-"@ =~= seq!['-']);
    }
    join_strings(&tokens, "-")
}

} // verus!
