//! From a source file to an article: the split of the text into metadata
//! block and body, the slug out of the file's name, and the errors of a
//! file that cannot be read or decoded.

use vstd::prelude::*;
use crate::post::{FrontMatter, Post};
use crate::text::{chars_of, string_of};

verus! {

/// Length of the delimiter `---`.
pub const DELIMITER_LEN: usize = 3;

/// Whether the delimiter `---` stands at position `at` of `text`.
pub open spec fn delimiter_at(text: Seq<char>, at: int) -> bool {
    &&& 0 <= at
    &&& at + 3 <= text.len()
    &&& text[at] == '-'
    &&& text[at + 1] == '-'
    &&& text[at + 2] == '-'
}

/// The first position from `from` on at which the delimiter stands, or the
/// length of the text where it stands nowhere.
pub open spec fn first_delimiter(text: Seq<char>, from: int) -> int
    decreases text.len() - from,
{
    if from < 0 || from + 3 > text.len() {
        text.len() as int
    } else if delimiter_at(text, from) {
        from
    } else {
        first_delimiter(text, from + 1)
    }
}

/// The metadata block of a source text: what stands between the first and
/// the second delimiter, or behind the first where there is no second. A text
/// without a delimiter has an empty block.
pub open spec fn metadata_of(text: Seq<char>) -> Seq<char> {
    let first = first_delimiter(text, 0);
    if first == text.len() {
        Seq::empty()
    } else {
        text.subrange(first + 3, first_delimiter(text, first + 3))
    }
}

/// The body of a source text: everything behind the second delimiter. A text
/// with fewer than two delimiters has an empty body.
pub open spec fn body_of(text: Seq<char>) -> Seq<char> {
    let first = first_delimiter(text, 0);
    if first == text.len() {
        Seq::empty()
    } else {
        let second = first_delimiter(text, first + 3);
        if second == text.len() {
            Seq::empty()
        } else {
            text.subrange(second + 3, text.len() as int)
        }
    }
}

/// The position of the last `.` among the first `end` characters of `name`,
/// or -1 where there is none.
pub open spec fn last_dot(name: Seq<char>, end: int) -> int
    decreases end,
{
    if end <= 0 {
        -1
    } else if name[end - 1] == '.' {
        end - 1
    } else {
        last_dot(name, end - 1)
    }
}

/// The stem of a file name: the name up to its last `.`; the whole name
/// where it holds no `.` or only one at its very start.
pub open spec fn stem_of(name: Seq<char>) -> Seq<char> {
    let dot = last_dot(name, name.len() as int);
    if dot <= 0 {
        name
    } else {
        name.subrange(0, dot)
    }
}

/// The extension of a file name: what stands behind its last `.`; none where
/// the name holds no `.` or only one at its very start.
pub open spec fn extension_of(name: Seq<char>) -> Option<Seq<char>> {
    let dot = last_dot(name, name.len() as int);
    if dot <= 0 {
        None
    } else {
        Some(name.subrange(dot + 1, name.len() as int))
    }
}

/// Whether a file of this name holds an article: its extension is `md`.
pub open spec fn is_article_name(name: Seq<char>) -> bool {
    extension_of(name) == Some(seq!['m', 'd'])
}

/// The delimiter stands nowhere between `from` and the first place found.
pub proof fn lemma_first_delimiter(text: Seq<char>, from: int)
    requires
        0 <= from,
    ensures
        from <= first_delimiter(text, from) || first_delimiter(text, from) == text.len(),
        first_delimiter(text, from) <= text.len(),
        first_delimiter(text, from) < text.len() ==> delimiter_at(
            text,
            first_delimiter(text, from),
        ),
        forall|k: int| from <= k < first_delimiter(text, from) ==> !delimiter_at(text, k),
    decreases text.len() - from,
{
    if from + 3 > text.len() {
    } else if delimiter_at(text, from) {
    } else {
        lemma_first_delimiter(text, from + 1);
    }
}

/// Finds the first delimiter from `from` on.
fn find_delimiter(chars: &Vec<char>, from: usize) -> (at: usize)
    requires
        from <= chars.len(),
    ensures
        at == first_delimiter(chars@, from as int),
        from <= at <= chars.len(),
        at < chars.len() ==> at + 3 <= chars.len(),
{
    let mut i: usize = from;
    while i < chars.len() && chars.len() - i >= DELIMITER_LEN
        invariant
            from <= i <= chars.len(),
            first_delimiter(chars@, from as int) == first_delimiter(chars@, i as int),
        decreases chars.len() - i,
    {
        if chars[i] == '-' && chars[i + 1] == '-' && chars[i + 2] == '-' {
            return i;
        }
        i += 1;
    }
    chars.len()
}

/// Splits a source text into its metadata block and its body.
pub fn split_front_matter(content: &str) -> (parts: (String, String))
    ensures
        parts.0@ == metadata_of(content@),
        parts.1@ == body_of(content@),
{
    let chars = chars_of(content);
    let len = chars.len();
    let first = find_delimiter(&chars, 0);
    if first == len {
        return (String::new(), String::new());
    }
    let second = find_delimiter(&chars, first + DELIMITER_LEN);
    let metadata = string_of(&chars, first + DELIMITER_LEN, second);
    if second == len {
        return (metadata, String::new());
    }
    let body = string_of(&chars, second + DELIMITER_LEN, len);
    (metadata, body)
}

/// Finds the last `.` of a name; the length of the name stands for none.
fn find_last_dot(chars: &Vec<char>) -> (at: usize)
    ensures
        at <= chars.len(),
        at < chars.len() ==> last_dot(chars@, chars.len() as int) == at,
        at == chars.len() ==> last_dot(chars@, chars.len() as int) == -1,
{
    let mut end: usize = chars.len();
    while end > 0
        invariant
            end <= chars.len(),
            last_dot(chars@, chars.len() as int) == last_dot(chars@, end as int),
        decreases end,
    {
        if chars[end - 1] == '.' {
            return end - 1;
        }
        end -= 1;
    }
    chars.len()
}

/// The slug of an article: the stem of its file's name.
pub fn file_stem(name: &str) -> (stem: String)
    ensures
        stem@ == stem_of(name@),
{
    let chars = chars_of(name);
    let dot = find_last_dot(&chars);
    if dot == chars.len() || dot == 0 {
        proof {
            assert(chars@.subrange(0, chars.len() as int) == chars@);
        }
        string_of(&chars, 0, chars.len())
    } else {
        string_of(&chars, 0, dot)
    }
}

/// Whether a file of this name is read as an article.
pub fn is_article_file(name: &str) -> (is_article: bool)
    ensures
        is_article == is_article_name(name@),
{
    let chars = chars_of(name);
    let dot = find_last_dot(&chars);
    if dot == chars.len() || dot == 0 {
        false
    } else {
        let found = chars.len() - dot == 3 && chars[dot + 1] == 'm' && chars[dot + 2] == 'd';
        proof {
            let ext = chars@.subrange(dot + 1, chars.len() as int);
            if found {
                assert(ext =~= seq!['m', 'd']);
            } else if ext == seq!['m', 'd'] {
                assert(ext.len() == 2);
                assert(ext[0] == 'm' && ext[1] == 'd');
            }
        }
        found
    }
}

/// Why a source file gave no article.
#[derive(Debug)]
pub enum ParseError {
    /// The file or the directory could not be read.
    Io { path: String, message: String },
    /// The metadata block is malformed or lacks a required field.
    Metadata { path: String, message: String },
}

/// A [`ParseError`] as plain mathematical data.
pub enum ParseErrorView {
    Io { path: Seq<char>, message: Seq<char> },
    Metadata { path: Seq<char>, message: Seq<char> },
}

impl View for ParseError {
    type V = ParseErrorView;

    open spec fn view(&self) -> ParseErrorView {
        match self {
            ParseError::Io { path, message } => ParseErrorView::Io {
                path: path@,
                message: message@,
            },
            ParseError::Metadata { path, message } => ParseErrorView::Metadata {
                path: path@,
                message: message@,
            },
        }
    }
}

impl Clone for ParseError {
    fn clone(&self) -> (copy: ParseError)
        ensures
            copy@ == self@,
    {
        match self {
            ParseError::Io { path, message } => ParseError::Io {
                path: path.clone(),
                message: message.clone(),
            },
            ParseError::Metadata { path, message } => ParseError::Metadata {
                path: path.clone(),
                message: message.clone(),
            },
        }
    }
}

impl ParseError {
    /// The path of the file that failed.
    pub open spec fn path_text(self) -> Seq<char> {
        match self {
            ParseError::Io { path, .. } => path@,
            ParseError::Metadata { path, .. } => path@,
        }
    }

    /// The error as text: what failed, on which file, and why.
    pub open spec fn description(self) -> Seq<char> {
        match self {
            ParseError::Io { path, message } => "cannot read "@ + path@ + ": "@ + message@,
            ParseError::Metadata { path, message } => "cannot decode the metadata of "@ + path@
                + ": "@ + message@,
        }
    }

    /// The error as text.
    pub fn describe(&self) -> (text: String)
        ensures
            text@ == self.description(),
    {
        match self {
            ParseError::Io { path, message } => {
                let mut text = "cannot read ".to_owned();
                text.append(path.as_str());
                text.append(": ");
                text.append(message.as_str());
                text
            },
            ParseError::Metadata { path, message } => {
                let mut text = "cannot decode the metadata of ".to_owned();
                text.append(path.as_str());
                text.append(": ");
                text.append(message.as_str());
                text
            },
        }
    }
}

/// The article that a source file gives, as plain data: the decoded metadata
/// with the body and the stem of the file's name, or the decode error with
/// the file's path.
pub open spec fn parsed_post(
    path: Seq<char>,
    name: Seq<char>,
    decoded: Result<FrontMatter, String>,
    body: Seq<char>,
) -> Result<crate::post::PostView, ParseErrorView> {
    match decoded {
        Ok(front_matter) => Ok(
            crate::post::PostView { front_matter: front_matter@, content: body, url: stem_of(name) },
        ),
        Err(message) => Err(ParseErrorView::Metadata { path, message: message@ }),
    }
}

/// Builds the article of the file at `path`, whose name is `name`, from its
/// decoded metadata and its body. A decode failure becomes a metadata error
/// that names the file.
pub fn build_post(path: &str, name: &str, decoded: Result<FrontMatter, String>, body: String) -> (post:
    Result<Post, ParseError>)
    ensures
        match post {
            Ok(p) => parsed_post(path@, name@, decoded, body@) == Ok::<
                crate::post::PostView,
                ParseErrorView,
            >(p@),
            Err(e) => parsed_post(path@, name@, decoded, body@) == Err::<
                crate::post::PostView,
                ParseErrorView,
            >(e@),
        },
{
    match decoded {
        Ok(front_matter) => Ok(Post { front_matter, content: body, url: file_stem(name) }),
        Err(message) => Err(ParseError::Metadata { path: path.to_owned(), message }),
    }
}

} // verus!
