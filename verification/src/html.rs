//! HTML helpers: escaping, and plain text out of markup.

use vstd::prelude::*;
use scraper::Html;
use crate::error::AppError;
use crate::text::{joined, join_strings, strings_view};

verus! {

/// What stands for `c` in escaped text.
pub open spec fn escaped_char(c: char) -> Seq<char> {
    if c == '<' {
        "&lt;"@
    } else if c == '>' {
        "&gt;"@
    } else if c == '&' {
        "&amp;"@
    } else if c == '"' {
        "&quot;"@
    } else if c == '/' {
        "&#x2F;"@
    } else if c == '\'' {
        "&#x27;"@
    } else {
        seq![c]
    }
}

/// `text` with each of `<`, `>`, `&`, `"`, `/` and `'` replaced by its entity.
pub open spec fn escaped(text: Seq<char>) -> Seq<char>
    decreases text.len(),
{
    if text.len() == 0 {
        Seq::empty()
    } else {
        escaped(text.drop_last()) + escaped_char(text.last())
    }
}

/// Escapes the characters that could open or close markup.
pub fn escape_html(html: &str) -> (result: String)
    ensures
        result@ == escaped(html@),
{
    let mut result = String::new();
    for c in it: html.chars()
        invariant
            it.seq() == html@,
            result@ == escaped(html@.take(it.index() as int)),
    {
        proof {
            let next = html@.take(it.index() + 1);
            assert(next.drop_last() == html@.take(it.index() as int));
            assert(next.last() == c);
        }
        if c == '<' {
            result.append("&lt;");
        } else if c == '>' {
            result.append("&gt;");
        } else if c == '&' {
            result.append("&amp;");
        } else if c == '"' {
            result.append("&quot;");
        } else if c == '/' {
            result.append("&#x2F;");
        } else if c == '\'' {
            result.append("&#x27;");
        } else {
            let ghost before = result@;
            result.push(c);
            assert(result@ =~= before + seq![c]);
        }
    }
    proof {
        assert(html@.take(html@.len() as int) == html@);
    }
    result
}

/// The text nodes of the document that the HTML parser builds from `html`,
/// each once, in the order in which a walk of the tree from its root, every
/// node before its children and the children from first to last, comes upon
/// them.
pub uninterp spec fn text_nodes(html: Seq<char>) -> Seq<Seq<char>>;

/// `Html::parse_document` of `scraper`, then `descendants` of the root of the
/// tree that was built; of every node that is a text node, the text.
#[verifier::external_body]
fn document_texts(html: &str) -> (texts: Vec<String>)
    ensures
        strings_view(texts@) == text_nodes(html@),
{
    Html::parse_document(html).tree.root().descendants().filter_map(
        |node| node.value().as_text().map(|text| text.to_string()),
    ).collect()
}

/// The plain text made of text nodes: the nodes written one after another
/// with nothing between them.
pub open spec fn plain_text(nodes: Seq<Seq<char>>) -> Seq<char> {
    joined(nodes, Seq::empty())
}

/// The plain text of `html`: the text of the document with all markup taken
/// away, every piece of text once.
pub open spec fn stripped(html: Seq<char>) -> Seq<char> {
    plain_text(text_nodes(html))
}

/// Writes the text nodes of a document one after another.
pub fn join_nodes(nodes: &Vec<String>) -> (plain: String)
    ensures
        plain@ == plain_text(strings_view(nodes@)),
{
    proof {
        reveal_strlit("");
        assert(""@ =~= Seq::<char>::empty());
    }
    join_strings(nodes, "")
}

/// Strips the markup from `html`: what is left is the text of the document,
/// every text node once and in document order. Stripping never fails.
pub fn strip_html_tags(html: &str) -> (text: Result<String, AppError>)
    ensures
        text matches Ok(plain) && plain@ == stripped(html@),
{
    let nodes = document_texts(html);
    Ok(join_nodes(&nodes))
}

} // verus!
