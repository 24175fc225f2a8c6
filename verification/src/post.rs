//! Articles and their metadata.

use vstd::prelude::*;
use crate::date_format::Timestamp;
use crate::html::{strip_html_tags, stripped};
use crate::markdown::{
    markdown_events, outline_entry, outline_view, plain_html, render_html, render_outline,
    render_plain_html, rewritten, toc_headings, written_html,
};
use crate::summary::{summarize, summary_of};
use crate::text::{chars_of, clone_strings, strings_view};

verus! {

/// The metadata block at the head of an article.
#[derive(Debug)]
pub struct FrontMatter {
    /// Title of the article.
    pub title: String,
    /// When the article was published.
    pub date: Timestamp,
    /// A draft is kept out of every view.
    pub draft: bool,
    /// Categories the article is filed under, if any were given.
    pub categories: Option<Vec<String>>,
    /// Tags attached to the article, if any were given.
    pub tags: Option<Vec<String>>,
}

/// A [`FrontMatter`] as plain mathematical data.
pub struct FrontMatterView {
    pub title: Seq<char>,
    pub date: Timestamp,
    pub draft: bool,
    pub categories: Option<Seq<Seq<char>>>,
    pub tags: Option<Seq<Seq<char>>>,
}

/// One article: metadata, markdown body and the slug it is served under.
#[derive(Debug)]
pub struct Post {
    /// The decoded metadata block.
    pub front_matter: FrontMatter,
    /// The markdown body.
    pub content: String,
    /// The slug: the source file's name without its extension.
    pub url: String,
}

/// A [`Post`] as plain mathematical data.
pub struct PostView {
    pub front_matter: FrontMatterView,
    pub content: Seq<char>,
    pub url: Seq<char>,
}

/// The view of an optional list of labels.
pub open spec fn labels_view(labels: Option<Vec<String>>) -> Option<Seq<Seq<char>>> {
    match labels {
        Some(list) => Some(strings_view(list@)),
        None => None,
    }
}

/// The views of a sequence of posts.
pub open spec fn posts_view(posts: Seq<Post>) -> Seq<PostView> {
    posts.map_values(|p: Post| p@)
}

/// The view of a list with one more post is the view with one more entry.
pub proof fn lemma_posts_view_push(posts: Seq<Post>, last: Post)
    ensures
        posts_view(posts.push(last)) == posts_view(posts).push(last@),
{
    assert(posts_view(posts.push(last)) =~= posts_view(posts).push(last@));
}

impl View for FrontMatter {
    type V = FrontMatterView;

    open spec fn view(&self) -> FrontMatterView {
        FrontMatterView {
            title: self.title@,
            date: self.date,
            draft: self.draft,
            categories: labels_view(self.categories),
            tags: labels_view(self.tags),
        }
    }
}

impl View for Post {
    type V = PostView;

    open spec fn view(&self) -> PostView {
        PostView { front_matter: self.front_matter@, content: self.content@, url: self.url@ }
    }
}

/// Whether `c` is a CJK unified ideograph of the basic block.
pub open spec fn is_chinese(c: char) -> bool {
    '\u{4e00}' <= c <= '\u{9fff}'
}

/// How many of the characters of `text` are Chinese.
pub open spec fn chinese_count(text: Seq<char>) -> nat {
    text.filter(|c: char| is_chinese(c)).len()
}

/// Minutes needed to read `count` characters at `speed` characters a minute:
/// the whole quotient of the count taken modulo 65536, but at least one.
pub open spec fn reading_minutes(count: nat, speed: nat) -> nat {
    let time = (count % 65536) / speed;
    if time == 0 {
        1
    } else {
        time
    }
}

/// The summary of a markdown body cut to `count` characters: the body is
/// rendered, the markup stripped, the plain text collapsed and cut.
pub open spec fn description_of(body: Seq<char>, count: nat) -> Seq<char> {
    summary_of(stripped(plain_html(body)), count)
}

/// The HTML of a markdown body with anchored headings.
pub open spec fn html_of(body: Seq<char>) -> Seq<char> {
    written_html(body, rewritten(markdown_events(body)))
}

/// The outline of a markdown body.
pub open spec fn outline_of_body(body: Seq<char>) -> Seq<(usize, Seq<char>, Seq<char>)> {
    toc_headings(body).map_values(|h: (usize, Seq<char>)| outline_entry(h))
}

/// The draft flag of an article that does not set one.
pub fn default_draft() -> (draft: bool)
    ensures
        !draft,
{
    false
}

/// A copy of an optional list of labels.
pub fn clone_labels(labels: &Option<Vec<String>>) -> (copy: Option<Vec<String>>)
    ensures
        labels_view(copy) == labels_view(*labels),
{
    match labels {
        Some(list) => Some(clone_strings(list)),
        None => None,
    }
}

impl Clone for FrontMatter {
    fn clone(&self) -> (copy: FrontMatter)
        ensures
            copy@ == self@,
    {
        FrontMatter {
            title: self.title.clone(),
            date: self.date,
            draft: self.draft,
            categories: clone_labels(&self.categories),
            tags: clone_labels(&self.tags),
        }
    }
}

impl Clone for Post {
    fn clone(&self) -> (copy: Post)
        ensures
            copy@ == self@,
    {
        Post {
            front_matter: self.front_matter.clone(),
            content: self.content.clone(),
            url: self.url.clone(),
        }
    }
}

/// A copy of a list of posts.
pub fn clone_posts(posts: &Vec<Post>) -> (copy: Vec<Post>)
    ensures
        posts_view(copy@) == posts_view(posts@),
{
    let mut copy: Vec<Post> = Vec::new();
    let mut i: usize = 0;
    while i < posts.len()
        invariant
            i <= posts.len(),
            posts_view(copy@) == posts_view(posts@.take(i as int)),
        decreases posts.len() - i,
    {
        let ghost before = copy@;
        let item = posts[i].clone();
        proof {
            lemma_posts_view_push(before, item);
            lemma_posts_view_push(posts@.take(i as int), posts@[i as int]);
            assert(posts@.take(i + 1) == posts@.take(i as int).push(posts@[i as int]));
        }
        copy.push(item);
        i += 1;
    }
    proof {
        assert(posts@.take(posts.len() as int) == posts@);
    }
    copy
}

impl Post {
    /// Counts the Chinese characters of the body.
    pub fn count_chinese_chars(&self) -> (count: usize)
        ensures
            count == chinese_count(self.content@),
    {
        let chars = chars_of(self.content.as_str());
        let mut count: usize = 0;
        let mut i: usize = 0;
        while i < chars.len()
            invariant
                i <= chars.len(),
                count == chinese_count(chars@.take(i as int)),
                count <= i,
            decreases chars.len() - i,
        {
            proof {
                let keep = |c: char| is_chinese(c);
                assert(chars@.take(i + 1).drop_last() == chars@.take(i as int));
                reveal(Seq::filter);
            }
            let c = chars[i];
            if '\u{4e00}' <= c && c <= '\u{9fff}' {
                count += 1;
            }
            i += 1;
        }
        proof {
            assert(chars@.take(chars.len() as int) == chars@);
        }
        count
    }

    /// A plain-text summary of the body, at most `count` characters long.
    /// Never fails; a failure to strip the markup would give an empty
    /// summary.
    pub fn generate_description(&self, count: usize) -> (summary: String)
        ensures
            summary@ == description_of(self.content@, count as nat),
    {
        let html = render_plain_html(self.content.as_str());
        match strip_html_tags(html.as_str()) {
            Ok(text) => summarize(text.as_str(), count),
            Err(_) => String::new(),
        }
    }

    /// The body as HTML; every heading of depth 2, 3 or 4 carries an anchor
    /// id made of its text.
    pub fn generate_html(&self) -> (html: String)
        ensures
            html@ == html_of(self.content@),
    {
        render_html(self.content.as_str())
    }

    /// The outline of the body: depth, text and anchor id of every heading,
    /// in document order.
    pub fn generate_toc(&self) -> (toc: Vec<(usize, String, String)>)
        ensures
            outline_view(toc@) == outline_of_body(self.content@),
    {
        render_outline(self.content.as_str())
    }

    /// Estimated reading time in minutes at `speed` Chinese characters a
    /// minute, never less than one.
    pub fn read_time(&self, speed: u16) -> (minutes: u16)
        requires
            speed > 0,
        ensures
            minutes == reading_minutes(chinese_count(self.content@), speed as nat),
    {
        let count = self.count_chinese_chars();
        let truncated: u16 = (count % 65536) as u16;
        let time: u16 = truncated / speed;
        if time == 0 {
            1
        } else {
            time
        }
    }
}

} // verus!
