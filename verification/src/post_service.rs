//! The content cache and the views computed from it: the list of summaries,
//! a single article with its neighbours, and the paged archive.

use vstd::prelude::*;
use crate::archive::{archives_view, group_by_year, grouped, Archive};
use crate::collection::{
    is_newest_first, newest_first, published, published_posts, sort_newest_first,
};
use crate::error::AppError;
use crate::markdown::outline_view;
use crate::page::{clamped_bounds, clamped_window, page_count, window, window_bounds, Page};
use crate::parser::{ParseError, ParseErrorView};
use crate::post::{
    chinese_count, clone_posts, description_of, html_of, lemma_posts_view_push, outline_of_body,
    posts_view, reading_minutes, FrontMatter, FrontMatterView, Post, PostView,
};
use crate::text::{joined, join_strings};

verus! {

/// Chinese characters read in a minute.
pub const READ_SPEED: u16 = 200;

/// Summaries shown on a page of the list of articles.
pub const INDEX_PAGE_SIZE: usize = 10;

/// Characters of the summary shown in the list of articles.
pub const INDEX_SUMMARY_LENGTH: usize = 200;

/// Characters of the summary shown with a single article.
pub const POST_SUMMARY_LENGTH: usize = 100;

/// An article as it is shown in the list of articles.
#[derive(Debug)]
pub struct PostSummary {
    pub front_matter: FrontMatter,
    /// The markdown body.
    pub content: String,
    pub url: String,
    /// A plain-text summary of the body.
    pub summary: String,
    /// Number of Chinese characters of the body.
    pub count: usize,
    /// Estimated reading time in minutes.
    pub read_time: u16,
}

/// A [`PostSummary`] as plain mathematical data.
pub struct PostSummaryView {
    pub front_matter: FrontMatterView,
    pub content: Seq<char>,
    pub url: Seq<char>,
    pub summary: Seq<char>,
    pub count: nat,
    pub read_time: nat,
}

impl View for PostSummary {
    type V = PostSummaryView;

    open spec fn view(&self) -> PostSummaryView {
        PostSummaryView {
            front_matter: self.front_matter@,
            content: self.content@,
            url: self.url@,
            summary: self.summary@,
            count: self.count as nat,
            read_time: self.read_time as nat,
        }
    }
}

/// An article as it is shown on its own page.
#[derive(Debug)]
pub struct SinglePost {
    pub front_matter: FrontMatter,
    /// The body rendered to HTML.
    pub content: String,
    /// A plain-text summary of the body.
    pub summary: String,
    pub url: String,
    /// Number of Chinese characters of the body.
    pub count: usize,
    /// Estimated reading time in minutes.
    pub read_time: u16,
    /// The outline: depth, text and anchor id of every heading.
    pub toc: Vec<(usize, String, String)>,
    /// The published article that stands just before this one.
    pub prev: Option<Post>,
    /// The published article that stands just behind this one.
    pub next: Option<Post>,
}

/// A [`SinglePost`] as plain mathematical data.
pub struct SinglePostView {
    pub front_matter: FrontMatterView,
    pub content: Seq<char>,
    pub summary: Seq<char>,
    pub url: Seq<char>,
    pub count: nat,
    pub read_time: nat,
    pub toc: Seq<(usize, Seq<char>, Seq<char>)>,
    pub prev: Option<PostView>,
    pub next: Option<PostView>,
}

/// The view of an optional post.
pub open spec fn neighbour_view(post: Option<Post>) -> Option<PostView> {
    match post {
        Some(p) => Some(p@),
        None => None,
    }
}

impl View for SinglePost {
    type V = SinglePostView;

    open spec fn view(&self) -> SinglePostView {
        SinglePostView {
            front_matter: self.front_matter@,
            content: self.content@,
            summary: self.summary@,
            url: self.url@,
            count: self.count as nat,
            read_time: self.read_time as nat,
            toc: outline_view(self.toc@),
            prev: neighbour_view(self.prev),
            next: neighbour_view(self.next),
        }
    }
}

/// The views of a sequence of summaries.
pub open spec fn summaries_view(summaries: Seq<PostSummary>) -> Seq<PostSummaryView> {
    summaries.map_values(|s: PostSummary| s@)
}

/// The summary of an article for the list.
pub open spec fn summary_of_post(post: PostView) -> PostSummaryView {
    PostSummaryView {
        front_matter: post.front_matter,
        content: post.content,
        url: post.url,
        summary: description_of(post.content, INDEX_SUMMARY_LENGTH as nat),
        count: chinese_count(post.content),
        read_time: reading_minutes(chinese_count(post.content), READ_SPEED as nat),
    }
}

/// The position of the first of `posts` with the slug `url`, or the number
/// of posts where there is none.
pub open spec fn first_with_slug(posts: Seq<PostView>, url: Seq<char>) -> int
    decreases posts.len(),
{
    if posts.len() == 0 {
        0
    } else if posts[0].url == url {
        0
    } else {
        1 + first_with_slug(posts.drop_first(), url)
    }
}

/// The article at position `at` of the published articles `shown`, as it is
/// shown on its own page: with its rendered body, summary, counts, outline
/// and the neighbours at the positions before and behind it.
pub open spec fn single_view(shown: Seq<PostView>, at: int) -> SinglePostView {
    let post = shown[at];
    SinglePostView {
        front_matter: post.front_matter,
        content: html_of(post.content),
        summary: description_of(post.content, POST_SUMMARY_LENGTH as nat),
        url: post.url,
        count: chinese_count(post.content),
        read_time: reading_minutes(chinese_count(post.content), READ_SPEED as nat),
        toc: outline_of_body(post.content),
        prev: if at > 0 {
            Some(shown[at - 1])
        } else {
            None
        },
        next: if at + 1 < shown.len() {
            Some(shown[at + 1])
        } else {
            None
        },
    }
}

/// The first position with a slug lies within the list or is its length; it
/// has the slug, and no position before it has.
pub proof fn lemma_first_with_slug(posts: Seq<PostView>, url: Seq<char>)
    ensures
        0 <= first_with_slug(posts, url) <= posts.len(),
        first_with_slug(posts, url) < posts.len() ==> posts[first_with_slug(posts, url)].url
            == url,
        forall|k: int| 0 <= k < first_with_slug(posts, url) ==> (#[trigger] posts[k]).url != url,
    decreases posts.len(),
{
    if posts.len() > 0 && posts[0].url != url {
        let rest = posts.drop_first();
        lemma_first_with_slug(rest, url);
        let at = first_with_slug(rest, url);
        if at < rest.len() {
            assert(rest[at] == posts[at + 1]);
        }
        assert forall|k: int| 0 <= k < at + 1 implies (#[trigger] posts[k]).url != url by {
            if k > 0 {
                assert(rest[k - 1] == posts[k]);
            }
        }
    }
}

/// The newest published article has nothing before it, and the oldest
/// has nothing behind it.
pub proof fn lemma_ends_have_one_neighbour(shown: Seq<PostView>)
    requires
        shown.len() > 0,
    ensures
        single_view(shown, 0).prev is None,
        single_view(shown, shown.len() - 1).next is None,
        forall|at: int| 0 < at < shown.len() ==> single_view(shown, at).prev == Some(shown[at - 1]),
        forall|at: int|
            0 <= at < shown.len() - 1 ==> single_view(shown, at).next == Some(shown[at + 1]),
{
}

/// No draft is shown with a single article: neither the article itself nor
/// either of its neighbours is one.
pub proof fn lemma_single_view_shows_no_draft(posts: Seq<PostView>, url: Seq<char>)
    requires
        first_with_slug(published(posts), url) < published(posts).len(),
    ensures
        ({
            let view = single_view(published(posts), first_with_slug(published(posts), url));
            &&& !view.front_matter.draft
            &&& view.url == url
            &&& view.prev matches Some(p) ==> !p.front_matter.draft
            &&& view.next matches Some(n) ==> !n.front_matter.draft
        }),
{
    let shown = published(posts);
    lemma_first_with_slug(shown, url);
    crate::collection::lemma_published_holds_no_draft(posts);
    let at = first_with_slug(shown, url);
    assert(crate::collection::is_published(shown[at]));
    if at > 0 {
        assert(crate::collection::is_published(shown[at - 1]));
    }
    if at + 1 < shown.len() {
        assert(crate::collection::is_published(shown[at + 1]));
    }
}

/// No draft is shown on a page of the list: every article of a page of the
/// published articles is published.
pub proof fn lemma_page_shows_no_draft(posts: Seq<PostView>, page: nat, size: nat)
    requires
        page >= 1,
    ensures
        forall|at: int|
            0 <= at < window(published(posts), page, size).len() ==> !(#[trigger] window(
                published(posts),
                page,
                size,
            )[at]).front_matter.draft,
{
    let shown = published(posts);
    crate::collection::lemma_published_holds_no_draft(posts);
    assert forall|at: int| 0 <= at < window(shown, page, size).len() implies !(#[trigger] window(
        shown,
        page,
        size,
    )[at]).front_matter.draft by {
        crate::page::lemma_window_is_part_of_the_list(shown, page, size, at);
        let place = crate::page::window_start(shown.len(), page, size) + at;
        assert(crate::collection::is_published(shown[place]));
    }
}

/// One page of the list of articles.
#[derive(Debug)]
pub struct IndexPage {
    /// The summaries shown on the page.
    pub posts: Vec<PostSummary>,
    /// Paging information.
    pub page: Page,
    /// The words to put before the site's title, on every page but the first.
    pub site_title: Option<String>,
}

/// The page of a single article.
#[derive(Debug)]
pub struct PostPage {
    /// The article.
    pub post: SinglePost,
    /// The article's tags joined by commas, where it has any list of tags.
    pub keywords: Option<String>,
    /// The article's summary.
    pub description: String,
}

/// One page of the archive.
#[derive(Debug)]
pub struct ArchivePage {
    /// The groups shown on the page.
    pub archives: Vec<Archive>,
    /// Paging information.
    pub page: Page,
    /// The words to put before the site's title, on every page but the first.
    pub site_title: Option<String>,
}

/// Which way of reaching the cache was just tried.
#[derive(Debug, Clone, Copy, PartialEq, Eq)]
pub enum Attempt {
    /// A shared read that does not wait.
    FastRead,
    /// An exclusive acquisition that does not wait.
    Write,
    /// A shared read that waits for whoever is populating.
    BlockingRead,
}

/// What the attempt found.
#[derive(Debug, Clone, Copy, PartialEq, Eq)]
pub enum Observed {
    /// The cache could not be reached without waiting.
    Unavailable,
    /// The cache was reached and holds nothing.
    Empty,
    /// The cache was reached and holds a collection.
    Populated,
}

/// What a caller who wants the collection does next.
#[derive(Debug, Clone, Copy, PartialEq, Eq)]
pub enum NextStep {
    /// Hand out a snapshot of the collection that was found.
    ReturnSnapshot,
    /// Try the exclusive acquisition.
    TryWrite,
    /// Scan the sources and store the result through the access that is
    /// held.
    ScanAndStore,
    /// Wait for a shared read.
    WaitForRead,
    /// Scan the sources, then acquire the cache exclusively and store the
    /// result.
    ScanThenStore,
}

/// The rule that a caller follows: a collection that is found is handed out
/// at once; an empty cache is filled by whoever holds it exclusively, and by
/// a reader who waited and still found nothing; a cache that cannot be
/// reached is tried the next way.
pub open spec fn rule(attempt: Attempt, observed: Observed) -> NextStep {
    match (attempt, observed) {
        (_, Observed::Populated) => NextStep::ReturnSnapshot,
        (Attempt::FastRead, _) => NextStep::TryWrite,
        (Attempt::Write, Observed::Empty) => NextStep::ScanAndStore,
        (Attempt::Write, Observed::Unavailable) => NextStep::WaitForRead,
        (Attempt::BlockingRead, Observed::Empty) => NextStep::ScanThenStore,
        (Attempt::BlockingRead, Observed::Unavailable) => NextStep::WaitForRead,
    }
}

/// Whether a step scans the sources.
pub open spec fn scans(step: NextStep) -> bool {
    step is ScanAndStore || step is ScanThenStore
}

/// What to do after an attempt to reach the cache.
pub fn next_step(attempt: Attempt, observed: Observed) -> (step: NextStep)
    ensures
        step == rule(attempt, observed),
{
    match observed {
        Observed::Populated => NextStep::ReturnSnapshot,
        Observed::Empty => match attempt {
            Attempt::FastRead => NextStep::TryWrite,
            Attempt::Write => NextStep::ScanAndStore,
            Attempt::BlockingRead => NextStep::ScanThenStore,
        },
        Observed::Unavailable => match attempt {
            Attempt::FastRead => NextStep::TryWrite,
            Attempt::Write => NextStep::WaitForRead,
            Attempt::BlockingRead => NextStep::WaitForRead,
        },
    }
}

/// A caller who finds a collection never scans, and a caller scans only
/// after it has reached the cache, beyond the first quick look, and found it
/// empty. Once the cache is populated no caller scans again.
pub proof fn lemma_scan_only_when_empty(attempt: Attempt, observed: Observed)
    ensures
        observed is Populated ==> rule(attempt, observed) is ReturnSnapshot,
        scans(rule(attempt, observed)) ==> observed is Empty && !(attempt is FastRead),
        rule(attempt, observed) is ReturnSnapshot ==> observed is Populated,
{
}

/// The first failure among the results of reading the source files, if any.
pub open spec fn first_failure(files: Seq<Result<Post, ParseError>>) -> Option<ParseErrorView>
    decreases files.len(),
{
    if files.len() == 0 {
        None
    } else {
        match first_failure(files.drop_last()) {
            Some(error) => Some(error),
            None => match files.last() {
                Ok(_) => None,
                Err(error) => Some(error@),
            },
        }
    }
}

/// The articles among the results of reading the source files, in order.
pub open spec fn loaded_posts(files: Seq<Result<Post, ParseError>>) -> Seq<PostView>
    decreases files.len(),
{
    if files.len() == 0 {
        Seq::empty()
    } else {
        match files.last() {
            Ok(post) => loaded_posts(files.drop_last()).push(post@),
            Err(_) => loaded_posts(files.drop_last()),
        }
    }
}

/// The outcome of a scan: the first failure where a file failed, else all
/// articles, newest first.
pub open spec fn scan_outcome(files: Seq<Result<Post, ParseError>>) -> Result<
    Seq<PostView>,
    ParseErrorView,
> {
    match first_failure(files) {
        Some(error) => Err(error),
        None => Ok(newest_first(loaded_posts(files))),
    }
}

/// Builds the collection out of the results of reading the source files.
/// All or nothing: the first file that failed fails the whole scan.
pub fn collect_posts(files: Vec<Result<Post, ParseError>>) -> (collection: Result<
    Vec<Post>,
    ParseError,
>)
    ensures
        match collection {
            Ok(posts) => scan_outcome(files@) == Ok::<Seq<PostView>, ParseErrorView>(
                posts_view(posts@),
            ) && is_newest_first(posts_view(posts@)),
            Err(error) => scan_outcome(files@) == Err::<Seq<PostView>, ParseErrorView>(error@),
        },
{
    let mut posts: Vec<Post> = Vec::new();
    let ghost input = files@;
    for file in it: files
        invariant
            it.seq() == input,
            first_failure(input.take(it.index() as int)) is None,
            posts_view(posts@) == loaded_posts(input.take(it.index() as int)),
    {
        proof {
            assert(input.take(it.index() + 1).drop_last() == input.take(it.index() as int));
            assert(input.take(it.index() + 1).last() == file);
        }
        match file {
            Ok(post) => {
                proof {
                    lemma_posts_view_push(posts@, post);
                }
                posts.push(post);
            },
            Err(error) => {
                proof {
                    lemma_first_failure_stays(input, it.index() + 1);
                }
                return Err(error);
            },
        }
    }
    proof {
        assert(input.take(input.len() as int) == input);
    }
    Ok(sort_newest_first(posts))
}

/// A single file that failed fails the whole scan: the outcome is then an
/// error, and it is the error of the first file that failed.
pub proof fn lemma_one_failure_fails_the_scan(files: Seq<Result<Post, ParseError>>, at: int)
    requires
        0 <= at < files.len(),
        files[at] is Err,
    ensures
        scan_outcome(files) is Err,
        (forall|k: int| 0 <= k < at ==> (#[trigger] files[k]) is Ok) ==> scan_outcome(files)
            == Err::<Seq<PostView>, ParseErrorView>(files[at]->Err_0@),
    decreases files.len(),
{
    let shorter = files.drop_last();
    if at < files.len() - 1 {
        assert(shorter[at] == files[at]);
        lemma_one_failure_fails_the_scan(shorter, at);
        if forall|k: int| 0 <= k < at ==> (#[trigger] files[k]) is Ok {
            assert forall|k: int| 0 <= k < at implies (#[trigger] shorter[k]) is Ok by {
                assert(shorter[k] == files[k]);
            }
        }
    } else if forall|k: int| 0 <= k < at ==> (#[trigger] files[k]) is Ok {
        assert forall|k: int| 0 <= k < shorter.len() implies (#[trigger] shorter[k]) is Ok by {
            assert(shorter[k] == files[k]);
        }
        lemma_no_failure(shorter);
    }
}

/// Where every file was read, nothing failed.
pub proof fn lemma_no_failure(files: Seq<Result<Post, ParseError>>)
    requires
        forall|k: int| 0 <= k < files.len() ==> (#[trigger] files[k]) is Ok,
    ensures
        first_failure(files) is None,
        scan_outcome(files) is Ok,
    decreases files.len(),
{
    if files.len() > 0 {
        let shorter = files.drop_last();
        assert forall|k: int| 0 <= k < shorter.len() implies (#[trigger] shorter[k]) is Ok by {
            assert(shorter[k] == files[k]);
        }
        lemma_no_failure(shorter);
        assert(files.last() == files[files.len() - 1]);
    }
}

/// A failure among the first `upto` results is the first failure of all.
pub proof fn lemma_first_failure_stays(files: Seq<Result<Post, ParseError>>, upto: int)
    requires
        0 <= upto <= files.len(),
        first_failure(files.take(upto)) is Some,
    ensures
        first_failure(files) == first_failure(files.take(upto)),
    decreases files.len() - upto,
{
    if upto < files.len() {
        assert(files.take(upto + 1).drop_last() == files.take(upto));
        lemma_first_failure_stays(files, upto + 1);
    } else {
        assert(files.take(upto) == files);
    }
}

/// The content cache with the views computed from it. It holds nothing until
/// it is populated, and what it holds is always ordered newest first.
pub struct PostService {
    cache: Option<Vec<Post>>,
}

impl PostService {
    #[verifier::type_invariant]
    spec fn ordered(self) -> bool {
        match self.cache {
            Some(posts) => is_newest_first(posts_view(posts@)),
            None => true,
        }
    }

    /// The collection that the cache holds, if it is populated.
    pub closed spec fn cached(self) -> Option<Seq<PostView>> {
        match self.cache {
            Some(posts) => Some(posts_view(posts@)),
            None => None,
        }
    }

    /// An empty cache.
    pub fn new() -> (service: PostService)
        ensures
            service.cached() is None,
    {
        PostService { cache: None }
    }

    /// Whether the cache holds a collection.
    pub fn is_populated(&self) -> (populated: bool)
        ensures
            populated == self.cached() is Some,
    {
        self.cache.is_some()
    }

    /// What a caller observes who has reached the cache.
    pub fn observe(&self) -> (observed: Observed)
        ensures
            observed == if self.cached() is Some {
                Observed::Populated
            } else {
                Observed::Empty
            },
    {
        if self.cache.is_some() {
            Observed::Populated
        } else {
            Observed::Empty
        }
    }

    /// A snapshot of the collection, if the cache is populated. The snapshot
    /// is ordered newest first.
    pub fn load_all_posts(&self) -> (snapshot: Option<Vec<Post>>)
        ensures
            match snapshot {
                Some(posts) => self.cached() == Some(posts_view(posts@)) && is_newest_first(
                    posts_view(posts@),
                ),
                None => self.cached() is None,
            },
    {
        proof {
            use_type_invariant(self);
        }
        match &self.cache {
            Some(posts) => Some(clone_posts(posts)),
            None => None,
        }
    }

    /// Replaces what the cache holds by the outcome of a scan. Where a file
    /// failed, the first failure is returned and the cache stays as it was.
    pub fn refresh(&mut self, files: Vec<Result<Post, ParseError>>) -> (outcome: Result<
        (),
        ParseError,
    >)
        ensures
            match outcome {
                Ok(_) => scan_outcome(files@) is Ok && final(self).cached() == Some(
                    scan_outcome(files@)->Ok_0,
                ),
                Err(error) => scan_outcome(files@) == Err::<Seq<PostView>, ParseErrorView>(error@)
                    && final(self).cached() == old(self).cached(),
            },
    {
        match collect_posts(files) {
            Ok(posts) => {
                self.cache = Some(posts);
                Ok(())
            },
            Err(error) => Err(error),
        }
    }

    /// Populates the cache with the outcome of a scan and hands out a
    /// snapshot. Where a file failed, the first failure is returned and the
    /// cache stays as it was.
    pub fn populate(&mut self, files: Vec<Result<Post, ParseError>>) -> (outcome: Result<
        Vec<Post>,
        ParseError,
    >)
        ensures
            match outcome {
                Ok(posts) => scan_outcome(files@) == Ok::<Seq<PostView>, ParseErrorView>(
                    posts_view(posts@),
                ) && final(self).cached() == Some(posts_view(posts@)) && is_newest_first(
                    posts_view(posts@),
                ),
                Err(error) => scan_outcome(files@) == Err::<Seq<PostView>, ParseErrorView>(error@)
                    && final(self).cached() == old(self).cached(),
            },
    {
        match collect_posts(files) {
            Ok(posts) => {
                let snapshot = clone_posts(&posts);
                self.cache = Some(posts);
                Ok(snapshot)
            },
            Err(error) => Err(error),
        }
    }

    /// The summary of an article for the list.
    pub fn summarize(post: &Post) -> (summary: PostSummary)
        ensures
            summary@ == summary_of_post(post@),
    {
        let text = post.generate_description(INDEX_SUMMARY_LENGTH);
        PostSummary {
            front_matter: post.front_matter.clone(),
            content: post.content.clone(),
            url: post.url.clone(),
            summary: text,
            count: post.count_chinese_chars(),
            read_time: post.read_time(READ_SPEED),
        }
    }

    /// The page `page`, counted from 1, of the list of published articles.
    /// A page beyond the last one shows no article.
    pub fn render_index(posts: &Vec<Post>, page: usize) -> (view: IndexPage)
        requires
            page >= 1,
        ensures
            summaries_view(view.posts@) == window(
                published(posts_view(posts@)),
                page as nat,
                INDEX_PAGE_SIZE as nat,
            ).map_values(|p: PostView| summary_of_post(p)),
            view.page.describes(
                page_count(published(posts_view(posts@)).len(), INDEX_PAGE_SIZE as nat),
                page as nat,
            ),
            match view.site_title {
                Some(text) => view.page.title_prefix_text() == Some(text@),
                None => view.page.title_prefix_text() is None,
            },
    {
        let shown = published_posts(posts);
        let (from, to) = window_bounds(shown.len(), page, INDEX_PAGE_SIZE);
        let ghost all = posts_view(shown@);
        let ghost summed = |p: PostView| summary_of_post(p);
        let mut items: Vec<PostSummary> = Vec::new();
        let mut i: usize = from;
        while i < to
            invariant
                from <= i <= to <= shown.len(),
                all == posts_view(shown@),
                summed == |p: PostView| summary_of_post(p),
                summaries_view(items@) == all.subrange(from as int, i as int).map_values(summed),
            decreases to - i,
        {
            let ghost before = items@;
            let item = PostService::summarize(&shown[i]);
            proof {
                assert(summaries_view(before.push(item)) =~= summaries_view(before).push(item@));
                assert(all.subrange(from as int, i + 1).map_values(summed) =~= all.subrange(
                    from as int,
                    i as int,
                ).map_values(summed).push(summary_of_post(all[i as int])));
            }
            items.push(item);
            i += 1;
        }
        let page = Page::for_list(shown.len(), page, INDEX_PAGE_SIZE);
        let site_title = page.title_prefix();
        IndexPage { posts: items, page, site_title }
    }

    /// The published article with the slug `url` as it is shown on its own
    /// page, or `None` where no published article has that slug.
    pub fn get_post(posts: &Vec<Post>, url: &str) -> (found: Option<SinglePost>)
        ensures
            match found {
                Some(post) => ({
                    let shown = published(posts_view(posts@));
                    let at = first_with_slug(shown, url@);
                    at < shown.len() && post@ == single_view(shown, at)
                }),
                None => ({
                    let shown = published(posts_view(posts@));
                    first_with_slug(shown, url@) == shown.len()
                }),
            },
    {
        let shown = published_posts(posts);
        let ghost all = posts_view(shown@);
        let wanted = url.to_owned();
        let mut at: usize = 0;
        proof {
            assert(all.skip(0) == all);
        }
        while at < shown.len() && shown[at].url != wanted
            invariant
                at <= shown.len(),
                all == posts_view(shown@),
                wanted@ == url@,
                first_with_slug(all, url@) == at + first_with_slug(all.skip(at as int), url@),
            decreases shown.len() - at,
        {
            proof {
                let rest = all.skip(at as int);
                assert(rest[0] == shown@[at as int]@);
                assert(rest.drop_first() == all.skip(at + 1));
            }
            at += 1;
        }
        if at == shown.len() {
            return None;
        }
        proof {
            let rest = all.skip(at as int);
            assert(rest[0] == shown@[at as int]@);
        }
        let current = &shown[at];
        let next = if at + 1 < shown.len() {
            Some(shown[at + 1].clone())
        } else {
            None
        };
        let prev = if at > 0 {
            Some(shown[at - 1].clone())
        } else {
            None
        };
        Some(
            SinglePost {
                front_matter: current.front_matter.clone(),
                url: current.url.clone(),
                content: current.generate_html(),
                summary: current.generate_description(POST_SUMMARY_LENGTH),
                count: current.count_chinese_chars(),
                read_time: current.read_time(READ_SPEED),
                toc: current.generate_toc(),
                prev,
                next,
            },
        )
    }

    /// What the page of the article with the slug `url` shows, or the error
    /// that no published article has that slug.
    pub fn render_post(posts: &Vec<Post>, url: &str) -> (view: Result<PostPage, AppError>)
        ensures
            match view {
                Ok(page) => ({
                    let shown = published(posts_view(posts@));
                    let at = first_with_slug(shown, url@);
                    &&& at < shown.len()
                    &&& page.post@ == single_view(shown, at)
                    &&& page.description@ == single_view(shown, at).summary
                    &&& match page.keywords {
                        Some(words) => shown[at].front_matter.tags matches Some(tags) && words@
                            == joined(tags, seq![',']),
                        None => shown[at].front_matter.tags is None,
                    }
                }),
                Err(error) => ({
                    let shown = published(posts_view(posts@));
                    &&& first_with_slug(shown, url@) == shown.len()
                    &&& error matches AppError::NotFound(slug)
                    &&& slug@ == url@
                }),
            },
    {
        match PostService::get_post(posts, url) {
            Some(post) => {
                let keywords = match &post.front_matter.tags {
                    Some(tags) => {
                        proof {
                            reveal_strlit(",");
                            assert(","@ =~= seq![',']);
                        }
                        Some(join_strings(tags, ","))
                    },
                    None => None,
                };
                let description = post.summary.clone();
                Ok(PostPage { post, keywords, description })
            },
            None => Err(AppError::NotFound(url.to_owned())),
        }
    }

    /// The groups of the page `page` of the archive at `per_page` articles a
    /// page, together with the number of all published articles. A page
    /// number beyond the last page shows the last page.
    pub fn get_paginated_archives(posts: &Vec<Post>, page: usize, per_page: usize) -> (result: (
        Vec<Archive>,
        usize,
    ))
        ensures
            result.1 == published(posts_view(posts@)).len(),
            archives_view(result.0@) == grouped(
                clamped_window(published(posts_view(posts@)), page as nat, per_page as nat),
            ),
    {
        let shown_posts = published_posts(posts);
        let len = shown_posts.len();
        let (from, to) = clamped_bounds(len, page, per_page);
        let archives = group_by_year(&shown_posts, from, to);
        proof {
            let all = posts_view(shown_posts@);
            if from == to {
                assert(all.subrange(from as int, to as int) =~= Seq::<PostView>::empty());
            }
        }
        (archives, len)
    }

    /// What the page `page` of the archive shows.
    pub fn render_archives(posts: &Vec<Post>, page: usize, per_page: usize) -> (view: ArchivePage)
        ensures
            view.page == Page::for_list_spec(
                published(posts_view(posts@)).len(),
                page as nat,
                per_page as nat,
            ),
            archives_view(view.archives@) == grouped(
                clamped_window(published(posts_view(posts@)), page as nat, per_page as nat),
            ),
            match view.site_title {
                Some(text) => view.page.title_prefix_text() == Some(text@),
                None => view.page.title_prefix_text() is None,
            },
    {
        let (archives, len) = PostService::get_paginated_archives(posts, page, per_page);
        let page = Page::for_list(len, page, per_page);
        let site_title = page.title_prefix();
        ArchivePage { archives, page, site_title }
    }
}

} // verus!
