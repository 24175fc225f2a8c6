//! The feed of published articles.

use vstd::prelude::*;
use crate::collection::is_published;
use crate::date_format::{formatted_timestamp, serialize, Timestamp};
use crate::html::{escape_html, escaped};
use crate::post::{description_of, posts_view, Post, PostView};
use crate::site::Site;

verus! {

/// Characters of the description of an article in the feed.
pub const FEED_SUMMARY_LENGTH: usize = 200;

/// One article of the feed.
#[derive(Debug)]
pub struct RssItem {
    pub title: String,
    pub link: String,
    pub pub_date: String,
    pub description: String,
}

/// The feed.
#[derive(Debug)]
pub struct RssFeed {
    pub items: Vec<RssItem>,
    pub last_build_date: String,
    pub site_url: String,
    pub site_title: String,
}

/// An [`RssItem`] as plain mathematical data.
pub struct RssItemView {
    pub title: Seq<char>,
    pub link: Seq<char>,
    pub pub_date: Seq<char>,
    pub description: Seq<char>,
}

/// An [`RssFeed`] as plain mathematical data.
pub struct RssFeedView {
    pub items: Seq<RssItemView>,
    pub last_build_date: Seq<char>,
    pub site_url: Seq<char>,
    pub site_title: Seq<char>,
}

impl View for RssItem {
    type V = RssItemView;

    open spec fn view(&self) -> RssItemView {
        RssItemView {
            title: self.title@,
            link: self.link@,
            pub_date: self.pub_date@,
            description: self.description@,
        }
    }
}

/// The views of a sequence of items.
pub open spec fn items_view(items: Seq<RssItem>) -> Seq<RssItemView> {
    items.map_values(|i: RssItem| i@)
}

impl View for RssFeed {
    type V = RssFeedView;

    open spec fn view(&self) -> RssFeedView {
        RssFeedView {
            items: items_view(self.items@),
            last_build_date: self.last_build_date@,
            site_url: self.site_url@,
            site_title: self.site_title@,
        }
    }
}

/// The address of an article on the site.
pub open spec fn post_link(site_url: Seq<char>, slug: Seq<char>) -> Seq<char> {
    site_url + "/post/"@ + slug + "/"@
}

/// A date as the feed writes it, if it can be written.
pub open spec fn date_text(date: Timestamp) -> Option<Seq<char>> {
    formatted_timestamp(
        date.epoch_seconds as int,
        date.subsec_nanos as int,
        date.offset_seconds as int,
    )
}

/// The feed's item for an article whose date is written `pub_date`.
pub open spec fn item_of(site_url: Seq<char>, post: PostView, pub_date: Seq<char>) -> RssItemView {
    RssItemView {
        title: post.front_matter.title,
        link: post_link(site_url, post.url),
        pub_date,
        description: escaped(description_of(post.content, FEED_SUMMARY_LENGTH as nat)),
    }
}

/// The items for the published articles of `posts`, in order; `None` where
/// the date of one of them cannot be written.
pub open spec fn items_of(site_url: Seq<char>, posts: Seq<PostView>) -> Option<Seq<RssItemView>>
    decreases posts.len(),
{
    if posts.len() == 0 {
        Some(Seq::empty())
    } else {
        match items_of(site_url, posts.drop_last()) {
            None => None,
            Some(front) => if is_published(posts.last()) {
                match date_text(posts.last().front_matter.date) {
                    Some(date) => Some(front.push(item_of(site_url, posts.last(), date))),
                    None => None,
                }
            } else {
                Some(front)
            },
        }
    }
}

/// The feed of a site with the given address and title over `posts`: an item
/// for each published article, dated as a whole by the first article of the
/// collection. There is no feed of an empty collection, nor where a date
/// cannot be written.
pub open spec fn feed_of(site_url: Seq<char>, site_title: Seq<char>, posts: Seq<PostView>) -> Option<
    RssFeedView,
> {
    if posts.len() == 0 {
        None
    } else {
        match (items_of(site_url, posts), date_text(posts[0].front_matter.date)) {
            (Some(items), Some(date)) => Some(
                RssFeedView { items, last_build_date: date, site_url, site_title },
            ),
            _ => None,
        }
    }
}

/// The opening of the feed's document, up to the items.
pub open spec fn feed_head(feed: RssFeedView) -> Seq<char> {
    "<?xml version=\"1.0\" encoding=\"utf-8\" standalone=\"yes\"?>\n<rss version=\"2.0\" xmlns:atom=\"http://www.w3.org/2005/Atom\">\n  <channel>\n    <title>"@
        + feed.site_title + "</title>\n    <link>"@ + feed.site_url
        + "</link>\n    <description>Recent content on P.X.C</description>\n    <generator>P.X.C Blog Engine</generator>\n    <language>zh-cn</language>\n    <lastBuildDate>"@
        + feed.last_build_date + "</lastBuildDate>\n    <atom:link href=\""@ + feed.site_url
        + "/index.xml\" rel=\"self\" type=\"application/rss+xml\" />"@
}

/// One item of the feed's document.
pub open spec fn item_xml(item: RssItemView) -> Seq<char> {
    "    <item>\n      <title>"@ + item.title + "</title>\n      <link>"@ + item.link
        + "</link>\n      <pubDate>"@ + item.pub_date + "</pubDate>\n      <guid>"@ + item.link
        + "</guid>\n      <description>"@ + item.description + "</description>\n    </item>"@
}

/// The items of the feed's document, one written right after the other.
pub open spec fn items_xml(items: Seq<RssItemView>) -> Seq<char>
    decreases items.len(),
{
    if items.len() == 0 {
        Seq::empty()
    } else {
        items_xml(items.drop_last()) + item_xml(items.last())
    }
}

/// The feed's document.
pub open spec fn feed_xml(feed: RssFeedView) -> Seq<char> {
    feed_head(feed) + "\n"@ + items_xml(feed.items) + "\n  </channel>\n</rss>"@
}

/// Builds the feed of a site.
pub struct RssService {
    pub site: Site,
}

impl RssService {
    pub fn new(site: Site) -> (service: RssService)
        ensures
            service.site == site,
    {
        RssService { site }
    }

    /// The address of the article with the given slug.
    pub fn link_to(&self, slug: &str) -> (link: String)
        ensures
            link@ == post_link(self.site.url@, slug@),
    {
        let mut link = self.site.url.clone();
        link.append("/post/");
        link.append(slug);
        link.append("/");
        link
    }

    /// The feed over `posts`, or `None` where the collection is empty or a
    /// date cannot be written.
    pub fn generate_feed(&self, posts: &Vec<Post>) -> (feed: Option<RssFeed>)
        ensures
            match feed {
                Some(f) => feed_of(self.site.url@, self.site.title@, posts_view(posts@)) == Some(
                    f@,
                ),
                None => feed_of(self.site.url@, self.site.title@, posts_view(posts@)) is None,
            },
    {
        if posts.len() == 0 {
            return None;
        }
        let ghost all = posts_view(posts@);
        let ghost site_url = self.site.url@;
        let mut items: Vec<RssItem> = Vec::new();
        let mut i: usize = 0;
        while i < posts.len()
            invariant
                i <= posts.len(),
                all == posts_view(posts@),
                site_url == self.site.url@,
                items_of(site_url, all.take(i as int)) == Some(items_view(items@)),
            decreases posts.len() - i,
        {
            proof {
                assert(all.take(i + 1).drop_last() == all.take(i as int));
                assert(all.take(i + 1).last() == posts@[i as int]@);
            }
            let post = &posts[i];
            if !post.front_matter.draft {
                match serialize(&post.front_matter.date) {
                    Some(pub_date) => {
                        let summary = post.generate_description(FEED_SUMMARY_LENGTH);
                        let item = RssItem {
                            title: post.front_matter.title.clone(),
                            link: self.link_to(post.url.as_str()),
                            pub_date,
                            description: escape_html(summary.as_str()),
                        };
                        let ghost before = items@;
                        proof {
                            assert(items_view(before.push(item)) =~= items_view(before).push(item@));
                        }
                        items.push(item);
                    },
                    None => {
                        proof {
                            lemma_items_stay_unwritten(site_url, all, i + 1);
                        }
                        return None;
                    },
                }
            }
            i += 1;
        }
        proof {
            assert(all.take(posts.len() as int) == all);
        }
        match serialize(&posts[0].front_matter.date) {
            Some(last_build_date) => Some(
                RssFeed {
                    items,
                    last_build_date,
                    site_url: self.site.url.clone(),
                    site_title: self.site.title.clone(),
                },
            ),
            None => None,
        }
    }

    /// Writes the feed as a document.
    pub fn generate_feed_xml(feed: &RssFeed) -> (xml: String)
        ensures
            xml@ == feed_xml(feed@),
    {
        let mut xml = String::new();
        xml.append(
            "<?xml version=\"1.0\" encoding=\"utf-8\" standalone=\"yes\"?>\n<rss version=\"2.0\" xmlns:atom=\"http://www.w3.org/2005/Atom\">\n  <channel>\n    <title>",
        );
        xml.append(feed.site_title.as_str());
        xml.append("</title>\n    <link>");
        xml.append(feed.site_url.as_str());
        xml.append(
            "</link>\n    <description>Recent content on P.X.C</description>\n    <generator>P.X.C Blog Engine</generator>\n    <language>zh-cn</language>\n    <lastBuildDate>",
        );
        xml.append(feed.last_build_date.as_str());
        xml.append("</lastBuildDate>\n    <atom:link href=\"");
        xml.append(feed.site_url.as_str());
        xml.append("/index.xml\" rel=\"self\" type=\"application/rss+xml\" />");
        xml.append("\n");
        let ghost head = xml@;
        assert(head =~= feed_head(feed@) + "\n"@);
        let ghost all = items_view(feed.items@);
        let mut i: usize = 0;
        while i < feed.items.len()
            invariant
                i <= feed.items.len(),
                all == items_view(feed.items@),
                xml@ == head + items_xml(all.take(i as int)),
            decreases feed.items.len() - i,
        {
            proof {
                assert(all.take(i + 1).drop_last() == all.take(i as int));
                assert(all.take(i + 1).last() == feed.items@[i as int]@);
            }
            let item = &feed.items[i];
            let ghost before = xml@;
            xml.append("    <item>\n      <title>");
            xml.append(item.title.as_str());
            xml.append("</title>\n      <link>");
            xml.append(item.link.as_str());
            xml.append("</link>\n      <pubDate>");
            xml.append(item.pub_date.as_str());
            xml.append("</pubDate>\n      <guid>");
            xml.append(item.link.as_str());
            xml.append("</guid>\n      <description>");
            xml.append(item.description.as_str());
            xml.append("</description>\n    </item>");
            proof {
                assert(xml@ =~= before + item_xml(item@));
                assert(xml@ =~= head + items_xml(all.take(i + 1)));
            }
            i += 1;
        }
        proof {
            assert(all.take(feed.items.len() as int) == all);
        }
        xml.append("\n  </channel>\n</rss>");
        proof {
            assert(xml@ =~= feed_xml(feed@));
        }
        xml
    }
}

/// Where the items of the first `upto` articles cannot be written, those of
/// all cannot be.
pub proof fn lemma_items_stay_unwritten(site_url: Seq<char>, posts: Seq<PostView>, upto: int)
    requires
        0 <= upto <= posts.len(),
        items_of(site_url, posts.take(upto)) is None,
    ensures
        items_of(site_url, posts) is None,
    decreases posts.len() - upto,
{
    if upto < posts.len() {
        assert(posts.take(upto + 1).drop_last() == posts.take(upto));
        lemma_items_stay_unwritten(site_url, posts, upto + 1);
    } else {
        assert(posts.take(upto) == posts);
    }
}

} // verus!
