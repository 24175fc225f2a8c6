//! The sitemap: the address of the site itself, of every published article,
//! of every tag and of every category.

use vstd::prelude::*;
use crate::collection::{is_published, published};
use crate::date_format::serialize;
use crate::post::{posts_view, Post, PostView};
use crate::rss::{date_text, post_link};
use crate::site::Site;
use crate::taxonomy::{
    all_labels, categories_view, table_of, tags_view, CategoryService, LabelKind, TagService,
};

verus! {

/// One address of the sitemap.
#[derive(Debug)]
pub struct SitemapUrl {
    /// The address.
    pub loc: String,
    /// When what stands at the address last changed.
    pub lastmod: String,
    /// The priority of the address, from 0.0 to 1.0.
    pub priority: String,
}

/// The sitemap.
#[derive(Debug)]
pub struct Sitemap {
    /// All addresses.
    pub urls: Vec<SitemapUrl>,
}

/// A [`SitemapUrl`] as plain mathematical data.
pub struct SitemapUrlView {
    pub loc: Seq<char>,
    pub lastmod: Seq<char>,
    pub priority: Seq<char>,
}

impl View for SitemapUrl {
    type V = SitemapUrlView;

    open spec fn view(&self) -> SitemapUrlView {
        SitemapUrlView { loc: self.loc@, lastmod: self.lastmod@, priority: self.priority@ }
    }
}

/// The views of a sequence of addresses.
pub open spec fn urls_view(urls: Seq<SitemapUrl>) -> Seq<SitemapUrlView> {
    urls.map_values(|u: SitemapUrl| u@)
}

/// The address of the page of a tag or a category: the site's address, the
/// section and the name between slashes.
pub open spec fn section_link(site_url: Seq<char>, section: Seq<char>, name: Seq<char>) -> Seq<
    char,
> {
    site_url + section + name + "/"@
}

/// The addresses of the published articles of `posts`, in order; `None`
/// where the date of one of them cannot be written.
pub open spec fn post_urls(site_url: Seq<char>, priority: Seq<char>, posts: Seq<PostView>) -> Option<
    Seq<SitemapUrlView>,
>
    decreases posts.len(),
{
    if posts.len() == 0 {
        Some(Seq::empty())
    } else {
        match post_urls(site_url, priority, posts.drop_last()) {
            None => None,
            Some(front) => if is_published(posts.last()) {
                match date_text(posts.last().front_matter.date) {
                    Some(date) => Some(
                        front.push(
                            SitemapUrlView {
                                loc: post_link(site_url, posts.last().url),
                                lastmod: date,
                                priority,
                            },
                        ),
                    ),
                    None => None,
                }
            } else {
                Some(front)
            },
        }
    }
}

/// The addresses of the pages of the names of a frequency table, in the
/// order of the table, all changed at `now`.
pub open spec fn section_urls(
    site_url: Seq<char>,
    priority: Seq<char>,
    section: Seq<char>,
    table: Seq<(Seq<char>, nat)>,
    now: Seq<char>,
) -> Seq<SitemapUrlView> {
    table.map_values(
        |entry: (Seq<char>, nat)|
            SitemapUrlView { loc: section_link(site_url, section, entry.0), lastmod: now, priority },
    )
}

/// The addresses of the sitemap written at `now`: the site itself, the
/// published articles, the tags, the categories. `None` where the date of an
/// article cannot be written.
pub open spec fn sitemap_of(
    site_url: Seq<char>,
    priority: Seq<char>,
    posts: Seq<PostView>,
    now: Seq<char>,
) -> Option<Seq<SitemapUrlView>> {
    match post_urls(site_url, priority, posts) {
        None => None,
        Some(articles) => Some(
            seq![SitemapUrlView { loc: site_url, lastmod: now, priority }] + articles
                + section_urls(
                site_url,
                priority,
                "/tags/"@,
                table_of(all_labels(published(posts), LabelKind::Tag)),
                now,
            ) + section_urls(
                site_url,
                priority,
                "/categories/"@,
                table_of(all_labels(published(posts), LabelKind::Category)),
                now,
            ),
        ),
    }
}

/// One address of the sitemap's document.
pub open spec fn url_xml(url: SitemapUrlView) -> Seq<char> {
    "<url><loc>"@ + url.loc + "</loc><lastmod>"@ + url.lastmod + "</lastmod><priority>"@
        + url.priority + "</priority></url>"@
}

/// The addresses of the sitemap's document, one written right after the other.
pub open spec fn urls_xml(urls: Seq<SitemapUrlView>) -> Seq<char>
    decreases urls.len(),
{
    if urls.len() == 0 {
        Seq::empty()
    } else {
        urls_xml(urls.drop_last()) + url_xml(urls.last())
    }
}

/// The sitemap's document.
pub open spec fn sitemap_xml(urls: Seq<SitemapUrlView>) -> Seq<char> {
    "<?xml version=\"1.0\" encoding=\"UTF-8\"?>"@
        + "<urlset xmlns=\"http://www.sitemaps.org/schemas/sitemap/0.9\">"@ + urls_xml(urls)
        + "</urlset>"@
}

/// Where the addresses of the first `upto` articles cannot be written, those
/// of all cannot be.
pub proof fn lemma_urls_stay_unwritten(
    site_url: Seq<char>,
    priority: Seq<char>,
    posts: Seq<PostView>,
    upto: int,
)
    requires
        0 <= upto <= posts.len(),
        post_urls(site_url, priority, posts.take(upto)) is None,
    ensures
        post_urls(site_url, priority, posts) is None,
    decreases posts.len() - upto,
{
    if upto < posts.len() {
        assert(posts.take(upto + 1).drop_last() == posts.take(upto));
        lemma_urls_stay_unwritten(site_url, priority, posts, upto + 1);
    } else {
        assert(posts.take(upto) == posts);
    }
}

/// Builds the sitemap of a site.
pub struct SitemapService {
    pub site: Site,
}

impl SitemapService {
    pub fn new(site: Site) -> (service: SitemapService)
        ensures
            service.site == site,
    {
        SitemapService { site }
    }

    /// The address of the page of `name` in `section`.
    fn section_url(&self, section: &str, name: &str, now: &str) -> (url: SitemapUrl)
        ensures
            url@ == (SitemapUrlView {
                loc: section_link(self.site.url@, section@, name@),
                lastmod: now@,
                priority: self.site.priority@,
            }),
    {
        let mut loc = self.site.url.clone();
        loc.append(section);
        loc.append(name);
        loc.append("/");
        SitemapUrl { loc, lastmod: now.to_owned(), priority: self.site.priority.clone() }
    }

    /// The sitemap over `posts`, written at `now`; `None` where the date of
    /// an article cannot be written.
    pub fn generate_sitemap(&self, posts: &Vec<Post>, now: &str) -> (sitemap: Option<Sitemap>)
        ensures
            match sitemap {
                Some(map) => sitemap_of(
                    self.site.url@,
                    self.site.priority@,
                    posts_view(posts@),
                    now@,
                ) == Some(urls_view(map.urls@)),
                None => sitemap_of(self.site.url@, self.site.priority@, posts_view(posts@), now@)
                    is None,
            },
    {
        let ghost all = posts_view(posts@);
        let ghost site_url = self.site.url@;
        let ghost priority = self.site.priority@;
        let mut urls: Vec<SitemapUrl> = Vec::new();
        urls.push(
            SitemapUrl {
                loc: self.site.url.clone(),
                lastmod: now.to_owned(),
                priority: self.site.priority.clone(),
            },
        );
        let ghost home = seq![SitemapUrlView { loc: site_url, lastmod: now@, priority }];
        proof {
            assert(urls_view(urls@) =~= home);
            assert(home + Seq::<SitemapUrlView>::empty() == home);
        }
        let mut i: usize = 0;
        while i < posts.len()
            invariant
                i <= posts.len(),
                all == posts_view(posts@),
                site_url == self.site.url@,
                priority == self.site.priority@,
                post_urls(site_url, priority, all.take(i as int)) is Some,
                urls_view(urls@) == home + post_urls(site_url, priority, all.take(i as int))->0,
            decreases posts.len() - i,
        {
            proof {
                assert(all.take(i + 1).drop_last() == all.take(i as int));
                assert(all.take(i + 1).last() == posts@[i as int]@);
            }
            let post = &posts[i];
            if !post.front_matter.draft {
                match serialize(&post.front_matter.date) {
                    Some(lastmod) => {
                        let mut loc = self.site.url.clone();
                        loc.append("/post/");
                        loc.append(post.url.as_str());
                        loc.append("/");
                        let url = SitemapUrl { loc, lastmod, priority: self.site.priority.clone() };
                        let ghost before = urls@;
                        proof {
                            assert(urls_view(before.push(url)) =~= urls_view(before).push(url@));
                            let front = post_urls(site_url, priority, all.take(i as int))->0;
                            assert((home + front).push(url@) =~= home + front.push(url@));
                        }
                        urls.push(url);
                    },
                    None => {
                        proof {
                            lemma_urls_stay_unwritten(site_url, priority, all, i + 1);
                        }
                        return None;
                    },
                }
            }
            i += 1;
        }
        proof {
            assert(all.take(posts.len() as int) == all);
        }
        let ghost articles = post_urls(site_url, priority, all)->0;
        let tags = TagService::new().get_all_tags(posts);
        let ghost tag_table = tags_view(tags@);
        let ghost tag_urls = section_urls(site_url, priority, "/tags/"@, tag_table, now@);
        let mut t: usize = 0;
        proof {
            assert(tag_urls.take(0) =~= Seq::<SitemapUrlView>::empty());
            assert(home + articles + tag_urls.take(0) =~= home + articles);
        }
        while t < tags.len()
            invariant
                t <= tags.len(),
                site_url == self.site.url@,
                priority == self.site.priority@,
                tag_table == tags_view(tags@),
                tag_urls == section_urls(site_url, priority, "/tags/"@, tag_table, now@),
                urls_view(urls@) == home + articles + tag_urls.take(t as int),
            decreases tags.len() - t,
        {
            let url = self.section_url("/tags/", tags[t].name.as_str(), now);
            let ghost before = urls@;
            proof {
                assert(urls_view(before.push(url)) =~= urls_view(before).push(url@));
                assert(tag_urls[t as int] == url@);
                assert((home + articles + tag_urls.take(t as int)).push(url@) =~= home + articles
                    + tag_urls.take(t + 1));
            }
            urls.push(url);
            t += 1;
        }
        proof {
            assert(tag_urls.take(tags.len() as int) == tag_urls);
        }
        let categories = CategoryService::new().get_all_categories(posts);
        let ghost category_table = categories_view(categories@);
        let ghost category_urls = section_urls(
            site_url,
            priority,
            "/categories/"@,
            category_table,
            now@,
        );
        let mut c: usize = 0;
        proof {
            assert(category_urls.take(0) =~= Seq::<SitemapUrlView>::empty());
            assert(home + articles + tag_urls + category_urls.take(0) =~= home + articles
                + tag_urls);
        }
        while c < categories.len()
            invariant
                c <= categories.len(),
                site_url == self.site.url@,
                priority == self.site.priority@,
                category_table == categories_view(categories@),
                category_urls == section_urls(
                    site_url,
                    priority,
                    "/categories/"@,
                    category_table,
                    now@,
                ),
                urls_view(urls@) == home + articles + tag_urls + category_urls.take(c as int),
            decreases categories.len() - c,
        {
            let url = self.section_url("/categories/", categories[c].name.as_str(), now);
            let ghost before = urls@;
            proof {
                assert(urls_view(before.push(url)) =~= urls_view(before).push(url@));
                assert(category_urls[c as int] == url@);
                assert((home + articles + tag_urls + category_urls.take(c as int)).push(url@)
                    =~= home + articles + tag_urls + category_urls.take(c + 1));
            }
            urls.push(url);
            c += 1;
        }
        proof {
            assert(category_urls.take(categories.len() as int) == category_urls);
        }
        Some(Sitemap { urls })
    }

    /// The sitemap over `posts`, written at `now`, as a document; `None`
    /// where the date of an article cannot be written.
    pub fn generate_sitemap_xml(&self, posts: &Vec<Post>, now: &str) -> (xml: Option<String>)
        ensures
            match xml {
                Some(text) => sitemap_of(
                    self.site.url@,
                    self.site.priority@,
                    posts_view(posts@),
                    now@,
                ) matches Some(urls) && text@ == sitemap_xml(urls),
                None => sitemap_of(self.site.url@, self.site.priority@, posts_view(posts@), now@)
                    is None,
            },
    {
        match self.generate_sitemap(posts, now) {
            Some(sitemap) => Some(SitemapService::render_sitemap_xml(&sitemap)),
            None => None,
        }
    }

    /// Writes a sitemap as a document.
    pub fn render_sitemap_xml(sitemap: &Sitemap) -> (xml: String)
        ensures
            xml@ == sitemap_xml(urls_view(sitemap.urls@)),
    {
        let mut xml = "<?xml version=\"1.0\" encoding=\"UTF-8\"?>".to_owned();
        xml.append("<urlset xmlns=\"http://www.sitemaps.org/schemas/sitemap/0.9\">");
        let ghost head = xml@;
        let ghost all = urls_view(sitemap.urls@);
        let mut i: usize = 0;
        proof {
            assert(head + urls_xml(all.take(0)) =~= head);
        }
        while i < sitemap.urls.len()
            invariant
                i <= sitemap.urls.len(),
                all == urls_view(sitemap.urls@),
                xml@ == head + urls_xml(all.take(i as int)),
            decreases sitemap.urls.len() - i,
        {
            proof {
                assert(all.take(i + 1).drop_last() == all.take(i as int));
                assert(all.take(i + 1).last() == sitemap.urls@[i as int]@);
            }
            let url = &sitemap.urls[i];
            let ghost before = xml@;
            xml.append("<url><loc>");
            xml.append(url.loc.as_str());
            xml.append("</loc><lastmod>");
            xml.append(url.lastmod.as_str());
            xml.append("</lastmod><priority>");
            xml.append(url.priority.as_str());
            xml.append("</priority></url>");
            proof {
                assert(xml@ =~= before + url_xml(url@));
                assert(xml@ =~= head + urls_xml(all.take(i + 1)));
            }
            i += 1;
        }
        proof {
            assert(all.take(sitemap.urls.len() as int) == all);
        }
        xml.append("</urlset>");
        proof {
            assert(xml@ =~= sitemap_xml(all));
        }
        xml
    }
}

} // verus!
