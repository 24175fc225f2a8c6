use blog_engine::date_format::deserialize;
use blog_engine::error::AppError;
use blog_engine::post::{FrontMatter, Post};
use blog_engine::post_service::PostService;
use blog_engine::taxonomy::{
    collect_labels, frequency_table, label_page, labelled_posts, rank, tally, CategoryCount,
    CategoryService, LabelKind, TagCount, TagService,
};

fn strings(items: &[&str]) -> Vec<String> {
    items.iter().map(|s| s.to_string()).collect()
}

fn post(slug: &str, date: &str, draft: bool, categories: Option<&[&str]>, tags: Option<&[&str]>) -> Post {
    Post {
        front_matter: FrontMatter {
            title: format!("Title of {}", slug),
            date: deserialize(date).unwrap(),
            draft,
            categories: categories.map(strings),
            tags: tags.map(strings),
        },
        content: format!("## 第{}\n\nBody of {} 中文", slug, slug),
        url: slug.to_string(),
    }
}

/// `count` published posts named p1, p2, ... from the newest to the oldest.
fn published(count: usize) -> Vec<Post> {
    let mut posts = Vec::new();
    for index in 1..=count {
        let date = format!("2024-01-01T00:00:00+0000");
        let mut item = post(&format!("p{}", index), &date, false, None, None);
        item.front_matter.date.epoch_seconds -= index as i64;
        posts.push(item);
    }
    posts
}

fn slugs(posts: &Vec<Post>) -> Vec<String> {
    posts.iter().map(|p| p.url.clone()).collect()
}

fn names(from: usize, to: usize) -> Vec<String> {
    (from..=to).map(|i| format!("p{}", i)).collect()
}

#[test]
fn index_of_twenty_five_posts() {
    let posts = published(25);
    let first = PostService::render_index(&posts, 1);
    let shown: Vec<String> = first.posts.iter().map(|p| p.url.clone()).collect();
    assert_eq!(shown, names(1, 10));
    assert_eq!(first.page.count, 3);
    assert_eq!(first.page.current, 1);
    assert_eq!(first.page.prev, None);
    assert_eq!(first.page.next, Some(2));
    assert_eq!(first.site_title, None);

    let third = PostService::render_index(&posts, 3);
    let shown: Vec<String> = third.posts.iter().map(|p| p.url.clone()).collect();
    assert_eq!(shown, names(21, 25));
    assert_eq!(third.page.count, 3);
    assert_eq!(third.page.prev, Some(2));
    assert_eq!(third.page.next, None);
    assert_eq!(third.site_title, Some("第3页 - ".to_string()));
}

#[test]
fn index_beyond_the_last_page_shows_nothing() {
    let posts = published(25);
    let view = PostService::render_index(&posts, 4);
    assert!(view.posts.is_empty());
    assert_eq!(view.page.count, 3);
    assert_eq!(view.page.current, 3);
    let view = PostService::render_index(&Vec::new(), 1);
    assert!(view.posts.is_empty());
    assert_eq!(view.page.count, 0);
}

#[test]
fn index_leaves_out_drafts() {
    let mut posts = published(12);
    posts[0].front_matter.draft = true;
    posts[5].front_matter.draft = true;
    let view = PostService::render_index(&posts, 1);
    let shown: Vec<String> = view.posts.iter().map(|p| p.url.clone()).collect();
    assert_eq!(shown, strings(&["p2", "p3", "p4", "p5", "p7", "p8", "p9", "p10", "p11", "p12"]));
    assert_eq!(view.page.count, 1);
}

#[test]
fn summary_of_a_post() {
    let item = post("x", "2024-01-01T00:00:00+0000", false, None, Some(&["t"]));
    let summary = PostService::summarize(&item);
    assert_eq!(summary.url, "x");
    assert_eq!(summary.content, item.content);
    assert_eq!(summary.front_matter.title, "Title of x");
    assert_eq!(summary.front_matter.tags, Some(strings(&["t"])));
    assert_eq!(summary.count, 3);
    assert_eq!(summary.read_time, 1);
    assert_eq!(summary.summary, item.generate_description(200));
}

#[test]
fn single_post_has_its_neighbours() {
    let posts = published(3);
    let middle = PostService::get_post(&posts, "p2").unwrap();
    assert_eq!(middle.url, "p2");
    assert_eq!(middle.prev.as_ref().map(|p| p.url.clone()), Some("p1".to_string()));
    assert_eq!(middle.next.as_ref().map(|p| p.url.clone()), Some("p3".to_string()));
    assert_eq!(middle.content, posts[1].generate_html());
    assert_eq!(middle.summary, posts[1].generate_description(100));
    assert_eq!(middle.toc, posts[1].generate_toc());
    assert_eq!(middle.toc, vec![(2, "第p2".to_string(), "di-p-2".to_string())]);
    assert_eq!(middle.count, 3);
    assert_eq!(middle.read_time, 1);
    assert_eq!(middle.front_matter.title, "Title of p2");
}

#[test]
fn newest_has_no_prev_and_oldest_no_next() {
    let posts = published(3);
    let newest = PostService::get_post(&posts, "p1").unwrap();
    assert!(newest.prev.is_none());
    assert_eq!(newest.next.map(|p| p.url), Some("p2".to_string()));
    let oldest = PostService::get_post(&posts, "p3").unwrap();
    assert_eq!(oldest.prev.map(|p| p.url), Some("p2".to_string()));
    assert!(oldest.next.is_none());
    let only = published(1);
    let single = PostService::get_post(&only, "p1").unwrap();
    assert!(single.prev.is_none() && single.next.is_none());
}

#[test]
fn neighbours_skip_drafts() {
    let mut posts = published(5);
    posts[1].front_matter.draft = true;
    posts[4].front_matter.draft = true;
    let third = PostService::get_post(&posts, "p3").unwrap();
    assert_eq!(third.prev.map(|p| p.url), Some("p1".to_string()));
    assert_eq!(third.next.map(|p| p.url), Some("p4".to_string()));
    let fourth = PostService::get_post(&posts, "p4").unwrap();
    assert!(fourth.next.is_none());
}

#[test]
fn a_draft_is_not_found() {
    let mut posts = published(3);
    posts[1].front_matter.draft = true;
    assert!(PostService::get_post(&posts, "p2").is_none());
    assert!(PostService::get_post(&posts, "missing").is_none());
    assert!(PostService::get_post(&Vec::new(), "p1").is_none());
}

#[test]
fn the_first_of_two_equal_slugs_is_shown() {
    let mut posts = published(3);
    posts[2].url = "p1".to_string();
    let found = PostService::get_post(&posts, "p1").unwrap();
    assert_eq!(found.front_matter.title, "Title of p1");
    assert!(found.prev.is_none());
}

#[test]
fn post_page_or_not_found() {
    let mut posts = published(2);
    posts[0].front_matter.tags = Some(strings(&["rust", "verus"]));
    let page = PostService::render_post(&posts, "p1").unwrap();
    assert_eq!(page.keywords, Some("rust,verus".to_string()));
    assert_eq!(page.description, page.post.summary);
    assert_eq!(page.post.url, "p1");
    let page = PostService::render_post(&posts, "p2").unwrap();
    assert_eq!(page.keywords, None);
    match PostService::render_post(&posts, "nope") {
        Err(AppError::NotFound(slug)) => assert_eq!(slug, "nope"),
        other => panic!("unexpected outcome {:?}", other.map(|p| p.post.url)),
    }
}

#[test]
fn archive_pages() {
    let posts = published(45);
    let (groups, total) = PostService::get_paginated_archives(&posts, 1, 20);
    assert_eq!(total, 45);
    assert_eq!(groups.len(), 1);
    // The helper moves the instant only; the calendar fields stay as parsed.
    assert_eq!(groups[0].year, 2024);
    let shown: Vec<String> = groups[0].posts.iter().map(|p| p.url.clone()).collect();
    assert_eq!(shown, names(1, 20));

    let (groups, _) = PostService::get_paginated_archives(&posts, 3, 20);
    let shown: Vec<String> = groups[0].posts.iter().map(|p| p.url.clone()).collect();
    assert_eq!(shown, names(41, 45));

    let view = PostService::render_archives(&posts, 3, 20);
    assert_eq!(view.page.count, 3);
    assert_eq!(view.page.current, 3);
    assert_eq!(view.site_title, Some("第3页 - ".to_string()));
    assert_eq!(view.archives.len(), 1);
}

#[test]
fn archive_beyond_the_last_page_shows_the_last_page() {
    let posts = published(45);
    let (groups, total) = PostService::get_paginated_archives(&posts, 9, 20);
    assert_eq!(total, 45);
    let shown: Vec<String> = groups[0].posts.iter().map(|p| p.url.clone()).collect();
    assert_eq!(shown, names(41, 45));
    let view = PostService::render_archives(&posts, 9, 20);
    assert_eq!(view.page.current, 3);
    let (none, total) = PostService::get_paginated_archives(&Vec::new(), 1, 20);
    assert!(none.is_empty());
    assert_eq!(total, 0);
}

#[test]
fn archive_leaves_out_drafts() {
    let mut posts = published(4);
    posts[0].front_matter.draft = true;
    let (groups, total) = PostService::get_paginated_archives(&posts, 1, 20);
    assert_eq!(total, 3);
    let shown: Vec<String> = groups[0].posts.iter().map(|p| p.url.clone()).collect();
    assert_eq!(shown, names(2, 4));
}

fn labelled_collection() -> Vec<Post> {
    let mut posts = Vec::new();
    let mut add = |slug: String, draft: bool, categories: &[&str]| {
        posts.push(post(&slug, "2024-01-01T00:00:00+0000", draft, Some(categories), Some(categories)));
    };
    for i in 0..5 {
        add(format!("tech{}", i), false, &["tech"]);
    }
    for i in 0..5 {
        add(format!("life{}", i), false, &["life"]);
    }
    add("art0".to_string(), false, &["art"]);
    add("art1".to_string(), false, &["art"]);
    add("draft".to_string(), true, &["art", "tech", "secret"]);
    posts
}

#[test]
fn category_counts_are_ranked() {
    let posts = labelled_collection();
    let categories = CategoryService::new().get_all_categories(&posts);
    assert_eq!(
        categories,
        vec![
            CategoryCount { name: "life".to_string(), count: 5 },
            CategoryCount { name: "tech".to_string(), count: 5 },
            CategoryCount { name: "art".to_string(), count: 2 },
        ]
    );
    let tags = TagService::new().get_all_tags(&posts);
    assert_eq!(
        tags,
        vec![
            TagCount { name: "life".to_string(), count: 5 },
            TagCount { name: "tech".to_string(), count: 5 },
            TagCount { name: "art".to_string(), count: 2 },
        ]
    );
}

#[test]
fn lists_of_categories_and_tags() {
    let posts = labelled_collection();
    let view = CategoryService::new().render_category_page(&posts);
    assert_eq!(view.count, 3);
    assert_eq!(view.categories, CategoryService::new().get_all_categories(&posts));
    let view = TagService::new().render_tag_page(&posts);
    assert_eq!(view.count, 3);
    assert_eq!(view.tags[2], TagCount { name: "art".to_string(), count: 2 });
}

#[test]
fn counts_of_nothing() {
    assert!(CategoryService::new().get_all_categories(&Vec::new()).is_empty());
    let unlabelled = published(3);
    assert!(TagService::new().get_all_tags(&unlabelled).is_empty());
    assert!(frequency_table(&Vec::new()).is_empty());
}

#[test]
fn every_occurrence_of_a_label_counts() {
    let posts = vec![
        post("a", "2024-01-01T00:00:00+0000", false, Some(&["x", "y", "x"]), Some(&[])),
        post("b", "2024-01-01T00:00:00+0000", false, None, Some(&["x"])),
    ];
    let categories = CategoryService::new().get_all_categories(&posts);
    assert_eq!(
        categories,
        vec![
            CategoryCount { name: "x".to_string(), count: 2 },
            CategoryCount { name: "y".to_string(), count: 1 },
        ]
    );
    assert_eq!(collect_labels(&posts, LabelKind::Category), strings(&["x", "y", "x"]));
    assert_eq!(collect_labels(&posts, LabelKind::Tag), strings(&["x"]));
}

#[test]
fn tally_then_rank() {
    let labels = strings(&["tech", "art", "life", "tech", "life", "中"]);
    assert_eq!(
        tally(&labels),
        vec![
            ("tech".to_string(), 2),
            ("art".to_string(), 1),
            ("life".to_string(), 2),
            ("中".to_string(), 1),
        ]
    );
    assert_eq!(
        rank(tally(&labels)),
        vec![
            ("life".to_string(), 2),
            ("tech".to_string(), 2),
            ("art".to_string(), 1),
            ("中".to_string(), 1),
        ]
    );
    assert_eq!(frequency_table(&labels), rank(tally(&labels)));
}

#[test]
fn posts_of_a_label() {
    let posts = labelled_collection();
    let art = CategoryService::new().get_posts_by_category(&posts, "art".to_string());
    assert_eq!(slugs(&art), strings(&["art0", "art1"]));
    let secret = TagService::new().get_posts_by_tag(&posts, "secret".to_string());
    assert!(secret.is_empty());
    let none = labelled_posts(&posts, LabelKind::Tag, &"nothing".to_string());
    assert!(none.is_empty());
}

#[test]
fn label_page_clamps_to_the_last_page() {
    let mut posts = Vec::new();
    for i in 1..=45 {
        posts.push(post(&format!("p{}", i), "2024-01-01T00:00:00+0000", false, Some(&["c"]), Some(&["t"])));
    }
    posts.push(post("other", "2024-01-01T00:00:00+0000", false, Some(&["d"]), None));
    let first = CategoryService::new().render_posts_by_category(&posts, "c".to_string(), 1);
    assert_eq!(first.name, "c");
    assert_eq!(slugs(&first.posts), names(1, 20));
    assert_eq!(first.page.count, 3);
    assert_eq!(first.site_title, None);
    let third = TagService::new().render_posts_by_tag(&posts, "t".to_string(), 3);
    assert_eq!(slugs(&third.posts), names(41, 45));
    assert_eq!(third.site_title, Some("第3页 - ".to_string()));
    let beyond = label_page(&posts, LabelKind::Category, "c".to_string(), 7);
    assert_eq!(beyond.page.current, 3);
    assert_eq!(slugs(&beyond.posts), names(41, 45));
    let nothing = label_page(&posts, LabelKind::Category, "zzz".to_string(), 1);
    assert!(nothing.posts.is_empty());
    assert_eq!(nothing.page.count, 0);
    assert_eq!(nothing.page.current, 0);
}
