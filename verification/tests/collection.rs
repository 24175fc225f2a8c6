use blog_engine::archive::{entry_of, group_by_year};
use blog_engine::collection::{published_posts, sort_newest_first};
use blog_engine::date_format::{deserialize, Timestamp};
use blog_engine::parser::ParseError;
use blog_engine::post::{clone_posts, default_draft, FrontMatter, Post};
use blog_engine::post_service::{collect_posts, next_step, Attempt, NextStep, Observed, PostService};

fn post(slug: &str, date: &str, draft: bool) -> Post {
    Post {
        front_matter: FrontMatter {
            title: format!("Title of {}", slug),
            date: deserialize(date).unwrap(),
            draft,
            categories: None,
            tags: None,
        },
        content: format!("Body of {}", slug),
        url: slug.to_string(),
    }
}

fn slugs(posts: &Vec<Post>) -> Vec<String> {
    posts.iter().map(|p| p.url.clone()).collect()
}

#[test]
fn drafts_are_off_by_default() {
    assert!(!default_draft());
}

#[test]
fn sort_puts_the_newest_first() {
    let posts = vec![
        post("b", "2023-01-01T00:00:00+0800", false),
        post("d", "2025-06-01T00:00:00+0800", false),
        post("a", "2021-12-31T23:59:59+0800", true),
        post("c", "2024-02-29T12:00:00+0800", false),
    ];
    let sorted = sort_newest_first(posts);
    assert_eq!(slugs(&sorted), vec!["d", "c", "b", "a"]);
}

#[test]
fn sort_compares_instants_not_wall_clocks() {
    let posts = vec![
        post("early", "2024-05-17T10:00:00+0800", false),
        post("late", "2024-05-17T03:00:00+0000", false),
    ];
    assert_eq!(slugs(&sort_newest_first(posts)), vec!["late", "early"]);
}

#[test]
fn sort_keeps_the_order_of_equal_instants() {
    let posts = vec![
        post("x1", "2024-01-01T00:00:00+0000", false),
        post("new", "2024-06-01T00:00:00+0000", false),
        post("x2", "2024-01-01T08:00:00+0800", false),
        post("old", "2023-06-01T00:00:00+0000", false),
        post("x3", "2024-01-01T00:00:00+0000", false),
    ];
    assert_eq!(slugs(&sort_newest_first(posts)), vec!["new", "x1", "x2", "x3", "old"]);
}

#[test]
fn sort_agrees_with_a_stable_sort() {
    let dates = [
        "2024-03-01T00:00:00+0000", "2022-03-01T00:00:00+0000", "2024-03-01T00:00:00+0000",
        "2025-01-01T00:00:00+0900", "2022-03-01T01:00:00+0100", "2020-01-01T00:00:00+0000",
        "2025-01-01T00:00:00+0900", "2023-07-07T07:07:07-0700",
    ];
    let mut posts = Vec::new();
    for (index, date) in dates.iter().enumerate() {
        posts.push(post(&format!("p{}", index), date, index % 3 == 0));
    }
    let mut expected = clone_posts(&posts);
    expected.sort_by(|a, b| {
        let ka = (a.front_matter.date.epoch_seconds, a.front_matter.date.subsec_nanos);
        let kb = (b.front_matter.date.epoch_seconds, b.front_matter.date.subsec_nanos);
        kb.cmp(&ka)
    });
    let sorted = sort_newest_first(posts);
    assert_eq!(slugs(&sorted), slugs(&expected));
}

#[test]
fn sort_of_nothing_and_of_one() {
    assert!(sort_newest_first(Vec::new()).is_empty());
    let one = sort_newest_first(vec![post("only", "2024-01-01T00:00:00+0000", false)]);
    assert_eq!(slugs(&one), vec!["only"]);
}

#[test]
fn published_leaves_out_drafts() {
    let posts = vec![
        post("a", "2024-01-04T00:00:00+0000", false),
        post("b", "2024-01-03T00:00:00+0000", true),
        post("c", "2024-01-02T00:00:00+0000", false),
        post("d", "2024-01-01T00:00:00+0000", true),
    ];
    let shown = published_posts(&posts);
    assert_eq!(slugs(&shown), vec!["a", "c"]);
    assert!(shown.iter().all(|p| !p.front_matter.draft));
    assert_eq!(slugs(&published_posts(&shown)), vec!["a", "c"]);
    assert!(published_posts(&Vec::new()).is_empty());
}

#[test]
fn clone_copies_every_field() {
    let mut first = post("a", "2024-01-04T00:00:00+0000", true);
    first.front_matter.categories = Some(vec!["x".to_string(), "y".to_string()]);
    first.front_matter.tags = Some(vec![]);
    let copy = first.clone();
    assert_eq!(copy.url, first.url);
    assert_eq!(copy.content, first.content);
    assert_eq!(copy.front_matter.title, first.front_matter.title);
    assert_eq!(copy.front_matter.date, first.front_matter.date);
    assert_eq!(copy.front_matter.draft, first.front_matter.draft);
    assert_eq!(copy.front_matter.categories, first.front_matter.categories);
    assert_eq!(copy.front_matter.tags, first.front_matter.tags);
}

#[test]
fn archive_entry_of_a_post() {
    let entry = entry_of(&post("a", "2024-03-09T00:00:00+0000", false));
    assert_eq!(entry.date, "03-09");
    assert_eq!(entry.title, "Title of a");
    assert_eq!(entry.url, "a");
}

#[test]
fn groups_follow_the_years() {
    let posts = vec![
        post("a", "2025-03-01T00:00:00+0800", false),
        post("b", "2025-01-01T00:00:00+0800", false),
        post("c", "2024-12-31T00:00:00+0800", false),
        post("d", "2023-05-05T00:00:00+0800", false),
        post("e", "2023-01-01T00:00:00+0800", false),
        post("f", "2023-01-01T00:00:00+0800", false),
    ];
    let groups = group_by_year(&posts, 0, posts.len());
    let shape: Vec<(u32, Vec<String>)> = groups
        .iter()
        .map(|g| (g.year, g.posts.iter().map(|p| p.url.clone()).collect()))
        .collect();
    assert_eq!(
        shape,
        vec![
            (2025, vec!["a".to_string(), "b".to_string()]),
            (2024, vec!["c".to_string()]),
            (2023, vec!["d".to_string(), "e".to_string(), "f".to_string()]),
        ]
    );
    assert_eq!(groups[0].posts[0].date, "03-01");
    assert_eq!(groups[2].posts[2].title, "Title of f");
}

#[test]
fn groups_of_a_part_of_the_list() {
    let posts = vec![
        post("a", "2025-03-01T00:00:00+0800", false),
        post("b", "2025-01-01T00:00:00+0800", false),
        post("c", "2024-12-31T00:00:00+0800", false),
    ];
    let groups = group_by_year(&posts, 1, 3);
    assert_eq!(groups.len(), 2);
    assert_eq!(groups[0].year, 2025);
    assert_eq!(groups[0].posts.len(), 1);
    assert_eq!(groups[0].posts[0].url, "b");
    assert_eq!(groups[1].year, 2024);
    assert!(group_by_year(&posts, 2, 2).is_empty());
}

#[test]
fn a_year_that_returns_opens_a_second_group() {
    // Ordered by instant, yet the local years alternate: the offsets differ.
    let posts = sort_newest_first(vec![
        post("a", "2024-01-01T00:30:00+0100", false),
        post("b", "2023-12-31T23:45:00+0000", false),
        post("c", "2024-01-01T00:50:00+0100", false),
    ]);
    assert_eq!(slugs(&posts), vec!["c", "b", "a"]);
    let years: Vec<u32> = group_by_year(&posts, 0, 3).iter().map(|g| g.year).collect();
    assert_eq!(years, vec![2024, 2023, 2024]);
}

#[test]
fn rule_of_the_cache() {
    for attempt in [Attempt::FastRead, Attempt::Write, Attempt::BlockingRead] {
        assert_eq!(next_step(attempt, Observed::Populated), NextStep::ReturnSnapshot);
    }
    assert_eq!(next_step(Attempt::FastRead, Observed::Empty), NextStep::TryWrite);
    assert_eq!(next_step(Attempt::FastRead, Observed::Unavailable), NextStep::TryWrite);
    assert_eq!(next_step(Attempt::Write, Observed::Empty), NextStep::ScanAndStore);
    assert_eq!(next_step(Attempt::Write, Observed::Unavailable), NextStep::WaitForRead);
    assert_eq!(next_step(Attempt::BlockingRead, Observed::Empty), NextStep::ScanThenStore);
    assert_eq!(next_step(Attempt::BlockingRead, Observed::Unavailable), NextStep::WaitForRead);
}

#[test]
fn collect_sorts_what_was_read() {
    let files = vec![
        Ok(post("old", "2020-01-01T00:00:00+0000", false)),
        Ok(post("new", "2024-01-01T00:00:00+0000", true)),
    ];
    assert_eq!(slugs(&collect_posts(files).unwrap()), vec!["new", "old"]);
    assert!(collect_posts(Vec::new()).unwrap().is_empty());
}

#[test]
fn collect_fails_with_the_first_failure() {
    let files = vec![
        Ok(post("a", "2020-01-01T00:00:00+0000", false)),
        Err(ParseError::Metadata { path: "post/b.md".to_string(), message: "first".to_string() }),
        Ok(post("c", "2024-01-01T00:00:00+0000", false)),
        Err(ParseError::Io { path: "post/d.md".to_string(), message: "second".to_string() }),
    ];
    match collect_posts(files).unwrap_err() {
        ParseError::Metadata { path, message } => {
            assert_eq!(path, "post/b.md");
            assert_eq!(message, "first");
        }
        other => panic!("unexpected error {:?}", other),
    }
}

#[test]
fn cache_starts_empty_and_is_populated_once() {
    let mut service = PostService::new();
    assert!(!service.is_populated());
    assert_eq!(service.observe(), Observed::Empty);
    assert!(service.load_all_posts().is_none());
    assert_eq!(next_step(Attempt::Write, service.observe()), NextStep::ScanAndStore);

    let files = vec![
        Ok(post("old", "2020-01-01T00:00:00+0000", false)),
        Ok(post("new", "2024-01-01T00:00:00+0000", false)),
    ];
    let snapshot = service.populate(files).unwrap();
    assert_eq!(slugs(&snapshot), vec!["new", "old"]);
    assert!(service.is_populated());
    assert_eq!(service.observe(), Observed::Populated);
    assert_eq!(slugs(&service.load_all_posts().unwrap()), vec!["new", "old"]);
    // Every later caller is handed the snapshot and scans nothing.
    for attempt in [Attempt::FastRead, Attempt::Write, Attempt::BlockingRead] {
        assert_eq!(next_step(attempt, service.observe()), NextStep::ReturnSnapshot);
    }
    assert_eq!(slugs(&service.load_all_posts().unwrap()), slugs(&service.load_all_posts().unwrap()));
}

#[test]
fn failed_population_leaves_the_cache_empty() {
    let mut service = PostService::new();
    let files = vec![
        Ok(post("a", "2020-01-01T00:00:00+0000", false)),
        Err(ParseError::Metadata {
            path: "post/no-title.md".to_string(),
            message: "missing field `title`".to_string(),
        }),
    ];
    match service.populate(files).unwrap_err() {
        ParseError::Metadata { path, .. } => assert_eq!(path, "post/no-title.md"),
        other => panic!("unexpected error {:?}", other),
    }
    assert!(!service.is_populated());
    assert!(service.load_all_posts().is_none());
    // The next caller scans again.
    assert_eq!(next_step(Attempt::Write, service.observe()), NextStep::ScanAndStore);
    let retry = vec![Ok(post("a", "2020-01-01T00:00:00+0000", false))];
    assert_eq!(slugs(&service.populate(retry).unwrap()), vec!["a"]);
}

#[test]
fn refresh_replaces_and_a_failed_refresh_keeps() {
    let mut service = PostService::new();
    service.refresh(vec![Ok(post("one", "2020-01-01T00:00:00+0000", false))]).unwrap();
    assert_eq!(slugs(&service.load_all_posts().unwrap()), vec!["one"]);
    service
        .refresh(vec![
            Ok(post("two", "2021-01-01T00:00:00+0000", false)),
            Ok(post("three", "2022-01-01T00:00:00+0000", false)),
        ])
        .unwrap();
    assert_eq!(slugs(&service.load_all_posts().unwrap()), vec!["three", "two"]);
    let failed = service.refresh(vec![Err(ParseError::Io {
        path: "post".to_string(),
        message: "gone".to_string(),
    })]);
    assert!(matches!(failed, Err(ParseError::Io { .. })));
    assert_eq!(slugs(&service.load_all_posts().unwrap()), vec!["three", "two"]);
}

#[test]
fn timestamps_written_by_hand() {
    let date = Timestamp { epoch_seconds: 10, subsec_nanos: 0, offset_seconds: 0, year: 1970, month: 1, day: 1 };
    let mut a = post("a", "2020-01-01T00:00:00+0000", false);
    a.front_matter.date = date;
    let b = post("b", "1970-01-01T00:00:11+0000", false);
    assert_eq!(slugs(&sort_newest_first(vec![a, b])), vec!["b", "a"]);
}
