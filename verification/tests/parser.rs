use blog_engine::date_format::deserialize;
use blog_engine::parser::{build_post, file_stem, is_article_file, split_front_matter, ParseError};
use blog_engine::post::FrontMatter;

fn front_matter(title: &str) -> FrontMatter {
    FrontMatter {
        title: title.to_string(),
        date: deserialize("2024-05-17T10:30:45+0800").unwrap(),
        draft: false,
        categories: None,
        tags: Some(vec!["a".to_string()]),
    }
}

fn split(content: &str) -> (String, String) {
    split_front_matter(content)
}

fn like_std(content: &str) -> (String, String) {
    let mut parts = content.splitn(3, "---");
    let metadata = parts.nth(1).unwrap_or("").to_string();
    let body = parts.nth(0).unwrap_or("").to_string();
    (metadata, body)
}

#[test]
fn split_takes_block_and_body() {
    let (metadata, body) = split("---\ntitle: A\n---\n# Body\n");
    assert_eq!(metadata, "\ntitle: A\n");
    assert_eq!(body, "\n# Body\n");
}

#[test]
fn split_keeps_later_delimiters_in_the_body() {
    let (metadata, body) = split("---a---b---c---");
    assert_eq!(metadata, "a");
    assert_eq!(body, "b---c---");
}

#[test]
fn split_without_delimiter_is_empty() {
    assert_eq!(split("no front matter"), (String::new(), String::new()));
    assert_eq!(split(""), (String::new(), String::new()));
    assert_eq!(split("--"), (String::new(), String::new()));
}

#[test]
fn split_with_one_delimiter_has_no_body() {
    assert_eq!(split("x---title: A"), ("title: A".to_string(), String::new()));
    assert_eq!(split("---"), (String::new(), String::new()));
}

#[test]
fn split_agrees_with_splitn() {
    for content in [
        "", "-", "--", "---", "----", "-----", "------", "-------", "---------",
        "a---b", "a---b---c", "---\nt: 1\n---\nbody --- more", "中---文---体",
        "--- ---", "a--b---c--d---e", "x------y",
    ] {
        assert_eq!(split(content), like_std(content), "{:?}", content);
    }
}

#[test]
fn stem_is_the_name_without_its_extension() {
    assert_eq!(file_stem("hello-world.md"), "hello-world");
    assert_eq!(file_stem("archive.tar.gz"), "archive.tar");
    assert_eq!(file_stem("README"), "README");
    assert_eq!(file_stem(".hidden"), ".hidden");
    assert_eq!(file_stem(".hidden.md"), ".hidden");
    assert_eq!(file_stem("trailing."), "trailing");
    assert_eq!(file_stem(""), "");
    assert_eq!(file_stem("文章.md"), "文章");
}

#[test]
fn stem_agrees_with_std() {
    for name in ["a.md", "a.b.c", "noext", ".x", ".x.y", "x.", "..x", "中.文"] {
        let expected = std::path::Path::new(name).file_stem().unwrap().to_str().unwrap();
        assert_eq!(file_stem(name), expected, "{:?}", name);
    }
}

#[test]
fn only_md_files_are_articles() {
    assert!(is_article_file("a.md"));
    assert!(is_article_file("a.b.md"));
    assert!(is_article_file(".x.md"));
    assert!(!is_article_file("a.MD"));
    assert!(!is_article_file("a.mdx"));
    assert!(!is_article_file("a.m"));
    assert!(!is_article_file("md"));
    assert!(!is_article_file(".md"));
    assert!(!is_article_file("a.md."));
    assert!(!is_article_file(""));
    assert!(!is_article_file("a.txt"));
}

#[test]
fn article_files_agree_with_std() {
    for name in ["a.md", "a.b.c", "noext", ".md", ".x.md", "x.", "x.md.bak", "md.md"] {
        let expected = std::path::Path::new(name).extension().and_then(|e| e.to_str()) == Some("md");
        assert_eq!(is_article_file(name), expected, "{:?}", name);
    }
}

#[test]
fn build_post_takes_the_slug_from_the_name() {
    let post = build_post("post/hello.md", "hello.md", Ok(front_matter("Hello")), "body".to_string()).unwrap();
    assert_eq!(post.url, "hello");
    assert_eq!(post.content, "body");
    assert_eq!(post.front_matter.title, "Hello");
    assert_eq!(post.front_matter.tags, Some(vec!["a".to_string()]));
}

#[test]
fn decode_failure_names_the_file() {
    let error = build_post("post/bad.md", "bad.md", Err("missing field `title`".to_string()), String::new())
        .unwrap_err();
    match &error {
        ParseError::Metadata { path, message } => {
            assert_eq!(path, "post/bad.md");
            assert_eq!(message, "missing field `title`");
        }
        other => panic!("unexpected error {:?}", other),
    }
    assert_eq!(
        error.describe(),
        "cannot decode the metadata of post/bad.md: missing field `title`"
    );
}

#[test]
fn read_failure_is_described() {
    let error = ParseError::Io { path: "post".to_string(), message: "not found".to_string() };
    assert_eq!(error.describe(), "cannot read post: not found");
    let copy = error.clone();
    assert_eq!(copy.describe(), error.describe());
}
