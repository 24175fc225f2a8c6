use blog_engine::html::{escape_html, join_nodes, strip_html_tags};
use blog_engine::error::{AppError, ErrorResponse};
use blog_engine::ranking::{is_name_less, is_ranked_before};
use blog_engine::summary::{collapse, is_white_space, summarize, take_chars};
use blog_engine::text::{append_decimal, append_two_digits, chars_of, join_strings, string_of};

#[test]
fn escape_replaces_the_six_characters() {
    assert_eq!(escape_html("<a href=\"x\">T&C's</a>"),
        "&lt;a href=&quot;x&quot;&gt;T&amp;C&#x27;s&lt;&#x2F;a&gt;");
    assert_eq!(escape_html(""), "");
    assert_eq!(escape_html("plain 文本"), "plain 文本");
    assert_eq!(escape_html("/"), "&#x2F;");
}

#[test]
fn strip_leaves_the_text_once() {
    assert_eq!(strip_html_tags("<p>Hello</p>").unwrap(), "Hello");
    assert_eq!(strip_html_tags("hello").unwrap(), "hello");
    assert_eq!(strip_html_tags("").unwrap(), "");
    assert_eq!(strip_html_tags("<p>a</p>\n<p>b</p>\n").unwrap(), "a\nb\n");
}

#[test]
fn strip_writes_text_nodes_one_after_another() {
    assert_eq!(strip_html_tags("<p>a<b>b</b>c</p>").unwrap(), "abc");
    assert_eq!(
        strip_html_tags("<ul>\n<li>one &amp; <em>two</em></li>\n<li>three</li>\n</ul>").unwrap(),
        "\none & two\nthree\n"
    );
    assert_eq!(strip_html_tags("<title>T</title><p>x</p>").unwrap(), "Tx");
}

#[test]
fn nodes_are_joined_with_nothing_between() {
    assert_eq!(join_nodes(&Vec::new()), "");
    assert_eq!(join_nodes(&vec!["a".to_string()]), "a");
    assert_eq!(join_nodes(&vec!["a ".to_string(), "".to_string(), "b".to_string()]), "a b");
}

#[test]
fn whitespace_is_what_std_takes_for_it() {
    for code in 0..=0x10FFFFu32 {
        if let Some(c) = char::from_u32(code) {
            assert_eq!(is_white_space(c), c.is_whitespace(), "U+{:04X}", code);
        }
    }
}

#[test]
fn collapse_trims_lines_and_drops_empty_ones() {
    assert_eq!(collapse("  a  \n\n b\r\n\t\nc"), "a b c");
    assert_eq!(collapse(""), "");
    assert_eq!(collapse("\n\n"), "");
    assert_eq!(collapse("one line"), "one line");
    assert_eq!(collapse("a\n"), "a");
    assert_eq!(collapse("\u{3000}全角\u{3000}\nx"), "全角 x");
    assert_eq!(collapse("a  b\nc"), "a  b c");
}

#[test]
fn take_counts_characters_not_bytes() {
    assert_eq!(take_chars("中文abc", 2), "中文");
    assert_eq!(take_chars("中文abc", 3), "中文a");
    assert_eq!(take_chars("abc", 0), "");
    assert_eq!(take_chars("abc", 3), "abc");
    assert_eq!(take_chars("abc", 10), "abc");
}

#[test]
fn summarize_collapses_then_cuts() {
    assert_eq!(summarize(" 你好 \n 世界 ", 4), "你好 世");
    assert_eq!(summarize("a\nb", 100), "a b");
}

#[test]
fn decimal_digits() {
    let mut s = String::from("n=");
    append_decimal(&mut s, 0);
    append_decimal(&mut s, 7);
    append_decimal(&mut s, 10);
    append_decimal(&mut s, 65535);
    append_decimal(&mut s, u64::MAX);
    assert_eq!(s, "n=07106553518446744073709551615");
    let mut t = String::new();
    append_two_digits(&mut t, 0);
    append_two_digits(&mut t, 9);
    append_two_digits(&mut t, 10);
    append_two_digits(&mut t, 123);
    assert_eq!(t, "000910123");
}

#[test]
fn chars_and_strings() {
    assert_eq!(chars_of("a中b"), vec!['a', '中', 'b']);
    assert_eq!(string_of(&vec!['a', '中', 'b'], 1, 3), "中b");
    assert_eq!(string_of(&vec!['a', '中', 'b'], 2, 2), "");
    let parts = vec!["a".to_string(), "".to_string(), "c".to_string()];
    assert_eq!(join_strings(&parts, ", "), "a, , c");
    assert_eq!(join_strings(&Vec::new(), ", "), "");
    assert_eq!(join_strings(&vec!["x".to_string()], ", "), "x");
}

#[test]
fn names_are_ordered_as_strings() {
    let names = ["", "a", "ab", "b", "art", "life", "tech", "Z", "中", "é", "a中", "\u{10000}", "\u{ffff}"];
    for a in names {
        for b in names {
            assert_eq!(is_name_less(a, b), a < b, "{:?} < {:?}", a, b);
        }
    }
}

#[test]
fn larger_counts_rank_first_then_names() {
    assert!(is_ranked_before("tech", 5, "art", 2));
    assert!(!is_ranked_before("art", 2, "tech", 5));
    assert!(is_ranked_before("life", 5, "tech", 5));
    assert!(!is_ranked_before("tech", 5, "life", 5));
    assert!(!is_ranked_before("life", 5, "life", 5));
}

#[test]
fn error_messages() {
    assert_eq!(AppError::Internal("boom".to_string()).message(), "Internal server error: boom");
    assert_eq!(AppError::NotFound("a-post".to_string()).message(), "Not found: a-post");
}

#[test]
fn error_responses() {
    match AppError::Internal("boom".to_string()).response() {
        ErrorResponse::ServerError(body) => assert_eq!(body, "Internal Server Error: boom"),
        other => panic!("unexpected answer {:?}", other),
    }
    match AppError::NotFound("a-post".to_string()).response() {
        ErrorResponse::Redirect(location) => assert_eq!(location, "/error/404.html?url=a-post"),
        other => panic!("unexpected answer {:?}", other),
    }
}
