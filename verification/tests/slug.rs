use blog_engine::slug::{anchor_id, char_token, to_pinyin};

#[test]
fn test_chinese_characters() {
    let text = "中国";
    let result = to_pinyin(text);
    assert_eq!(result, vec!["zhong", "guo"]);
}

#[test]
fn test_mixed_characters() {
    let text = "Hello中国123";
    let result = to_pinyin(text);
    assert_eq!(
        result,
        vec!["H", "e", "l", "l", "o", "zhong", "guo", "1", "2", "3"]
    );
}

#[test]
fn test_non_chinese() {
    let text = "Hello123";
    let result = to_pinyin(text);
    assert_eq!(result, vec!["H", "e", "l", "l", "o", "1", "2", "3"]);
}

#[test]
fn test_punctuation() {
    let text = "Hello, 中国!";
    let result = to_pinyin(text);
    assert_eq!(
        result,
        vec!["H", "e", "l", "l", "o", " ", "zhong", "guo"]
    );
}

#[test]
fn empty_text_has_no_tokens() {
    assert_eq!(to_pinyin(""), Vec::<String>::new());
    assert_eq!(anchor_id(""), "");
}

#[test]
fn same_text_gives_same_tokens() {
    let first = to_pinyin("第一章 Intro, 概述");
    let second = to_pinyin("第一章 Intro, 概述");
    assert_eq!(first, second);
}

#[test]
fn anchor_joins_tokens_with_hyphens() {
    assert_eq!(anchor_id("中国"), "zhong-guo");
    assert_eq!(anchor_id("Hi!"), "H-i");
    assert_eq!(anchor_id("a b"), "a- -b");
}

#[test]
fn romanised_entry_wins_over_the_character() {
    assert_eq!(char_token('中', Some("zhong".to_string())), Some("zhong".to_string()));
    assert_eq!(char_token('!', Some("x".to_string())), Some("x".to_string()));
}

#[test]
fn punctuation_without_entry_is_dropped() {
    for c in ['!', '/', ':', '@', '[', '`', '{', '~', ',', '.'] {
        assert_eq!(char_token(c, None), None);
    }
}

#[test]
fn other_characters_stand_for_themselves() {
    for c in ['a', 'Z', '0', ' ', 'é', '，'] {
        assert_eq!(char_token(c, None), Some(c.to_string()));
    }
}
