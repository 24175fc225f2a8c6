use blog_engine::markdown::{
    heading_html, heading_step, outline_of, render_html, render_outline, render_plain_html,
    rewrite_headings, HeadingState, MarkdownEvent, Piece,
};

fn text(s: &str) -> MarkdownEvent {
    MarkdownEvent::Text(s.to_string())
}

#[test]
fn heading_markup_carries_the_anchor() {
    assert_eq!(heading_html(2, "中国"), "<h2 id=\"zhong-guo\">中国</h2>");
    assert_eq!(heading_html(3, "Hi!"), "<h3 id=\"H-i\">Hi!</h3>");
    assert_eq!(heading_html(4, ""), "<h4 id=\"\"></h4>");
    assert_eq!(heading_html(12, "a<b"), "<h12 id=\"a-b\">a<b</h12>");
}

#[test]
fn anchored_heading_start_is_suppressed() {
    for level in [2u8, 3, 4] {
        let (state, piece) = heading_step(HeadingState::Outside, 0, &MarkdownEvent::HeadingStart(level));
        assert_eq!(state, HeadingState::InHeading { level, text: String::new() });
        assert_eq!(piece, None);
    }
}

#[test]
fn other_heading_start_passes_through() {
    for level in [1u8, 5, 6] {
        let (state, piece) = heading_step(HeadingState::Outside, 7, &MarkdownEvent::HeadingStart(level));
        assert_eq!(state, HeadingState::Outside);
        assert_eq!(piece, Some(Piece::Parsed(7)));
    }
}

#[test]
fn heading_start_inside_a_heading_starts_over() {
    let inside = HeadingState::InHeading { level: 2, text: "old".to_string() };
    let (state, piece) = heading_step(inside, 3, &MarkdownEvent::HeadingStart(3));
    assert_eq!(state, HeadingState::InHeading { level: 3, text: String::new() });
    assert_eq!(piece, None);
}

#[test]
fn text_inside_a_heading_is_buffered() {
    let inside = HeadingState::InHeading { level: 2, text: "ab".to_string() };
    let (state, piece) = heading_step(inside, 3, &text("cd"));
    assert_eq!(state, HeadingState::InHeading { level: 2, text: "abcd".to_string() });
    assert_eq!(piece, None);
}

#[test]
fn text_outside_a_heading_passes_through() {
    let (state, piece) = heading_step(HeadingState::Outside, 4, &text("cd"));
    assert_eq!(state, HeadingState::Outside);
    assert_eq!(piece, Some(Piece::Parsed(4)));
}

#[test]
fn matching_end_emits_the_heading() {
    let inside = HeadingState::InHeading { level: 3, text: "标题 A".to_string() };
    let (state, piece) = heading_step(inside, 9, &MarkdownEvent::HeadingEnd(3));
    assert_eq!(state, HeadingState::Outside);
    assert_eq!(piece, Some(Piece::Html("<h3 id=\"biao-ti- -A\">标题 A</h3>".to_string())));
}

#[test]
fn other_end_passes_through() {
    let inside = HeadingState::InHeading { level: 3, text: "x".to_string() };
    let (state, piece) = heading_step(inside.clone(), 9, &MarkdownEvent::HeadingEnd(2));
    assert_eq!(state, inside);
    assert_eq!(piece, Some(Piece::Parsed(9)));
    let (state, piece) = heading_step(HeadingState::Outside, 2, &MarkdownEvent::HeadingEnd(1));
    assert_eq!(state, HeadingState::Outside);
    assert_eq!(piece, Some(Piece::Parsed(2)));
}

#[test]
fn other_events_pass_through_in_any_state() {
    let inside = HeadingState::InHeading { level: 4, text: "x".to_string() };
    let (state, piece) = heading_step(inside.clone(), 5, &MarkdownEvent::Other);
    assert_eq!(state, inside);
    assert_eq!(piece, Some(Piece::Parsed(5)));
    let (state, piece) = heading_step(HeadingState::Outside, 6, &MarkdownEvent::Other);
    assert_eq!(state, HeadingState::Outside);
    assert_eq!(piece, Some(Piece::Parsed(6)));
}

#[test]
fn rewrite_replaces_anchored_headings_only() {
    let events = vec![
        MarkdownEvent::HeadingStart(1),
        text("Top"),
        MarkdownEvent::HeadingEnd(1),
        MarkdownEvent::HeadingStart(2),
        text("第"),
        MarkdownEvent::Other,
        text("二"),
        MarkdownEvent::HeadingEnd(2),
        MarkdownEvent::Other,
        text("body"),
        MarkdownEvent::Other,
    ];
    let pieces = rewrite_headings(&events);
    assert_eq!(
        pieces,
        vec![
            Piece::Parsed(0),
            Piece::Parsed(1),
            Piece::Parsed(2),
            Piece::Parsed(5),
            Piece::Html("<h2 id=\"di-er\">第二</h2>".to_string()),
            Piece::Parsed(8),
            Piece::Parsed(9),
            Piece::Parsed(10),
        ]
    );
}

#[test]
fn rewrite_without_anchored_heading_changes_nothing() {
    let events = vec![
        MarkdownEvent::Other,
        text("a"),
        MarkdownEvent::HeadingStart(5),
        text("b"),
        MarkdownEvent::HeadingEnd(5),
        MarkdownEvent::HeadingEnd(2),
    ];
    let pieces = rewrite_headings(&events);
    let expected: Vec<Piece> = (0..events.len()).map(Piece::Parsed).collect();
    assert_eq!(pieces, expected);
    assert_eq!(rewrite_headings(&Vec::new()), Vec::<Piece>::new());
}

#[test]
fn unclosed_heading_swallows_its_text() {
    let events = vec![MarkdownEvent::HeadingStart(2), text("lost"), MarkdownEvent::Other];
    assert_eq!(rewrite_headings(&events), vec![Piece::Parsed(2)]);
}

#[test]
fn render_anchors_second_level_heading() {
    assert_eq!(
        render_html("## 标题\n\ntext"),
        "<h2 id=\"biao-ti\">标题</h2>\n<p>text</p>\n"
    );
}

#[test]
fn render_leaves_first_and_fifth_level_alone() {
    assert_eq!(render_html("# Top\n\n##### deep\n"), "<h1>Top</h1>\n<h5>deep</h5>\n");
    assert_eq!(render_html("# Top\n\n##### deep\n"), render_plain_html("# Top\n\n##### deep\n"));
}

#[test]
fn render_keeps_duplicate_anchors() {
    assert_eq!(
        render_html("### a\n\n### a\n"),
        "<h3 id=\"a\">a</h3><h3 id=\"a\">a</h3>"
    );
}

#[test]
fn render_lets_inline_markup_of_a_heading_through() {
    assert_eq!(
        render_html("## Hello *world*\n"),
        "<em></em><h2 id=\"H-e-l-l-o- -w-o-r-l-d\">Hello world</h2>"
    );
}

#[test]
fn render_of_plain_html_is_stable() {
    let once = render_html("Hello world");
    assert_eq!(once, "<p>Hello world</p>\n");
    let twice = render_html(&once);
    assert_eq!(twice, once);
    let list = render_html("* a\n* b\n");
    assert_eq!(render_html(&list), list);
}

#[test]
fn render_of_nothing_is_empty() {
    assert_eq!(render_html(""), "");
    assert_eq!(render_plain_html(""), "");
}

#[test]
fn plain_render_keeps_headings_as_they_are() {
    assert_eq!(render_plain_html("## 标题\n\ntext"), "<h2>标题</h2>\n<p>text</p>\n");
}

#[test]
fn outline_lists_every_heading() {
    let outline = render_outline("# One\n\ntext\n\n## 第二\n\n###### six `code`\n");
    assert_eq!(
        outline,
        vec![
            (1, "One".to_string(), "O-n-e".to_string()),
            (2, "第二".to_string(), "di-er".to_string()),
            (6, "six code".to_string(), "s-i-x- -c-o-d-e".to_string()),
        ]
    );
    assert_eq!(render_outline("no heading"), Vec::new());
}

#[test]
fn outline_of_adds_anchor_ids() {
    let headings = vec![(2usize, "中国".to_string()), (9, "".to_string())];
    assert_eq!(
        outline_of(headings),
        vec![(2, "中国".to_string(), "zhong-guo".to_string()), (9, "".to_string(), "".to_string())]
    );
}
