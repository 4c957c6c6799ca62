use tinyfeeds::html::escape_html;
use tinyfeeds::markdown::{
    choose_markdown, render_markdown, render_markdown_events, story_blocks, story_markdown, Block,
    MdEvent, MdTag, MdTagEnd,
};
use tinyfeeds::models::Story;

fn show(blocks: &[Block]) -> Vec<String> {
    blocks
        .iter()
        .map(|b| match b {
            Block::Heading(l, m) => format!("H{}:{}", l, m),
            Block::Paragraph(m) => format!("P:{}", m),
            Block::Quote(m) => format!("Q:{}", m),
            Block::Code(t) => format!("C:{}", t),
            Block::ListItem(m) => format!("L:{}", m),
            Block::Image(u) => format!("I:{}", u),
            Block::Rule => "R".to_string(),
        })
        .collect()
}

#[test]
fn escaping_covers_the_five_characters() {
    assert_eq!(escape_html("a & b < c > d \" e ' f"), "a &amp; b &lt; c &gt; d &quot; e &apos; f");
    assert_eq!(escape_html("&amp;"), "&amp;amp;");
    assert_eq!(escape_html("plain ünïcode"), "plain ünïcode");
    assert_eq!(escape_html(""), "");
}

#[test]
fn headings_and_paragraphs() {
    let b = render_markdown("# Title\n\nSome *soft* **bold** ~~gone~~ text.\n\n### Small\n\n##### Tiny");
    assert_eq!(
        show(&b),
        vec![
            "H1:<span size=\"xx-large\" weight=\"bold\">Title</span>",
            "P:Some <i>soft</i> <b>bold</b> ~~gone~~ text.",
            "H3:<span size=\"large\" weight=\"bold\">Small</span>",
            "H5:<span size=\"medium\" weight=\"bold\">Tiny</span>",
        ]
    );
}

#[test]
fn text_is_escaped_and_links_kept() {
    let b = render_markdown("a < b & [link](http://x.y/?a=1&b=2) `c<d`");
    assert_eq!(
        show(&b),
        vec!["P:a &lt; b &amp; <a href=\"http://x.y/?a=1&amp;b=2\">link</a> <tt>c&lt;d</tt>"]
    );
}

#[test]
fn lists_are_numbered_from_their_start() {
    let b = render_markdown("3. three\n4. four\n\n- dot\n");
    assert_eq!(show(&b), vec!["L:3. three", "L:4. four", "L:\u{2022} dot"]);
}

#[test]
fn code_quotes_rules_and_images() {
    let b = render_markdown("```\nx < y\n```\n\n> quoted *line*\n> more\n\n---\n\n![alt](pic.png)\n");
    assert_eq!(
        show(&b),
        vec!["C:x < y\n", "Q:quoted line\nmore", "R", "I:pic.png", "P:alt"]
    );
}

#[test]
fn events_render_one_by_one() {
    let events = vec![
        MdEvent::Start(MdTag::List(Some(9))),
        MdEvent::Start(MdTag::Item),
        MdEvent::Text("<a>".to_string()),
        MdEvent::End(MdTagEnd::Item),
        MdEvent::Start(MdTag::Item),
        MdEvent::SoftBreak,
        MdEvent::End(MdTagEnd::Item),
        MdEvent::End(MdTagEnd::List),
        MdEvent::Rule,
        MdEvent::Other,
    ];
    let b = render_markdown_events(&events);
    assert_eq!(show(&b), vec!["L:9. &lt;a&gt;", "L:10. \n", "R"]);
    assert_eq!(render_markdown_events(&Vec::new()).len(), 0);
}

#[test]
fn extracted_markdown_replaces_html_only_when_present() {
    let html = "<p>x</p>".to_string();
    assert_eq!(choose_markdown(&html, Some(Some("x".to_string()))), "x");
    assert_eq!(choose_markdown(&html, Some(None)), "<p>x</p>");
    assert_eq!(choose_markdown(&html, None), "<p>x</p>");
}

#[test]
fn articles_are_extracted_before_rendering() {
    let sentence = "Readers like stories that are long enough to be worth extracting from a page. ";
    let body = sentence.repeat(12);
    let html = format!(
        "<html><head><title>T</title></head><body><nav>menu</nav><article><h1>Title</h1><p>{}</p><p>{}</p></article></body></html>",
        body, body
    );
    let story = Story {
        author: None,
        title: None,
        url: "https://example.org/post".to_string(),
        html: html.clone(),
        contact: None,
    };
    let md = story_markdown(&story);
    assert_ne!(md, html);
    assert!(md.contains("Readers like stories"));
    assert!(!md.contains("<article>"));
    assert!(story_blocks(&story).iter().any(|b| matches!(b, Block::Paragraph(p) if p.contains("Readers like stories"))));

    let no_url = Story { url: String::new(), ..story };
    assert_eq!(story_markdown(&no_url), html);
}

#[test]
fn escaping_is_undone_by_replacing_the_entities() {
    for s in ["a & b < c > d \" e ' f", "&amp;lt;", "&lt;&gt;", "''\"\"&&", "plain"] {
        let undone = escape_html(s)
            .replace("&lt;", "<")
            .replace("&gt;", ">")
            .replace("&quot;", "\"")
            .replace("&apos;", "'")
            .replace("&amp;", "&");
        assert_eq!(undone, s);
    }
}
