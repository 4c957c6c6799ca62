use tinyfeeds::email::extract_email_from_string;
use tinyfeeds::feed::{find_story_email, Contact, FeedHeader, FeedItem};

fn contact(p: &feedparser_rs::Person) -> Contact {
    Contact { name: p.name.as_ref().map(|n| n.to_string()), email: p.email.as_ref().map(|e| e.to_string()) }
}

fn item_of(e: &feedparser_rs::Entry) -> FeedItem {
    FeedItem {
        title: e.title.clone(),
        link: e.link.clone(),
        author: e.author.as_ref().map(|a| a.to_string()),
        author_detail: e.author_detail.as_ref().map(contact),
        authors: e.authors.iter().map(contact).collect(),
        contributors: e.contributors.iter().map(contact).collect(),
        content: e.content.iter().map(|c| c.value.clone()).collect(),
        summary: e.summary.clone(),
        updated: e.updated.map(|d| d.timestamp()),
        published: e.published.map(|d| d.timestamp()),
    }
}

fn header_of(f: &feedparser_rs::FeedMeta) -> FeedHeader {
    FeedHeader {
        author: f.author.as_ref().map(|a| a.to_string()),
        author_detail: f.author_detail.as_ref().map(contact),
        publisher: f.publisher.as_ref().map(|a| a.to_string()),
        publisher_detail: f.publisher_detail.as_ref().map(contact),
        authors: f.authors.iter().map(contact).collect(),
        contributors: f.contributors.iter().map(contact).collect(),
    }
}

const XML: &str = r#"<?xml version="1.0" encoding="UTF-8" ?>
<rss version="2.0">
<channel>
 <title>Test RSS</title>
 <description>Test</description>
 <link>http://example.com</link>
  <managingEditor>editor@example.com (Editor Name)</managingEditor>
  <webMaster>webmaster@example.com (Webmaster Name)</webMaster>
 <item>
  <title>Test Item</title>
  <link>http://example.com/item</link>
  <author>email@email.com (Author Name)</author>
 </item>
</channel>
</rss>"#;

fn check_extract_email() {
    assert_eq!(
        extract_email_from_string("email@email.com (Author Name)"),
        Some("email@email.com".to_string())
    );
    assert_eq!(
        extract_email_from_string("Author Name <email@email.com>"),
        Some("email@email.com".to_string())
    );
    assert_eq!(
        extract_email_from_string("email@email.com"),
        Some("email@email.com".to_string())
    );
    assert_eq!(
        extract_email_from_string("Author Name (email@email.com)"),
        Some("email@email.com".to_string())
    );
    assert_eq!(extract_email_from_string("Author Name"), None);
}

fn check_email_parsing() {
    let parsed = feedparser_rs::parse(XML.as_bytes()).unwrap();
    let entry = &item_of(&parsed.entries[0]);
    let feed_meta = header_of(&parsed.feed);

    assert_eq!(
        find_story_email(entry, &feed_meta),
        Some("email@email.com".to_string())
    );

    let mut entry_no_author = entry.clone();
    entry_no_author.author_detail = None;
    entry_no_author.author = None;
    assert_eq!(
        find_story_email(&entry_no_author, &feed_meta),
        Some("editor@example.com".to_string())
    );

    let mut feed_meta_no_editor = feed_meta.clone();
    feed_meta_no_editor.author_detail = None;
    feed_meta_no_editor.author = None;
    assert_eq!(
        find_story_email(&entry_no_author, &feed_meta_no_editor),
        Some("webmaster@example.com".to_string())
    );
}

#[test]
fn fetcher_test_extract_email() {
    check_extract_email();
}

#[test]
fn main_test_extract_email() {
    check_extract_email();
}

#[test]
fn fetcher_test_email_parsing() {
    check_email_parsing();
}

#[test]
fn main_test_email_parsing() {
    check_email_parsing();
}

#[test]
fn trailing_punctuation_is_cut_but_dots_dashes_underscores_stay() {
    assert_eq!(extract_email_from_string("mail a@b.com!"), Some("a@b.com".to_string()));
    assert_eq!(extract_email_from_string("a@b.com:\"'"), Some("a@b.com".to_string()));
    assert_eq!(extract_email_from_string("a@b.co."), Some("a@b.co.".to_string()));
    assert_eq!(extract_email_from_string("a@b.co_-"), Some("a@b.co_-".to_string()));
}

#[test]
fn pieces_are_trimmed_of_other_white_space() {
    assert_eq!(extract_email_from_string("\tme@site.org\n"), Some("me@site.org".to_string()));
    assert_eq!(
        extract_email_from_string("\u{3000}x\u{3000}me@site.org\u{2003}"),
        Some("x\u{3000}me@site.org".to_string())
    );
}

#[test]
fn address_needs_text_before_and_a_dot_after_the_first_at() {
    assert_eq!(extract_email_from_string("@example.com"), None);
    assert_eq!(extract_email_from_string("user@localhost"), None);
    assert_eq!(extract_email_from_string("a.b@c"), None);
    assert_eq!(extract_email_from_string("a@b@c.d"), Some("a@b@c.d".to_string()));
    assert_eq!(extract_email_from_string("x@y, z@w.org"), Some("z@w.org".to_string()));
    assert_eq!(extract_email_from_string(""), None);
    assert_eq!(extract_email_from_string("[first@one.io];second@two.io"), Some("first@one.io".to_string()));
}

fn person(name: Option<&str>, email: Option<&str>) -> Contact {
    Contact { name: name.map(|s| s.to_string()), email: email.map(|s| s.to_string()) }
}

fn empty_item() -> FeedItem {
    FeedItem {
        title: None,
        link: None,
        author: None,
        author_detail: None,
        authors: Vec::new(),
        contributors: Vec::new(),
        content: Vec::new(),
        summary: None,
        updated: None,
        published: None,
    }
}

fn empty_header() -> FeedHeader {
    FeedHeader {
        author: None,
        author_detail: None,
        publisher: None,
        publisher_detail: None,
        authors: Vec::new(),
        contributors: Vec::new(),
    }
}

#[test]
fn sources_are_tried_in_order() {
    let mut item = empty_item();
    let mut header = empty_header();
    assert_eq!(find_story_email(&item, &header), None);
    header.publisher = Some("pub@feed.net".to_string());
    assert_eq!(find_story_email(&item, &header), Some("pub@feed.net".to_string()));
    header.contributors.push(person(Some("Helper <help@feed.net>"), None));
    assert_eq!(find_story_email(&item, &header), Some("help@feed.net".to_string()));
    item.contributors.push(person(None, Some("nobody")));
    item.contributors.push(person(Some("c@item.net"), Some("d@item.net")));
    assert_eq!(find_story_email(&item, &header), Some("d@item.net".to_string()));
    item.authors.push(person(Some("a@item.net"), None));
    assert_eq!(find_story_email(&item, &header), Some("a@item.net".to_string()));
    item.author_detail = Some(person(Some("Writer (w@item.net)"), Some("no address")));
    assert_eq!(find_story_email(&item, &header), Some("w@item.net".to_string()));
}
