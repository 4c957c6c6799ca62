use tinyfeeds::feed::{Contact, FeedDocument, FeedHeader, FeedItem};
use tinyfeeds::stories::{
    sample_story, select_stories, stories_from_feed_bytes, todays_stories, CivilDate, SAMPLE_HTML,
};

fn item(link: Option<&str>, updated: Option<i64>, published: Option<i64>) -> FeedItem {
    FeedItem {
        title: Some("T".to_string()),
        link: link.map(|s| s.to_string()),
        author: Some("Ann (ann@x.org)".to_string()),
        author_detail: None,
        authors: Vec::new(),
        contributors: Vec::<Contact>::new(),
        content: vec!["<p>a</p>".to_string(), "<p>b</p>".to_string()],
        summary: Some("sum".to_string()),
        updated,
        published,
    }
}

fn header() -> FeedHeader {
    FeedHeader {
        author: None,
        author_detail: None,
        publisher: None,
        publisher_detail: None,
        authors: Vec::new(),
        contributors: Vec::new(),
    }
}

const TODAY: CivilDate = CivilDate { year: 2024, month: 5, day: 6 };
const OTHER: CivilDate = CivilDate { year: 2024, month: 5, day: 5 };

#[test]
fn only_dated_unread_stories_of_today_are_kept() {
    let mut undated = item(Some("https://x/0"), None, None);
    undated.title = Some("undated".to_string());
    let mut old = item(Some("https://x/1"), Some(1), None);
    old.title = Some("old".to_string());
    let mut read = item(Some("https://x/2"), None, Some(2));
    read.title = Some("read".to_string());
    let mut fresh = item(Some("https://x/3"), Some(3), None);
    fresh.title = Some("fresh".to_string());
    let mut linkless = item(None, None, Some(4));
    linkless.content = Vec::new();
    let doc = FeedDocument { feed: header(), entries: vec![undated, old, read, fresh, linkless] };
    let dates = vec![Some(TODAY), Some(OTHER), Some(TODAY), Some(TODAY), Some(TODAY)];
    let stories = select_stories(&doc, &vec!["https://x/2".to_string(), "".to_string()], &dates, TODAY);
    assert_eq!(stories.len(), 2);
    assert_eq!(stories[0].title.as_deref(), Some("fresh"));
    assert_eq!(stories[0].url, "https://x/3");
    assert_eq!(stories[0].html, "<p>a</p><p>b</p>");
    assert_eq!(stories[0].author.as_deref(), Some("Ann (ann@x.org)"));
    assert_eq!(stories[0].contact.as_deref(), Some("ann@x.org"));
    assert_eq!(stories[1].url, "");
    assert_eq!(stories[1].html, "sum");
}

#[test]
fn unplaced_dates_are_not_today() {
    let doc = FeedDocument { feed: header(), entries: vec![item(Some("u"), Some(5), None)] };
    assert_eq!(select_stories(&doc, &Vec::new(), &vec![None], TODAY).len(), 0);
}

#[test]
fn bytes_that_are_no_feed_give_no_stories() {
    assert!(stories_from_feed_bytes(b"this is not a feed", &Vec::new()).is_empty());
    assert!(stories_from_feed_bytes(b"", &Vec::new()).is_empty());
}

#[test]
fn stories_of_a_parsed_feed_are_today_only() {
    let xml = r#"<?xml version="1.0"?><rss version="2.0"><channel><title>C</title>
<item><title>Old</title><link>http://e/old</link><pubDate>Mon, 01 Jan 2001 00:00:00 GMT</pubDate></item>
</channel></rss>"#;
    assert!(stories_from_feed_bytes(xml.as_bytes(), &Vec::new()).is_empty());
}

#[test]
fn a_story_stamped_now_is_of_today() {
    let now = std::time::SystemTime::now()
        .duration_since(std::time::UNIX_EPOCH)
        .unwrap()
        .as_secs() as i64;
    let doc = FeedDocument {
        feed: header(),
        entries: vec![item(Some("https://x/now"), Some(now), None), item(Some("https://x/old"), None, Some(978307200))],
    };
    let stories = todays_stories(&doc, &Vec::new());
    assert_eq!(stories.len(), 1);
    assert_eq!(stories[0].url, "https://x/now");
    assert!(todays_stories(&doc, &vec!["https://x/now".to_string()]).is_empty());
}

#[test]
fn the_sample_story() {
    let s = sample_story();
    assert_eq!(s.title.as_deref(), Some("Just a test article"));
    assert_eq!(s.author.as_deref(), Some("Alex White"));
    assert_eq!(s.url, "https://thatalexguy.dev");
    assert_eq!(s.contact.as_deref(), Some("hi@thatalexguy.dev"));
    assert_eq!(s.html, SAMPLE_HTML);
    assert!(s.html.starts_with("<p><strong>This is a sample story"));
}

#[test]
fn a_fetched_feed_gives_todays_stories() {
    let now = chrono::Utc::now().to_rfc2822();
    let xml = format!(
        r#"<?xml version="1.0"?><rss version="2.0"><channel><title>C</title>
<managingEditor>editor@example.com (Ed)</managingEditor>
<item><title>New</title><link>http://e/new</link><description>Fresh text</description><pubDate>{now}</pubDate></item>
<item><title>Read</title><link>http://e/read</link><pubDate>{now}</pubDate></item>
<item><title>Old</title><link>http://e/old</link><pubDate>Mon, 01 Jan 2001 00:00:00 GMT</pubDate></item>
</channel></rss>"#
    );
    let stories = stories_from_feed_bytes(xml.as_bytes(), &vec!["http://e/read".to_string()]);
    assert_eq!(stories.len(), 1);
    assert_eq!(stories[0].title.as_deref(), Some("New"));
    assert_eq!(stories[0].url, "http://e/new");
    assert_eq!(stories[0].html, "Fresh text");
    assert_eq!(stories[0].contact.as_deref(), Some("editor@example.com"));
}

#[test]
fn timestamps_beyond_the_calendar_are_never_today() {
    let doc = FeedDocument {
        feed: header(),
        entries: vec![
            item(Some("https://x/far"), Some(i64::MAX), None),
            item(Some("https://x/edge"), Some(8_210_298_412_799), None),
            item(Some("https://x/past"), None, Some(i64::MIN)),
        ],
    };
    assert!(todays_stories(&doc, &Vec::new()).is_empty());
}

#[test]
fn the_update_date_comes_before_the_publication_date() {
    let now = std::time::SystemTime::now()
        .duration_since(std::time::UNIX_EPOCH)
        .unwrap()
        .as_secs() as i64;
    let doc = FeedDocument {
        feed: header(),
        entries: vec![
            item(Some("https://x/updated-now"), Some(now), Some(978307200)),
            item(Some("https://x/updated-long-ago"), Some(978307200), Some(now)),
        ],
    };
    let stories = todays_stories(&doc, &Vec::new());
    assert_eq!(stories.len(), 1);
    assert_eq!(stories[0].url, "https://x/updated-now");
}
