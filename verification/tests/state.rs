use tinyfeeds::models::{Story, Theme};
use tinyfeeds::state::{stories_left, AppMessage, AppState, Page};

fn story(title: Option<&str>, author: Option<&str>, url: &str, contact: Option<&str>) -> Story {
    Story {
        author: author.map(|s| s.to_string()),
        title: title.map(|s| s.to_string()),
        url: url.to_string(),
        html: String::new(),
        contact: contact.map(|s| s.to_string()),
    }
}

#[test]
fn subtitles_count_down() {
    assert_eq!(stories_left(3, 5), "3 of 5 stories left");
    assert_eq!(stories_left(10, 12), "10 of 12 stories left");
    assert_eq!(stories_left(0, 2), "0 of 2 stories left");
    assert_eq!(stories_left(1, 1), "1 story left");
    assert_eq!(stories_left(0, 1), "No stories left");
    assert_eq!(stories_left(1, 0), "1 story left");
}

#[test]
fn pages_follow_the_state() {
    let mut s = AppState::new(Vec::new(), Vec::new(), false, Theme::System);
    assert_eq!(s.reader_view().page, Page::Empty);
    s.feeds.push("https://feed.example/rss".to_string());
    assert_eq!(s.reader_view().page, Page::Loading);
    s.apply_message(AppMessage::FetchFailed("offline".to_string()));
    assert!(!s.loading);
    let v = s.reader_view();
    assert_eq!(v.page, Page::Done);
    assert_eq!(v.subtitle, "");
    assert!(!v.show_email_author && !v.show_open_in_browser);
}

#[test]
fn reading_through_the_fetched_stories() {
    let mut s = AppState::new(vec!["f".to_string()], Vec::new(), false, Theme::Dark);
    s.apply_message(AppMessage::StoriesFetched(vec![
        story(Some("One"), Some("Ann"), "https://x/1", Some("a@x.org")),
        story(None, None, "", None),
    ]));
    assert_eq!(s.org_story_count, 2);
    let v = s.reader_view();
    assert_eq!(v.page, Page::Reader);
    assert_eq!(v.title, "One");
    assert_eq!(v.author_line, Some("By Ann".to_string()));
    assert!(v.show_email_author && v.show_open_in_browser);
    assert_eq!(v.subtitle, "2 of 2 stories left");
    assert_eq!(s.image_base_url(), Some("https://x/1".to_string()));

    let done = s.next_story().unwrap();
    assert_eq!(done.url, "https://x/1");
    let v = s.reader_view();
    assert_eq!(v.title, "Untitled");
    assert_eq!(v.author_line, None);
    assert!(!v.show_email_author && !v.show_open_in_browser);
    assert_eq!(v.subtitle, "1 of 2 stories left");
    assert_eq!((v.remaining, v.total), (1, 2));

    assert!(s.next_story().is_some());
    assert!(s.next_story().is_none());
    assert_eq!(s.reader_view().page, Page::Done);
    assert_eq!(s.image_base_url(), None);
    s.set_theme(Theme::Sepia);
    assert_eq!(s.theme, Theme::Sepia);
}

#[test]
fn image_messages_leave_the_state() {
    let mut s = AppState::new(vec!["f".to_string()], Vec::new(), true, Theme::Light);
    s.apply_message(AppMessage::ImageDownloaded { url: "u".to_string(), bytes: vec![1, 2] });
    assert!(s.loading);
    s.apply_message(AppMessage::ImageDownloadFailed { url: "u".to_string(), error: "e".to_string() });
    assert!(s.loading);
    assert_eq!(s.stories.len(), 0);
}
