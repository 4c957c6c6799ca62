use tinyfeeds::config::{
    choose_editor, config_relative_path, line_text, split_lines, theme_file_text, theme_from_lines,
};
use tinyfeeds::models::Theme;

fn strings(v: &[&str]) -> Vec<String> {
    v.iter().map(|s| s.to_string()).collect()
}

#[test]
fn lines_are_cut_at_line_feeds() {
    assert_eq!(split_lines(""), Vec::<String>::new());
    assert_eq!(split_lines("a"), strings(&["a"]));
    assert_eq!(split_lines("a\n"), strings(&["a"]));
    assert_eq!(split_lines("a\nb"), strings(&["a", "b"]));
    assert_eq!(split_lines("\n"), strings(&[""]));
    assert_eq!(split_lines("a\n\nb\n"), strings(&["a", "", "b"]));
}

#[test]
fn carriage_returns_go_only_with_their_line_feed() {
    assert_eq!(split_lines("a\r\nb\r\n"), strings(&["a", "b"]));
    assert_eq!(split_lines("a\r"), strings(&["a\r"]));
    assert_eq!(split_lines("\r\n"), strings(&[""]));
}

#[test]
fn saved_themes_read_back() {
    for t in [Theme::System, Theme::Light, Theme::Sepia, Theme::Dark] {
        let text = theme_file_text(t);
        assert_eq!(text, format!("{}\n", t.to_str()));
        assert_eq!(theme_from_lines(&split_lines(&text)), t);
    }
}

#[test]
fn theme_file_first_line_trimmed() {
    assert_eq!(theme_from_lines(&strings(&["  dark \t", "light"])), Theme::Dark);
    assert_eq!(theme_from_lines(&strings(&["Dark"])), Theme::System);
    assert_eq!(theme_from_lines(&strings(&[])), Theme::System);
    assert_eq!(theme_from_lines(&strings(&["", "sepia"])), Theme::System);
}

#[test]
fn theme_names() {
    assert_eq!(Theme::System.to_str(), "system");
    assert_eq!(Theme::Light.to_str(), "light");
    assert_eq!(Theme::Sepia.to_str(), "sepia");
    assert_eq!(Theme::Dark.to_str(), "dark");
    assert_eq!(Theme::from_str("light"), Theme::Light);
    assert_eq!(Theme::from_str("sepia"), Theme::Sepia);
    assert_eq!(Theme::from_str("dark"), Theme::Dark);
    assert_eq!(Theme::from_str("system"), Theme::System);
    assert_eq!(Theme::from_str("purple"), Theme::System);
    assert_eq!(Theme::from_str(""), Theme::System);
}

#[test]
fn marked_story_is_read_after_reload() {
    let mut log = String::from("https://a.example/1\n");
    log.push_str(&line_text("https://b.example/2"));
    let read = split_lines(&log);
    assert_eq!(read, strings(&["https://a.example/1", "https://b.example/2"]));
}

#[test]
fn configuration_paths_and_editor() {
    assert_eq!(config_relative_path("feeds.txt"), ".config/tinyfeeds/feeds.txt");
    assert_eq!(choose_editor(Some("vim".into()), Some("nano".into())), "vim");
    assert_eq!(choose_editor(None, Some("nano".into())), "nano");
    assert_eq!(choose_editor(None, None), "xdg-open");
}
