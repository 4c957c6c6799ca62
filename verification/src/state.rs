//! The reader's state, the events that change it, and what the window shows of it.
use vstd::prelude::*;
use crate::email::opt_view;
use crate::models::{Story, Theme};
use crate::text::{decimal, decimal_string};

verus! {

/// A message from the background work that fetches feeds and images.
pub enum AppMessage {
    StoriesFetched(Vec<Story>),
    FetchFailed(String),
    ImageDownloaded { url: String, bytes: Vec<u8> },
    ImageDownloadFailed { url: String, error: String },
}

/// The state of the reader.
pub struct AppState {
    pub feeds: Vec<String>,
    /// The stories still to read, the shown one first.
    pub stories: Vec<Story>,
    pub read_stories: Vec<String>,
    /// How many stories the last fetch brought.
    pub org_story_count: usize,
    pub dev_mode: bool,
    pub loading: bool,
    pub theme: Theme,
}

/// The page of the window.
#[derive(Debug, Clone, Copy, PartialEq, Eq, Structural)]
pub enum Page {
    /// No feeds are configured.
    Empty,
    /// Stories are being fetched.
    Loading,
    /// Every story has been read.
    Done,
    /// A story is shown.
    Reader,
}

/// What the window shows of the state.
pub struct ReaderView {
    pub page: Page,
    /// The shown story's title.
    pub title: String,
    /// The byline of the shown story, when it names an author.
    pub author_line: Option<String>,
    pub show_email_author: bool,
    pub show_open_in_browser: bool,
    pub subtitle: String,
    /// Stories left, the shown one included.
    pub remaining: usize,
    /// Stories that the last fetch brought.
    pub total: usize,
}

impl AppState {
    /// The state's invariant: no more stories are left than were fetched.
    pub open spec fn wf(&self) -> bool {
        self.stories.len() <= self.org_story_count
    }

    /// A reader that has just started: loading, with no stories yet.
    pub fn new(feeds: Vec<String>, read_stories: Vec<String>, dev_mode: bool, theme: Theme) -> (s:
        AppState)
        ensures
            s.wf(),
            s.feeds == feeds,
            s.read_stories == read_stories,
            s.dev_mode == dev_mode,
            s.theme == theme,
            s.loading,
            s.stories@.len() == 0,
            s.org_story_count == 0,
    {
        AppState {
            feeds,
            stories: Vec::new(),
            read_stories,
            org_story_count: 0,
            dev_mode,
            loading: true,
            theme,
        }
    }

    /// Takes in a message: fetched stories replace the list and set the count that
    /// progress is measured against; a failed fetch only ends loading; image
    /// messages leave the state as it is.
    pub fn apply_message(&mut self, msg: AppMessage)
        ensures
            old(self).wf() ==> final(self).wf(),
            final(self).feeds == old(self).feeds,
            final(self).read_stories == old(self).read_stories,
            final(self).dev_mode == old(self).dev_mode,
            final(self).theme == old(self).theme,
            match msg {
                AppMessage::StoriesFetched(v) => {
                    &&& final(self).wf()
                    &&& final(self).stories@ == v@
                    &&& final(self).org_story_count == v@.len()
                    &&& !final(self).loading
                },
                AppMessage::FetchFailed(_) => {
                    &&& final(self).stories@ == old(self).stories@
                    &&& final(self).org_story_count == old(self).org_story_count
                    &&& !final(self).loading
                },
                _ => {
                    &&& final(self).stories@ == old(self).stories@
                    &&& final(self).org_story_count == old(self).org_story_count
                    &&& final(self).loading == old(self).loading
                },
            },
    {
        match msg {
            AppMessage::StoriesFetched(v) => {
                self.stories = v;
                self.org_story_count = self.stories.len();
                self.loading = false;
            },
            AppMessage::FetchFailed(_) => {
                self.loading = false;
            },
            _ => {},
        }
    }

    /// Moves on to the next story: the shown one, if any, leaves the list and is
    /// handed back so that it can be marked as read.
    pub fn next_story(&mut self) -> (done: Option<Story>)
        ensures
            old(self).wf() ==> final(self).wf(),
            final(self).feeds == old(self).feeds,
            final(self).read_stories == old(self).read_stories,
            final(self).org_story_count == old(self).org_story_count,
            final(self).loading == old(self).loading,
            final(self).dev_mode == old(self).dev_mode,
            final(self).theme == old(self).theme,
            old(self).stories@.len() == 0 ==> done is None && final(self).stories@ == old(
                self,
            ).stories@,
            old(self).stories@.len() > 0 ==> done == Some(old(self).stories@[0])
                && final(self).stories@ == old(self).stories@.drop_first(),
    {
        if self.stories.len() == 0 {
            None
        } else {
            let s = self.stories.remove(0);
            assert(self.stories@ =~= old(self).stories@.drop_first());
            Some(s)
        }
    }

    /// The address that relative image links of the shown story are resolved
    /// against: the shown story's link.
    pub fn image_base_url(&self) -> (u: Option<String>)
        ensures
            self.stories@.len() == 0 ==> u is None,
            self.stories@.len() > 0 ==> opt_view(u) == Some(self.stories@[0].url@),
    {
        if self.stories.len() == 0 {
            None
        } else {
            Some(self.stories[0].url.clone())
        }
    }

    /// Chooses the theme.
    pub fn set_theme(&mut self, theme: Theme)
        ensures
            final(self).theme == theme,
            final(self).feeds == old(self).feeds,
            final(self).stories == old(self).stories,
            final(self).read_stories == old(self).read_stories,
            final(self).org_story_count == old(self).org_story_count,
            final(self).loading == old(self).loading,
            final(self).dev_mode == old(self).dev_mode,
    {
        self.theme = theme;
    }

    /// What the window shows: see `page_for`, `story_title`, `story_byline` and
    /// `subtitle_text`; nothing but the page is shown outside the reader page.
    pub fn reader_view(&self) -> (v: ReaderView)
        ensures
            v.page == page_for(self.feeds@.len() > 0, self.loading, self.stories@.len() > 0),
            v.remaining == self.stories@.len(),
            v.total == self.org_story_count,
            v.page == Page::Reader ==> {
                let st = self.stories@[0];
                &&& v.title@ == story_title(st)
                &&& opt_view(v.author_line) == story_byline(st)
                &&& v.show_email_author == st.contact is Some
                &&& v.show_open_in_browser == (st.url@.len() > 0)
                &&& v.subtitle@ == subtitle_text(
                    self.stories@.len() as nat,
                    self.org_story_count as nat,
                )
            },
            v.page != Page::Reader ==> {
                &&& v.title@.len() == 0
                &&& v.author_line is None
                &&& !v.show_email_author
                &&& !v.show_open_in_browser
                &&& v.subtitle@.len() == 0
            },
    {
        let page = if self.feeds.len() == 0 {
            Page::Empty
        } else if self.loading {
            Page::Loading
        } else if self.stories.len() == 0 {
            Page::Done
        } else {
            Page::Reader
        };
        if page != Page::Reader {
            return ReaderView {
                page,
                title: String::new(),
                author_line: None,
                show_email_author: false,
                show_open_in_browser: false,
                subtitle: String::new(),
                remaining: self.stories.len(),
                total: self.org_story_count,
            };
        }
        let st = &self.stories[0];
        ReaderView {
            page,
            title: title_of(st),
            author_line: byline_of(st),
            show_email_author: st.contact.is_some(),
            show_open_in_browser: !st.url.as_str().is_empty(),
            subtitle: stories_left(self.stories.len(), self.org_story_count),
            remaining: self.stories.len(),
            total: self.org_story_count,
        }
    }
}

/// The page for a reader with or without feeds, loading or not, with or without
/// stories left.
pub open spec fn page_for(has_feeds: bool, loading: bool, has_stories: bool) -> Page {
    if !has_feeds {
        Page::Empty
    } else if loading {
        Page::Loading
    } else if !has_stories {
        Page::Done
    } else {
        Page::Reader
    }
}

/// A story's title, `Untitled` when it has none.
pub open spec fn story_title(st: Story) -> Seq<char> {
    match st.title {
        Some(t) => t@,
        None => "Untitled"@,
    }
}

/// A story's byline, `By ` and its author, when it names one.
pub open spec fn story_byline(st: Story) -> Option<Seq<char>> {
    match st.author {
        Some(a) => Some("By "@ + a@),
        None => None,
    }
}

/// The window's subtitle while reading: with at most one story fetched, `1 story
/// left` or `No stories left`; otherwise `R of T stories left`.
pub open spec fn subtitle_text(remaining: nat, total: nat) -> Seq<char> {
    if total <= 1 {
        if remaining == 1 {
            "1 story left"@
        } else {
            "No stories left"@
        }
    } else {
        decimal(remaining) + " of "@ + decimal(total) + " stories left"@
    }
}

fn title_of(st: &Story) -> (t: String)
    ensures
        t@ == story_title(*st),
{
    match &st.title {
        Some(t) => t.clone(),
        None => {
            let mut s = String::new();
            s.append("Untitled");
            s
        },
    }
}

fn byline_of(st: &Story) -> (b: Option<String>)
    ensures
        opt_view(b) == story_byline(*st),
{
    match &st.author {
        Some(a) => {
            let mut s = String::new();
            s.append("By ");
            s.append(a.as_str());
            Some(s)
        },
        None => None,
    }
}

/// The subtitle for `remaining` of `total` stories left.
pub fn stories_left(remaining: usize, total: usize) -> (s: String)
    ensures
        s@ == subtitle_text(remaining as nat, total as nat),
{
    let mut s = String::new();
    if total <= 1 {
        if remaining == 1 {
            s.append("1 story left");
        } else {
            s.append("No stories left");
        }
    } else {
        s = decimal_string(remaining as u64);
        s.append(" of ");
        let t = decimal_string(total as u64);
        s.append(t.as_str());
        s.append(" stories left");
    }
    s
}

} // verus!
