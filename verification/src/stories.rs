//! Choosing, from a parsed feed, the stories of the day that are still unread.
use vstd::prelude::*;
use chrono::Datelike;
use crate::email::opt_view;
use crate::feed::{
    clone_opt, email_sources, find_story_email, first_found, parse_feed, parsed_document, FeedDocument,
    FeedHeader, FeedItem,
};
use crate::models::Story;

verus! {

/// A calendar date.
#[derive(Debug, Clone, Copy, PartialEq, Eq, Structural)]
pub struct CivilDate {
    pub year: i32,
    pub month: u32,
    pub day: u32,
}

/// The date that stands for an entry: its update, else its publication.
pub open spec fn dated(e: FeedItem) -> Option<i64> {
    match e.updated {
        Some(t) => Some(t),
        None => e.published,
    }
}

/// An entry's link, empty when it has none.
pub open spec fn link_or_empty(e: FeedItem) -> Seq<char> {
    match e.link {
        Some(l) => l@,
        None => Seq::empty(),
    }
}

/// The strings of `s` joined end to end.
pub open spec fn concat_all(s: Seq<String>) -> Seq<char>
    decreases s.len(),
{
    if s.len() == 0 {
        Seq::empty()
    } else {
        concat_all(s.drop_last()) + s.last()@
    }
}

/// A story's body: its content elements joined, or its summary when they are empty.
pub open spec fn body_of(e: FeedItem) -> Seq<char> {
    let c = concat_all(e.content@);
    if c.len() == 0 {
        match e.summary {
            Some(s) => s@,
            None => c,
        }
    } else {
        c
    }
}

/// A non-empty link that the list of read stories holds.
pub open spec fn already_read(url: Seq<char>, read: Seq<String>) -> bool {
    url.len() > 0 && exists|i: int| 0 <= i < read.len() && #[trigger] read[i]@ == url
}

/// An entry is kept when it is dated, not read yet, and its date (in local time)
/// is today.
pub open spec fn is_kept(
    e: FeedItem,
    read: Seq<String>,
    date: Option<CivilDate>,
    today: CivilDate,
) -> bool {
    &&& dated(e) is Some
    &&& !already_read(link_or_empty(e), read)
    &&& date == Some(today)
}

/// The local date of entry `i`, `None` where `dates` has none for it.
pub open spec fn date_at(dates: Seq<Option<CivilDate>>, i: int) -> Option<CivilDate> {
    if 0 <= i < dates.len() {
        dates[i]
    } else {
        None
    }
}

/// The positions, among the first `n` entries, of those that are kept.
pub open spec fn kept_positions(
    entries: Seq<FeedItem>,
    read: Seq<String>,
    dates: Seq<Option<CivilDate>>,
    today: CivilDate,
    n: int,
) -> Seq<int>
    decreases n,
{
    if n <= 0 {
        Seq::empty()
    } else {
        let before = kept_positions(entries, read, dates, today, n - 1);
        if is_kept(entries[n - 1], read, date_at(dates, n - 1), today) {
            before.push(n - 1)
        } else {
            before
        }
    }
}

/// `st` is the story that the reader makes of entry `e` of feed `f`.
pub open spec fn story_of(st: Story, e: FeedItem, f: FeedHeader) -> bool {
    &&& opt_view(st.author) == opt_view(e.author)
    &&& opt_view(st.title) == opt_view(e.title)
    &&& st.url@ == link_or_empty(e)
    &&& st.html@ == body_of(e)
    &&& opt_view(st.contact) == first_found(email_sources(e, f))
}

/// `stories` are, in order, the stories of the kept entries of `doc`.
pub open spec fn selected(
    stories: Seq<Story>,
    doc: FeedDocument,
    read: Seq<String>,
    dates: Seq<Option<CivilDate>>,
    today: CivilDate,
) -> bool {
    let ks = kept_positions(doc.entries@, read, dates, today, doc.entries@.len() as int);
    &&& stories.len() == ks.len()
    &&& forall|i: int|
        0 <= i < ks.len() ==> story_of(#[trigger] stories[i], doc.entries@[ks[i]], doc.feed)
}

/// Every position chosen among the first `n` entries is one of them, and kept.
proof fn lemma_kept_positions(
    entries: Seq<FeedItem>,
    read: Seq<String>,
    dates: Seq<Option<CivilDate>>,
    today: CivilDate,
    n: int,
)
    ensures
        forall|k: int|
            0 <= k < kept_positions(entries, read, dates, today, n).len() ==> {
                let e = #[trigger] kept_positions(entries, read, dates, today, n)[k];
                &&& 0 <= e < n
                &&& is_kept(entries[e], read, date_at(dates, e), today)
            },
    decreases n,
{
    if n > 0 {
        lemma_kept_positions(entries, read, dates, today, n - 1);
        let before = kept_positions(entries, read, dates, today, n - 1);
        let now = kept_positions(entries, read, dates, today, n);
        assert forall|k: int| 0 <= k < now.len() implies {
            let e = #[trigger] now[k];
            &&& 0 <= e < n
            &&& is_kept(entries[e], read, date_at(dates, e), today)
        } by {
            if k < before.len() {
                assert(now[k] == before[k]);
            }
        }
    }
}

/// The stories shown are those of today that are not read yet: each comes from
/// an entry that is dated, whose local date is today, and whose link the list of
/// read stories does not hold.
pub proof fn shown_stories_law(
    stories: Seq<Story>,
    doc: FeedDocument,
    read: Seq<String>,
    dates: Seq<Option<CivilDate>>,
    today: CivilDate,
    i: int,
)
    requires
        selected(stories, doc, read, dates, today),
        0 <= i < stories.len(),
    ensures
        !already_read(stories[i].url@, read),
        exists|k: int|
            #![trigger doc.entries@[k]]
            0 <= k < doc.entries@.len() && date_at(dates, k) == Some(today) && dated(doc.entries@[k]) is Some
                && story_of(stories[i], doc.entries@[k], doc.feed),
{
    let n = doc.entries@.len() as int;
    lemma_kept_positions(doc.entries@, read, dates, today, n);
    let ks = kept_positions(doc.entries@, read, dates, today, n);
    let k = ks[i];
    assert(is_kept(doc.entries@[k], read, date_at(dates, k), today));
    assert(story_of(stories[i], doc.entries@[k], doc.feed));
}

/// Whether `url` is non-empty and among `read`.
/// An entry that must be shown, whatever its title: dated, dated today (in local
/// time), and with a link that is empty or not in the read list.
pub open spec fn due_today(
    e: FeedItem,
    read: Seq<String>,
    date: Option<CivilDate>,
    today: CivilDate,
) -> bool {
    &&& (e.updated is Some || e.published is Some)
    &&& date == Some(today)
    &&& forall|j: int| 0 <= j < read.len() && link_or_empty(e).len() > 0 ==> #[trigger] read[j]@
        != link_or_empty(e)
}

/// How many of the first `n` entries are due today.
pub open spec fn due_count(
    entries: Seq<FeedItem>,
    read: Seq<String>,
    dates: Seq<Option<CivilDate>>,
    today: CivilDate,
    n: int,
) -> nat
    decreases n,
{
    if n <= 0 {
        0
    } else {
        due_count(entries, read, dates, today, n - 1) + if due_today(
            entries[n - 1],
            read,
            date_at(dates, n - 1),
            today,
        ) {
            1nat
        } else {
            0nat
        }
    }
}

proof fn lemma_kept_is_due(e: FeedItem, read: Seq<String>, date: Option<CivilDate>, today: CivilDate)
    ensures
        is_kept(e, read, date, today) <==> due_today(e, read, date, today),
{
    if !already_read(link_or_empty(e), read) {
        assert forall|j: int|
            0 <= j < read.len() && link_or_empty(e).len() > 0 implies #[trigger] read[j]@
            != link_or_empty(e) by {}
    }
}

/// The kept positions are exactly the due entries, in increasing order.
proof fn lemma_kept_due(
    entries: Seq<FeedItem>,
    read: Seq<String>,
    dates: Seq<Option<CivilDate>>,
    today: CivilDate,
    n: int,
)
    requires
        0 <= n <= entries.len(),
    ensures
        kept_positions(entries, read, dates, today, n).len() == due_count(entries, read, dates, today, n),
        forall|k: int|
            0 <= k < n && due_today(entries[k], read, date_at(dates, k), today) ==> exists|i: int|
                0 <= i < kept_positions(entries, read, dates, today, n).len() && #[trigger] kept_positions(
                    entries,
                    read,
                    dates,
                    today,
                    n,
                )[i] == k,
    decreases n,
{
    if n > 0 {
        lemma_kept_due(entries, read, dates, today, n - 1);
        lemma_kept_is_due(entries[n - 1], read, date_at(dates, n - 1), today);
        let before = kept_positions(entries, read, dates, today, n - 1);
        let now = kept_positions(entries, read, dates, today, n);
        assert forall|k: int|
            0 <= k < n && due_today(entries[k], read, date_at(dates, k), today) implies exists|i: int|
                0 <= i < now.len() && #[trigger] now[i] == k by {
            if k < n - 1 {
                let i = choose|i: int| 0 <= i < before.len() && #[trigger] before[i] == k;
                assert(now[i] == before[i]);
            } else {
                assert(now[before.len() as int] == n - 1);
            }
        }
    }
}

/// Every entry due today is shown, whatever its title: the stories chosen are as
/// many as the entries that are dated, dated today and not read, and each such
/// entry has its story among them.
pub proof fn every_due_entry_is_shown_law(
    stories: Seq<Story>,
    doc: FeedDocument,
    read: Seq<String>,
    dates: Seq<Option<CivilDate>>,
    today: CivilDate,
)
    requires
        selected(stories, doc, read, dates, today),
    ensures
        stories.len() == due_count(doc.entries@, read, dates, today, doc.entries@.len() as int),
        forall|k: int|
            0 <= k < doc.entries@.len() && due_today(doc.entries@[k], read, date_at(dates, k), today)
                ==> exists|i: int|
                0 <= i < stories.len() && #[trigger] story_of(stories[i], doc.entries@[k], doc.feed),
{
    let n = doc.entries@.len() as int;
    lemma_kept_due(doc.entries@, read, dates, today, n);
    let ks = kept_positions(doc.entries@, read, dates, today, n);
    assert forall|k: int|
        0 <= k < n && due_today(doc.entries@[k], read, date_at(dates, k), today) implies exists|i: int|
        0 <= i < stories.len() && #[trigger] story_of(stories[i], doc.entries@[k], doc.feed) by {
        let i = choose|i: int| 0 <= i < ks.len() && #[trigger] ks[i] == k;
        assert(story_of(stories[i], doc.entries@[ks[i]], doc.feed));
    }
}

fn is_read(url: &String, read: &Vec<String>) -> (b: bool)
    ensures
        b == already_read(url@, read@),
{
    if url.as_str().is_empty() {
        return false;
    }
    let mut i: usize = 0;
    while i < read.len()
        invariant
            i <= read.len(),
            url@.len() > 0,
            forall|j: int| 0 <= j < i ==> read@[j]@ != url@,
        decreases read.len() - i,
    {
        if read[i] == *url {
            assert(read@[i as int]@ == url@);
            return true;
        }
        i = i + 1;
    }
    false
}

/// The strings of `parts` joined end to end.
fn join_all(parts: &Vec<String>) -> (s: String)
    ensures
        s@ == concat_all(parts@),
{
    let mut s = String::new();
    let mut i: usize = 0;
    assert(parts@.take(0) =~= Seq::<String>::empty());
    while i < parts.len()
        invariant
            i <= parts.len(),
            s@ == concat_all(parts@.take(i as int)),
        decreases parts.len() - i,
    {
        s.append(parts[i].as_str());
        assert(parts@.take(i + 1).drop_last() =~= parts@.take(i as int));
        i = i + 1;
    }
    assert(parts@.take(parts.len() as int) =~= parts@);
    s
}

/// The story that the reader makes of entry `e` of a feed with header `f`.
pub fn make_story(e: &FeedItem, f: &FeedHeader) -> (st: Story)
    ensures
        story_of(st, *e, *f),
{
    let mut html = join_all(&e.content);
    if html.as_str().is_empty() {
        if let Some(summary) = &e.summary {
            html = summary.clone();
        }
    }
    let url = match &e.link {
        Some(l) => l.clone(),
        None => String::new(),
    };
    Story {
        author: clone_opt(&e.author),
        title: clone_opt(&e.title),
        url,
        html,
        contact: find_story_email(e, f),
    }
}

/// The stories of the entries of `doc` that are dated, not read yet (their link is
/// empty or not in `read`) and dated today, where `dates[i]` is the local date of
/// entry `i` (`None` where it has no date that can be placed, or where `dates`
/// is too short).
pub fn select_stories(
    doc: &FeedDocument,
    read: &Vec<String>,
    dates: &Vec<Option<CivilDate>>,
    today: CivilDate,
) -> (stories: Vec<Story>)
    ensures
        selected(stories@, *doc, read@, dates@, today),
        stories@.len() == due_count(doc.entries@, read@, dates@, today, doc.entries@.len() as int),
{
    let mut stories: Vec<Story> = Vec::new();
    let mut i: usize = 0;
    while i < doc.entries.len()
        invariant
            i <= doc.entries.len(),
            ({
                let ks = kept_positions(doc.entries@, read@, dates@, today, i as int);
                &&& stories@.len() == ks.len()
                &&& forall|j: int|
                    0 <= j < ks.len() ==> story_of(
                        #[trigger] stories@[j],
                        doc.entries@[ks[j]],
                        doc.feed,
                    )
            }),
        decreases doc.entries.len() - i,
    {
        let e = &doc.entries[i];
        let is_dated = e.updated.is_some() || e.published.is_some();
        let fresh = match &e.link {
            Some(l) => !is_read(l, read),
            None => true,
        };
        let today_ok = if i < dates.len() {
            match dates[i] {
                Some(d) => d == today,
                None => false,
            }
        } else {
            false
        };
        let ghost ks = kept_positions(doc.entries@, read@, dates@, today, i as int);
        if is_dated && fresh && today_ok {
            let st = make_story(e, &doc.feed);
            stories.push(st);
            assert(kept_positions(doc.entries@, read@, dates@, today, i + 1) == ks.push(i as int));
        }
        i = i + 1;
    }
    proof {
        every_due_entry_is_shown_law(stories@, *doc, read@, dates@, today);
    }
    stories
}

/// The proleptic Gregorian date `(year, month, day)` of the day that holds second
/// `s`, counted from 1970-01-01 00:00:00 (the days-from-civil count, inverted).
pub open spec fn civil_of_seconds(s: int) -> (int, int, int) {
    let z = s / 86400 + 719468;
    let era = z / 146097;
    let doe = z - era * 146097;
    let yoe = (doe - doe / 1460 + doe / 36524 - doe / 146096) / 365;
    let doy = doe - (365 * yoe + yoe / 4 - yoe / 100);
    let mp = (5 * doy + 2) / 153;
    let day = doy - (153 * mp + 2) / 5 + 1;
    let month = if mp < 10 {
        mp + 3
    } else {
        mp - 9
    };
    let year = yoe + era * 400 + if month <= 2 {
        1int
    } else {
        0int
    };
    (year, month, day)
}

/// `d` is the date of the second `t + o`: of `t` seen at a clock `o` seconds ahead
/// of UTC.
pub open spec fn is_date_at_offset(d: CivilDate, t: int, o: int) -> bool {
    civil_of_seconds(t + o) == (d.year as int, d.month as int, d.day as int)
}

/// `d` is the date of timestamp `t` in some time zone: at an offset from UTC of
/// less than a day, as every offset of `chrono` is.
pub open spec fn is_local_date_of(d: CivilDate, t: int) -> bool {
    exists|o: int| -86400 < o < 86400 && #[trigger] is_date_at_offset(d, t, o)
}

/// Timestamps whose local date `chrono` can represent at any offset: its dates
/// run from -262143-01-01 to 262142-12-31, and a day is kept clear at each end.
pub open spec fn in_local_range(t: int) -> bool {
    -8_334_601_228_800 <= t <= 8_210_266_790_399
}

/// The local date that stands for entry `e`: `None` when it is undated or its
/// timestamp lies outside `in_local_range`, else the date of its update (else its
/// publication) in the local time zone.
pub open spec fn date_fits(e: FeedItem, d: Option<CivilDate>) -> bool {
    match dated(e) {
        None => d is None,
        Some(t) => if in_local_range(t as int) {
            d matches Some(c) && is_local_date_of(c, t as int)
        } else {
            d is None
        },
    }
}

/// The local calendar date of a Unix timestamp, by `chrono`
/// (`DateTime::from_timestamp`, then `with_timezone(&Local)` and `date_naive`).
/// Claimed: the result is the date of `ts` at some offset from UTC of less than a
/// day (`chrono`'s offsets are `FixedOffset`s, which are), and a month lies in
/// 1..=12 and a day in 1..=31. Which offset depends on the machine's time zone and
/// is not claimed. The range of `ts` keeps `date_naive` from panicking.
#[verifier::external_body]
fn local_date_of(ts: i64) -> (d: Option<CivilDate>)
    requires
        in_local_range(ts as int),
    ensures
        d is Some,
        d matches Some(c) ==> is_local_date_of(c, ts as int) && 1 <= c.month <= 12 && 1 <= c.day
            <= 31,
{
    chrono::DateTime::from_timestamp(ts, 0).map(|t| t.with_timezone(&chrono::Local).date_naive()).map(
        |n| CivilDate { year: n.year(), month: n.month(), day: n.day() },
    )
}

/// Today's date in the machine's local time zone, by `chrono::Local::now`. It
/// depends on the clock; only the month and day ranges are claimed.
#[verifier::external_body]
fn local_today() -> (d: CivilDate)
    ensures
        1 <= d.month <= 12 && 1 <= d.day <= 31,
{
    let n = chrono::Local::now().date_naive();
    CivilDate { year: n.year(), month: n.month(), day: n.day() }
}

/// Today's unread stories of `doc`: those that `select_stories` chooses with, for
/// each entry, the local date of its update, else of its publication (`date_fits`),
/// and with today's local date. Which time zone and which day it is come from the
/// machine and are not fixed.
pub fn todays_stories(doc: &FeedDocument, read: &Vec<String>) -> (stories: Vec<Story>)
    ensures
        exists|dates: Seq<Option<CivilDate>>, today: CivilDate|
            #![trigger selected(stories@, *doc, read@, dates, today)]
            dates.len() == doc.entries@.len() && (forall|i: int|
                0 <= i < dates.len() ==> #[trigger] date_fits(doc.entries@[i], dates[i]))
                && selected(stories@, *doc, read@, dates, today),
{
    let today = local_today();
    let mut dates: Vec<Option<CivilDate>> = Vec::new();
    let mut i: usize = 0;
    while i < doc.entries.len()
        invariant
            i <= doc.entries.len(),
            dates.len() == i,
            forall|j: int| 0 <= j < i ==> #[trigger] date_fits(doc.entries@[j], dates@[j]),
        decreases doc.entries.len() - i,
    {
        let e = &doc.entries[i];
        let stamp = if e.updated.is_some() {
            e.updated
        } else {
            e.published
        };
        let d = match stamp {
            Some(t) => if -8_334_601_228_800 <= t && t <= 8_210_266_790_399 {
                local_date_of(t)
            } else {
                None
            },
            None => None,
        };
        dates.push(d);
        i = i + 1;
    }
    let stories = select_stories(doc, read, &dates, today);
    assert(selected(stories@, *doc, read@, dates@, today));
    stories
}

/// The unread stories of today in a feed given as raw bytes; none when the bytes
/// do not parse as a feed.
pub fn stories_from_feed_bytes(bytes: &[u8], read: &Vec<String>) -> (stories: Vec<Story>)
    ensures
        parsed_document(bytes@) is None ==> stories@.len() == 0,
        parsed_document(bytes@) matches Some(doc) ==> exists|
            dates: Seq<Option<CivilDate>>,
            today: CivilDate,
        |
            #![trigger selected(stories@, doc, read@, dates, today)]
            dates.len() == doc.entries@.len() && (forall|i: int|
                0 <= i < dates.len() ==> #[trigger] date_fits(doc.entries@[i], dates[i]))
                && selected(stories@, doc, read@, dates, today),
{
    match parse_feed(bytes) {
        Some(doc) => todays_stories(&doc, read),
        None => Vec::new(),
    }
}

/// The page of the story shown in development mode.
pub const SAMPLE_HTML: &'static str = r#"<p><strong>This is a sample story testing HTML features.</strong></p>
<h1>It tests the UI in dev mode</h1>
<h3>Enjoy being stuck in <em>sample land</em></h3>
<p>Here is a collapsible detail tag:</p>
<details>
  <summary>Click to see secret content</summary>
  <p>This content was hidden inside a details tag! Pretty cool, huh?</p>
  <ul>
    <li>Nested item 1</li>
    <li>Nested item 2</li>
  </ul>
</details>
<p>Here is an iframe embed (simulated):</p>
<iframe width="560" height="315" src="https://www.youtube.com/embed/dQw4w9WgXcQ" title="YouTube video player" allowfullscreen></iframe>
<p>And some blockquote:</p>
<blockquote>
  "This is a blockquote element that should stand out visually and look very premium."
</blockquote>
<p>Some code snippet:</p>
<pre><code>fn main() {
    println!("Hello, TinyFeeds!");
}</code></pre>
<p>And an external link: <a href="https://thatalexguy.dev">thatalexguy.dev</a></p>"#;

/// The one story shown in development mode, in place of fetched ones.
pub fn sample_story() -> (st: Story)
    ensures
        opt_view(st.title) == Some("Just a test article"@),
        opt_view(st.author) == Some("Alex White"@),
        st.url@ == "https://thatalexguy.dev"@,
        st.html@ == SAMPLE_HTML@,
        opt_view(st.contact) == Some("hi@thatalexguy.dev"@),
{
    Story {
        title: Some("Just a test article".to_owned()),
        author: Some("Alex White".to_owned()),
        url: "https://thatalexguy.dev".to_owned(),
        html: SAMPLE_HTML.to_owned(),
        contact: Some("hi@thatalexguy.dev".to_owned()),
    }
}

} // verus!
