//! A parsed feed in the library's own terms, and the choice of a story's contact
//! address among the people that the entry and its feed name.
use vstd::prelude::*;
use crate::email::{email_in, extract_email_from_string, opt_view};

verus! {

/// A person named by a feed or an entry.
#[derive(Debug, Clone)]
pub struct Contact {
    pub name: Option<String>,
    pub email: Option<String>,
}

/// What the reader uses of one feed entry.
#[derive(Debug, Clone)]
pub struct FeedItem {
    pub title: Option<String>,
    pub link: Option<String>,
    /// The raw author string.
    pub author: Option<String>,
    pub author_detail: Option<Contact>,
    pub authors: Vec<Contact>,
    pub contributors: Vec<Contact>,
    /// The bodies of the entry's content elements, in order.
    pub content: Vec<String>,
    pub summary: Option<String>,
    /// Last update, in seconds since the Unix epoch.
    pub updated: Option<i64>,
    /// Publication, in seconds since the Unix epoch.
    pub published: Option<i64>,
}

/// What the reader uses of a feed's own metadata.
#[derive(Debug, Clone)]
pub struct FeedHeader {
    /// The raw author string (RSS `managingEditor`).
    pub author: Option<String>,
    pub author_detail: Option<Contact>,
    /// The raw publisher string (RSS `webMaster`).
    pub publisher: Option<String>,
    pub publisher_detail: Option<Contact>,
    pub authors: Vec<Contact>,
    pub contributors: Vec<Contact>,
}

/// A parsed feed: its metadata and its entries in document order.
#[derive(Debug, Clone)]
pub struct FeedDocument {
    pub feed: FeedHeader,
    pub entries: Vec<FeedItem>,
}

/// The strings of a person that are searched, e-mail before name.
pub open spec fn person_sources(p: Contact) -> Seq<Option<Seq<char>>> {
    seq![opt_view(p.email), opt_view(p.name)]
}

pub open spec fn detail_sources(p: Option<Contact>) -> Seq<Option<Seq<char>>> {
    match p {
        Some(p) => person_sources(p),
        None => Seq::empty(),
    }
}

/// The strings of a list of people, person by person.
pub open spec fn people_sources(ps: Seq<Contact>) -> Seq<Option<Seq<char>>>
    decreases ps.len(),
{
    if ps.len() == 0 {
        Seq::empty()
    } else {
        people_sources(ps.drop_last()) + person_sources(ps.last())
    }
}

/// Every string that may hold a story's contact address, in the order in which
/// they are tried: the entry's author detail, authors, contributors and raw
/// author; then the feed's author detail, publisher detail, authors,
/// contributors, raw author and raw publisher.
pub open spec fn email_sources(e: FeedItem, f: FeedHeader) -> Seq<Option<Seq<char>>> {
    detail_sources(e.author_detail) + people_sources(e.authors@) + people_sources(e.contributors@)
        + seq![opt_view(e.author)] + detail_sources(f.author_detail) + detail_sources(
        f.publisher_detail,
    ) + people_sources(f.authors@) + people_sources(f.contributors@) + seq![opt_view(f.author)]
        + seq![opt_view(f.publisher)]
}

/// The address found in the first source that holds one.
pub open spec fn first_found(srcs: Seq<Option<Seq<char>>>) -> Option<Seq<char>>
    decreases srcs.len(),
{
    if srcs.len() == 0 {
        None
    } else {
        match srcs[0] {
            Some(t) if email_in(t) is Some => email_in(t),
            _ => first_found(srcs.drop_first()),
        }
    }
}

pub open spec fn views(s: Seq<Option<String>>) -> Seq<Option<Seq<char>>> {
    s.map_values(|o: Option<String>| opt_view(o))
}

/// A copy of an optional string.
pub fn clone_opt(o: &Option<String>) -> (r: Option<String>)
    ensures
        opt_view(r) == opt_view(*o),
{
    match o {
        Some(s) => Some(s.clone()),
        None => None,
    }
}

fn push_source(out: &mut Vec<Option<String>>, o: &Option<String>)
    ensures
        views(final(out)@) == views(old(out)@).push(opt_view(*o)),
{
    out.push(clone_opt(o));
    assert(views(out@) =~= views(old(out)@).push(opt_view(*o)));
}

fn push_person(out: &mut Vec<Option<String>>, p: &Contact)
    ensures
        views(final(out)@) == views(old(out)@) + person_sources(*p),
{
    push_source(out, &p.email);
    push_source(out, &p.name);
    assert(views(out@) =~= views(old(out)@) + person_sources(*p));
}

fn push_detail(out: &mut Vec<Option<String>>, p: &Option<Contact>)
    ensures
        views(final(out)@) == views(old(out)@) + detail_sources(*p),
{
    match p {
        Some(p) => push_person(out, p),
        None => {
            assert(views(out@) =~= views(old(out)@) + detail_sources(None));
        },
    }
}

fn push_people(out: &mut Vec<Option<String>>, ps: &Vec<Contact>)
    ensures
        views(final(out)@) == views(old(out)@) + people_sources(ps@),
{
    let ghost start = views(out@);
    let mut i: usize = 0;
    assert(ps@.take(0) =~= Seq::<Contact>::empty());
    assert(start + people_sources(Seq::<Contact>::empty()) =~= start);
    while i < ps.len()
        invariant
            i <= ps.len(),
            views(out@) == start + people_sources(ps@.take(i as int)),
        decreases ps.len() - i,
    {
        push_person(out, &ps[i]);
        assert(ps@.take(i + 1).drop_last() =~= ps@.take(i as int));
        assert(views(out@) =~= start + people_sources(ps@.take(i + 1)));
        i = i + 1;
    }
    assert(ps@.take(ps.len() as int) =~= ps@);
}

/// The contact address of a story: the first address found, in the order of
/// `email_sources`, by `extract_email_from_string`; `None` when no source holds one.
pub fn find_story_email(story: &FeedItem, feed_meta: &FeedHeader) -> (res: Option<String>)
    ensures
        opt_view(res) == first_found(email_sources(*story, *feed_meta)),
{
    let mut srcs: Vec<Option<String>> = Vec::new();
    assert(views(srcs@) =~= Seq::empty());
    push_detail(&mut srcs, &story.author_detail);
    push_people(&mut srcs, &story.authors);
    push_people(&mut srcs, &story.contributors);
    push_source(&mut srcs, &story.author);
    push_detail(&mut srcs, &feed_meta.author_detail);
    push_detail(&mut srcs, &feed_meta.publisher_detail);
    push_people(&mut srcs, &feed_meta.authors);
    push_people(&mut srcs, &feed_meta.contributors);
    push_source(&mut srcs, &feed_meta.author);
    push_source(&mut srcs, &feed_meta.publisher);
    let ghost all = views(srcs@);
    assert(all =~= email_sources(*story, *feed_meta));
    let mut i: usize = 0;
    assert(all.skip(0) =~= all);
    while i < srcs.len()
        invariant
            i <= srcs.len(),
            all == views(srcs@),
            all == email_sources(*story, *feed_meta),
            first_found(all) == first_found(all.skip(i as int)),
        decreases srcs.len() - i,
    {
        assert(all.skip(i as int).drop_first() =~= all.skip(i + 1));
        assert(all.skip(i as int)[0] == opt_view(srcs@[i as int]));
        match &srcs[i] {
            Some(s) => {
                let found = extract_email_from_string(s.as_str());
                if found.is_some() {
                    assert(all.skip(i as int)[0] == Some(s@));
                    assert(first_found(all.skip(i as int)) == email_in(s@));
                    return found;
                }
            },
            None => {},
        }
        i = i + 1;
    }
    None
}

/// The parsed feed of `feedparser_rs`.
#[verifier::external_type_specification]
#[verifier::external_body]
pub struct ExParsedFeed(feedparser_rs::ParsedFeed);

/// A feed entry of `feedparser_rs`.
#[verifier::external_type_specification]
#[verifier::external_body]
pub struct ExEntry(feedparser_rs::Entry);

/// Feed-level metadata of `feedparser_rs`.
#[verifier::external_type_specification]
#[verifier::external_body]
pub struct ExFeedMeta(feedparser_rs::FeedMeta);

/// A person of `feedparser_rs`.
#[verifier::external_type_specification]
#[verifier::external_body]
pub struct ExPerson(feedparser_rs::Person);

/// The document that `feedparser_rs::parse` makes of the given bytes, in this
/// library's terms; `None` where it reports an error.
pub uninterp spec fn parsed_document(bytes: Seq<u8>) -> Option<FeedDocument>;

/// Copies the name and e-mail of a `feedparser_rs::Person`.
#[verifier::external_body]
fn person_of(p: &feedparser_rs::Person) -> Contact {
    Contact { name: p.name.as_ref().map(|n| n.to_string()), email: p.email.as_ref().map(|e| e.to_string()) }
}

/// Copies the fields that the reader uses of a `feedparser_rs::Entry`; its dates
/// become Unix timestamps (`DateTime::timestamp`).
#[verifier::external_body]
fn entry_of(e: &feedparser_rs::Entry) -> FeedItem {
    FeedItem {
        title: e.title.clone(),
        link: e.link.clone(),
        author: e.author.as_ref().map(|a| a.to_string()),
        author_detail: e.author_detail.as_ref().map(person_of),
        authors: e.authors.iter().map(person_of).collect(),
        contributors: e.contributors.iter().map(person_of).collect(),
        content: e.content.iter().map(|c| c.value.clone()).collect(),
        summary: e.summary.clone(),
        updated: e.updated.map(|d| d.timestamp()),
        published: e.published.map(|d| d.timestamp()),
    }
}

/// Copies the people of a `feedparser_rs::FeedMeta`.
#[verifier::external_body]
fn feed_meta_of(f: &feedparser_rs::FeedMeta) -> FeedHeader {
    FeedHeader {
        author: f.author.as_ref().map(|a| a.to_string()),
        author_detail: f.author_detail.as_ref().map(person_of),
        publisher: f.publisher.as_ref().map(|a| a.to_string()),
        publisher_detail: f.publisher_detail.as_ref().map(person_of),
        authors: f.authors.iter().map(person_of).collect(),
        contributors: f.contributors.iter().map(person_of).collect(),
    }
}

/// Parses a feed with `feedparser_rs::parse` (RSS, Atom or JSON Feed). Claimed: the
/// result is `parsed_document(bytes@)`, a function of the bytes alone; nothing is
/// claimed of what that document holds.
#[verifier::external_body]
pub(crate) fn parse_feed(bytes: &[u8]) -> (doc: Option<FeedDocument>)
    ensures
        doc == parsed_document(bytes@),
{
    match feedparser_rs::parse(bytes) {
        Ok(f) => Some(FeedDocument { feed: feed_meta_of(&f.feed), entries: f.entries.iter().map(entry_of).collect() }),
        Err(_) => None,
    }
}

} // verus!
