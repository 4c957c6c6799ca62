//! Turning a story's Markdown into blocks of Pango markup: headings, paragraphs,
//! quotes, code blocks, list items, images and rules.
use vstd::prelude::*;
use crate::html::{escape_html, escaped};
use crate::text::{decimal, decimal_string};
use pulldown_cmark::{Event, Tag, TagEnd};
use crate::models::Story;

verus! {

/// An opening tag of a Markdown event, as far as the reader tells them apart.
pub enum MdTag {
    Heading(u8),
    Paragraph,
    BlockQuote,
    CodeBlock,
    /// A list, with the number of its first item when it is ordered.
    List(Option<u64>),
    Item,
    Emphasis,
    Strong,
    Strikethrough,
    /// A link to the given destination.
    Link(String),
    /// An image at the given destination.
    Image(String),
    Other,
}

/// A closing tag of a Markdown event.
#[derive(Debug, Clone, Copy, PartialEq, Eq, Structural)]
pub enum MdTagEnd {
    Heading(u8),
    Paragraph,
    BlockQuote,
    CodeBlock,
    List,
    Item,
    Emphasis,
    Strong,
    Strikethrough,
    Link,
    Other,
}

/// One event of a Markdown document, in reading order.
pub enum MdEvent {
    Start(MdTag),
    End(MdTagEnd),
    Text(String),
    Code(String),
    SoftBreak,
    HardBreak,
    Rule,
    Other,
}

pub enum TagView {
    Heading(u8),
    Paragraph,
    BlockQuote,
    CodeBlock,
    List(Option<u64>),
    Item,
    Emphasis,
    Strong,
    Strikethrough,
    Link(Seq<char>),
    Image(Seq<char>),
    Other,
}

pub enum EventView {
    Start(TagView),
    End(MdTagEnd),
    Text(Seq<char>),
    Code(Seq<char>),
    SoftBreak,
    HardBreak,
    Rule,
    Other,
}

impl View for MdTag {
    type V = TagView;

    open spec fn view(&self) -> TagView {
        match self {
            MdTag::Heading(l) => TagView::Heading(*l),
            MdTag::Paragraph => TagView::Paragraph,
            MdTag::BlockQuote => TagView::BlockQuote,
            MdTag::CodeBlock => TagView::CodeBlock,
            MdTag::List(s) => TagView::List(*s),
            MdTag::Item => TagView::Item,
            MdTag::Emphasis => TagView::Emphasis,
            MdTag::Strong => TagView::Strong,
            MdTag::Strikethrough => TagView::Strikethrough,
            MdTag::Link(u) => TagView::Link(u@),
            MdTag::Image(u) => TagView::Image(u@),
            MdTag::Other => TagView::Other,
        }
    }
}

impl View for MdEvent {
    type V = EventView;

    open spec fn view(&self) -> EventView {
        match self {
            MdEvent::Start(t) => EventView::Start(t@),
            MdEvent::End(t) => EventView::End(*t),
            MdEvent::Text(s) => EventView::Text(s@),
            MdEvent::Code(s) => EventView::Code(s@),
            MdEvent::SoftBreak => EventView::SoftBreak,
            MdEvent::HardBreak => EventView::HardBreak,
            MdEvent::Rule => EventView::Rule,
            MdEvent::Other => EventView::Other,
        }
    }
}

/// A block of the rendered story.
pub enum Block {
    /// A heading of the given level, with its markup.
    Heading(u8, String),
    /// A paragraph's markup.
    Paragraph(String),
    /// A block quote's markup.
    Quote(String),
    /// A code block's text, shown as it is.
    Code(String),
    /// A list item's markup, its number or bullet included.
    ListItem(String),
    /// An image to be loaded from the given address.
    Image(String),
    /// A horizontal rule.
    Rule,
}

pub enum BlockView {
    Heading(u8, Seq<char>),
    Paragraph(Seq<char>),
    Quote(Seq<char>),
    Code(Seq<char>),
    ListItem(Seq<char>),
    Image(Seq<char>),
    Rule,
}

impl View for Block {
    type V = BlockView;

    open spec fn view(&self) -> BlockView {
        match self {
            Block::Heading(l, m) => BlockView::Heading(*l, m@),
            Block::Paragraph(m) => BlockView::Paragraph(m@),
            Block::Quote(m) => BlockView::Quote(m@),
            Block::Code(t) => BlockView::Code(t@),
            Block::ListItem(m) => BlockView::ListItem(m@),
            Block::Image(u) => BlockView::Image(u@),
            Block::Rule => BlockView::Rule,
        }
    }
}

/// What the renderer holds between events.
pub struct RenderView {
    /// Markup of the heading, paragraph or item being built.
    pub current: Seq<char>,
    /// Whether the list being read is ordered.
    pub ordered: bool,
    /// The number of the next item of an ordered list.
    pub index: u64,
    pub in_quote: bool,
    /// Markup of the quote being built.
    pub quote: Seq<char>,
    pub in_code: bool,
    /// Text of the code block being built.
    pub code: Seq<char>,
}

pub open spec fn initial_render() -> RenderView {
    RenderView {
        current: Seq::empty(),
        ordered: false,
        index: 0,
        in_quote: false,
        quote: Seq::empty(),
        in_code: false,
        code: Seq::empty(),
    }
}

/// The opening of a heading's span: bold, sized by level.
pub open spec fn heading_open(level: u8) -> Seq<char> {
    if level == 1 {
        "<span size=\"xx-large\" weight=\"bold\">"@
    } else if level == 2 {
        "<span size=\"x-large\" weight=\"bold\">"@
    } else if level == 3 {
        "<span size=\"large\" weight=\"bold\">"@
    } else {
        "<span size=\"medium\" weight=\"bold\">"@
    }
}

/// The markup of a heading: its text in a bold span sized by level.
pub open spec fn heading_markup(level: u8, inner: Seq<char>) -> Seq<char> {
    heading_open(level) + inner + "</span>"@
}

/// The number or bullet that starts a list item.
pub open spec fn item_marker(ordered: bool, index: u64) -> Seq<char> {
    if ordered {
        decimal(index as nat) + ". "@
    } else {
        "\u{2022} "@
    }
}

/// Adds `s` to the quote when inside one, else to the current markup.
pub open spec fn add_inline(st: RenderView, s: Seq<char>) -> RenderView {
    if st.in_quote {
        RenderView { quote: st.quote + s, ..st }
    } else {
        RenderView { current: st.current + s, ..st }
    }
}

/// One event: the renderer's next state, and the block it completes, if any.
pub open spec fn render_step(st: RenderView, e: EventView) -> (RenderView, Option<BlockView>) {
    match e {
        EventView::Start(t) => match t {
            TagView::Heading(_) => (RenderView { current: Seq::empty(), ..st }, None),
            TagView::Paragraph => if st.in_quote {
                (st, None)
            } else {
                (RenderView { current: Seq::empty(), ..st }, None)
            },
            TagView::BlockQuote => (RenderView { in_quote: true, quote: Seq::empty(), ..st }, None),
            TagView::CodeBlock => (RenderView { in_code: true, code: Seq::empty(), ..st }, None),
            TagView::List(start) => (
                RenderView {
                    ordered: start is Some,
                    index: match start {
                        Some(n) => n,
                        None => 1,
                    },
                    ..st
                },
                None,
            ),
            TagView::Item => (
                RenderView {
                    current: item_marker(st.ordered, st.index),
                    index: if st.ordered && st.index < u64::MAX {
                        (st.index + 1) as u64
                    } else {
                        st.index
                    },
                    ..st
                },
                None,
            ),
            TagView::Emphasis => (RenderView { current: st.current + "<i>"@, ..st }, None),
            TagView::Strong => (RenderView { current: st.current + "<b>"@, ..st }, None),
            TagView::Strikethrough => (RenderView { current: st.current + "<s>"@, ..st }, None),
            TagView::Link(u) => (
                RenderView { current: st.current + "<a href=\""@ + escaped(u) + "\">"@, ..st },
                None,
            ),
            TagView::Image(u) => (st, Some(BlockView::Image(u))),
            TagView::Other => (st, None),
        },
        EventView::End(t) => match t {
            MdTagEnd::Heading(l) => (st, Some(BlockView::Heading(l, heading_markup(l, st.current)))),
            MdTagEnd::Paragraph => if st.in_quote {
                (st, None)
            } else {
                (st, Some(BlockView::Paragraph(st.current)))
            },
            MdTagEnd::BlockQuote => (
                RenderView { in_quote: false, ..st },
                Some(BlockView::Quote(st.quote)),
            ),
            MdTagEnd::CodeBlock => (RenderView { in_code: false, ..st }, Some(BlockView::Code(st.code))),
            MdTagEnd::Item => (st, Some(BlockView::ListItem(st.current))),
            MdTagEnd::Emphasis => (RenderView { current: st.current + "</i>"@, ..st }, None),
            MdTagEnd::Strong => (RenderView { current: st.current + "</b>"@, ..st }, None),
            MdTagEnd::Strikethrough => (RenderView { current: st.current + "</s>"@, ..st }, None),
            MdTagEnd::Link => (RenderView { current: st.current + "</a>"@, ..st }, None),
            MdTagEnd::List | MdTagEnd::Other => (st, None),
        },
        EventView::Text(t) => if st.in_code {
            (RenderView { code: st.code + t, ..st }, None)
        } else {
            (add_inline(st, escaped(t)), None)
        },
        EventView::Code(t) => (add_inline(st, "<tt>"@ + escaped(t) + "</tt>"@), None),
        EventView::SoftBreak | EventView::HardBreak => (add_inline(st, seq!['\n']), None),
        EventView::Rule => (st, Some(BlockView::Rule)),
        EventView::Other => (st, None),
    }
}

/// The state after the first `n` events and the blocks they complete, in order.
pub open spec fn render_prefix(events: Seq<EventView>, n: int) -> (RenderView, Seq<BlockView>)
    decreases n,
{
    if n <= 0 {
        (initial_render(), Seq::empty())
    } else {
        let (st, blocks) = render_prefix(events, n - 1);
        let (next, done) = render_step(st, events[n - 1]);
        match done {
            Some(b) => (next, blocks.push(b)),
            None => (next, blocks),
        }
    }
}

/// The blocks that a sequence of Markdown events renders to.
pub open spec fn rendered(events: Seq<EventView>) -> Seq<BlockView> {
    render_prefix(events, events.len() as int).1
}

/// A hard line break is rendered as a soft one: a line feed is added to the
/// markup being built (the quote's inside a quote, else the current block's), and
/// no block is completed.
pub proof fn line_break_law(st: RenderView)
    ensures
        render_step(st, EventView::HardBreak) == render_step(st, EventView::SoftBreak),
        render_step(st, EventView::HardBreak).1 is None,
        !st.in_quote ==> render_step(st, EventView::HardBreak).0 == (RenderView {
            current: st.current.push('\n'),
            ..st
        }),
        st.in_quote ==> render_step(st, EventView::HardBreak).0 == (RenderView {
            quote: st.quote.push('\n'),
            ..st
        }),
{
    assert(st.current + seq!['\n'] =~= st.current.push('\n'));
    assert(st.quote + seq!['\n'] =~= st.quote.push('\n'));
}

/// A paragraph of two texts joined by a hard line break renders as one paragraph
/// holding both texts, escaped, with a line feed between them.
pub proof fn broken_paragraph_law(a: Seq<char>, b: Seq<char>)
    ensures
        rendered(
            seq![
                EventView::Start(TagView::Paragraph),
                EventView::Text(a),
                EventView::HardBreak,
                EventView::Text(b),
                EventView::End(MdTagEnd::Paragraph),
            ],
        ) == seq![BlockView::Paragraph(escaped(a) + seq!['\n'] + escaped(b))],
{
    let evs = seq![
        EventView::Start(TagView::Paragraph),
        EventView::Text(a),
        EventView::HardBreak,
        EventView::Text(b),
        EventView::End(MdTagEnd::Paragraph),
    ];
    let s0 = initial_render();
    assert(render_prefix(evs, 0) == (s0, Seq::<BlockView>::empty()));
    let s1 = RenderView { current: Seq::empty(), ..s0 };
    assert(render_prefix(evs, 1) == (s1, Seq::<BlockView>::empty()));
    let s2 = RenderView { current: escaped(a), ..s0 };
    assert(Seq::<char>::empty() + escaped(a) =~= escaped(a));
    assert(render_prefix(evs, 2) == (s2, Seq::<BlockView>::empty()));
    let s3 = RenderView { current: escaped(a) + seq!['\n'], ..s0 };
    assert(render_prefix(evs, 3) == (s3, Seq::<BlockView>::empty()));
    let s4 = RenderView { current: escaped(a) + seq!['\n'] + escaped(b), ..s0 };
    assert(render_prefix(evs, 4) == (s4, Seq::<BlockView>::empty()));
    assert(render_prefix(evs, 5).1 =~= seq![BlockView::Paragraph(escaped(a) + seq!['\n'] + escaped(b))]);
}

pub open spec fn event_views(events: Seq<MdEvent>) -> Seq<EventView> {
    events.map_values(|e: MdEvent| e@)
}

pub open spec fn block_views(blocks: Seq<Block>) -> Seq<BlockView> {
    blocks.map_values(|b: Block| b@)
}

struct Renderer {
    current: String,
    ordered: bool,
    index: u64,
    in_quote: bool,
    quote: String,
    in_code: bool,
    code: String,
}

impl View for Renderer {
    type V = RenderView;

    closed spec fn view(&self) -> RenderView {
        RenderView {
            current: self.current@,
            ordered: self.ordered,
            index: self.index,
            in_quote: self.in_quote,
            quote: self.quote@,
            in_code: self.in_code,
            code: self.code@,
        }
    }
}

fn append_inline(r: &mut Renderer, s: &str)
    ensures
        final(r)@ == add_inline(old(r)@, s@),
{
    if r.in_quote {
        r.quote.append(s);
    } else {
        r.current.append(s);
    }
}

fn opening_span(level: u8) -> (s: &'static str)
    ensures
        s@ == heading_open(level),
{
    if level == 1 {
        "<span size=\"xx-large\" weight=\"bold\">"
    } else if level == 2 {
        "<span size=\"x-large\" weight=\"bold\">"
    } else if level == 3 {
        "<span size=\"large\" weight=\"bold\">"
    } else {
        "<span size=\"medium\" weight=\"bold\">"
    }
}

pub open spec fn opt_block_view(b: Option<Block>) -> Option<BlockView> {
    match b {
        Some(b) => Some(b@),
        None => None,
    }
}

fn text_of(s: &String) -> (r: String)
    ensures
        r@ == s@,
{
    s.clone()
}

impl Renderer {
    fn new() -> (r: Renderer)
        ensures
            r@ == initial_render(),
    {
        Renderer {
            current: String::new(),
            ordered: false,
            index: 0,
            in_quote: false,
            quote: String::new(),
            in_code: false,
            code: String::new(),
        }
    }

    fn step(&mut self, e: &MdEvent) -> (b: Option<Block>)
        ensures
            final(self)@ == render_step(old(self)@, e@).0,
            opt_block_view(b) == render_step(old(self)@, e@).1,
    {
        match e {
            MdEvent::Start(t) => match t {
                MdTag::Heading(_) => {
                    self.current = String::new();
                    None
                },
                MdTag::Paragraph => {
                    if !self.in_quote {
                        self.current = String::new();
                    }
                    None
                },
                MdTag::BlockQuote => {
                    self.in_quote = true;
                    self.quote = String::new();
                    None
                },
                MdTag::CodeBlock => {
                    self.in_code = true;
                    self.code = String::new();
                    None
                },
                MdTag::List(start) => {
                    self.ordered = start.is_some();
                    self.index = match start {
                        Some(n) => *n,
                        None => 1,
                    };
                    None
                },
                MdTag::Item => {
                    let mut m = String::new();
                    if self.ordered {
                        m = decimal_string(self.index);
                        m.append(". ");
                        if self.index < u64::MAX {
                            self.index = self.index + 1;
                        }
                    } else {
                        m.append("\u{2022} ");
                    }
                    self.current = m;
                    None
                },
                MdTag::Emphasis => {
                    self.current.append("<i>");
                    None
                },
                MdTag::Strong => {
                    self.current.append("<b>");
                    None
                },
                MdTag::Strikethrough => {
                    self.current.append("<s>");
                    None
                },
                MdTag::Link(u) => {
                    self.current.append("<a href=\"");
                    let esc = escape_html(u.as_str());
                    self.current.append(esc.as_str());
                    self.current.append("\">");
                    None
                },
                MdTag::Image(u) => Some(Block::Image(text_of(u))),
                MdTag::Other => None,
            },
            MdEvent::End(t) => match t {
                MdTagEnd::Heading(l) => {
                    let mut m = String::new();
                    m.append(opening_span(*l));
                    m.append(self.current.as_str());
                    m.append("</span>");
                    Some(Block::Heading(*l, m))
                },
                MdTagEnd::Paragraph => {
                    if self.in_quote {
                        None
                    } else {
                        Some(Block::Paragraph(text_of(&self.current)))
                    }
                },
                MdTagEnd::BlockQuote => {
                    self.in_quote = false;
                    Some(Block::Quote(text_of(&self.quote)))
                },
                MdTagEnd::CodeBlock => {
                    self.in_code = false;
                    Some(Block::Code(text_of(&self.code)))
                },
                MdTagEnd::Item => Some(Block::ListItem(text_of(&self.current))),
                MdTagEnd::Emphasis => {
                    self.current.append("</i>");
                    None
                },
                MdTagEnd::Strong => {
                    self.current.append("</b>");
                    None
                },
                MdTagEnd::Strikethrough => {
                    self.current.append("</s>");
                    None
                },
                MdTagEnd::Link => {
                    self.current.append("</a>");
                    None
                },
                MdTagEnd::List | MdTagEnd::Other => None,
            },
            MdEvent::Text(t) => {
                if self.in_code {
                    self.code.append(t.as_str());
                } else {
                    let esc = escape_html(t.as_str());
                    append_inline(self, esc.as_str());
                }
                None
            },
            MdEvent::Code(t) => {
                let mut m = String::new();
                m.append("<tt>");
                let esc = escape_html(t.as_str());
                m.append(esc.as_str());
                m.append("</tt>");
                append_inline(self, m.as_str());
                None
            },
            MdEvent::SoftBreak | MdEvent::HardBreak => {
                let mut m = String::new();
                m.push('\n');
                append_inline(self, m.as_str());
                None
            },
            MdEvent::Rule => Some(Block::Rule),
            MdEvent::Other => None,
        }
    }
}

/// The blocks that a sequence of Markdown events renders to: each event is read in
/// turn as `render_step` says, and the completed blocks are kept in order.
pub fn render_markdown_events(events: &Vec<MdEvent>) -> (blocks: Vec<Block>)
    ensures
        block_views(blocks@) == rendered(event_views(events@)),
{
    let ghost evs = event_views(events@);
    let mut r = Renderer::new();
    let mut blocks: Vec<Block> = Vec::new();
    let mut i: usize = 0;
    assert(block_views(blocks@) =~= Seq::<BlockView>::empty());
    while i < events.len()
        invariant
            i <= events.len(),
            evs == event_views(events@),
            r@ == render_prefix(evs, i as int).0,
            block_views(blocks@) == render_prefix(evs, i as int).1,
        decreases events.len() - i,
    {
        assert(evs[i as int] == events@[i as int]@);
        let done = r.step(&events[i]);
        match done {
            Some(b) => {
                let ghost before = blocks@;
                blocks.push(b);
                assert(block_views(blocks@) =~= block_views(before).push(b@));
            },
            None => {},
        }
        i = i + 1;
    }
    blocks
}

/// An event of `pulldown_cmark`.
#[verifier::external_type_specification]
#[verifier::external_body]
pub struct ExEvent<'a>(pulldown_cmark::Event<'a>);

/// An opening tag of `pulldown_cmark`.
#[verifier::external_type_specification]
#[verifier::external_body]
pub struct ExTag<'a>(pulldown_cmark::Tag<'a>);

/// A closing tag of `pulldown_cmark`.
#[verifier::external_type_specification]
#[verifier::external_body]
pub struct ExTagEnd(pulldown_cmark::TagEnd);

/// The events that `pulldown_cmark::Parser::new` yields for a document (default
/// options), each as `md_event` copies it.
pub uninterp spec fn markdown_events_of(md: Seq<char>) -> Seq<EventView>;

/// Copies a `pulldown_cmark::Tag`: heading level (`HeadingLevel` as its number),
/// list start and link and image destinations; tags the reader ignores become
/// `Other`.
#[verifier::external_body]
fn md_tag(t: pulldown_cmark::Tag<'_>) -> MdTag {
    match t {
        Tag::Heading { level, .. } => MdTag::Heading(level as u8),
        Tag::Paragraph => MdTag::Paragraph,
        Tag::BlockQuote(_) => MdTag::BlockQuote,
        Tag::CodeBlock(_) => MdTag::CodeBlock,
        Tag::List(start) => MdTag::List(start),
        Tag::Item => MdTag::Item,
        Tag::Emphasis => MdTag::Emphasis,
        Tag::Strong => MdTag::Strong,
        Tag::Strikethrough => MdTag::Strikethrough,
        Tag::Link { dest_url, .. } => MdTag::Link(dest_url.to_string()),
        Tag::Image { dest_url, .. } => MdTag::Image(dest_url.to_string()),
        _ => MdTag::Other,
    }
}

/// Copies a `pulldown_cmark::TagEnd`; tags the reader ignores become `Other`.
#[verifier::external_body]
fn md_tag_end(t: pulldown_cmark::TagEnd) -> MdTagEnd {
    match t {
        TagEnd::Heading(level) => MdTagEnd::Heading(level as u8),
        TagEnd::Paragraph => MdTagEnd::Paragraph,
        TagEnd::BlockQuote(_) => MdTagEnd::BlockQuote,
        TagEnd::CodeBlock => MdTagEnd::CodeBlock,
        TagEnd::List(_) => MdTagEnd::List,
        TagEnd::Item => MdTagEnd::Item,
        TagEnd::Emphasis => MdTagEnd::Emphasis,
        TagEnd::Strong => MdTagEnd::Strong,
        TagEnd::Strikethrough => MdTagEnd::Strikethrough,
        TagEnd::Link => MdTagEnd::Link,
        _ => MdTagEnd::Other,
    }
}

/// Copies a `pulldown_cmark::Event`; events the reader ignores become `Other`.
#[verifier::external_body]
fn md_event(e: pulldown_cmark::Event<'_>) -> MdEvent {
    match e {
        Event::Start(t) => MdEvent::Start(md_tag(t)),
        Event::End(t) => MdEvent::End(md_tag_end(t)),
        Event::Text(s) => MdEvent::Text(s.to_string()),
        Event::Code(s) => MdEvent::Code(s.to_string()),
        Event::SoftBreak => MdEvent::SoftBreak,
        Event::HardBreak => MdEvent::HardBreak,
        Event::Rule => MdEvent::Rule,
        _ => MdEvent::Other,
    }
}

/// Parses Markdown with `pulldown_cmark::Parser::new`. Claimed: the events, in the
/// order the parser yields them, are `markdown_events_of(md@)`, a function of the
/// text alone; nothing is claimed of what they are.
#[verifier::external_body]
fn markdown_events(md: &str) -> (events: Vec<MdEvent>)
    ensures
        event_views(events@) == markdown_events_of(md@),
{
    let mut events = Vec::new();
    for e in pulldown_cmark::Parser::new(md) {
        events.push(md_event(e));
    }
    events
}

/// The blocks of a story written in Markdown: the document is parsed by
/// `pulldown_cmark` and its events rendered as `render_markdown_events` does.
pub fn render_markdown(markdown: &str) -> (blocks: Vec<Block>)
    ensures
        block_views(blocks@) == rendered(markdown_events_of(markdown@)),
{
    let events = markdown_events(markdown);
    render_markdown_events(&events)
}

/// Whether `url::Url::parse` accepts the text as an absolute URL.
pub uninterp spec fn url_parses(url: Seq<char>) -> bool;

/// The Markdown texts that readability extraction may give for a page and its
/// address. Which one it gives is not a function of the two (the crate scores
/// candidates in hash maps), but the set of possible outcomes is.
pub uninterp spec fn article_markdowns(html: Seq<char>, url: Seq<char>) -> Set<Seq<char>>;

/// Readability extraction of `readabilityrs` on a page and its address:
/// `Readability::new(html, Some(url), ..)` with Markdown output switched on, then
/// `Readability::parse`, keeping the article's Markdown. `None` when `new` fails
/// (exactly when `url::Url::parse` refuses the address) or no article is found;
/// `Some(None)` when the article has no Markdown. Claimed: an address that does
/// not parse gives `None`, and any Markdown given is one of
/// `article_markdowns(html@, url@)`; which one is not claimed.
#[verifier::external_body]
fn extract_article(html: &str, url: &str) -> (r: Option<Option<String>>)
    ensures
        !url_parses(url@) ==> r is None,
        r matches Some(Some(m)) ==> article_markdowns(html@, url@).contains(m@),
{
    let options = readabilityrs::ReadabilityOptions { output_markdown: true, ..Default::default() };
    match readabilityrs::Readability::new(html, Some(url), Some(options)) {
        Ok(r) => r.parse().map(|article| article.markdown_content),
        Err(_) => None,
    }
}

pub open spec fn extracted_view(x: Option<Option<String>>) -> Option<Option<Seq<char>>> {
    match x {
        Some(Some(m)) => Some(Some(m@)),
        Some(None) => Some(None),
        None => None,
    }
}

/// The text that is rendered for a story: the Markdown of the article that
/// readability extraction found, or else the story's own HTML.
pub open spec fn markdown_choice(html: Seq<char>, extracted: Option<Option<Seq<char>>>) -> Seq<
    char,
> {
    match extracted {
        Some(Some(md)) => md,
        _ => html,
    }
}

/// The text rendered for a story with body `html`, given what readability
/// extraction gave.
pub fn choose_markdown(html: &String, extracted: Option<Option<String>>) -> (md: String)
    ensures
        md@ == markdown_choice(html@, extracted_view(extracted)),
{
    match extracted {
        Some(Some(m)) => m,
        _ => html.clone(),
    }
}

/// The text rendered for a story: the Markdown of the article that readability
/// extraction finds in the story's HTML at the story's link, or else the HTML
/// itself. A story whose link is no URL is shown from its HTML.
pub fn story_markdown(story: &Story) -> (md: String)
    ensures
        !url_parses(story.url@) ==> md@ == story.html@,
        md@ == story.html@ || article_markdowns(story.html@, story.url@).contains(md@),
{
    let extracted = extract_article(story.html.as_str(), story.url.as_str());
    choose_markdown(&story.html, extracted)
}

/// The blocks shown for a story: its text, as `story_markdown` chooses it,
/// rendered as `render_markdown` does.
pub fn story_blocks(story: &Story) -> (blocks: Vec<Block>)
    ensures
        !url_parses(story.url@) ==> block_views(blocks@) == rendered(
            markdown_events_of(story.html@),
        ),
        block_views(blocks@) == rendered(markdown_events_of(story.html@)) || exists|md: Seq<char>|
            #![trigger article_markdowns(story.html@, story.url@).contains(md)]
            article_markdowns(story.html@, story.url@).contains(md) && block_views(blocks@)
                == rendered(markdown_events_of(md)),
{
    let md = story_markdown(story);
    let blocks = render_markdown(md.as_str());
    assert(block_views(blocks@) == rendered(markdown_events_of(md@)));
    blocks
}

} // verus!
