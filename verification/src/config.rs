//! The reader's plain-text configuration: files of lines (feeds, read stories) and
//! the saved theme.
use vstd::prelude::*;
use crate::email::{first_index, lemma_first_index};
use crate::models::{theme_name, theme_named, Theme};
use crate::text::{
    chars_of, drop_while_end, drop_while_start, is_white_space, string_of_range, trim, trim_range,
};

verus! {

/// The test for a line feed.
pub open spec fn newline() -> spec_fn(char) -> bool {
    |c: char| c == '\n'
}

/// A line without the carriage return that ended it, if any.
pub open spec fn strip_cr(l: Seq<char>) -> Seq<char> {
    if l.len() > 0 && l.last() == '\r' {
        l.drop_last()
    } else {
        l
    }
}

/// The lines of a text as `BufRead::lines` yields them: cut at each `\n`, which
/// is dropped together with a `\r` right before it; a last line without `\n` is
/// kept as it is, and an empty text has no lines.
pub open spec fn line_pieces(s: Seq<char>) -> Seq<Seq<char>>
    decreases s.len(),
{
    if s.len() == 0 {
        Seq::empty()
    } else {
        let k = first_index(s, newline());
        if k < s.len() {
            seq![strip_cr(s.take(k as int))] + line_pieces(s.skip(k + 1 as int))
        } else {
            seq![s]
        }
    }
}

/// A text that is empty or ends a line: new lines can be appended to it.
pub open spec fn ends_a_line(s: Seq<char>) -> bool {
    s.len() == 0 || s.last() == '\n'
}

/// A string that can be written as one line and read back unchanged.
pub open spec fn is_single_line(l: Seq<char>) -> bool {
    !l.contains('\n') && !(l.len() > 0 && l.last() == '\r')
}

pub open spec fn string_views(v: Seq<String>) -> Seq<Seq<char>> {
    v.map_values(|s: String| s@)
}

/// The theme that a theme file with these lines holds: its first line, trimmed,
/// names it; a file without lines holds `System`.
pub open spec fn theme_of_lines(lines: Seq<Seq<char>>) -> Theme {
    if lines.len() > 0 {
        theme_named(trim(lines[0]))
    } else {
        Theme::System
    }
}

proof fn lemma_first_index_prefix(a: Seq<char>, b: Seq<char>, p: spec_fn(char) -> bool)
    requires
        first_index(a, p) < a.len(),
    ensures
        first_index(a + b, p) == first_index(a, p),
    decreases a.len(),
{
    if !p(a[0]) {
        lemma_first_index_prefix(a.drop_first(), b, p);
        assert((a + b).drop_first() =~= a.drop_first() + b);
    }
}

/// Appending a single line, ended by `\n`, to a text that ends a line adds exactly
/// that line to the lines read back.
pub proof fn append_line_law(s: Seq<char>, l: Seq<char>)
    requires
        ends_a_line(s),
        is_single_line(l),
    ensures
        line_pieces(s + l.push('\n')) == line_pieces(s).push(l),
    decreases s.len(),
{
    let p = newline();
    let r = l.push('\n');
    if s.len() == 0 {
        assert(s + r =~= r);
        assert forall|i: int| 0 <= i < l.len() implies !#[trigger] p(r[i]) by {
            assert(r[i] == l[i]);
        }
        lemma_first_index(r, p, l.len() as int);
        assert(strip_cr(l) == l);
        assert(r.take(l.len() as int) =~= l);
        assert(r.skip(l.len() + 1 as int) =~= Seq::<char>::empty());
        assert(line_pieces(s) =~= Seq::<Seq<char>>::empty());
        assert(line_pieces(Seq::<char>::empty()) =~= Seq::<Seq<char>>::empty());
        assert(first_index(r, newline()) == l.len());
        assert(line_pieces(r) == seq![strip_cr(r.take(l.len() as int))] + line_pieces(r.skip(l.len() + 1 as int)));
        assert(line_pieces(r) =~= seq![l]);
    } else {
        let k = first_index(s, p);
        lemma_first_index_before(s, p, s.len() - 1);
        lemma_first_index_prefix(s, r, p);
        let t = s.skip(k + 1 as int);
        assert((s + r).take(k as int) =~= s.take(k as int));
        assert((s + r).skip(k + 1 as int) =~= t + r);
        if t.len() > 0 {
            assert(t.last() == s.last());
        }
        append_line_law(t, l);
        assert(line_pieces(s + r) =~= seq![strip_cr(s.take(k as int))] + line_pieces(t + r));
        assert(line_pieces(s) =~= seq![strip_cr(s.take(k as int))] + line_pieces(t));
    }
}

/// `first_index` is at or before any position that satisfies `p`.
proof fn lemma_first_index_before(s: Seq<char>, p: spec_fn(char) -> bool, j: int)
    requires
        0 <= j < s.len(),
        p(s[j]),
    ensures
        first_index(s, p) <= j,
    decreases j,
{
    if j > 0 && !p(s[0]) {
        assert(s.drop_first()[j - 1] == s[j]);
        lemma_first_index_before(s.drop_first(), p, j - 1);
    }
}

/// The lines of a text, as the reader reads its configuration files.
pub fn split_lines(content: &str) -> (lines: Vec<String>)
    ensures
        string_views(lines@) == line_pieces(content@),
{
    let v = chars_of(content);
    let n = v.len();
    let mut lines: Vec<String> = Vec::new();
    let mut start: usize = 0;
    assert(v@.skip(0) =~= v@);
    assert(string_views(lines@) =~= Seq::<Seq<char>>::empty());
    while start < n
        invariant
            start <= n == v.len(),
            v@ == content@,
            line_pieces(content@) == string_views(lines@) + line_pieces(v@.skip(start as int)),
        decreases n - start,
    {
        let ghost rest = v@.skip(start as int);
        let mut end = start;
        while end < n && v[end] != '\n'
            invariant
                start <= end <= n == v.len(),
                forall|j: int| start <= j < end ==> v@[j] != '\n',
            decreases n - end,
        {
            end = end + 1;
        }
        proof {
            let p = newline();
            assert forall|j: int| 0 <= j < end - start implies !#[trigger] p(rest[j]) by {
                assert(rest[j] == v@[j + start]);
            }
            if end < n {
                assert(rest[end - start] == v@[end as int]);
            }
            lemma_first_index(rest, p, end - start);
        }
        if end < n {
            let stop = if end > start && v[end - 1] == '\r' {
                end - 1
            } else {
                end
            };
            let ghost before = lines@;
            lines.push(string_of_range(&v, start, stop));
            proof {
                let k = end - start;
                assert(rest.take(k as int) =~= v@.subrange(start as int, end as int));
                assert(strip_cr(rest.take(k as int)) =~= v@.subrange(start as int, stop as int));
                assert(rest.skip(k + 1) =~= v@.skip(end + 1));
                assert(string_views(lines@) =~= string_views(before).push(
                    v@.subrange(start as int, stop as int),
                ));
            }
            start = end + 1;
        } else {
            let ghost before = lines@;
            lines.push(string_of_range(&v, start, n));
            proof {
                assert(rest =~= v@.subrange(start as int, n as int));
                assert(v@.skip(n as int) =~= Seq::<char>::empty());
                assert(string_views(lines@) =~= string_views(before).push(rest));
            }
            start = n;
        }
    }
    lines
}

/// The theme that the lines of a theme file hold.
pub fn theme_from_lines(lines: &Vec<String>) -> (t: Theme)
    ensures
        t == theme_of_lines(string_views(lines@)),
{
    if lines.len() == 0 {
        return Theme::System;
    }
    let v = chars_of(lines[0].as_str());
    let (a, b) = trim_range(&v, 0, v.len());
    assert(v@.subrange(0, v@.len() as int) =~= v@);
    let name = string_of_range(&v, a, b);
    Theme::from_str(name.as_str())
}

/// The text that a theme file holds once `t` is saved: its name on one line.
pub fn theme_file_text(t: Theme) -> (s: String)
    ensures
        s@ == theme_name(t).push('\n'),
{
    let mut s = String::new();
    s.append(t.to_str());
    s.push('\n');
    s
}

/// One line of a text file: `l` and a line feed, as `writeln!` writes it.
pub fn line_text(l: &str) -> (s: String)
    ensures
        s@ == l@.push('\n'),
{
    let mut s = String::new();
    s.append(l);
    s.push('\n');
    s
}

/// The path of a configuration file, relative to the home directory.
pub fn config_relative_path(filename: &str) -> (p: String)
    ensures
        p@ == ".config/tinyfeeds/"@ + filename@,
{
    let mut p = String::new();
    p.append(".config/tinyfeeds/");
    p.append(filename);
    p
}

/// The program that opens the feeds file: `$VISUAL`, else `$EDITOR`, else
/// `xdg-open`.
pub fn choose_editor(visual: Option<String>, editor: Option<String>) -> (e: String)
    ensures
        e@ == match (visual, editor) {
            (Some(v), _) => v@,
            (None, Some(x)) => x@,
            (None, None) => "xdg-open"@,
        },
{
    match visual {
        Some(v) => v,
        None => match editor {
            Some(x) => x,
            None => {
                let mut s = String::new();
                s.append("xdg-open");
                s
            },
        },
    }
}

/// A saved theme is read back: the theme file written for `t` holds `t`.
pub proof fn saved_theme_law(t: Theme)
    ensures
        theme_of_lines(line_pieces(theme_name(t).push('\n'))) == t,
{
    reveal_strlit("system");
    reveal_strlit("light");
    reveal_strlit("sepia");
    reveal_strlit("dark");
    let n = theme_name(t);
    assert(is_single_line(n)) by {
        assert forall|i: int| 0 <= i < n.len() implies n[i] != '\n' by {}
    }
    append_line_law(Seq::empty(), n);
    assert(Seq::<char>::empty() + n.push('\n') =~= n.push('\n'));
    assert(line_pieces(Seq::<char>::empty()) =~= Seq::<Seq<char>>::empty());
    let ws = |c: char| is_white_space(c);
    assert(drop_while_start(n, ws) == n);
    assert(drop_while_end(n, ws) == n);
    crate::models::theme_name_round_trip(t);
}

/// A story marked as read stays read: appending its link as a line to a read log
/// that ends a line, then reading the log's lines back, gives a list in which the
/// link counts as read.
pub proof fn marked_read_law(log: Seq<char>, url: Seq<char>, read: Seq<String>)
    requires
        ends_a_line(log),
        is_single_line(url),
        url.len() > 0,
        string_views(read) == line_pieces(log + url.push('\n')),
    ensures
        crate::stories::already_read(url, read),
{
    append_line_law(log, url);
    let i = line_pieces(log).len() as int;
    assert(string_views(read).len() == i + 1);
    assert(read.len() == i + 1);
    assert(string_views(read)[i] == url);
    assert(read[i]@ == url);
}

/// A story marked as read is not shown again: once its link is appended to the
/// read log, no story chosen with the log's lines as the read list has that link,
/// whatever the feed and the dates.
pub proof fn read_story_not_shown_again_law(
    log: Seq<char>,
    url: Seq<char>,
    read: Seq<String>,
    stories: Seq<crate::models::Story>,
    doc: crate::feed::FeedDocument,
    dates: Seq<Option<crate::stories::CivilDate>>,
    today: crate::stories::CivilDate,
    i: int,
)
    requires
        ends_a_line(log),
        is_single_line(url),
        url.len() > 0,
        string_views(read) == line_pieces(log + url.push('\n')),
        crate::stories::selected(stories, doc, read, dates, today),
        0 <= i < stories.len(),
    ensures
        stories[i].url@ != url,
{
    marked_read_law(log, url, read);
    crate::stories::shown_stories_law(stories, doc, read, dates, today, i);
}

} // verus!
