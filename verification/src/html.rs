//! Escaping text for Pango/HTML markup.
use vstd::prelude::*;
use crate::text::chars_of;

verus! {

/// The markup for one character of text: `&`, `<`, `>`, `"` and `'` become
/// entities, every other character stands for itself.
pub open spec fn escape_char(c: char) -> Seq<char> {
    if c == '&' {
        seq!['&', 'a', 'm', 'p', ';']
    } else if c == '<' {
        seq!['&', 'l', 't', ';']
    } else if c == '>' {
        seq!['&', 'g', 't', ';']
    } else if c == '"' {
        seq!['&', 'q', 'u', 'o', 't', ';']
    } else if c == '\'' {
        seq!['&', 'a', 'p', 'o', 's', ';']
    } else {
        seq![c]
    }
}

/// The markup for a text: each character escaped in turn.
pub open spec fn escaped(s: Seq<char>) -> Seq<char>
    decreases s.len(),
{
    if s.len() == 0 {
        Seq::empty()
    } else {
        escaped(s.drop_last()) + escape_char(s.last())
    }
}

/// A character that markup gives a meaning to, other than `&`.
pub open spec fn is_markup_char(c: char) -> bool {
    c == '<' || c == '>' || c == '"' || c == '\''
}

/// Text escaped for markup, as the reader shows feed text inside Pango markup.
pub fn escape_html(s: &str) -> (r: String)
    ensures
        r@ == escaped(s@),
{
    let v = chars_of(s);
    let mut r = String::new();
    let mut i: usize = 0;
    assert(v@.take(0) =~= Seq::<char>::empty());
    while i < v.len()
        invariant
            i <= v.len(),
            r@ == escaped(v@.take(i as int)),
        decreases v.len() - i,
    {
        let c = v[i];
        let ghost before = r@;
        if c == '&' {
            r.push('&');
            r.push('a');
            r.push('m');
            r.push('p');
            r.push(';');
        } else if c == '<' {
            r.push('&');
            r.push('l');
            r.push('t');
            r.push(';');
        } else if c == '>' {
            r.push('&');
            r.push('g');
            r.push('t');
            r.push(';');
        } else if c == '"' {
            r.push('&');
            r.push('q');
            r.push('u');
            r.push('o');
            r.push('t');
            r.push(';');
        } else if c == '\'' {
            r.push('&');
            r.push('a');
            r.push('p');
            r.push('o');
            r.push('s');
            r.push(';');
        } else {
            r.push(c);
        }
        assert(r@ =~= before + escape_char(c));
        assert(v@.take(i + 1).drop_last() =~= v@.take(i as int));
        i = i + 1;
    }
    assert(v@.take(v.len() as int) =~= v@);
    r
}

/// `t` begins with `p`.
pub open spec fn starts_with(t: Seq<char>, p: Seq<char>) -> bool {
    p.len() <= t.len() && t.take(p.len() as int) == p
}

/// Markup read back as text, left to right: each of the five entities that
/// escaping writes stands for its character, every other character for itself.
pub open spec fn unescaped(t: Seq<char>) -> Seq<char>
    decreases t.len(),
{
    if t.len() == 0 {
        Seq::empty()
    } else if starts_with(t, escape_char('&')) {
        seq!['&'] + unescaped(t.skip(5))
    } else if starts_with(t, escape_char('<')) {
        seq!['<'] + unescaped(t.skip(4))
    } else if starts_with(t, escape_char('>')) {
        seq!['>'] + unescaped(t.skip(4))
    } else if starts_with(t, escape_char('"')) {
        seq!['"'] + unescaped(t.skip(6))
    } else if starts_with(t, escape_char('\'')) {
        seq!['\''] + unescaped(t.skip(6))
    } else {
        seq![t[0]] + unescaped(t.drop_first())
    }
}

/// Reading back the markup of one character, and then the rest.
proof fn lemma_unescape_char(c: char, rest: Seq<char>)
    ensures
        unescaped(escape_char(c) + rest) == seq![c] + unescaped(rest),
{
    let t = escape_char(c) + rest;
    let n = escape_char(c).len() as int;
    assert(t.skip(n) =~= rest);
    assert(t.take(n) =~= escape_char(c));
    if c != '&' {
        assert(t[0] == escape_char(c)[0]);
        if c == '<' || c == '>' || c == '"' || c == '\'' {
            assert(t[1] == escape_char(c)[1]);
            assert(!starts_with(t, escape_char('&'))) by {
                if starts_with(t, escape_char('&')) {
                    assert(t.take(5)[1] == t[1]);
                    if c == '\'' {
                        assert(t[2] == escape_char(c)[2]);
                        assert(t.take(5)[2] == t[2]);
                    }
                }
            }
            if c != '<' {
                assert(!starts_with(t, escape_char('<'))) by {
                    if starts_with(t, escape_char('<')) {
                        assert(t.take(4)[1] == t[1]);
                    }
                }
            }
            if c != '<' && c != '>' {
                assert(!starts_with(t, escape_char('>'))) by {
                    if starts_with(t, escape_char('>')) {
                        assert(t.take(4)[1] == t[1]);
                    }
                }
            }
            if c == '\'' {
                assert(!starts_with(t, escape_char('"'))) by {
                    if starts_with(t, escape_char('"')) {
                        assert(t.take(6)[1] == t[1]);
                    }
                }
            }
        } else {
            assert(t[0] == c);
            assert(t.drop_first() =~= rest);
            assert(!starts_with(t, escape_char('&'))) by {
                if starts_with(t, escape_char('&')) {
                    assert(t.take(5)[0] == t[0]);
                }
            }
            assert(!starts_with(t, escape_char('<'))) by {
                if starts_with(t, escape_char('<')) {
                    assert(t.take(4)[0] == t[0]);
                }
            }
            assert(!starts_with(t, escape_char('>'))) by {
                if starts_with(t, escape_char('>')) {
                    assert(t.take(4)[0] == t[0]);
                }
            }
            assert(!starts_with(t, escape_char('"'))) by {
                if starts_with(t, escape_char('"')) {
                    assert(t.take(6)[0] == t[0]);
                }
            }
            assert(!starts_with(t, escape_char('\''))) by {
                if starts_with(t, escape_char('\'')) {
                    assert(t.take(6)[0] == t[0]);
                }
            }
        }
    }
}

/// Escaping loses nothing: reading the markup back gives the text again.
pub proof fn unescape_round_trip_law(s: Seq<char>)
    ensures
        unescaped(escaped(s)) == s,
    decreases s.len(),
{
    if s.len() > 0 {
        let rest = s.drop_first();
        assert(s =~= seq![s[0]] + rest);
        escaped_concat(seq![s[0]], rest);
        assert(escaped(seq![s[0]]) =~= escape_char(s[0])) by {
            assert(seq![s[0]].drop_last() =~= Seq::<char>::empty());
            assert(escaped(Seq::<char>::empty()) =~= Seq::<char>::empty());
        }
        lemma_unescape_char(s[0], escaped(rest));
        unescape_round_trip_law(rest);
    } else {
        assert(escaped(s) =~= Seq::<char>::empty());
    }
}

/// `t` with every occurrence of `p` replaced by `r`, scanning left to right
/// without overlaps, as `str::replace` does.
pub open spec fn replace_all(t: Seq<char>, p: Seq<char>, r: Seq<char>) -> Seq<char>
    decreases t.len(),
{
    if t.len() == 0 || p.len() == 0 {
        t
    } else if starts_with(t, p) {
        r + replace_all(t.skip(p.len() as int), p, r)
    } else {
        seq![t[0]] + replace_all(t.drop_first(), p, r)
    }
}

/// Markup read back by five replacements, the way a caller would undo
/// `escape_html` with `str::replace`: `&lt;`, `&gt;`, `&quot;` and `&apos;` first,
/// `&amp;` last.
pub open spec fn unescaped_by_replace(t: Seq<char>) -> Seq<char> {
    let t1 = replace_all(t, escape_char('<'), seq!['<']);
    let t2 = replace_all(t1, escape_char('>'), seq!['>']);
    let t3 = replace_all(t2, escape_char('"'), seq!['"']);
    let t4 = replace_all(t3, escape_char('\''), seq!['\'']);
    replace_all(t4, escape_char('&'), seq!['&'])
}

/// The words of `g`, one for each character of `s`, joined in order.
pub open spec fn mapped(s: Seq<char>, g: spec_fn(char) -> Seq<char>) -> Seq<char>
    decreases s.len(),
{
    if s.len() == 0 {
        Seq::empty()
    } else {
        g(s[0]) + mapped(s.drop_first(), g)
    }
}

/// `w` and `p` differ somewhere within both: neither is a prefix of the other.
pub open spec fn disagree(w: Seq<char>, p: Seq<char>) -> bool {
    exists|k: int| 0 <= k < w.len() && k < p.len() && w[k] != p[k]
}

/// A word that `p` (which starts with `&`) cannot be found in, or across the
/// start of: it has `&` at most first, and then it is `p` or disagrees with it.
pub open spec fn clear_of(w: Seq<char>, p: Seq<char>) -> bool {
    &&& forall|k: int| 1 <= k < w.len() ==> w[k] != '&'
    &&& (w.len() > 0 && w[0] == '&' && w != p) ==> disagree(w, p)
}

/// A word that `p` is not found at the start of is kept as it is.
proof fn lemma_replace_after_word(w: Seq<char>, x: Seq<char>, p: Seq<char>, r: Seq<char>)
    requires
        p.len() >= 2,
        p[0] == '&',
        forall|k: int| 1 <= k < w.len() ==> w[k] != '&',
        w.len() > 0 && w[0] == '&' ==> disagree(w, p),
    ensures
        replace_all(w + x, p, r) == w + replace_all(x, p, r),
    decreases w.len(),
{
    if w.len() == 0 {
        assert(w + x =~= x);
    } else {
        let t = w + x;
        assert(!starts_with(t, p)) by {
            if starts_with(t, p) {
                assert(t.take(p.len() as int)[0] == t[0]);
                if w[0] == '&' {
                    let k = choose|k: int| 0 <= k < w.len() && k < p.len() && w[k] != p[k];
                    assert(t.take(p.len() as int)[k] == t[k]);
                }
            }
        }
        assert(t.drop_first() =~= w.drop_first() + x);
        assert forall|k: int| 1 <= k < w.drop_first().len() implies w.drop_first()[k] != '&' by {
            assert(w.drop_first()[k] == w[k + 1]);
        }
        if w.drop_first().len() > 0 {
            assert(w.drop_first()[0] == w[1]);
        }
        lemma_replace_after_word(w.drop_first(), x, p, r);
        assert(seq![t[0]] + (w.drop_first() + replace_all(x, p, r)) =~= w + replace_all(x, p, r));
    }
}

/// Replacing `p` by `r` in a text made of words that are `p` or clear of it
/// replaces exactly those words.
proof fn lemma_replace_mapped(
    s: Seq<char>,
    g: spec_fn(char) -> Seq<char>,
    h: spec_fn(char) -> Seq<char>,
    p: Seq<char>,
    r: Seq<char>,
)
    requires
        p.len() >= 2,
        p[0] == '&',
        forall|c: char| #[trigger] g(c) != p ==> clear_of(g(c), p),
        forall|c: char| #[trigger] h(c) == if g(c) == p { r } else { g(c) },
    ensures
        replace_all(mapped(s, g), p, r) == mapped(s, h),
    decreases s.len(),
{
    if s.len() > 0 {
        let c = s[0];
        let x = mapped(s.drop_first(), g);
        lemma_replace_mapped(s.drop_first(), g, h, p, r);
        if g(c) == p {
            let t = g(c) + x;
            assert(t.take(p.len() as int) =~= p);
            assert(t.skip(p.len() as int) =~= x);
        } else {
            assert(clear_of(g(c), p));
            lemma_replace_after_word(g(c), x, p, r);
        }
    }
}

/// Escaping character by character, from the front.
proof fn lemma_escaped_mapped(s: Seq<char>)
    ensures
        escaped(s) == mapped(s, |c: char| escape_char(c)),
    decreases s.len(),
{
    if s.len() > 0 {
        let rest = s.drop_first();
        assert(s =~= seq![s[0]] + rest);
        escaped_concat(seq![s[0]], rest);
        assert(seq![s[0]].drop_last() =~= Seq::<char>::empty());
        assert(escaped(Seq::<char>::empty()) =~= Seq::<char>::empty());
        assert(escaped(seq![s[0]]) =~= escape_char(s[0]));
        lemma_escaped_mapped(rest);
    } else {
        assert(escaped(s) =~= Seq::<char>::empty());
    }
}

/// Each character written as itself.
proof fn lemma_mapped_identity(s: Seq<char>)
    ensures
        mapped(s, |c: char| seq![c]) == s,
    decreases s.len(),
{
    if s.len() > 0 {
        lemma_mapped_identity(s.drop_first());
        assert(seq![s[0]] + s.drop_first() =~= s);
    }
}

/// The stage of reading back where the characters in `done` are already plain.
pub open spec fn stage(done: Seq<char>) -> spec_fn(char) -> Seq<char> {
    |c: char| if done.contains(c) { seq![c] } else { escape_char(c) }
}

proof fn lemma_entity_facts(c: char, p: char)
    requires
        p == '&' || p == '<' || p == '>' || p == '"' || p == '\'',
    ensures
        escape_char(c) != escape_char(p) ==> clear_of(escape_char(c), escape_char(p)),
        escape_char(c) == escape_char(p) <==> c == p,
        escape_char(p).len() >= 2 && escape_char(p)[0] == '&',
        seq![c] != escape_char(p),
{
    let w = escape_char(c);
    let q = escape_char(p);
    assert(q.len() >= 4);
    if w.len() > 1 {
        assert(w[1] != '&');
    }
    if w.len() == 1 {
        assert(w != q);
        if w[0] == '&' {
            assert(c == '&');
        }
    }
    if w.len() > 1 && w != q {
        if w[1] != q[1] {
            assert(disagree(w, q));
        } else {
            assert(w[2] != q[2]);
            assert(disagree(w, q));
        }
    }
    if c != p {
        assert(w != q) by {
            if w.len() > 1 && w.len() == q.len() {
                assert(w[1] != q[1] || w[2] != q[2]);
            }
        }
    }
    assert(seq![c].len() != q.len());
}

/// One stage of reading back: replacing the entity of `p` turns the stage where
/// `done` is plain into the one where `p` is plain too.
proof fn lemma_stage_step(s: Seq<char>, done: Seq<char>, p: char)
    requires
        p == '&' || p == '<' || p == '>' || p == '"' || p == '\'',
        !done.contains(p),
        !done.contains('&'),
    ensures
        replace_all(mapped(s, stage(done)), escape_char(p), seq![p]) == mapped(
            s,
            stage(done.push(p)),
        ),
{
    let g = stage(done);
    let h = stage(done.push(p));
    let q = escape_char(p);
    lemma_entity_facts('a', p);
    assert forall|c: char| #[trigger] g(c) != q implies clear_of(g(c), q) by {
        lemma_entity_facts(c, p);
        if done.contains(c) {
            assert(c != '&');
        }
    }
    assert forall|c: char| #[trigger] h(c) == if g(c) == q { seq![p] } else { g(c) } by {
        lemma_entity_facts(c, p);
        if c == p {
            assert(done.push(p).contains(c)) by {
                assert(done.push(p)[done.len() as int] == p);
            }
        } else {
            assert(done.push(p).contains(c) == done.contains(c)) by {
                if done.push(p).contains(c) {
                    let i = choose|i: int| 0 <= i < done.push(p).len() && done.push(p)[i] == c;
                    assert(i < done.len());
                    assert(done[i] == c);
                }
                if done.contains(c) {
                    let i = choose|i: int| 0 <= i < done.len() && done[i] == c;
                    assert(done.push(p)[i] == c);
                }
            }
        }
    }
    lemma_replace_mapped(s, g, h, q, seq![p]);
}

/// Escaping loses nothing also for a caller that undoes it with `str::replace`:
/// replacing `&lt;`, `&gt;`, `&quot;`, `&apos;` and then `&amp;` gives the text
/// again.
pub proof fn unescape_by_replace_round_trip_law(s: Seq<char>)
    ensures
        unescaped_by_replace(escaped(s)) == s,
{
    let d0 = Seq::<char>::empty();
    let d1 = d0.push('<');
    let d2 = d1.push('>');
    let d3 = d2.push('"');
    let d4 = d3.push('\'');
    let d5 = d4.push('&');
    lemma_escaped_mapped(s);
    assert(stage(d0) =~= (|c: char| escape_char(c)));
    assert(!d1.contains('>') && !d1.contains('&')) by {
        assert(d1 =~= seq!['<']);
    }
    assert(!d2.contains('"') && !d2.contains('&')) by {
        assert(d2 =~= seq!['<', '>']);
    }
    assert(!d3.contains('\'') && !d3.contains('&')) by {
        assert(d3 =~= seq!['<', '>', '"']);
    }
    assert(!d4.contains('&')) by {
        assert(d4 =~= seq!['<', '>', '"', '\'']);
    }
    lemma_stage_step(s, d0, '<');
    lemma_stage_step(s, d1, '>');
    lemma_stage_step(s, d2, '"');
    lemma_stage_step(s, d3, '\'');
    lemma_stage_step(s, d4, '&');
    assert forall|c: char| #[trigger] stage(d5)(c) == seq![c] by {
        lemma_entity_facts(c, '&');
        if !d5.contains(c) {
            assert(d5 =~= seq!['<', '>', '"', '\'', '&']);
            assert(c != '<' && c != '>' && c != '"' && c != '\'' && c != '&');
        }
    }
    assert(stage(d5) =~= (|c: char| seq![c]));
    lemma_mapped_identity(s);
}

/// Escaped text holds no `<`, `>`, `"` or `'`: feed text cannot open or close
/// markup of its own.
pub proof fn escaped_is_inert(s: Seq<char>)
    ensures
        forall|i: int| 0 <= i < escaped(s).len() ==> !is_markup_char(#[trigger] escaped(s)[i]),
    decreases s.len(),
{
    if s.len() > 0 {
        escaped_is_inert(s.drop_last());
        let a = escaped(s.drop_last());
        let b = escape_char(s.last());
        assert forall|i: int| 0 <= i < escaped(s).len() implies !is_markup_char(
            #[trigger] escaped(s)[i],
        ) by {
            if i < a.len() {
                assert(escaped(s)[i] == a[i]);
            } else {
                assert(escaped(s)[i] == b[i - a.len()]);
            }
        }
    }
}

/// Escaping distributes over concatenation.
pub proof fn escaped_concat(a: Seq<char>, b: Seq<char>)
    ensures
        escaped(a + b) == escaped(a) + escaped(b),
    decreases b.len(),
{
    if b.len() == 0 {
        assert(a + b =~= a);
        assert(escaped(a) + escaped(b) =~= escaped(a));
    } else {
        assert((a + b).drop_last() =~= a + b.drop_last());
        escaped_concat(a, b.drop_last());
        assert(escaped(a + b) =~= escaped(a) + escaped(b));
    }
}

/// Text without special characters is its own markup.
pub proof fn escaped_plain_text(s: Seq<char>)
    requires
        forall|i: int| 0 <= i < s.len() ==> !is_markup_char(#[trigger] s[i]) && s[i] != '&',
    ensures
        escaped(s) == s,
    decreases s.len(),
{
    if s.len() > 0 {
        escaped_plain_text(s.drop_last());
        assert(escaped(s) =~= s.drop_last() + seq![s.last()]);
        assert(s.drop_last() + seq![s.last()] =~= s);
    }
}

} // verus!
