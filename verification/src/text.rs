//! Characters, trimming and other small text operations that the rest of the
//! library is stated in terms of.
use vstd::prelude::*;

verus! {

/// `String::push` appends one character.
pub assume_specification[ String::push ](s: &mut String, ch: char)
    ensures
        final(s)@ == old(s)@.push(ch),
;

/// Unicode `White_Space`, the set that `char::is_whitespace` and `str::trim` use.
pub open spec fn is_white_space(c: char) -> bool {
    ||| ('\u{9}' <= c && c <= '\u{d}')
    ||| c == ' '
    ||| c == '\u{85}'
    ||| c == '\u{a0}'
    ||| c == '\u{1680}'
    ||| ('\u{2000}' <= c && c <= '\u{200a}')
    ||| c == '\u{2028}'
    ||| c == '\u{2029}'
    ||| c == '\u{202f}'
    ||| c == '\u{205f}'
    ||| c == '\u{3000}'
}

/// ASCII punctuation, as `char::is_ascii_punctuation` defines it.
pub open spec fn is_ascii_punct(c: char) -> bool {
    ||| ('!' <= c && c <= '/')
    ||| (':' <= c && c <= '@')
    ||| ('[' <= c && c <= '`')
    ||| ('{' <= c && c <= '~')
}

pub fn white_space(c: char) -> (b: bool)
    ensures
        b == is_white_space(c),
{
    ('\u{9}' <= c && c <= '\u{d}') || c == ' ' || c == '\u{85}' || c == '\u{a0}' || c
        == '\u{1680}' || ('\u{2000}' <= c && c <= '\u{200a}') || c == '\u{2028}' || c
        == '\u{2029}' || c == '\u{202f}' || c == '\u{205f}' || c == '\u{3000}'
}

pub fn ascii_punct(c: char) -> (b: bool)
    ensures
        b == is_ascii_punct(c),
{
    ('!' <= c && c <= '/') || (':' <= c && c <= '@') || ('[' <= c && c <= '`') || ('{' <= c
        && c <= '~')
}

/// `s` without its longest prefix of characters satisfying `p`.
pub open spec fn drop_while_start(s: Seq<char>, p: spec_fn(char) -> bool) -> Seq<char>
    decreases s.len(),
{
    if s.len() > 0 && p(s[0]) {
        drop_while_start(s.drop_first(), p)
    } else {
        s
    }
}

/// `s` without its longest suffix of characters satisfying `p`.
pub open spec fn drop_while_end(s: Seq<char>, p: spec_fn(char) -> bool) -> Seq<char>
    decreases s.len(),
{
    if s.len() > 0 && p(s.last()) {
        drop_while_end(s.drop_last(), p)
    } else {
        s
    }
}

/// What `str::trim` gives back: `s` without leading and trailing white space.
pub open spec fn trim(s: Seq<char>) -> Seq<char> {
    drop_while_end(drop_while_start(s, |c: char| is_white_space(c)), |c: char| is_white_space(c))
}

/// Dropping a run `s[lo..a]` of characters that satisfy `p`, that ends at `hi` or
/// before a character that does not.
pub proof fn lemma_drop_while_start_range(
    s: Seq<char>,
    p: spec_fn(char) -> bool,
    lo: int,
    a: int,
    hi: int,
)
    requires
        0 <= lo <= a <= hi <= s.len(),
        forall|i: int| lo <= i < a ==> #[trigger] p(s[i]),
        a == hi || !p(s[a]),
    ensures
        drop_while_start(s.subrange(lo, hi), p) == s.subrange(a, hi),
    decreases a - lo,
{
    if lo < a {
        assert(s.subrange(lo, hi).drop_first() =~= s.subrange(lo + 1, hi));
        assert(p(s.subrange(lo, hi)[0]));
        lemma_drop_while_start_range(s, p, lo + 1, a, hi);
    } else {
        if lo < hi {
            assert(s.subrange(lo, hi)[0] == s[lo]);
        }
    }
}

/// Dropping a run `s[b..hi]` of characters that satisfy `p`, that starts at `lo` or
/// after a character that does not.
pub proof fn lemma_drop_while_end_range(
    s: Seq<char>,
    p: spec_fn(char) -> bool,
    lo: int,
    b: int,
    hi: int,
)
    requires
        0 <= lo <= b <= hi <= s.len(),
        forall|i: int| b <= i < hi ==> #[trigger] p(s[i]),
        b == lo || !p(s[b - 1]),
    ensures
        drop_while_end(s.subrange(lo, hi), p) == s.subrange(lo, b),
    decreases hi - b,
{
    if b < hi {
        assert(s.subrange(lo, hi).drop_last() =~= s.subrange(lo, hi - 1));
        assert(p(s.subrange(lo, hi).last()));
        lemma_drop_while_end_range(s, p, lo, b, hi - 1);
    } else {
        if lo < hi {
            assert(s.subrange(lo, hi).last() == s[hi - 1]);
        }
    }
}

/// The characters of `s`, in order.
pub fn chars_of(s: &str) -> (v: Vec<char>)
    ensures
        v@ == s@,
{
    let mut v: Vec<char> = Vec::new();
    for c in it: s.chars()
        invariant
            it.seq() == s@,
            v@ == s@.take(it.index() as int),
    {
        v.push(c);
    }
    assert(s@.take(s@.len() as int) == s@);
    v
}

/// Whether two strings hold the same characters.
pub fn same_text(a: &str, b: &str) -> (r: bool)
    ensures
        r == (a@ == b@),
{
    let x = chars_of(a);
    let y = chars_of(b);
    if x.len() != y.len() {
        return false;
    }
    let mut i: usize = 0;
    while i < x.len()
        invariant
            i <= x.len() == y.len(),
            x@ == a@,
            y@ == b@,
            forall|j: int| 0 <= j < i ==> x@[j] == y@[j],
        decreases x.len() - i,
    {
        if x[i] != y[i] {
            assert(a@[i as int] != b@[i as int]);
            return false;
        }
        i = i + 1;
    }
    assert(x@ =~= y@);
    true
}

/// The decimal digit for `d < 10`.
pub open spec fn digit_char(d: nat) -> char {
    if d == 0 {
        '0'
    } else if d == 1 {
        '1'
    } else if d == 2 {
        '2'
    } else if d == 3 {
        '3'
    } else if d == 4 {
        '4'
    } else if d == 5 {
        '5'
    } else if d == 6 {
        '6'
    } else if d == 7 {
        '7'
    } else if d == 8 {
        '8'
    } else {
        '9'
    }
}

/// The decimal numeral of `n`, without leading zeros, as `{}` formats it.
pub open spec fn decimal(n: nat) -> Seq<char>
    decreases n,
{
    if n < 10 {
        seq![digit_char(n)]
    } else {
        decimal(n / 10).push(digit_char(n % 10))
    }
}

fn digit(d: u64) -> (c: char)
    requires
        d < 10,
    ensures
        c == digit_char(d as nat),
{
    if d == 0 {
        '0'
    } else if d == 1 {
        '1'
    } else if d == 2 {
        '2'
    } else if d == 3 {
        '3'
    } else if d == 4 {
        '4'
    } else if d == 5 {
        '5'
    } else if d == 6 {
        '6'
    } else if d == 7 {
        '7'
    } else if d == 8 {
        '8'
    } else {
        '9'
    }
}

/// The decimal numeral of `n`.
pub fn decimal_string(n: u64) -> (s: String)
    ensures
        s@ == decimal(n as nat),
    decreases n,
{
    if n < 10 {
        let mut s = String::new();
        s.push(digit(n));
        assert(s@ =~= seq![digit_char(n as nat)]);
        s
    } else {
        let mut s = decimal_string(n / 10);
        s.push(digit(n % 10));
        s
    }
}

/// A string holding `v[lo..hi]`.
pub fn string_of_range(v: &Vec<char>, lo: usize, hi: usize) -> (s: String)
    requires
        lo <= hi <= v.len(),
    ensures
        s@ == v@.subrange(lo as int, hi as int),
{
    let mut s = String::new();
    let mut i = lo;
    while i < hi
        invariant
            lo <= i <= hi <= v.len(),
            s@ == v@.subrange(lo as int, i as int),
        decreases hi - i,
    {
        s.push(v[i]);
        i = i + 1;
        assert(s@ =~= v@.subrange(lo as int, i as int));
    }
    s
}

/// The bounds `(a, b)` with `v[a..b] == trim(v[lo..hi])`.
pub fn trim_range(v: &Vec<char>, lo: usize, hi: usize) -> (r: (usize, usize))
    requires
        lo <= hi <= v.len(),
    ensures
        lo <= r.0 <= r.1 <= hi,
        trim(v@.subrange(lo as int, hi as int)) == v@.subrange(r.0 as int, r.1 as int),
{
    let ghost p = |c: char| is_white_space(c);
    let mut a = lo;
    while a < hi && white_space(v[a])
        invariant
            lo <= a <= hi <= v.len(),
            p == (|c: char| is_white_space(c)),
            forall|i: int| lo <= i < a ==> #[trigger] p(v@[i]),
        decreases hi - a,
    {
        a = a + 1;
    }
    proof {
        lemma_drop_while_start_range(v@, p, lo as int, a as int, hi as int);
    }
    let mut b = hi;
    while b > a && white_space(v[b - 1])
        invariant
            lo <= a <= b <= hi <= v.len(),
            p == (|c: char| is_white_space(c)),
            forall|i: int| b <= i < hi ==> #[trigger] p(v@[i]),
        decreases b - a,
    {
        b = b - 1;
    }
    proof {
        let t = v@.subrange(a as int, hi as int);
        assert forall|j: int| (b - a) <= j < (hi - a) implies #[trigger] p(t[j]) by {
            assert(t[j] == v@[j + a]);
        }
        if b > a {
            assert(t[b - a - 1] == v@[b - 1]);
        }
        lemma_drop_while_end_range(t, p, 0, (b - a) as int, (hi - a) as int);
        assert(t.subrange(0, hi - a) =~= t);
        assert(t.subrange(0, b - a) =~= v@.subrange(a as int, b as int));
    }
    (a, b)
}

} // verus!
