//! Finding a contact e-mail address in the free-form author strings of a feed.
use vstd::prelude::*;
use crate::text::{
    ascii_punct, chars_of, drop_while_end, drop_while_start, is_ascii_punct, is_white_space,
    lemma_drop_while_end_range, string_of_range, trim, trim_range,
};

verus! {

/// The characters at which an author string is cut into candidate words.
pub open spec fn is_delimiter(c: char) -> bool {
    c == ' ' || c == '(' || c == ')' || c == '<' || c == '>' || c == '[' || c == ']' || c == ','
        || c == ';'
}

/// Trailing characters that are cut off a found address: ASCII punctuation other
/// than `.`, `-` and `_`.
pub open spec fn is_trailing_junk(c: char) -> bool {
    is_ascii_punct(c) && c != '.' && c != '-' && c != '_'
}

/// The position of the first character of `s` that satisfies `p`, or `s.len()`.
pub open spec fn first_index(s: Seq<char>, p: spec_fn(char) -> bool) -> nat
    decreases s.len(),
{
    if s.len() == 0 {
        0
    } else if p(s[0]) {
        0
    } else {
        1 + first_index(s.drop_first(), p)
    }
}

/// `s` cut at every delimiter, empty pieces included, as `str::split` does.
pub open spec fn split_on_delimiters(s: Seq<char>) -> Seq<Seq<char>>
    decreases s.len(),
{
    let k = first_index(s, |c: char| is_delimiter(c));
    if k < s.len() {
        seq![s.take(k as int)] + split_on_delimiters(s.skip(k + 1 as int))
    } else {
        seq![s]
    }
}

/// A word that reads as an address: its first `@` has a non-empty part before it,
/// and a non-empty part after it that holds a `.`.
pub open spec fn is_address_like(p: Seq<char>) -> bool {
    let at = first_index(p, |c: char| c == '@');
    &&& p.contains('@')
    &&& p.contains('.')
    &&& at > 0
    &&& at + 1 < p.len()
    &&& p.skip(at + 1 as int).contains('.')
}

/// The address as it is returned: with trailing junk cut off.
pub open spec fn cleaned_address(p: Seq<char>) -> Seq<char> {
    drop_while_end(p, |c: char| is_trailing_junk(c))
}

/// The cleaned form of the first trimmed piece that reads as an address.
pub open spec fn first_address(parts: Seq<Seq<char>>) -> Option<Seq<char>>
    decreases parts.len(),
{
    if parts.len() == 0 {
        None
    } else {
        let p = trim(parts[0]);
        if is_address_like(p) {
            Some(cleaned_address(p))
        } else {
            first_address(parts.drop_first())
        }
    }
}

/// The address found in `s`, if any.
pub open spec fn email_in(s: Seq<char>) -> Option<Seq<char>> {
    first_address(split_on_delimiters(s))
}

/// The view of an optional string.
pub open spec fn opt_view(o: Option<String>) -> Option<Seq<char>> {
    match o {
        Some(s) => Some(s@),
        None => None,
    }
}

/// `first_index` is the first position that satisfies `p`.
pub proof fn lemma_first_index(s: Seq<char>, p: spec_fn(char) -> bool, k: int)
    requires
        0 <= k <= s.len(),
        forall|i: int| 0 <= i < k ==> !#[trigger] p(s[i]),
        k == s.len() || p(s[k]),
    ensures
        first_index(s, p) == k,
    decreases k,
{
    if k > 0 {
        assert(!p(s[0]));
        assert forall|i: int| 0 <= i < k - 1 implies !#[trigger] p(s.drop_first()[i]) by {
            assert(s.drop_first()[i] == s[i + 1]);
        }
        if k < s.len() {
            assert(s.drop_first()[k - 1] == s[k]);
        }
        lemma_first_index(s.drop_first(), p, k - 1);
    }
}

/// What the reader returns as an address: a first `@` with text before it and a
/// `.` somewhere after it.
pub open spec fn reads_as_address(r: Seq<char>) -> bool {
    let at = first_index(r, |c: char| c == '@');
    &&& 0 < at < r.len()
    &&& r.skip(at + 1 as int).contains('.')
}

/// Dropping a suffix stops before any character that `p` rejects.
proof fn lemma_drop_while_end_keeps(s: Seq<char>, p: spec_fn(char) -> bool, j: int)
    requires
        0 <= j < s.len(),
        !p(s[j]),
    ensures
        exists|m: int| j < m <= s.len() && drop_while_end(s, p) == s.take(m),
    decreases s.len(),
{
    if s.len() > 0 && p(s.last()) {
        assert(s.drop_last()[j] == s[j]);
        lemma_drop_while_end_keeps(s.drop_last(), p, j);
        let m = choose|m: int| j < m <= s.drop_last().len() && drop_while_end(s.drop_last(), p)
            == s.drop_last().take(m);
        assert(s.drop_last().take(m) =~= s.take(m));
    } else {
        assert(s.take(s.len() as int) =~= s);
    }
}

/// The first match in a prefix that holds it.
proof fn lemma_first_index_take(s: Seq<char>, p: spec_fn(char) -> bool, m: int)
    requires
        first_index(s, p) < m <= s.len(),
    ensures
        first_index(s.take(m), p) == first_index(s, p),
    decreases s.len(),
{
    if s.len() > 0 && !p(s[0]) {
        assert(s.take(m).drop_first() =~= s.drop_first().take(m - 1));
        lemma_first_index_take(s.drop_first(), p, m - 1);
    }
}

/// Cleaning keeps what makes a word read as an address.
proof fn lemma_cleaned_reads_as_address(p: Seq<char>)
    requires
        is_address_like(p),
    ensures
        reads_as_address(cleaned_address(p)),
{
    let q = |c: char| c == '@';
    let at = first_index(p, q) as int;
    let tail = p.skip(at + 1);
    let d = choose|d: int| 0 <= d < tail.len() && tail[d] == '.';
    let j = at + 1 + d;
    assert(p[j] == '.');
    lemma_drop_while_end_keeps(p, |c: char| is_trailing_junk(c), j);
    let m = choose|m: int| j < m <= p.len() && cleaned_address(p) == p.take(m);
    lemma_first_index_take(p, q, m);
    let r = p.take(m);
    assert(r.skip(at + 1)[d] == '.');
}

/// Whatever the reader finds in a string reads as an address: cutting trailing
/// punctuation never reaches back past the `.` after the first `@`.
pub proof fn found_address_law(s: Seq<char>)
    ensures
        email_in(s) matches Some(r) ==> reads_as_address(r),
{
    lemma_first_address_reads(split_on_delimiters(s));
}

proof fn lemma_first_address_reads(parts: Seq<Seq<char>>)
    ensures
        first_address(parts) matches Some(r) ==> reads_as_address(r),
    decreases parts.len(),
{
    if parts.len() > 0 {
        let p = trim(parts[0]);
        if is_address_like(p) {
            lemma_cleaned_reads_as_address(p);
        } else {
            lemma_first_address_reads(parts.drop_first());
        }
    }
}

/// A plain address is found as it is, dots before the `@` included: a string
/// `local@domain` with no delimiter in it, a non-empty local part without `@`, a
/// domain holding a `.`, no white space at either end and no trailing punctuation
/// to cut.
pub proof fn plain_address_law(local: Seq<char>, domain: Seq<char>)
    requires
        local.len() > 0,
        !local.contains('@'),
        domain.contains('.'),
        forall|i: int| 0 <= i < local.len() ==> !is_delimiter(#[trigger] local[i]),
        forall|i: int| 0 <= i < domain.len() ==> !is_delimiter(#[trigger] domain[i]),
        !is_white_space(local[0]),
        !is_white_space(domain.last()),
        !is_trailing_junk(domain.last()),
    ensures
        email_in(local + seq!['@'] + domain) == Some(local + seq!['@'] + domain),
{
    let s = local + seq!['@'] + domain;
    let n = local.len() as int;
    assert(domain.len() > 0);
    assert(s[n] == '@');
    assert forall|i: int| 0 <= i < s.len() implies !#[trigger] is_delimiter(s[i]) by {
        if i < n {
            assert(s[i] == local[i]);
        } else if i > n {
            assert(s[i] == domain[i - n - 1]);
        }
    }
    let dp = |c: char| is_delimiter(c);
    assert forall|i: int| 0 <= i < s.len() implies !#[trigger] dp(s[i]) by {}
    lemma_first_index(s, dp, s.len() as int);
    assert(split_on_delimiters(s) == seq![s]);
    let ws = |c: char| is_white_space(c);
    assert(s[0] == local[0]);
    assert(s.last() == domain.last());
    assert(drop_while_start(s, ws) == s);
    assert(drop_while_end(s, ws) == s);
    assert(trim(s) == s);
    let ap = |c: char| c == '@';
    assert forall|i: int| 0 <= i < n implies !#[trigger] ap(s[i]) by {
        assert(s[i] == local[i]);
    }
    lemma_first_index(s, ap, n);
    assert(s.contains('@'));
    let d = choose|d: int| 0 <= d < domain.len() && domain[d] == '.';
    assert(s.skip(n + 1) =~= domain);
    assert(s[n + 1 + d] == '.');
    assert(s.contains('.'));
    assert(is_address_like(s));
    assert(cleaned_address(s) == s);
    assert(seq![s].drop_first() =~= Seq::<Seq<char>>::empty());
    assert(first_address(seq![s]) == Some(s));
}

/// The position of the first `c` in `v[lo..hi]`, or `hi`.
fn find_char(v: &Vec<char>, lo: usize, hi: usize, c: char) -> (r: usize)
    requires
        lo <= hi <= v.len(),
    ensures
        lo <= r <= hi,
        first_index(v@.subrange(lo as int, hi as int), |x: char| x == c) == r - lo,
        v@.subrange(lo as int, hi as int).contains(c) <==> r < hi,
{
    let ghost p = |x: char| x == c;
    let ghost t = v@.subrange(lo as int, hi as int);
    let mut i = lo;
    while i < hi && v[i] != c
        invariant
            lo <= i <= hi <= v.len(),
            t == v@.subrange(lo as int, hi as int),
            forall|j: int| lo <= j < i ==> v@[j] != c,
        decreases hi - i,
    {
        i = i + 1;
    }
    proof {
        assert forall|j: int| 0 <= j < i - lo implies !#[trigger] p(t[j]) by {
            assert(t[j] == v@[j + lo]);
        }
        if i < hi {
            assert(t[i - lo] == v@[i as int]);
        }
        lemma_first_index(t, p, i - lo);
        if i == hi {
            assert forall|j: int| 0 <= j < t.len() implies t[j] != c by {
                assert(t[j] == v@[j + lo]);
            }
        }
    }
    i
}

/// The position of the first delimiter in `v[lo..hi]`, or `hi`.
fn find_delimiter(v: &Vec<char>, lo: usize, hi: usize) -> (r: usize)
    requires
        lo <= hi <= v.len(),
    ensures
        lo <= r <= hi,
        first_index(v@.subrange(lo as int, hi as int), |x: char| is_delimiter(x)) == r - lo,
{
    let ghost p = |x: char| is_delimiter(x);
    let ghost t = v@.subrange(lo as int, hi as int);
    let mut i = lo;
    while i < hi && !(v[i] == ' ' || v[i] == '(' || v[i] == ')' || v[i] == '<' || v[i] == '>'
        || v[i] == '[' || v[i] == ']' || v[i] == ',' || v[i] == ';')
        invariant
            lo <= i <= hi <= v.len(),
            t == v@.subrange(lo as int, hi as int),
            p == (|x: char| is_delimiter(x)),
            forall|j: int| lo <= j < i ==> !is_delimiter(#[trigger] v@[j]),
        decreases hi - i,
    {
        i = i + 1;
    }
    proof {
        assert forall|j: int| 0 <= j < i - lo implies !#[trigger] p(t[j]) by {
            assert(t[j] == v@[j + lo]);
        }
        if i < hi {
            assert(t[i - lo] == v@[i as int]);
        }
        lemma_first_index(t, p, i - lo);
    }
    i
}

/// Whether `v[a..b]` reads as an address.
fn address_like(v: &Vec<char>, a: usize, b: usize) -> (r: bool)
    requires
        a <= b <= v.len(),
    ensures
        r == is_address_like(v@.subrange(a as int, b as int)),
{
    let ghost t = v@.subrange(a as int, b as int);
    let at = find_char(v, a, b, '@');
    let dot = find_char(v, a, b, '.');
    if at == b || dot == b || at == a || at + 1 >= b {
        return false;
    }
    let dot_after = find_char(v, at + 1, b, '.');
    assert(t.skip(at - a + 1) =~= v@.subrange(at + 1, b as int));
    dot_after < b
}

/// The first e-mail address that `s` holds, as the feed reader looks for one:
/// `s` is cut at spaces, brackets, commas and semicolons; each piece is trimmed of
/// white space; the first piece whose first `@` has text before it and, after it,
/// text that holds a `.`, is returned without trailing ASCII punctuation other
/// than `.`, `-` and `_`. `None` when no piece qualifies.
pub fn extract_email_from_string(s: &str) -> (res: Option<String>)
    ensures
        opt_view(res) == email_in(s@),
{
    let v = chars_of(s);
    let n = v.len();
    let mut start: usize = 0;
    assert(v@.skip(0) =~= v@);
    loop
        invariant
            start <= n == v.len(),
            v@ == s@,
            email_in(s@) == first_address(split_on_delimiters(v@.skip(start as int))),
        decreases n - start,
    {
        let ghost rest = v@.skip(start as int);
        let end = find_delimiter(&v, start, n);
        proof {
            assert(v@.subrange(start as int, n as int) =~= rest);
            let k = (end - start) as int;
            let parts = split_on_delimiters(rest);
            if k < rest.len() {
                assert(rest.take(k) =~= v@.subrange(start as int, end as int));
                assert(rest.skip(k + 1) =~= v@.skip(end + 1));
                assert(parts.drop_first() =~= split_on_delimiters(v@.skip(end + 1)));
            } else {
                assert(parts =~= seq![rest]);
                assert(parts.drop_first() =~= Seq::<Seq<char>>::empty());
            }
            assert(parts[0] == v@.subrange(start as int, end as int));
        }
        let (a, b) = trim_range(&v, start, end);
        if address_like(&v, a, b) {
            let mut c = b;
            while c > a && ascii_punct(v[c - 1]) && v[c - 1] != '.' && v[c - 1] != '-' && v[c
                - 1] != '_'
                invariant
                    a <= c <= b <= v.len(),
                    forall|i: int| c <= i < b ==> is_trailing_junk(#[trigger] v@[i]),
                decreases c - a,
            {
                c = c - 1;
            }
            proof {
                let p = |x: char| is_trailing_junk(x);
                assert forall|i: int| c <= i < b implies #[trigger] p(v@[i]) by {}
                lemma_drop_while_end_range(v@, p, a as int, c as int, b as int);
            }
            return Some(string_of_range(&v, a, c));
        }
        if end == n {
            proof {
                let parts = split_on_delimiters(rest);
                assert(first_address(parts.drop_first()) is None);
            }
            return None;
        }
        start = end + 1;
    }
}

} // verus!
