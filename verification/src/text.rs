//! Character-level text utilities: line splitting as `str::lines` performs
//! it, whitespace trimming, and prefix matching, each with a mathematical
//! model over `Seq<char>`.

use vstd::prelude::*;
use vstd::string::*;

verus! {

/// The characters with Unicode's `White_Space` property, the set that
/// `char::is_whitespace` recognises.
pub open spec fn is_ws(c: char) -> bool {
    c == ' ' || c == '\t' || c == '\n' || c == '\u{b}' || c == '\u{c}' || c == '\r'
        || c == '\u{85}' || c == '\u{a0}' || c == '\u{1680}' || c == '\u{2000}'
        || c == '\u{2001}' || c == '\u{2002}' || c == '\u{2003}' || c == '\u{2004}'
        || c == '\u{2005}' || c == '\u{2006}' || c == '\u{2007}' || c == '\u{2008}'
        || c == '\u{2009}' || c == '\u{200a}' || c == '\u{2028}' || c == '\u{2029}'
        || c == '\u{202f}' || c == '\u{205f}' || c == '\u{3000}'
}

/// Whether `c` is whitespace, decided against the `is_ws` model.
pub fn is_space(c: char) -> (r: bool)
    ensures
        r == is_ws(c),
{
    c == ' ' || c == '\t' || c == '\n' || c == '\u{b}' || c == '\u{c}' || c == '\r'
        || c == '\u{85}' || c == '\u{a0}' || c == '\u{1680}' || c == '\u{2000}'
        || c == '\u{2001}' || c == '\u{2002}' || c == '\u{2003}' || c == '\u{2004}'
        || c == '\u{2005}' || c == '\u{2006}' || c == '\u{2007}' || c == '\u{2008}'
        || c == '\u{2009}' || c == '\u{200a}' || c == '\u{2028}' || c == '\u{2029}'
        || c == '\u{202f}' || c == '\u{205f}' || c == '\u{3000}'
}

/// The characters of `s` as a vector, in order.
pub fn chars_of(s: &str) -> (v: Vec<char>)
    ensures
        v@ == s@,
{
    let n = s.unicode_len();
    let mut v: Vec<char> = Vec::new();
    let mut i: usize = 0;
    while i < n
        invariant
            i <= n,
            n == s@.len(),
            v@ == s@.subrange(0, i as int),
        decreases n - i,
    {
        let c = s.get_char(i);
        v.push(c);
        proof {
            assert(v@ =~= s@.subrange(0, i + 1 as int));
        }
        i += 1;
    }
    proof {
        assert(v@ =~= s@);
    }
    v
}

/// Relies on `String::push`: appends the character at the end of the string.
#[verifier::external_body]
fn push_char(s: &mut String, c: char)
    ensures
        final(s)@ == old(s)@.push(c),
{
    s.push(c);
}

/// The characters `v[from..to]` gathered into a `String`.
pub fn string_of_range(v: &Vec<char>, from: usize, to: usize) -> (r: String)
    requires
        from <= to <= v@.len(),
    ensures
        r@ == v@.subrange(from as int, to as int),
{
    let mut r = String::new();
    let mut i: usize = from;
    while i < to
        invariant
            from <= i <= to <= v@.len(),
            r@ == v@.subrange(from as int, i as int),
        decreases to - i,
    {
        push_char(&mut r, v[i]);
        proof {
            assert(r@ =~= v@.subrange(from as int, i + 1 as int));
        }
        i += 1;
    }
    r
}

/// The index of the first newline in `s`, or `s.len()` when there is none.
pub open spec fn line_end(s: Seq<char>) -> int
    decreases s.len(),
{
    if s.len() == 0 {
        0
    } else if s[0] == '\n' {
        0
    } else {
        1 + line_end(s.drop_first())
    }
}

/// `line_end` is a position in `s`, every character before it is not a
/// newline, and the character at it (when inside `s`) is one.
pub proof fn lemma_line_end(s: Seq<char>)
    ensures
        0 <= line_end(s) <= s.len(),
        forall|j: int| 0 <= j < line_end(s) ==> s[j] != '\n',
        line_end(s) < s.len() ==> s[line_end(s)] == '\n',
    decreases s.len(),
{
    if s.len() == 0 {
    } else if s[0] == '\n' {
    } else {
        lemma_line_end(s.drop_first());
        assert forall|j: int| 0 <= j < line_end(s) implies s[j] != '\n' by {
            if j > 0 {
                assert(s.drop_first()[j - 1] == s[j]);
            }
        }
        if line_end(s) < s.len() {
            assert(s.drop_first()[line_end(s) - 1] == s[line_end(s)]);
        }
    }
}

/// `l` with one trailing carriage return removed, as `str::lines` strips it
/// in front of a line feed.
pub open spec fn strip_cr(l: Seq<char>) -> Seq<char> {
    if l.len() > 0 && l.last() == '\r' {
        l.drop_last()
    } else {
        l
    }
}

/// The lines of `s`, split as `str::lines` splits them: terminated by a
/// line feed or by the end of the text, a carriage return directly before a
/// line feed stripped, and no final empty line after a terminating line
/// feed.
pub open spec fn spec_lines(s: Seq<char>) -> Seq<Seq<char>>
    decreases s.len(),
    via spec_lines_dec
{
    if s.len() == 0 {
        Seq::empty()
    } else {
        let e = line_end(s);
        if e == s.len() {
            seq![s]
        } else {
            seq![strip_cr(s.take(e))] + spec_lines(s.skip(e + 1))
        }
    }
}

#[via_fn]
proof fn spec_lines_dec(s: Seq<char>) {
    if s.len() != 0 {
        lemma_line_end(s);
    }
}

/// The lines of `v`, as `spec_lines` describes them.
pub fn split_lines(v: &Vec<char>) -> (r: Vec<Vec<char>>)
    ensures
        r.deep_view() == spec_lines(v@),
{
    let mut r: Vec<Vec<char>> = Vec::new();
    let mut pos: usize = 0;
    proof {
        assert(v@.skip(0) =~= v@);
    }
    while pos < v.len()
        invariant
            pos <= v@.len(),
            spec_lines(v@) == r.deep_view() + spec_lines(v@.skip(pos as int)),
        decreases v@.len() - pos,
    {
        let ghost rest = v@.skip(pos as int);
        let mut e: usize = pos;
        while e < v.len() && v[e] != '\n'
            invariant
                pos <= e <= v@.len(),
                forall|j: int| pos <= j < e ==> v@[j] != '\n',
        decreases v@.len() - e,
        {
            e += 1;
        }
        proof {
            lemma_line_end(rest);
            assert forall|j: int| 0 <= j < e - pos implies rest[j] != '\n' by {
                assert(rest[j] == v@[pos + j]);
            }
            if e < v@.len() {
                assert(rest[e - pos] == v@[e as int]);
            }
            lemma_line_end_unique(rest, e - pos);
            assert(line_end(rest) == e - pos);
        }
        let mut stop: usize = e;
        if e < v.len() {
            if stop > pos && v[stop - 1] == '\r' {
                stop -= 1;
            }
            proof {
                assert(rest.take(e - pos) =~= v@.subrange(pos as int, e as int));
                assert(strip_cr(rest.take(e - pos)) =~= v@.subrange(
                    pos as int,
                    stop as int,
                ));
            }
        } else {
            proof {
                assert(rest =~= v@.subrange(pos as int, stop as int));
            }
        }
        let mut line: Vec<char> = Vec::new();
        let mut i: usize = pos;
        while i < stop
            invariant
                pos <= i <= stop <= v@.len(),
                line@ == v@.subrange(pos as int, i as int),
            decreases stop - i,
        {
            line.push(v[i]);
            proof {
                assert(line@ =~= v@.subrange(pos as int, i + 1 as int));
            }
            i += 1;
        }
        let ghost old_r = r.deep_view();
        r.push(line);
        proof {
            assert(r.deep_view() =~~= old_r.push(line@));
        }
        if e < v.len() {
            proof {
                assert(spec_lines(rest) == seq![line@] + spec_lines(rest.skip(e + 1 - pos)));
                assert(rest.skip(e + 1 - pos) =~= v@.skip(e + 1));
                assert(old_r.push(line@) + spec_lines(v@.skip(e + 1)) =~~= old_r + (seq![
                    line@,
                ] + spec_lines(v@.skip(e + 1))));
            }
            pos = e + 1;
        } else {
            proof {
                assert(spec_lines(rest) == seq![line@]);
                assert(v@.skip(v@.len() as int) =~= Seq::<char>::empty());
                assert(spec_lines(v@) =~~= old_r.push(line@));
                assert(old_r.push(line@) =~~= old_r.push(line@) + spec_lines(
                    v@.skip(v@.len() as int),
                ));
            }
            pos = v.len();
        }
    }
    proof {
        assert(v@.skip(pos as int) =~= Seq::<char>::empty());
        assert(r.deep_view() =~~= spec_lines(v@));
    }
    r
}

/// A position before which no newline stands, and which holds one or ends
/// `s`, is `line_end(s)`.
pub proof fn lemma_line_end_unique(s: Seq<char>, e: int)
    requires
        0 <= e <= s.len(),
        forall|j: int| 0 <= j < e ==> s[j] != '\n',
        e < s.len() ==> s[e] == '\n',
    ensures
        line_end(s) == e,
    decreases s.len(),
{
    if s.len() == 0 {
    } else if s[0] == '\n' {
    } else {
        assert forall|j: int| 0 <= j < e - 1 implies s.drop_first()[j] != '\n' by {
            assert(s.drop_first()[j] == s[j + 1]);
        }
        if e - 1 < s.drop_first().len() {
            assert(s.drop_first()[e - 1] == s[e]);
        }
        lemma_line_end_unique(s.drop_first(), e - 1);
    }
}

/// `l` without its leading whitespace.
pub open spec fn trim_start(l: Seq<char>) -> Seq<char>
    decreases l.len(),
{
    if l.len() > 0 && is_ws(l[0]) {
        trim_start(l.drop_first())
    } else {
        l
    }
}

/// `m` without its trailing whitespace.
pub open spec fn trim_end(m: Seq<char>) -> Seq<char>
    decreases m.len(),
{
    if m.len() > 0 && is_ws(m.last()) {
        trim_end(m.drop_last())
    } else {
        m
    }
}

/// `l` without leading and trailing whitespace, as `str::trim` strips it.
pub open spec fn spec_trim(l: Seq<char>) -> Seq<char> {
    trim_end(trim_start(l))
}

/// When the first `k` characters of `l` are whitespace and the next one is
/// not, `trim_start` drops exactly those `k`.
proof fn lemma_trim_start_at(l: Seq<char>, k: int)
    requires
        0 <= k <= l.len(),
        forall|j: int| 0 <= j < k ==> is_ws(l[j]),
        k < l.len() ==> !is_ws(l[k]),
    ensures
        trim_start(l) == l.skip(k),
    decreases k,
{
    if k == 0 {
        assert(l.skip(0) =~= l);
    } else {
        assert(is_ws(l[0]));
        assert forall|j: int| 0 <= j < k - 1 implies is_ws(l.drop_first()[j]) by {
            assert(l.drop_first()[j] == l[j + 1]);
        }
        if k - 1 < l.drop_first().len() {
            assert(l.drop_first()[k - 1] == l[k]);
        }
        lemma_trim_start_at(l.drop_first(), k - 1);
        assert(l.drop_first().skip(k - 1) =~= l.skip(k));
    }
}

/// When every character of `m` from position `t` on is whitespace and the
/// one before `t` is not, `trim_end` keeps exactly the first `t`.
proof fn lemma_trim_end_at(m: Seq<char>, t: int)
    requires
        0 <= t <= m.len(),
        forall|j: int| t <= j < m.len() ==> is_ws(m[j]),
        t > 0 ==> !is_ws(m[t - 1]),
    ensures
        trim_end(m) == m.take(t),
    decreases m.len(),
{
    if t == m.len() {
        if m.len() > 0 {
            assert(!is_ws(m.last()));
        }
        assert(m.take(t) =~= m);
    } else {
        assert(is_ws(m.last()));
        lemma_trim_end_at(m.drop_last(), t);
        assert(m.drop_last().take(t) =~= m.take(t));
    }
}

/// The characters of `l` with leading and trailing whitespace removed, as
/// `spec_trim` describes them.
pub fn trim_chars(l: &Vec<char>) -> (t: Vec<char>)
    ensures
        t@ == spec_trim(l@),
{
    let mut s: usize = 0;
    while s < l.len() && is_space(l[s])
        invariant
            s <= l@.len(),
            forall|j: int| 0 <= j < s ==> is_ws(l@[j]),
        decreases l@.len() - s,
    {
        s += 1;
    }
    let mut e: usize = l.len();
    while e > s && is_space(l[e - 1])
        invariant
            s <= e <= l@.len(),
            forall|j: int| e <= j < l@.len() ==> is_ws(l@[j]),
        decreases e,
    {
        e -= 1;
    }
    proof {
        lemma_trim_start_at(l@, s as int);
        let m = l@.skip(s as int);
        assert forall|j: int| e - s <= j < m.len() implies is_ws(m[j]) by {
            assert(m[j] == l@[j + s]);
        }
        if e > s {
            assert(m[e - s - 1] == l@[e - 1]);
        }
        lemma_trim_end_at(m, e - s);
        assert(m.take(e - s) =~= l@.subrange(s as int, e as int));
    }
    let mut t: Vec<char> = Vec::new();
    let mut i: usize = s;
    while i < e
        invariant
            s <= i <= e <= l@.len(),
            t@ == l@.subrange(s as int, i as int),
        decreases e - i,
    {
        t.push(l[i]);
        proof {
            assert(t@ =~= l@.subrange(s as int, i + 1 as int));
        }
        i += 1;
    }
    proof {
        assert(t@ =~= l@.subrange(s as int, e as int));
    }
    t
}

/// Whether `p` occurs at the start of `l`, decided against
/// `Seq::is_prefix_of`.
pub fn starts_with(l: &Vec<char>, p: &Vec<char>) -> (r: bool)
    ensures
        r == p@.is_prefix_of(l@),
{
    if p.len() > l.len() {
        proof {
            assert(!p@.is_prefix_of(l@));
        }
        return false;
    }
    let mut i: usize = 0;
    while i < p.len()
        invariant
            i <= p@.len() <= l@.len(),
            forall|j: int| 0 <= j < i ==> l@[j] == p@[j],
        decreases p@.len() - i,
    {
        if l[i] != p[i] {
            proof {
                assert(l@.subrange(0, p@.len() as int)[i as int] != p@[i as int]);
            }
            return false;
        }
        i += 1;
    }
    proof {
        assert(l@.subrange(0, p@.len() as int) =~= p@);
    }
    true
}

} // verus!
