//! Character-level text helpers: Unicode white space, trimming, prefixes,
//! splitting on a separator, and building strings.
use vstd::prelude::*;

verus! {

/// The characters with the Unicode `White_Space` property, which is what
/// `char::is_whitespace` and hence `str::trim` go by.
pub open spec fn is_white_space(c: char) -> bool {
    ||| ('\u{9}' <= c && c <= '\u{d}')
    ||| c == ' '
    ||| c == '\u{85}'
    ||| c == '\u{a0}'
    ||| c == '\u{1680}'
    ||| ('\u{2000}' <= c && c <= '\u{200a}')
    ||| c == '\u{2028}'
    ||| c == '\u{2029}'
    ||| c == '\u{202f}'
    ||| c == '\u{205f}'
    ||| c == '\u{3000}'
}

/// `s` without its leading white space.
pub open spec fn trim_start(s: Seq<char>) -> Seq<char>
    decreases s.len(),
{
    if s.len() > 0 && is_white_space(s[0]) {
        trim_start(s.drop_first())
    } else {
        s
    }
}

/// `s` without its trailing white space.
pub open spec fn trim_end(s: Seq<char>) -> Seq<char>
    decreases s.len(),
{
    if s.len() > 0 && is_white_space(s.last()) {
        trim_end(s.drop_last())
    } else {
        s
    }
}

/// What `str::trim` leaves of `s`.
pub open spec fn trim(s: Seq<char>) -> Seq<char> {
    trim_end(trim_start(s))
}

/// `s` begins with `p`.
pub open spec fn starts_with(s: Seq<char>, p: Seq<char>) -> bool {
    p.len() <= s.len() && s.take(p.len() as int) == p
}

/// The pieces that `str::split` with a one-character separator yields:
/// one more piece than there are separators, possibly empty ones.
pub open spec fn split_on(s: Seq<char>, sep: char) -> Seq<Seq<char>>
    decreases s.len(),
{
    if s.len() == 0 {
        seq![Seq::<char>::empty()]
    } else {
        let r = split_on(s.drop_last(), sep);
        if s.last() == sep {
            r.push(Seq::<char>::empty())
        } else {
            r.update(r.len() - 1, r.last().push(s.last()))
        }
    }
}


proof fn lemma_trim_start_shape(s: Seq<char>)
    ensures
        trim_start(s).len() == 0 || !is_white_space(trim_start(s)[0]),
        trim_start(s).len() <= s.len(),
        trim_start(s) == s.skip(s.len() - trim_start(s).len()),
    decreases s.len(),
{
    if s.len() > 0 && is_white_space(s[0]) {
        lemma_trim_start_shape(s.drop_first());
        let t = trim_start(s.drop_first());
        assert(s.drop_first().skip(s.drop_first().len() - t.len()) =~= s.skip(s.len() - t.len()));
    } else {
        assert(s.skip(0) =~= s);
    }
}

proof fn lemma_trim_end_shape(s: Seq<char>)
    ensures
        trim_end(s).len() == 0 || !is_white_space(trim_end(s).last()),
        trim_end(s).len() <= s.len(),
        trim_end(s) == s.take(trim_end(s).len() as int),
    decreases s.len(),
{
    if s.len() > 0 && is_white_space(s.last()) {
        lemma_trim_end_shape(s.drop_last());
        let t = trim_end(s.drop_last());
        assert(s.drop_last().take(t.len() as int) =~= s.take(t.len() as int));
    } else {
        assert(s.take(s.len() as int) =~= s);
    }
}

/// What `str::trim` leaves has no white space at either end.
pub proof fn lemma_trim_ends(s: Seq<char>)
    ensures
        trim(s).len() == 0 || (!is_white_space(trim(s)[0]) && !is_white_space(trim(s).last())),
{
    let y = trim_start(s);
    lemma_trim_start_shape(s);
    lemma_trim_end_shape(y);
    let p = trim_end(y);
    if p.len() > 0 {
        assert(p[0] == y[0]);
    }
}

/// Trimming a text that has no white space at either end, after putting one
/// space in front of it, gives the text back.
pub proof fn lemma_trim_space_prefixed(p: Seq<char>)
    requires
        p.len() == 0 || (!is_white_space(p[0]) && !is_white_space(p.last())),
    ensures
        trim(seq![' '] + p) == p,
{
    let s = seq![' '] + p;
    assert(s.drop_first() =~= p);
    assert(trim_start(s) == trim_start(p));
    if p.len() > 0 {
        assert(trim_start(p) == p);
        assert(trim_end(p) == p);
    } else {
        assert(trim_start(p) == p);
        assert(trim_end(p) == p);
    }
}

/// A text without white space at either end is what `str::trim` leaves of it.
pub proof fn lemma_trim_unchanged(s: Seq<char>)
    requires
        s.len() == 0 || (!is_white_space(s[0]) && !is_white_space(s.last())),
    ensures
        trim(s) == s,
{
    assert(trim_start(s) == s);
    assert(trim_end(s) == s);
}

/// A text without the separator is a single piece.
pub proof fn lemma_split_on_without_separator(s: Seq<char>, sep: char)
    requires
        !s.contains(sep),
    ensures
        split_on(s, sep) == seq![s],
    decreases s.len(),
{
    if s.len() > 0 {
        let p = s.drop_last();
        assert(!p.contains(sep)) by {
            if p.contains(sep) {
                let i = choose|i: int| 0 <= i < p.len() && p[i] == sep;
                assert(s[i] == sep);
            }
        }
        lemma_split_on_without_separator(p, sep);
        assert(s.last() != sep) by {
            assert(s[s.len() - 1] == s.last());
        }
        assert(split_on(s, sep) =~= seq![s]) by {
            assert(p.push(s.last()) =~= s);
        }
    } else {
        assert(s =~= Seq::<char>::empty());
    }
}

/// Appends one character; `String::push` documents exactly this.
#[verifier::external_body]
pub(crate) fn push_char(s: &mut String, c: char)
    ensures
        final(s)@ == old(s)@.push(c),
{
    s.push(c);
}

/// The characters of a string slice, in order.
pub fn chars_of(s: &str) -> (v: Vec<char>)
    ensures
        v@ == s@,
{
    let mut v: Vec<char> = Vec::new();
    for c in it: s.chars()
        invariant
            v@ == it.seq().take(it.index() as int),
    {
        v.push(c);
    }
    v
}

/// The string made of `cs[lo..hi]`.
pub fn string_of_range(cs: &Vec<char>, lo: usize, hi: usize) -> (r: String)
    requires
        lo <= hi <= cs.len(),
    ensures
        r@ == cs@.subrange(lo as int, hi as int),
{
    let mut r = String::new();
    let mut i = lo;
    while i < hi
        invariant
            lo <= i <= hi <= cs.len(),
            r@ == cs@.subrange(lo as int, i as int),
        decreases hi - i,
    {
        push_char(&mut r, cs[i]);
        assert(cs@.subrange(lo as int, i + 1) =~= cs@.subrange(lo as int, i as int).push(cs[i as int]));
        i = i + 1;
    }
    r
}

/// `char::is_whitespace`.
pub fn is_white_space_char(c: char) -> (b: bool)
    ensures
        b == is_white_space(c),
{
    ('\u{9}' <= c && c <= '\u{d}') || c == ' ' || c == '\u{85}' || c == '\u{a0}' || c
        == '\u{1680}' || ('\u{2000}' <= c && c <= '\u{200a}') || c == '\u{2028}' || c
        == '\u{2029}' || c == '\u{202f}' || c == '\u{205f}' || c == '\u{3000}'
}

proof fn lemma_trim_start_skip(s: Seq<char>, k: int)
    requires
        0 <= k <= s.len(),
        forall|j: int| 0 <= j < k ==> is_white_space(#[trigger] s[j]),
    ensures
        trim_start(s) == trim_start(s.skip(k)),
    decreases k,
{
    if k > 0 {
        assert(s.skip(1) =~= s.drop_first());
        assert(s.drop_first().skip(k - 1) =~= s.skip(k));
        assert forall|j: int| 0 <= j < k - 1 implies is_white_space(#[trigger] s.drop_first()[j]) by {
            assert(s.drop_first()[j] == s[j + 1]);
        }
        lemma_trim_start_skip(s.drop_first(), k - 1);
    } else {
        assert(s.skip(0) =~= s);
    }
}

proof fn lemma_trim_end_take(s: Seq<char>, k: int)
    requires
        0 <= k <= s.len(),
        forall|j: int| k <= j < s.len() ==> is_white_space(#[trigger] s[j]),
    ensures
        trim_end(s) == trim_end(s.take(k)),
    decreases s.len() - k,
{
    if k < s.len() {
        assert(s.drop_last().take(k) =~= s.take(k));
        assert forall|j: int| k <= j < s.drop_last().len() implies is_white_space(
            #[trigger] s.drop_last()[j],
        ) by {
            assert(s.drop_last()[j] == s[j]);
        }
        lemma_trim_end_take(s.drop_last(), k);
    } else {
        assert(s.take(k) =~= s);
    }
}

/// The bounds, within `cs[lo..hi]`, of what `str::trim` leaves of it.
pub fn trim_bounds(cs: &Vec<char>, lo: usize, hi: usize) -> (r: (usize, usize))
    requires
        lo <= hi <= cs.len(),
    ensures
        lo <= r.0 <= r.1 <= hi,
        cs@.subrange(r.0 as int, r.1 as int) == trim(cs@.subrange(lo as int, hi as int)),
{
    let ghost s = cs@.subrange(lo as int, hi as int);
    let mut a = lo;
    while a < hi && is_white_space_char(cs[a])
        invariant
            lo <= a <= hi <= cs.len(),
            s == cs@.subrange(lo as int, hi as int),
            forall|j: int| lo <= j < a ==> is_white_space(#[trigger] cs@[j]),
        decreases hi - a,
    {
        a = a + 1;
    }
    proof {
        assert forall|j: int| 0 <= j < a - lo implies is_white_space(#[trigger] s[j]) by {
            assert(s[j] == cs@[lo + j]);
        }
        lemma_trim_start_skip(s, a - lo);
        assert(s.skip(a - lo) =~= cs@.subrange(a as int, hi as int));
        let t = cs@.subrange(a as int, hi as int);
        if a < hi {
            assert(t[0] == cs@[a as int]);
        }
        assert(trim_start(t) == t);
    }
    let mut b = hi;
    while b > a && is_white_space_char(cs[b - 1])
        invariant
            lo <= a <= b <= hi <= cs.len(),
            forall|j: int| b <= j < hi ==> is_white_space(#[trigger] cs@[j]),
        decreases b - a,
    {
        b = b - 1;
    }
    proof {
        let t = cs@.subrange(a as int, hi as int);
        assert forall|j: int| b - a <= j < t.len() implies is_white_space(#[trigger] t[j]) by {
            assert(t[j] == cs@[a + j]);
        }
        lemma_trim_end_take(t, b - a);
        let u = t.take(b - a);
        assert(u =~= cs@.subrange(a as int, b as int));
        if b > a {
            assert(u.last() == cs@[b - 1]);
        }
        assert(trim_end(u) == u);
    }
    (a, b)
}

/// What `str::trim` leaves of `text`, as a new string.
pub fn trimmed(text: &str) -> (r: String)
    ensures
        r@ == trim(text@),
{
    let cs = chars_of(text);
    let (a, b) = trim_bounds(&cs, 0, cs.len());
    assert(cs@.subrange(0, cs@.len() as int) =~= cs@);
    string_of_range(&cs, a, b)
}

/// The bounds of the pieces of `cs[lo..hi]` split at `sep`, as `str::split` yields them.
pub fn split_bounds(cs: &Vec<char>, lo: usize, hi: usize, sep: char) -> (r: Vec<(usize, usize)>)
    requires
        lo <= hi <= cs.len(),
    ensures
        r.len() == split_on(cs@.subrange(lo as int, hi as int), sep).len(),
        forall|k: int|
            0 <= k < r.len() ==> {
                &&& lo <= (#[trigger] r[k]).0 <= r[k].1 <= hi
                &&& cs@.subrange(r[k].0 as int, r[k].1 as int) == split_on(
                    cs@.subrange(lo as int, hi as int),
                    sep,
                )[k]
            },
{
    let mut r: Vec<(usize, usize)> = Vec::new();
    let mut start = lo;
    let mut i = lo;
    assert(cs@.subrange(lo as int, lo as int) =~= Seq::<char>::empty());
    while i < hi
        invariant
            lo <= start <= i <= hi <= cs.len(),
            ({
                let sp = split_on(cs@.subrange(lo as int, i as int), sep);
                &&& sp.len() == r.len() + 1
                &&& sp.last() == cs@.subrange(start as int, i as int)
                &&& forall|k: int|
                    0 <= k < r.len() ==> {
                        &&& lo <= (#[trigger] r[k]).0 <= r[k].1 <= start
                        &&& cs@.subrange(r[k].0 as int, r[k].1 as int) == sp[k]
                    }
            }),
        decreases hi - i,
    {
        let ghost prev = split_on(cs@.subrange(lo as int, i as int), sep);
        let ghost sub = cs@.subrange(lo as int, i + 1);
        assert(sub.drop_last() =~= cs@.subrange(lo as int, i as int));
        assert(sub.last() == cs@[i as int]);
        if cs[i] == sep {
            r.push((start, i));
            start = i + 1;
            i = i + 1;
            proof {
                let sp = split_on(cs@.subrange(lo as int, i as int), sep);
                assert(sp == prev.push(Seq::<char>::empty()));
                assert(cs@.subrange(start as int, i as int) =~= Seq::<char>::empty());
                assert forall|k: int| 0 <= k < r.len() implies {
                    &&& lo <= (#[trigger] r[k]).0 <= r[k].1 <= start
                    &&& cs@.subrange(r[k].0 as int, r[k].1 as int) == sp[k]
                } by {
                    if k < r.len() - 1 {
                        assert(sp[k] == prev[k]);
                    } else {
                        assert(sp[k] == prev.last());
                    }
                }
            }
        } else {
            i = i + 1;
            proof {
                let sp = split_on(cs@.subrange(lo as int, i as int), sep);
                assert(sp == prev.update(prev.len() - 1, prev.last().push(cs@[i - 1])));
                assert(cs@.subrange(start as int, i as int) =~= cs@.subrange(
                    start as int,
                    i - 1,
                ).push(cs@[i - 1]));
                assert forall|k: int| 0 <= k < r.len() implies {
                    &&& lo <= (#[trigger] r[k]).0 <= r[k].1 <= start
                    &&& cs@.subrange(r[k].0 as int, r[k].1 as int) == sp[k]
                } by {
                    assert(sp[k] == prev[k]);
                }
            }
        }
    }
    r.push((start, i));
    proof {
        let sp = split_on(cs@.subrange(lo as int, hi as int), sep);
        assert forall|k: int| 0 <= k < r.len() implies {
            &&& lo <= (#[trigger] r[k]).0 <= r[k].1 <= hi
            &&& cs@.subrange(r[k].0 as int, r[k].1 as int) == sp[k]
        } by {
            if k < r.len() - 1 {
            } else {
                assert(sp[k] == sp.last());
            }
        }
    }
    r
}

/// Whether `cs` begins with the characters of `p`.
pub fn has_prefix(cs: &Vec<char>, p: &str) -> (b: bool)
    ensures
        b == starts_with(cs@, p@),
{
    let pc = chars_of(p);
    if pc.len() > cs.len() {
        return false;
    }
    let mut i: usize = 0;
    while i < pc.len()
        invariant
            pc.len() <= cs.len(),
            pc@ == p@,
            i <= pc.len(),
            forall|j: int| 0 <= j < i ==> cs@[j] == pc@[j],
        decreases pc.len() - i,
    {
        if cs[i] != pc[i] {
            assert(cs@.take(pc.len() as int)[i as int] != p@[i as int]);
            return false;
        }
        i = i + 1;
    }
    assert(cs@.take(pc.len() as int) =~= p@);
    true
}

/// Whether the characters of `cs` are exactly those of `p`.
pub fn equals_text(cs: &Vec<char>, p: &str) -> (b: bool)
    ensures
        b == (cs@ == p@),
{
    let pc = chars_of(p);
    if pc.len() != cs.len() {
        return false;
    }
    let mut i: usize = 0;
    while i < pc.len()
        invariant
            pc.len() == cs.len(),
            pc@ == p@,
            i <= pc.len(),
            forall|j: int| 0 <= j < i ==> cs@[j] == pc@[j],
        decreases pc.len() - i,
    {
        if cs[i] != pc[i] {
            return false;
        }
        i = i + 1;
    }
    assert(cs@ =~= p@);
    true
}

} // verus!
