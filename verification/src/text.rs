//! Characters and character sequences: the vocabulary in which the rest of the
//! library states what it reads and writes.
//!
//! Texts are modelled as `Seq<char>`, the view of `str` and `String`. The
//! executable functions scan a `Vec<char>` between two indices, so that one
//! buffer serves a whole file.

use vstd::prelude::*;

verus! {

/// Appending one character: `String::push` puts `c` behind the text and changes
/// nothing else.
pub assume_specification[ String::push ](s: &mut String, c: char)
    ensures
        final(s)@ == old(s)@.push(c),
;

/// Whether `c` has the Unicode property `White_Space`.
pub open spec fn white_space(c: char) -> bool {
    let n = c as u32;
    ||| 0x09 <= n <= 0x0D
    ||| n == 0x20
    ||| n == 0x85
    ||| n == 0xA0
    ||| n == 0x1680
    ||| 0x2000 <= n <= 0x200A
    ||| n == 0x2028
    ||| n == 0x2029
    ||| n == 0x202F
    ||| n == 0x205F
    ||| n == 0x3000
}

/// Tells whether `c` is white space.
pub fn is_whitespace(c: char) -> (r: bool)
    ensures
        r == white_space(c),
{
    let n: u32 = c as u32;
    (0x09 <= n && n <= 0x0D) || n == 0x20 || n == 0x85 || n == 0xA0 || n == 0x1680 || (0x2000 <= n
        && n <= 0x200A) || n == 0x2028 || n == 0x2029 || n == 0x202F || n == 0x205F || n == 0x3000
}

/// The characters of `s`, in a buffer that can be indexed.
pub fn to_chars(s: &str) -> (v: Vec<char>)
    ensures
        v@ == s@,
{
    let mut v: Vec<char> = Vec::new();
    for c in it: s.chars()
        invariant
            v@ == it.seq().take(it.index() as int),
            it.seq() == s@,
    {
        v.push(c);
    }
    v
}

/// The text made of the characters of `v` from index `lo` up to `hi`.
pub fn substring(v: &Vec<char>, lo: usize, hi: usize) -> (s: String)
    requires
        lo <= hi <= v@.len(),
    ensures
        s@ == v@.subrange(lo as int, hi as int),
{
    let mut s = String::new();
    let mut i: usize = lo;
    while i < hi
        invariant
            lo <= i <= hi <= v@.len(),
            s@ == v@.subrange(lo as int, i as int),
        decreases hi - i,
    {
        s.push(v[i]);
        i = i + 1;
    }
    s
}

/// `s` without the white space at its start.
pub open spec fn trim_start(s: Seq<char>) -> Seq<char>
    decreases s.len(),
{
    if s.len() > 0 && white_space(s[0]) {
        trim_start(s.drop_first())
    } else {
        s
    }
}

/// `s` without the white space at its end.
pub open spec fn trim_end(s: Seq<char>) -> Seq<char>
    decreases s.len(),
{
    if s.len() > 0 && white_space(s.last()) {
        trim_end(s.drop_last())
    } else {
        s
    }
}

/// `s` without the white space at either end.
pub open spec fn trim(s: Seq<char>) -> Seq<char> {
    trim_end(trim_start(s))
}

/// The index of the first `c` in `s`, or the length of `s` where it holds none.
pub open spec fn find(s: Seq<char>, c: char) -> nat
    decreases s.len(),
{
    if s.len() == 0 || s[0] == c {
        0
    } else {
        1 + find(s.drop_first(), c)
    }
}

/// `s` without one carriage return at its end.
pub open spec fn without_cr(s: Seq<char>) -> Seq<char> {
    if s.len() > 0 && s.last() == '\r' {
        s.drop_last()
    } else {
        s
    }
}

/// The lines of a text. A line ends with a line feed, or with a carriage return
/// and a line feed; neither belongs to the line. What follows the last line feed
/// is a line too, unless it is empty.
pub open spec fn lines(s: Seq<char>) -> Seq<Seq<char>>
    decreases s.len(),
{
    if s.len() == 0 {
        Seq::empty()
    } else {
        let k = find(s, '\n');
        if k >= s.len() {
            seq![s]
        } else {
            seq![without_cr(s.take(k as int))] + lines(s.skip(k as int + 1))
        }
    }
}

/// What `find` returns is the least index that holds `c`, if there is one.
pub proof fn lemma_find(s: Seq<char>, c: char)
    ensures
        find(s, c) <= s.len(),
        find(s, c) < s.len() ==> s[find(s, c) as int] == c,
        forall|j: int| 0 <= j < find(s, c) ==> s[j] != c,
    decreases s.len(),
{
    if s.len() == 0 || s[0] == c {
    } else {
        let t = s.drop_first();
        lemma_find(t, c);
        assert forall|j: int| 0 <= j < find(s, c) implies s[j] != c by {
            if j > 0 {
                assert(s[j] == t[j - 1]);
            }
        }
    }
}

/// An index that holds `c` and has no `c` before it is the one `find` returns.
pub proof fn lemma_find_at(s: Seq<char>, c: char, k: int)
    requires
        0 <= k <= s.len(),
        k < s.len() ==> s[k] == c,
        forall|j: int| 0 <= j < k ==> s[j] != c,
    ensures
        find(s, c) == k,
{
    lemma_find(s, c);
    let f = find(s, c) as int;
    if f < k {
        assert(s[f] == c);
    } else if k < f {
        assert(s[k] == c);
    }
}

/// Trimming at the start leaves a suffix that does not begin with white space,
/// and removes white space only.
pub proof fn lemma_trim_start(s: Seq<char>)
    ensures
        trim_start(s).len() <= s.len(),
        trim_start(s) == s.skip(s.len() - trim_start(s).len()),
        trim_start(s).len() > 0 ==> !white_space(trim_start(s)[0]),
        forall|j: int| 0 <= j < s.len() - trim_start(s).len() ==> white_space(s[j]),
    decreases s.len(),
{
    if s.len() > 0 && white_space(s[0]) {
        let t = s.drop_first();
        lemma_trim_start(t);
        let d = s.len() - trim_start(s).len();
        assert(trim_start(s) =~= s.skip(d));
        assert forall|j: int| 0 <= j < d implies white_space(s[j]) by {
            if j > 0 {
                assert(s[j] == t[j - 1]);
            }
        }
    } else {
        assert(s =~= s.skip(0));
    }
}

/// Trimming at the end leaves a prefix that does not end with white space, and
/// removes white space only.
pub proof fn lemma_trim_end(s: Seq<char>)
    ensures
        trim_end(s).len() <= s.len(),
        trim_end(s) == s.take(trim_end(s).len() as int),
        trim_end(s).len() > 0 ==> !white_space(trim_end(s).last()),
        forall|j: int| trim_end(s).len() <= j < s.len() ==> white_space(s[j]),
    decreases s.len(),
{
    if s.len() > 0 && white_space(s.last()) {
        let t = s.drop_last();
        lemma_trim_end(t);
        assert(trim_end(s) =~= s.take(trim_end(s).len() as int));
        assert forall|j: int| trim_end(s).len() <= j < s.len() implies white_space(s[j]) by {
            if j < t.len() {
                assert(s[j] == t[j]);
            }
        }
    } else {
        assert(s =~= s.take(s.len() as int));
    }
}

/// What trimming leaves is told by the white space around it: where all before
/// index `a` and all from index `b` on is white space, and what lies between
/// neither begins nor ends with white space, that is what is left.
pub proof fn lemma_trim_is(s: Seq<char>, a: int, b: int)
    requires
        0 <= a <= b <= s.len(),
        forall|j: int| 0 <= j < a ==> white_space(s[j]),
        forall|j: int| b <= j < s.len() ==> white_space(s[j]),
        a < b ==> !white_space(s[a]) && !white_space(s[b - 1]),
    ensures
        trim(s) == s.subrange(a, b),
    decreases s.len(),
{
    if s.len() == 0 {
        assert(s.subrange(a, b) =~= s);
    } else if a > 0 {
        let t = s.drop_first();
        assert forall|j: int| 0 <= j < a - 1 implies white_space(t[j]) by {
            assert(t[j] == s[j + 1]);
        }
        assert forall|j: int| b - 1 <= j < t.len() implies white_space(t[j]) by {
            assert(t[j] == s[j + 1]);
        }
        lemma_trim_is(t, a - 1, b - 1);
        assert(t.subrange(a - 1, b - 1) =~= s.subrange(a, b));
    } else if b < s.len() {
        if b == 0 {
            let t = s.drop_first();
            assert forall|j: int| 0 <= j < t.len() implies white_space(t[j]) by {
                assert(t[j] == s[j + 1]);
            }
            lemma_trim_is(t, 0, 0);
            assert(t.subrange(0, 0) =~= s.subrange(0, 0));
        } else {
            let t = s.drop_last();
            assert(trim_start(s) == s);
            assert(trim_start(t) == t);
            lemma_trim_is(t, 0, b);
            assert(t.subrange(0, b) =~= s.subrange(0, b));
        }
    } else {
        assert(s.subrange(0, b) =~= s);
    }
}

/// The two indices between which trimming leaves a text, with the white space
/// around them.
pub proof fn lemma_trim_bounds(s: Seq<char>) -> (r: (int, int))
    ensures
        0 <= r.0 <= r.1 <= s.len(),
        trim(s) == s.subrange(r.0, r.1),
        forall|j: int| 0 <= j < r.0 ==> white_space(s[j]),
        forall|j: int| r.1 <= j < s.len() ==> white_space(s[j]),
        r.0 < r.1 ==> !white_space(s[r.0]) && !white_space(s[r.1 - 1]),
{
    lemma_trim_start(s);
    let t = trim_start(s);
    lemma_trim_end(t);
    let a = s.len() - t.len();
    let b = a + trim(s).len();
    assert(trim(s) =~= s.subrange(a, b));
    assert forall|j: int| b <= j < s.len() implies white_space(s[j]) by {
        assert(s[j] == t[j - a]);
    }
    if a < b {
        assert(t[0] == s[a]);
        assert(trim(s).last() == s[b - 1]);
    }
    (a, b)
}

/// A carriage return at the end of a text is trimmed away with the rest.
pub proof fn lemma_trim_without_cr(s: Seq<char>)
    ensures
        trim(without_cr(s)) == trim(s),
{
    if s.len() > 0 && s.last() == '\r' {
        let t = s.drop_last();
        let (a, b) = lemma_trim_bounds(s);
        if b < s.len() {
            lemma_trim_is(t, a, b);
            assert(t.subrange(a, b) =~= s.subrange(a, b));
        } else {
            assert(a == b);
            lemma_trim_is(t, t.len() as int, t.len() as int);
            assert(t.subrange(t.len() as int, t.len() as int) =~= s.subrange(a, b));
        }
    }
}

/// A text that neither begins nor ends with white space is left as it is.
pub proof fn lemma_trim_nothing(s: Seq<char>)
    requires
        s.len() > 0 ==> !white_space(s[0]) && !white_space(s.last()),
    ensures
        trim(s) == s,
{
}

/// A text that trimming leaves as it is neither begins nor ends with white
/// space.
pub proof fn lemma_trimmed(s: Seq<char>)
    requires
        trim(s) == s,
    ensures
        s.len() > 0 ==> !white_space(s[0]) && !white_space(s.last()),
{
    lemma_trim_start(s);
    lemma_trim_end(trim_start(s));
    assert(trim_start(s) =~= s);
}

/// White space at the start of `a + b` is white space at the start of `a`, where
/// `b` begins with something else.
pub proof fn lemma_trim_start_concat(a: Seq<char>, b: Seq<char>)
    requires
        b.len() > 0,
        !white_space(b[0]),
    ensures
        trim_start(a + b) == trim_start(a) + b,
    decreases a.len(),
{
    if a.len() == 0 {
        assert(a + b =~= b);
        assert(trim_start(a) + b =~= b);
    } else if white_space(a[0]) {
        assert((a + b).drop_first() =~= a.drop_first() + b);
        lemma_trim_start_concat(a.drop_first(), b);
    } else {
    }
}

/// Whether a text holds no line feed.
pub open spec fn single_line(s: Seq<char>) -> bool {
    forall|i: int| 0 <= i < s.len() ==> s[i] != '\n'
}

/// A text without a line feed, ended by one, is one line.
pub proof fn lemma_lines_single(line: Seq<char>)
    requires
        single_line(line),
    ensures
        lines(line.push('\n')) == seq![without_cr(line)],
{
    let s = line.push('\n');
    lemma_find_at(s, '\n', line.len() as int);
    assert(s.take(line.len() as int) =~= line);
    assert(s.skip(line.len() as int + 1) =~= Seq::<char>::empty());
    assert(seq![without_cr(line)] + lines(Seq::<char>::empty()) =~= seq![without_cr(line)]);
}

/// The lines of two texts one after the other, where the first is empty or ends
/// with a line feed, are the lines of the first and then those of the second.
pub proof fn lemma_lines_concat(a: Seq<char>, b: Seq<char>)
    requires
        a.len() > 0 ==> a.last() == '\n',
    ensures
        lines(a + b) == lines(a) + lines(b),
    decreases a.len(),
{
    if a.len() == 0 {
        assert(a + b =~= b);
        assert(lines(a) + lines(b) =~= lines(b));
    } else {
        lemma_find(a, '\n');
        let k = find(a, '\n') as int;
        if k >= a.len() {
            assert(a[a.len() - 1] != '\n');
        }
        assert forall|j: int| 0 <= j < k implies (a + b)[j] != '\n' by {
            assert((a + b)[j] == a[j]);
        }
        assert((a + b)[k] == a[k]);
        lemma_find_at(a + b, '\n', k);
        let rest = a.skip(k + 1);
        assert((a + b).take(k) =~= a.take(k));
        assert((a + b).skip(k + 1) =~= rest + b);
        if rest.len() > 0 {
            assert(rest.last() == a.last());
        }
        lemma_lines_concat(rest, b);
        assert(lines(a + b) =~= lines(a) + lines(b));
    }
}

/// No line of a text holds a line feed.
pub proof fn lemma_lines_are_single(s: Seq<char>)
    ensures
        forall|i: int| 0 <= i < lines(s).len() ==> single_line(#[trigger] lines(s)[i]),
    decreases s.len(),
{
    if s.len() > 0 {
        lemma_find(s, '\n');
        let k = find(s, '\n') as int;
        if k < s.len() {
            let first = without_cr(s.take(k));
            let rest = lines(s.skip(k + 1));
            lemma_lines_are_single(s.skip(k + 1));
            assert(single_line(first)) by {
                assert forall|i: int| 0 <= i < first.len() implies first[i] != '\n' by {
                    assert(first[i] == s[i]);
                }
            }
            assert forall|i: int| 0 <= i < lines(s).len() implies single_line(
                #[trigger] lines(s)[i],
            ) by {
                if i > 0 {
                    assert(lines(s)[i] == rest[i - 1]);
                }
            }
        }
    }
}

/// The first index from `lo` on, before `hi`, that holds no white space; `hi`
/// where there is none.
pub fn skip_spaces(v: &Vec<char>, lo: usize, hi: usize) -> (r: usize)
    requires
        lo <= hi <= v@.len(),
    ensures
        lo <= r <= hi,
        v@.subrange(r as int, hi as int) == trim_start(v@.subrange(lo as int, hi as int)),
{
    let mut i: usize = lo;
    while i < hi && is_whitespace(v[i])
        invariant
            lo <= i <= hi <= v@.len(),
            trim_start(v@.subrange(lo as int, hi as int)) == trim_start(
                v@.subrange(i as int, hi as int),
            ),
        decreases hi - i,
    {
        proof {
            assert(v@.subrange(i as int, hi as int).drop_first() =~= v@.subrange(
                i + 1,
                hi as int,
            ));
        }
        i = i + 1;
    }
    i
}

/// The end of what is left between `lo` and `hi` when the white space before
/// `hi` is dropped.
pub fn drop_spaces(v: &Vec<char>, lo: usize, hi: usize) -> (r: usize)
    requires
        lo <= hi <= v@.len(),
    ensures
        lo <= r <= hi,
        v@.subrange(lo as int, r as int) == trim_end(v@.subrange(lo as int, hi as int)),
{
    let mut i: usize = hi;
    while lo < i && is_whitespace(v[i - 1])
        invariant
            lo <= i <= hi <= v@.len(),
            trim_end(v@.subrange(lo as int, hi as int)) == trim_end(
                v@.subrange(lo as int, i as int),
            ),
        decreases i - lo,
    {
        proof {
            assert(v@.subrange(lo as int, i as int).drop_last() =~= v@.subrange(
                lo as int,
                i - 1,
            ));
        }
        i = i - 1;
    }
    i
}

/// The first index from `lo` on, before `hi`, that holds `c`; `hi` where there is
/// none.
pub fn find_char(v: &Vec<char>, lo: usize, hi: usize, c: char) -> (r: usize)
    requires
        lo <= hi <= v@.len(),
    ensures
        lo <= r <= hi,
        r - lo == find(v@.subrange(lo as int, hi as int), c),
{
    let mut i: usize = lo;
    while i < hi && v[i] != c
        invariant
            lo <= i <= hi <= v@.len(),
            find(v@.subrange(lo as int, hi as int), c) == (i - lo) + find(
                v@.subrange(i as int, hi as int),
                c,
            ),
        decreases hi - i,
    {
        proof {
            assert(v@.subrange(i as int, hi as int).drop_first() =~= v@.subrange(
                i + 1,
                hi as int,
            ));
        }
        i = i + 1;
    }
    i
}

/// Whether the characters from `lo` up to `hi` begin with `p`.
pub fn has_prefix(v: &Vec<char>, lo: usize, hi: usize, p: &Vec<char>) -> (r: bool)
    requires
        lo <= hi <= v@.len(),
    ensures
        r == p@.is_prefix_of(v@.subrange(lo as int, hi as int)),
{
    let n = p.len();
    if n > hi - lo {
        return false;
    }
    let ghost s = v@.subrange(lo as int, hi as int);
    let mut i: usize = 0;
    while i < n
        invariant
            lo <= hi <= v@.len(),
            n == p@.len(),
            n <= hi - lo,
            i <= n,
            s == v@.subrange(lo as int, hi as int),
            forall|j: int| 0 <= j < i ==> p@[j] == s[j],
        decreases n - i,
    {
        if v[lo + i] != p[i] {
            proof {
                assert(s.subrange(0, n as int)[i as int] == s[i as int]);
            }
            return false;
        }
        i = i + 1;
    }
    proof {
        assert(p@ =~= s.subrange(0, n as int));
    }
    true
}

/// Whether the characters from `lo` up to `hi` are exactly `p`.
pub fn is_exactly(v: &Vec<char>, lo: usize, hi: usize, p: &Vec<char>) -> (r: bool)
    requires
        lo <= hi <= v@.len(),
    ensures
        r == (v@.subrange(lo as int, hi as int) == p@),
{
    let ghost s = v@.subrange(lo as int, hi as int);
    if hi - lo != p.len() {
        return false;
    }
    let r = has_prefix(v, lo, hi, p);
    proof {
        assert(s.subrange(0, s.len() as int) =~= s);
    }
    r
}

/// Whether two texts are the same.
pub fn same_text(a: &str, b: &str) -> (r: bool)
    ensures
        r == (a@ == b@),
{
    let v = to_chars(a);
    let p = to_chars(b);
    proof {
        assert(v@.subrange(0, v@.len() as int) =~= v@);
    }
    is_exactly(&v, 0, v.len(), &p)
}

/// Where the line that begins at `pos` ends, and where the next one begins.
pub fn next_line(v: &Vec<char>, pos: usize) -> (r: (usize, usize))
    requires
        pos < v@.len(),
    ensures
        pos <= r.0 <= r.1 <= v@.len(),
        pos < r.1,
        lines(v@.skip(pos as int)) == seq![v@.subrange(pos as int, r.0 as int)] + lines(
            v@.skip(r.1 as int),
        ),
{
    let n = v.len();
    let k = find_char(v, pos, n, '\n');
    let ghost s = v@.skip(pos as int);
    proof {
        assert(s =~= v@.subrange(pos as int, n as int));
    }
    if k == n {
        proof {
            assert(v@.skip(n as int) =~= Seq::<char>::empty());
            assert(lines(v@.skip(n as int)) =~= Seq::<Seq<char>>::empty());
            assert(lines(s) =~= seq![s] + lines(v@.skip(n as int)));
        }
        (n, n)
    } else {
        let hi = if pos < k && v[k - 1] == '\r' {
            k - 1
        } else {
            k
        };
        proof {
            let line = s.take(k - pos);
            assert(line =~= v@.subrange(pos as int, k as int));
            assert(without_cr(line) =~= v@.subrange(pos as int, hi as int));
            assert(s.skip(k - pos + 1) =~= v@.skip(k + 1));
        }
        (hi, k + 1)
    }
}

/// The lines of `text`.
pub fn split_lines(text: &str) -> (r: Vec<String>)
    ensures
        r.deep_view() == lines(text@),
{
    let v = to_chars(text);
    let n = v.len();
    let mut r: Vec<String> = Vec::new();
    let mut pos: usize = 0;
    proof {
        assert(v@.skip(0) =~= v@);
    }
    while pos < n
        invariant
            pos <= n == v@.len(),
            v@ == text@,
            lines(text@) == r.deep_view() + lines(v@.skip(pos as int)),
        decreases n - pos,
    {
        let (hi, next) = next_line(&v, pos);
        let line = substring(&v, pos, hi);
        let ghost before = r.deep_view();
        r.push(line);
        proof {
            assert(r.deep_view() =~= before + seq![v@.subrange(pos as int, hi as int)]);
        }
        pos = next;
    }
    proof {
        assert(v@.skip(n as int) =~= Seq::<char>::empty());
    }
    r
}

} // verus!
