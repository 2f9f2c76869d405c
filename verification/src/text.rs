use vstd::prelude::*;

verus! {

broadcast use vstd::std_specs::iter::group_iter_axioms;

/// Appends one character to a `String`.
///
/// Trusted: `String::push` appends the given `char` to the end of the string, as std
/// documents; vstd gives it no specification.
#[verifier::external_body]
pub(crate) fn push_char(s: &mut String, c: char)
    ensures
        final(s)@ == old(s)@.push(c),
{
    s.push(c);
}

/// The characters of a string slice, in order.
pub fn chars_of(s: &str) -> (res: Vec<char>)
    ensures
        res@ == s@,
{
    let mut res: Vec<char> = Vec::new();
    for c in it: s.chars()
        invariant
            res@ == it.seq().take(it.index()),
    {
        res.push(c);
    }
    res
}


/// Whether `c` has the Unicode `White_Space` property, the set that `char::is_whitespace`
/// and `str::trim` go by.
pub open spec fn is_white_space(c: char) -> bool {
    ||| ('\u{9}' <= c && c <= '\u{d}')
    ||| c == ' '
    ||| c == '\u{85}'
    ||| c == '\u{a0}'
    ||| c == '\u{1680}'
    ||| ('\u{2000}' <= c && c <= '\u{200a}')
    ||| c == '\u{2028}'
    ||| c == '\u{2029}'
    ||| c == '\u{202f}'
    ||| c == '\u{205f}'
    ||| c == '\u{3000}'
}

/// Decides `is_white_space`.
pub fn is_whitespace_char(c: char) -> (b: bool)
    ensures
        b == is_white_space(c),
{
    ('\u{9}' <= c && c <= '\u{d}') || c == ' ' || c == '\u{85}' || c == '\u{a0}' || c == '\u{1680}'
        || ('\u{2000}' <= c && c <= '\u{200a}') || c == '\u{2028}' || c == '\u{2029}' || c
        == '\u{202f}' || c == '\u{205f}' || c == '\u{3000}'
}

/// `s` without its leading white space.
pub open spec fn trim_start(s: Seq<char>) -> Seq<char>
    decreases s.len(),
{
    if s.len() > 0 && is_white_space(s[0]) {
        trim_start(s.drop_first())
    } else {
        s
    }
}

/// `s` without its trailing white space.
pub open spec fn trim_end(s: Seq<char>) -> Seq<char>
    decreases s.len(),
{
    if s.len() > 0 && is_white_space(s.last()) {
        trim_end(s.drop_last())
    } else {
        s
    }
}

/// `s` without leading and trailing white space, as `str::trim` gives it.
pub open spec fn trim(s: Seq<char>) -> Seq<char> {
    trim_end(trim_start(s))
}

/// `trim_start(s)` is the suffix of `s` from the first non-white-space character on.
proof fn lemma_trim_start_skip(s: Seq<char>, i: int)
    requires
        0 <= i <= s.len(),
        forall|j: int| 0 <= j < i ==> is_white_space(#[trigger] s[j]),
        i == s.len() || !is_white_space(s[i]),
    ensures
        trim_start(s) == s.skip(i),
    decreases i,
{
    if i == 0 {
        assert(s.skip(0) =~= s);
    } else {
        assert(s.drop_first().skip(i - 1) =~= s.skip(i));
        lemma_trim_start_skip(s.drop_first(), i - 1);
    }
}

/// `trim_end(s)` is the prefix of `s` up to the last non-white-space character.
proof fn lemma_trim_end_take(s: Seq<char>, k: int)
    requires
        0 <= k <= s.len(),
        forall|j: int| k <= j < s.len() ==> is_white_space(#[trigger] s[j]),
        k == 0 || !is_white_space(s[k - 1]),
    ensures
        trim_end(s) == s.take(k),
    decreases s.len() - k,
{
    if k == s.len() {
        assert(s.take(k) =~= s);
    } else {
        assert(s.drop_last().take(k) =~= s.take(k));
        lemma_trim_end_take(s.drop_last(), k);
    }
}

/// Returns the bounds `(a, b)` of `s[from..to]` with white space removed at both ends.
pub fn trim_bounds(s: &Vec<char>, from: usize, to: usize) -> (r: (usize, usize))
    requires
        from <= to <= s.len(),
    ensures
        from <= r.0 <= r.1 <= to,
        s@.subrange(r.0 as int, r.1 as int) == trim(s@.subrange(from as int, to as int)),
{
    let ghost t = s@.subrange(from as int, to as int);
    let mut a = from;
    while a < to && is_whitespace_char(s[a])
        invariant
            from <= a <= to <= s.len(),
            forall|j: int| from <= j < a ==> is_white_space(#[trigger] s@[j]),
        decreases to - a,
    {
        a = a + 1;
    }
    proof {
        assert forall|j: int| 0 <= j < a - from implies is_white_space(#[trigger] t[j]) by {
            assert(t[j] == s@[from + j]);
        }
        lemma_trim_start_skip(t, a - from);
        assert(t.skip(a - from) =~= s@.subrange(a as int, to as int));
    }
    let mut b = to;
    while b > a && is_whitespace_char(s[b - 1])
        invariant
            from <= a <= b <= to <= s.len(),
            forall|j: int| b <= j < to ==> is_white_space(#[trigger] s@[j]),
        decreases b - a,
    {
        b = b - 1;
    }
    proof {
        let u = s@.subrange(a as int, to as int);
        assert forall|j: int| b - a <= j < u.len() implies is_white_space(#[trigger] u[j]) by {
            assert(u[j] == s@[a + j]);
        }
        if b > a {
            assert(u[b - a - 1] == s@[b - 1]);
        }
        lemma_trim_end_take(u, b - a);
        assert(u.take(b - a) =~= s@.subrange(a as int, b as int));
    }
    (a, b)
}

/// `cur` with one `'\r'` removed from its end if it ends in one.
pub open spec fn strip_cr(cur: Seq<char>) -> Seq<char> {
    if cur.len() > 0 && cur.last() == '\r' {
        cur.drop_last()
    } else {
        cur
    }
}

/// The lines of `s` that follow, given that `cur` is the part of the current line read so
/// far: lines end at `'\n'`, a `'\r'` just before it is dropped, and a last line is kept only
/// where it is not empty.
pub open spec fn lines_from(s: Seq<char>, cur: Seq<char>) -> Seq<Seq<char>>
    decreases s.len(),
{
    if s.len() == 0 {
        if cur.len() == 0 {
            Seq::empty()
        } else {
            seq![cur]
        }
    } else if s[0] == '\n' {
        seq![strip_cr(cur)] + lines_from(s.drop_first(), Seq::empty())
    } else {
        lines_from(s.drop_first(), cur.push(s[0]))
    }
}

/// The lines of `s`, as `str::lines` gives them.
pub open spec fn lines(s: Seq<char>) -> Seq<Seq<char>> {
    lines_from(s, Seq::empty())
}

/// A line as a range of indices into the text it comes from.
#[derive(Clone, Copy, Debug, PartialEq, Eq)]
pub struct LineSpan {
    pub start: usize,
    pub end: usize,
}

/// The text that the spans of `spans` cover in `s`.
pub open spec fn span_texts(s: Seq<char>, spans: Seq<LineSpan>) -> Seq<Seq<char>> {
    spans.map_values(|sp: LineSpan| s.subrange(sp.start as int, sp.end as int))
}

/// Splits `s` into its lines, as `str::lines` does, returning where each line lies.
pub fn line_spans(s: &Vec<char>) -> (spans: Vec<LineSpan>)
    ensures
        forall|k: int|
            0 <= k < spans.len() ==> #[trigger] spans@[k].start <= spans@[k].end <= s.len(),
        span_texts(s@, spans@) == lines(s@),
{
    let mut spans: Vec<LineSpan> = Vec::new();
    let mut start: usize = 0;
    let mut i: usize = 0;
    let n = s.len();
    assert(s@.skip(0) =~= s@);
    assert(s@.subrange(0, 0) =~= Seq::<char>::empty());
    assert(span_texts(s@, spans@) =~= Seq::<Seq<char>>::empty());
    assert(Seq::<Seq<char>>::empty() + lines(s@) =~= lines(s@));
    while i < n
        invariant
            n == s.len(),
            start <= i <= n,
            forall|k: int|
                0 <= k < spans.len() ==> #[trigger] spans@[k].start <= spans@[k].end <= s.len(),
            span_texts(s@, spans@) + lines_from(s@.skip(i as int), s@.subrange(start as int, i as int))
                == lines(s@),
        decreases n - i,
    {
        let ghost rest = s@.skip(i as int);
        let ghost cur = s@.subrange(start as int, i as int);
        assert(rest.drop_first() =~= s@.skip(i + 1));
        if s[i] == '\n' {
            let end = if i > start && s[i - 1] == '\r' {
                i - 1
            } else {
                i
            };
            assert(s@.subrange(start as int, end as int) =~= strip_cr(cur));
            let ghost old_spans = spans@;
            spans.push(LineSpan { start, end });
            assert(spans@ == old_spans.push(LineSpan { start, end }));
            assert forall|k: int| 0 <= k < spans.len() implies #[trigger] spans@[k].start
                <= spans@[k].end <= s.len() by {
                if k < old_spans.len() {
                    assert(spans@[k] == old_spans[k]);
                }
            }
            assert(span_texts(s@, spans@) =~= span_texts(s@, old_spans) + seq![strip_cr(cur)]);
            assert(s@.subrange((i + 1) as int, (i + 1) as int) =~= Seq::<char>::empty());
            start = i + 1;
        } else {
            assert(cur.push(s@[i as int]) =~= s@.subrange(start as int, i + 1));
        }
        i = i + 1;
    }
    let ghost cur = s@.subrange(start as int, n as int);
    assert(s@.skip(n as int) =~= Seq::<char>::empty());
    if start < n {
        let ghost old_spans = spans@;
        spans.push(LineSpan { start, end: n });
        assert(span_texts(s@, spans@) =~= span_texts(s@, old_spans) + seq![cur]);
    } else {
        assert(span_texts(s@, spans@) =~= span_texts(s@, spans@) + Seq::<Seq<char>>::empty());
    }
    spans
}

/// Collects `s[from..to]` into a new `String`.
pub fn string_of_range(s: &Vec<char>, from: usize, to: usize) -> (res: String)
    requires
        from <= to <= s.len(),
    ensures
        res@ == s@.subrange(from as int, to as int),
{
    let mut res = String::new();
    let mut i = from;
    while i < to
        invariant
            from <= i <= to <= s.len(),
            res@ == s@.subrange(from as int, i as int),
        decreases to - i,
    {
        push_char(&mut res, s[i]);
        assert(s@.subrange(from as int, i + 1) =~= s@.subrange(from as int, i as int).push(s@[i as int]));
        i = i + 1;
    }
    res
}

/// Whether `s[from..to]` equals `lit`.
pub fn range_eq(s: &Vec<char>, from: usize, to: usize, lit: &str) -> (b: bool)
    requires
        from <= to <= s.len(),
    ensures
        b == (s@.subrange(from as int, to as int) == lit@),
{
    let l = chars_of(lit);
    if to - from != l.len() {
        return false;
    }
    let mut i: usize = 0;
    while i < l.len()
        invariant
            from <= to <= s.len(),
            to - from == l.len(),
            l@ == lit@,
            i <= l.len(),
            forall|j: int| 0 <= j < i ==> s@[from + j] == l@[j],
        decreases l.len() - i,
    {
        if s[from + i] != l[i] {
            assert(s@.subrange(from as int, to as int)[i as int] != lit@[i as int]);
            return false;
        }
        i = i + 1;
    }
    assert(s@.subrange(from as int, to as int) =~= lit@);
    true
}

/// Whether `s[from..to]` begins with `lit`.
pub fn range_starts_with(s: &Vec<char>, from: usize, to: usize, lit: &str) -> (b: bool)
    requires
        from <= to <= s.len(),
    ensures
        b == (lit@.len() <= to - from && s@.subrange(from as int, from + lit@.len()) == lit@),
{
    let l = chars_of(lit);
    if to - from < l.len() {
        return false;
    }
    range_eq(s, from, from + l.len(), lit)
}


/// A trailing white-space character does not change what trimming gives.
pub proof fn lemma_trim_drop_trailing_space(s: Seq<char>)
    requires
        s.len() > 0,
        is_white_space(s.last()),
    ensures
        trim(s.drop_last()) == trim(s),
    decreases s.len(),
{
    if is_white_space(s[0]) {
        if s.len() == 1 {
            assert(s.drop_first() =~= Seq::<char>::empty());
            assert(s.drop_last() =~= Seq::<char>::empty());
        } else {
            assert(s.drop_last().drop_first() =~= s.drop_first().drop_last());
            assert(s.drop_first().last() == s.last());
            lemma_trim_drop_trailing_space(s.drop_first());
            assert(s.drop_last()[0] == s[0]);
        }
    } else {
        assert(s.len() > 1);
        assert(s.drop_last()[0] == s[0]);
    }
}

/// The lines of a text with a line break inside are the lines up to and including that
/// break, then the lines after it.
pub proof fn lemma_lines_split_at_break(a: Seq<char>, r: Seq<char>, cur: Seq<char>)
    ensures
        lines_from(a + seq!['\n'] + r, cur) == lines_from(a + seq!['\n'], cur) + lines_from(
            r,
            Seq::empty(),
        ),
    decreases a.len(),
{
    let nl = seq!['\n'];
    if a.len() == 0 {
        assert(a + nl + r =~= nl + r);
        assert((nl + r).drop_first() =~= r);
        assert(a + nl =~= nl);
        assert(nl.drop_first() =~= Seq::<char>::empty());
        assert(nl[0] == '\n');
        assert(lines_from(Seq::<char>::empty(), Seq::<char>::empty()) =~= Seq::<Seq<char>>::empty());
        assert(lines_from(nl, cur) == seq![strip_cr(cur)] + lines_from(nl.drop_first(), Seq::empty()));
        assert(lines_from(nl, cur) =~= seq![strip_cr(cur)]);
    } else {
        assert((a + nl + r).drop_first() =~= a.drop_first() + nl + r);
        assert((a + nl).drop_first() =~= a.drop_first() + nl);
        assert((a + nl + r)[0] == a[0]);
        assert((a + nl)[0] == a[0]);
        if a[0] == '\n' {
            lemma_lines_split_at_break(a.drop_first(), r, Seq::empty());
            assert(seq![strip_cr(cur)] + lines_from(a.drop_first() + nl + r, Seq::empty()) =~= seq![
                strip_cr(cur),
            ] + lines_from(a.drop_first() + nl, Seq::empty()) + lines_from(r, Seq::empty()));
        } else {
            lemma_lines_split_at_break(a.drop_first(), r, cur.push(a[0]));
        }
    }
}


/// A line break added after a text whose last line is not empty and does not end in
/// `'\r'` leaves its lines as they are.
pub proof fn lemma_lines_final_break(a: Seq<char>, cur: Seq<char>)
    requires
        a.len() == 0 ==> cur.len() > 0 && cur.last() != '\r',
        a.len() > 0 ==> a.last() != '\n' && a.last() != '\r',
    ensures
        lines_from(a + seq!['\n'], cur) == lines_from(a, cur),
    decreases a.len(),
{
    let nl = seq!['\n'];
    if a.len() == 0 {
        assert(a + nl =~= nl);
        assert(nl.drop_first() =~= Seq::<char>::empty());
        assert(nl[0] == '\n');
        assert(lines_from(Seq::<char>::empty(), Seq::<char>::empty()) =~= Seq::<Seq<char>>::empty());
        assert(lines_from(nl, cur) == seq![strip_cr(cur)] + lines_from(nl.drop_first(), Seq::empty()));
        assert(lines_from(nl, cur) =~= seq![cur]);
    } else {
        assert((a + nl).drop_first() =~= a.drop_first() + nl);
        assert((a + nl)[0] == a[0]);
        if a.len() > 1 {
            assert(a.drop_first().last() == a.last());
        }
        if a[0] == '\n' {
            lemma_lines_final_break(a.drop_first(), Seq::empty());
        } else {
            lemma_lines_final_break(a.drop_first(), cur.push(a[0]));
        }
    }
}

} // verus!
