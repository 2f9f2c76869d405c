use vstd::prelude::*;
use crate::number::{decimal, lemma_parse_decimal, parse_usize, parse_usize_spec};
use crate::pattern::{capture_group, compile_pattern, regex_capture, regex_compiles, CompiledPattern};
use crate::text::{
    chars_of, is_white_space, lemma_trim_drop_trailing_space, line_spans, lines, lines_from,
    range_eq, range_starts_with, span_texts, strip_cr, string_of_range, trim, trim_bounds,
};

verus! {

/// The pattern that recognises a section header `[Object.N]` at the start of a line and
/// captures its index `N`.
pub const OBJECT_HEADER_PATTERN: &'static str = "^\\[Object\\.(\\d+)\\]";

/// The index that one line contributes, given what the header pattern captured in it.
pub open spec fn captured_index(capture: Option<Seq<char>>) -> Option<usize> {
    match capture {
        Some(digits) => parse_usize_spec(digits),
        None => None,
    }
}

/// The larger of two optional indices, where `None` counts as nothing.
pub open spec fn max_opt(a: Option<usize>, b: Option<usize>) -> Option<usize> {
    match (a, b) {
        (Some(x), Some(y)) => Some(if x >= y { x } else { y }),
        (Some(x), None) => Some(x),
        (None, _) => b,
    }
}

/// The largest of the indices in `s`, or `None` where none is present.
pub open spec fn max_index(s: Seq<Option<usize>>) -> Option<usize>
    decreases s.len(),
{
    if s.len() == 0 {
        None
    } else {
        max_opt(max_index(s.drop_last()), s.last())
    }
}

/// The view of a list of captures.
pub open spec fn captures_view(captures: Seq<Option<String>>) -> Seq<Option<Seq<char>>> {
    captures.map_values(|c: Option<String>| match c {
        Some(s) => Some(s@),
        None => None,
    })
}

/// The largest object index among the lines of `text`, where `pattern` captures the index
/// of each line.
pub open spec fn last_object_index_spec(pattern: Seq<char>, text: Seq<char>) -> Option<usize> {
    max_index(lines(text).map_values(|l: Seq<char>| captured_index(regex_capture(pattern, l, 1))))
}

/// The largest index that the captures hold, each parsed as `str::parse::<usize>` does;
/// captures that are absent or do not parse are passed over.
pub fn max_object_index(captures: &Vec<Option<String>>) -> (r: Option<usize>)
    ensures
        r == max_index(captures_view(captures@).map_values(|c: Option<Seq<char>>| captured_index(c))),
{
    let ghost idx = captures_view(captures@).map_values(|c: Option<Seq<char>>| captured_index(c));
    let mut best: Option<usize> = None;
    let mut i: usize = 0;
    while i < captures.len()
        invariant
            i <= captures.len(),
            idx.len() == captures.len(),
            idx == captures_view(captures@).map_values(|c: Option<Seq<char>>| captured_index(c)),
            best == max_index(idx.take(i as int)),
        decreases captures.len() - i,
    {
        let v = match &captures[i] {
            Some(s) => {
                let cs = chars_of(s.as_str());
                parse_usize(&cs)
            },
            None => None,
        };
        assert(v == idx[i as int]);
        assert(idx.take(i + 1).drop_last() =~= idx.take(i as int));
        best = match (best, v) {
            (Some(x), Some(y)) => Some(if x >= y { x } else { y }),
            (Some(x), None) => Some(x),
            (None, _) => v,
        };
        i = i + 1;
    }
    assert(idx.take(captures.len() as int) =~= idx);
    best
}

/// The largest object index among the lines of `text`, with `pattern` as the header
/// pattern.
pub fn last_object_index(pattern: &CompiledPattern, text: &str) -> (r: Option<usize>)
    ensures
        r == last_object_index_spec(pattern.source(), text@),
{
    let cs = chars_of(text);
    let spans = line_spans(&cs);
    let ghost ls = lines(text@);
    let mut captures: Vec<Option<String>> = Vec::new();
    let mut k: usize = 0;
    while k < spans.len()
        invariant
            cs@ == text@,
            span_texts(cs@, spans@) == ls,
            ls == lines(text@),
            forall|j: int|
                0 <= j < spans.len() ==> #[trigger] spans@[j].start <= spans@[j].end <= cs.len(),
            k <= spans.len(),
            captures.len() == k,
            forall|j: int|
                0 <= j < k ==> #[trigger] captures_view(captures@)[j] == regex_capture(
                    pattern.source(),
                    ls[j],
                    1,
                ),
        decreases spans.len() - k,
    {
        let line = string_of_range(&cs, spans[k].start, spans[k].end);
        assert(line@ == ls[k as int]);
        let c = capture_group(pattern, line.as_str(), 1);
        let ghost old_caps = captures@;
        captures.push(c);
        proof {
            assert forall|j: int| 0 <= j < k + 1 implies #[trigger] captures_view(captures@)[j]
                == regex_capture(pattern.source(), ls[j], 1) by {
                if j < k {
                    assert(captures@[j] == old_caps[j]);
                    assert(captures_view(old_caps)[j] == regex_capture(pattern.source(), ls[j], 1));
                }
            }
        }
        k = k + 1;
    }
    let r = max_object_index(&captures);
    assert(captures_view(captures@).map_values(|c: Option<Seq<char>>| captured_index(c))
        =~= ls.map_values(|l: Seq<char>| captured_index(regex_capture(pattern.source(), l, 1))));
    r
}

/// The largest object index `N` among the section headers `[Object.N]` that open lines of
/// `text`; `None` where there is none, and also where the header pattern does not compile.
pub fn get_last_object_index(text: &str) -> (r: Option<usize>)
    ensures
        regex_compiles(OBJECT_HEADER_PATTERN@) ==> r == last_object_index_spec(
            OBJECT_HEADER_PATTERN@,
            text@,
        ),
        !regex_compiles(OBJECT_HEADER_PATTERN@) ==> r is None,
{
    match compile_pattern(OBJECT_HEADER_PATTERN) {
        Some(p) => last_object_index(&p, text),
        None => None,
    }
}


/// Whether a trimmed line opens a section: it starts with `[` and ends with `]`.
pub open spec fn is_section_header(l: Seq<char>) -> bool {
    l.len() > 0 && l[0] == '[' && l.last() == ']'
}

/// The effect name that the lines `ls` give, where `in_target` says whether the section
/// before them is `[Object.0]`: the rest of the first trimmed line that starts with
/// `effect.name=` inside an `[Object.0]` section.
pub open spec fn effect_name_from(ls: Seq<Seq<char>>, in_target: bool) -> Option<Seq<char>>
    decreases ls.len(),
{
    if ls.len() == 0 {
        None
    } else {
        let l = trim(ls[0]);
        if is_section_header(l) {
            effect_name_from(ls.drop_first(), l == "[Object.0]"@)
        } else if in_target && "effect.name="@.len() <= l.len() && l.take(
            "effect.name="@.len() as int,
        ) == "effect.name="@ {
            Some(l.skip("effect.name="@.len() as int))
        } else {
            effect_name_from(ls.drop_first(), in_target)
        }
    }
}

/// The name of the first effect of an object's alias text: the value of the first
/// `effect.name=` entry in its `[Object.0]` section.
pub open spec fn effect_name_spec(text: Seq<char>) -> Option<Seq<char>> {
    effect_name_from(lines(text), false)
}

/// Finds the name of the first effect in the alias text `input`: the value of the first
/// `effect.name=` line of the `[Object.0]` section, lines trimmed of white space.
pub fn get_effect_name(input: &str) -> (r: Option<String>)
    ensures
        match r {
            Some(s) => effect_name_spec(input@) == Some(s@),
            None => effect_name_spec(input@) is None,
        },
{
    let cs = chars_of(input);
    let spans = line_spans(&cs);
    let ghost ls = lines(input@);
    let mut in_target = false;
    let mut k: usize = 0;
    proof {
        assert(ls.skip(0) =~= ls);
    }
    while k < spans.len()
        invariant
            cs@ == input@,
            span_texts(cs@, spans@) == ls,
            ls == lines(input@),
            forall|j: int|
                0 <= j < spans.len() ==> #[trigger] spans@[j].start <= spans@[j].end <= cs.len(),
            k <= spans.len(),
            effect_name_spec(input@) == effect_name_from(ls.skip(k as int), in_target),
        decreases spans.len() - k,
    {
        let (a, b) = trim_bounds(&cs, spans[k].start, spans[k].end);
        assert(ls.len() == spans.len());
        let ghost rest = ls.skip(k as int);
        let ghost l = trim(rest[0]);
        let ghost old_target = in_target;
        assert(rest[0] == ls[k as int]);
        assert(ls[k as int] == cs@.subrange(spans@[k as int].start as int, spans@[k as int].end as int));
        assert(l == cs@.subrange(a as int, b as int));
        assert(rest.drop_first() =~= ls.skip(k + 1));
        let is_header = b > a && cs[a] == '[' && cs[b - 1] == ']';
        assert(is_header == is_section_header(l));
        if is_header {
            in_target = range_eq(&cs, a, b, "[Object.0]");
            assert(effect_name_from(rest, old_target) == effect_name_from(rest.drop_first(), in_target));
        } else {
            let starts = range_starts_with(&cs, a, b, "effect.name=");
            assert(starts == ("effect.name="@.len() <= l.len() && l.take("effect.name="@.len() as int)
                == "effect.name="@)) by {
                if "effect.name="@.len() <= l.len() {
                    assert(l.take("effect.name="@.len() as int) =~= cs@.subrange(
                        a as int,
                        a + "effect.name="@.len(),
                    ));
                }
            }
            if in_target && starts {
                let p = chars_of("effect.name=");
                assert(l.skip("effect.name="@.len() as int) =~= cs@.subrange(a + p.len(), b as int));
                let name = string_of_range(&cs, a + p.len(), b);
                assert(effect_name_from(rest, old_target) == Some(name@));
                return Some(name);
            }
            assert(effect_name_from(rest, old_target) == effect_name_from(rest.drop_first(), in_target));
        }
        k = k + 1;
    }
    None
}

/// The names of the effects that are never given the pivot effect.
pub open spec fn excluded_effect(name: Seq<char>) -> bool {
    ||| name == "オーディオバッファ"@
    ||| name == "カメラ制御"@
    ||| name == "グループ制御(音声)"@
    ||| name == "フィルタ効果"@
    ||| name == "音声ファイル"@
    ||| name == "時間制御(オブジェクト)"@
}

/// Whether `name` is one of the effects that are never given the pivot effect: audio
/// buffers, camera control, audio group control, filter effects, audio files and time
/// control.
pub fn is_excluded_effect(name: &str) -> (b: bool)
    ensures
        b == excluded_effect(name@),
{
    let cs = chars_of(name);
    let n = cs.len();
    assert(cs@.subrange(0, n as int) =~= name@);
    range_eq(&cs, 0, n, "オーディオバッファ") || range_eq(&cs, 0, n, "カメラ制御") || range_eq(
        &cs,
        0,
        n,
        "グループ制御(音声)",
    ) || range_eq(&cs, 0, n, "フィルタ効果") || range_eq(&cs, 0, n, "音声ファイル")
        || range_eq(&cs, 0, n, "時間制御(オブジェクト)")
}


/// A line whose header captures the decimal digits of an index beyond every earlier one
/// makes that index the largest: the header that the pivot effect is added under is the
/// one that a later search finds last.
pub proof fn lemma_new_header_is_last(idx: Seq<Option<usize>>, k: usize)
    requires
        match max_index(idx) {
            Some(m) => m < k,
            None => true,
        },
    ensures
        max_index(idx.push(captured_index(Some(decimal(k as nat))))) == Some(k),
{
    lemma_parse_decimal(k);
    assert(idx.push(captured_index(Some(decimal(k as nat)))).drop_last() =~= idx);
}


/// Lines after the one that gives the effect name do not change it.
proof fn lemma_effect_name_prefix(l1: Seq<Seq<char>>, l2: Seq<Seq<char>>, in_target: bool)
    requires
        effect_name_from(l1, in_target) is Some,
    ensures
        effect_name_from(l1 + l2, in_target) == effect_name_from(l1, in_target),
    decreases l1.len(),
{
    assert((l1 + l2)[0] == l1[0]);
    assert((l1 + l2).drop_first() =~= l1.drop_first() + l2);
    let l = trim(l1[0]);
    if is_section_header(l) {
        lemma_effect_name_prefix(l1.drop_first(), l2, l == "[Object.0]"@);
    } else if in_target && "effect.name="@.len() <= l.len() && l.take("effect.name="@.len() as int)
        == "effect.name="@ {
    } else {
        lemma_effect_name_prefix(l1.drop_first(), l2, in_target);
    }
}

/// Ending the text with one more line break does not change the effect name it gives.
proof fn lemma_effect_name_final_break(a: Seq<char>, cur: Seq<char>, in_target: bool)
    requires
        effect_name_from(lines_from(a, cur), in_target) is Some,
    ensures
        effect_name_from(lines_from(a + seq!['\n'], cur), in_target) == effect_name_from(
            lines_from(a, cur),
            in_target,
        ),
    decreases a.len(),
{
    let nl = seq!['\n'];
    if a.len() == 0 {
        assert(a + nl =~= nl);
        assert(nl.drop_first() =~= Seq::<char>::empty());
        assert(lines_from(Seq::<char>::empty(), Seq::<char>::empty()) =~= Seq::<Seq<char>>::empty());
        assert(lines_from(nl, cur) == seq![strip_cr(cur)] + lines_from(nl.drop_first(), Seq::empty()));
        assert(cur.len() > 0);
        assert(lines_from(a, cur) == seq![cur]);
        if cur.last() == '\r' {
            assert(is_white_space(cur.last()));
            lemma_trim_drop_trailing_space(cur);
        }
        assert(trim(strip_cr(cur)) == trim(cur));
        assert(seq![strip_cr(cur)] + Seq::<Seq<char>>::empty() =~= seq![strip_cr(cur)]);
        assert(seq![strip_cr(cur)].drop_first() =~= Seq::<Seq<char>>::empty());
        assert(seq![cur].drop_first() =~= Seq::<Seq<char>>::empty());
    } else {
        assert((a + nl).drop_first() =~= a.drop_first() + nl);
        assert((a + nl)[0] == a[0]);
        if a[0] == '\n' {
            let first = seq![strip_cr(cur)];
            let rest1 = lines_from(a.drop_first() + nl, Seq::empty());
            let rest0 = lines_from(a.drop_first(), Seq::empty());
            assert((first + rest1)[0] == strip_cr(cur));
            assert((first + rest0)[0] == strip_cr(cur));
            assert((first + rest1).drop_first() =~= rest1);
            assert((first + rest0).drop_first() =~= rest0);
            let l = trim(strip_cr(cur));
            if is_section_header(l) {
                lemma_effect_name_final_break(a.drop_first(), Seq::empty(), l == "[Object.0]"@);
            } else if in_target && "effect.name="@.len() <= l.len() && l.take(
                "effect.name="@.len() as int,
            ) == "effect.name="@ {
            } else {
                lemma_effect_name_final_break(a.drop_first(), Seq::empty(), in_target);
            }
        } else {
            lemma_effect_name_final_break(a.drop_first(), cur.push(a[0]), in_target);
        }
    }
}

/// Appending text after a line break to a text that names its first effect keeps that
/// name.
pub proof fn lemma_effect_name_append(a: Seq<char>, r: Seq<char>)
    requires
        effect_name_spec(a) is Some,
    ensures
        effect_name_spec(a + seq!['\n'] + r) == effect_name_spec(a),
{
    crate::text::lemma_lines_split_at_break(a, r, Seq::empty());
    lemma_effect_name_final_break(a, Seq::empty(), false);
    lemma_effect_name_prefix(
        lines_from(a + seq!['\n'], Seq::empty()),
        lines_from(r, Seq::empty()),
        false,
    );
}


/// The largest index of two lists put together is the larger of their largest indices.
pub proof fn lemma_max_index_concat(x: Seq<Option<usize>>, y: Seq<Option<usize>>)
    ensures
        max_index(x + y) == max_opt(max_index(x), max_index(y)),
    decreases y.len(),
{
    if y.len() == 0 {
        assert(x + y =~= x);
    } else {
        assert((x + y).drop_last() =~= x + y.drop_last());
        assert((x + y).last() == y.last());
        lemma_max_index_concat(x, y.drop_last());
    }
}

/// Joining two texts with a line break, the first one not empty and not ending in a line
/// break or `'\r'`, gives the larger of their last object indices.
pub proof fn lemma_last_object_index_concat(pattern: Seq<char>, a: Seq<char>, b: Seq<char>)
    requires
        a.len() > 0,
        a.last() != '\n',
        a.last() != '\r',
    ensures
        last_object_index_spec(pattern, a + seq!['\n'] + b) == max_opt(
            last_object_index_spec(pattern, a),
            last_object_index_spec(pattern, b),
        ),
{
    let f = |l: Seq<char>| captured_index(regex_capture(pattern, l, 1));
    crate::text::lemma_lines_split_at_break(a, b, Seq::empty());
    crate::text::lemma_lines_final_break(a, Seq::empty());
    assert(lines(a + seq!['\n'] + b) == lines(a) + lines(b));
    assert((lines(a) + lines(b)).map_values(f) =~= lines(a).map_values(f) + lines(b).map_values(f));
    lemma_max_index_concat(lines(a).map_values(f), lines(b).map_values(f));
}


/// Exactly six effects are never given the pivot effect: audio buffers, camera control,
/// audio group control, filter effects, audio files and time control. Other objects, such
/// as video files, images and shapes, are given it.
pub proof fn lemma_excluded_effects(name: Seq<char>)
    ensures
        excluded_effect(name) <==> (name == "オーディオバッファ"@ || name == "カメラ制御"@ || name
            == "グループ制御(音声)"@ || name == "フィルタ効果"@ || name == "音声ファイル"@ || name
            == "時間制御(オブジェクト)"@),
        !excluded_effect("動画ファイル"@),
        !excluded_effect("画像ファイル"@),
        !excluded_effect("図形"@),
        !excluded_effect("テキスト"@),
{
    reveal_strlit("オーディオバッファ");
    reveal_strlit("カメラ制御");
    reveal_strlit("グループ制御(音声)");
    reveal_strlit("フィルタ効果");
    reveal_strlit("音声ファイル");
    reveal_strlit("時間制御(オブジェクト)");
    reveal_strlit("動画ファイル");
    reveal_strlit("画像ファイル");
    reveal_strlit("図形");
    reveal_strlit("テキスト");
    assert("動画ファイル"@.len() != "オーディオバッファ"@.len());
    assert("動画ファイル"@.len() != "カメラ制御"@.len());
    assert("動画ファイル"@.len() != "グループ制御(音声)"@.len());
    assert("動画ファイル"@ != "フィルタ効果"@) by {
        assert("動画ファイル"@[0] != "フィルタ効果"@[0]);
    }
    assert("動画ファイル"@ != "音声ファイル"@) by {
        assert("動画ファイル"@[0] != "音声ファイル"@[0]);
    }
    assert("動画ファイル"@.len() != "時間制御(オブジェクト)"@.len());
    assert("画像ファイル"@.len() != "オーディオバッファ"@.len());
    assert("画像ファイル"@.len() != "カメラ制御"@.len());
    assert("画像ファイル"@.len() != "グループ制御(音声)"@.len());
    assert("画像ファイル"@ != "フィルタ効果"@) by {
        assert("画像ファイル"@[0] != "フィルタ効果"@[0]);
    }
    assert("画像ファイル"@ != "音声ファイル"@) by {
        assert("画像ファイル"@[0] != "音声ファイル"@[0]);
    }
    assert("画像ファイル"@.len() != "時間制御(オブジェクト)"@.len());
    assert("図形"@.len() != "オーディオバッファ"@.len());
    assert("図形"@.len() != "カメラ制御"@.len());
    assert("図形"@.len() != "グループ制御(音声)"@.len());
    assert("図形"@.len() != "フィルタ効果"@.len());
    assert("図形"@.len() != "音声ファイル"@.len());
    assert("図形"@.len() != "時間制御(オブジェクト)"@.len());
    assert("テキスト"@.len() != "オーディオバッファ"@.len());
    assert("テキスト"@.len() != "カメラ制御"@.len());
    assert("テキスト"@.len() != "グループ制御(音声)"@.len());
    assert("テキスト"@.len() != "フィルタ効果"@.len());
    assert("テキスト"@.len() != "音声ファイル"@.len());
    assert("テキスト"@.len() != "時間制御(オブジェクト)"@.len());
}


/// The largest index is one of the indices present and no index present exceeds it; it is
/// absent exactly when no index is present.
pub proof fn lemma_max_index_is_largest(s: Seq<Option<usize>>)
    ensures
        forall|i: int| #![trigger s[i]]
            0 <= i < s.len() && s[i] is Some ==> max_index(s) is Some && s[i]->0 <= max_index(s)->0,
        max_index(s) is Some ==> exists|i: int| 0 <= i < s.len() && s[i] == max_index(s),
        max_index(s) is None ==> forall|i: int| 0 <= i < s.len() ==> #[trigger] s[i] is None,
    decreases s.len(),
{
    if s.len() > 0 {
        let init = s.drop_last();
        lemma_max_index_is_largest(init);
        assert forall|i: int| #![trigger s[i]]
            0 <= i < s.len() && s[i] is Some implies max_index(s) is Some && s[i]->0 <= max_index(
            s,
        )->0 by {
            if i < s.len() - 1 {
                assert(s[i] == init[i]);
            }
        }
        if max_index(s) is Some {
            if max_index(s) == s.last() {
                assert(s[s.len() - 1] == max_index(s));
            } else {
                let i = choose|i: int| 0 <= i < init.len() && init[i] == max_index(init);
                assert(s[i] == init[i]);
            }
        }
        if max_index(s) is None {
            assert forall|i: int| 0 <= i < s.len() implies #[trigger] s[i] is None by {
                if i < s.len() - 1 {
                    assert(s[i] == init[i]);
                }
            }
        }
    }
}


/// No trimmed line strictly between positions `a` and `b` of `ls` opens a section.
pub open spec fn no_header_between(ls: Seq<Seq<char>>, a: int, b: int) -> bool {
    forall|k: int|
        a < k < b ==> !(trim(#[trigger] ls[k]).len() > 0 && trim(ls[k])[0] == '[' && trim(
            ls[k],
        ).last() == ']')
}

/// Line `i` of `ls` lies in an `[Object.0]` section: the last section header before it is
/// `[Object.0]`, or there is none and `in_target` says the lines start inside one.
pub open spec fn in_object_zero(ls: Seq<Seq<char>>, in_target: bool, i: int) -> bool {
    &&& 0 <= i < ls.len()
    &&& (in_target && no_header_between(ls, -1, i)) || exists|j: int|
        0 <= j < i && trim(#[trigger] ls[j]) == "[Object.0]"@ && no_header_between(ls, j, i)
}

proof fn lemma_effect_name_sound_from(ls: Seq<Seq<char>>, in_target: bool)
    requires
        effect_name_from(ls, in_target) is Some,
    ensures
        exists|i: int|
            in_object_zero(ls, in_target, i) && trim(#[trigger] ls[i]) == "effect.name="@
                + effect_name_from(ls, in_target)->0,
    decreases ls.len(),
{
    let p = "effect.name="@;
    let rest = ls.drop_first();
    let l = trim(ls[0]);
    if is_section_header(l) {
        let t2 = l == "[Object.0]"@;
        lemma_effect_name_sound_from(rest, t2);
        let i2 = choose|i: int|
            in_object_zero(rest, t2, i) && trim(#[trigger] rest[i]) == p + effect_name_from(
                rest,
                t2,
            )->0;
        assert(ls[i2 + 1] == rest[i2]);
        if t2 && no_header_between(rest, -1, i2) {
            assert forall|k: int| 0 < k < i2 + 1 implies !(trim(#[trigger] ls[k]).len() > 0
                && trim(ls[k])[0] == '[' && trim(ls[k]).last() == ']') by {
                assert(ls[k] == rest[k - 1]);
            }
            assert(trim(ls[0]) == "[Object.0]"@);
            assert(in_object_zero(ls, in_target, i2 + 1));
        } else {
            let j2 = choose|j: int|
                0 <= j < i2 && trim(#[trigger] rest[j]) == "[Object.0]"@ && no_header_between(
                    rest,
                    j,
                    i2,
                );
            assert(ls[j2 + 1] == rest[j2]);
            assert forall|k: int| j2 + 1 < k < i2 + 1 implies !(trim(#[trigger] ls[k]).len() > 0
                && trim(ls[k])[0] == '[' && trim(ls[k]).last() == ']') by {
                assert(ls[k] == rest[k - 1]);
            }
            assert(in_object_zero(ls, in_target, i2 + 1));
        }
        assert(trim(ls[i2 + 1]) == p + effect_name_from(ls, in_target)->0);
    } else if in_target && p.len() <= l.len() && l.take(p.len() as int) == p {
        assert(l =~= p + l.skip(p.len() as int));
        assert(in_object_zero(ls, in_target, 0));
        assert(trim(ls[0]) == p + effect_name_from(ls, in_target)->0);
    } else {
        lemma_effect_name_sound_from(rest, in_target);
        let i2 = choose|i: int|
            in_object_zero(rest, in_target, i) && trim(#[trigger] rest[i]) == p
                + effect_name_from(rest, in_target)->0;
        assert(ls[i2 + 1] == rest[i2]);
        if in_target && no_header_between(rest, -1, i2) {
            assert forall|k: int| -1 < k < i2 + 1 implies !(trim(#[trigger] ls[k]).len() > 0
                && trim(ls[k])[0] == '[' && trim(ls[k]).last() == ']') by {
                if k > 0 {
                    assert(ls[k] == rest[k - 1]);
                }
            }
            assert(in_object_zero(ls, in_target, i2 + 1));
        } else {
            let j2 = choose|j: int|
                0 <= j < i2 && trim(#[trigger] rest[j]) == "[Object.0]"@ && no_header_between(
                    rest,
                    j,
                    i2,
                );
            assert(ls[j2 + 1] == rest[j2]);
            assert forall|k: int| j2 + 1 < k < i2 + 1 implies !(trim(#[trigger] ls[k]).len() > 0
                && trim(ls[k])[0] == '[' && trim(ls[k]).last() == ']') by {
                assert(ls[k] == rest[k - 1]);
            }
            assert(in_object_zero(ls, in_target, i2 + 1));
        }
        assert(trim(ls[i2 + 1]) == p + effect_name_from(ls, in_target)->0);
    }
}

proof fn lemma_effect_name_complete_from(ls: Seq<Seq<char>>, in_target: bool, i: int)
    requires
        in_object_zero(ls, in_target, i),
        "effect.name="@.len() <= trim(ls[i]).len(),
        trim(ls[i]).take("effect.name="@.len() as int) == "effect.name="@,
    ensures
        effect_name_from(ls, in_target) is Some,
    decreases ls.len(),
{
    reveal_strlit("effect.name=");
    let p = "effect.name="@;
    let rest = ls.drop_first();
    let l = trim(ls[0]);
    if i == 0 {
        assert(l[0] == p[0]);
    } else {
        assert(rest[i - 1] == ls[i]);
        if is_section_header(l) {
            let t2 = l == "[Object.0]"@;
            if in_target && no_header_between(ls, -1, i) {
                assert(!(trim(ls[0]).len() > 0 && trim(ls[0])[0] == '[' && trim(ls[0]).last()
                    == ']'));
            }
            let j = choose|j: int|
                0 <= j < i && trim(#[trigger] ls[j]) == "[Object.0]"@ && no_header_between(
                    ls,
                    j,
                    i,
                );
            if j == 0 {
                assert forall|k: int| -1 < k < i - 1 implies !(trim(#[trigger] rest[k]).len() > 0
                    && trim(rest[k])[0] == '[' && trim(rest[k]).last() == ']') by {
                    assert(rest[k] == ls[k + 1]);
                }
                assert(in_object_zero(rest, t2, i - 1));
            } else {
                assert(rest[j - 1] == ls[j]);
                assert forall|k: int| j - 1 < k < i - 1 implies !(trim(#[trigger] rest[k]).len()
                    > 0 && trim(rest[k])[0] == '[' && trim(rest[k]).last() == ']') by {
                    assert(rest[k] == ls[k + 1]);
                }
                assert(in_object_zero(rest, t2, i - 1));
            }
            lemma_effect_name_complete_from(rest, t2, i - 1);
        } else if in_target && p.len() <= l.len() && l.take(p.len() as int) == p {
        } else {
            if in_target && no_header_between(ls, -1, i) {
                assert forall|k: int| -1 < k < i - 1 implies !(trim(#[trigger] rest[k]).len() > 0
                    && trim(rest[k])[0] == '[' && trim(rest[k]).last() == ']') by {
                    assert(rest[k] == ls[k + 1]);
                }
                assert(in_object_zero(rest, in_target, i - 1));
            } else {
                let j = choose|j: int|
                    0 <= j < i && trim(#[trigger] ls[j]) == "[Object.0]"@ && no_header_between(
                        ls,
                        j,
                        i,
                    );
                if j == 0 {
                    reveal_strlit("[Object.0]");
                    assert(is_section_header(l));
                }
                assert(rest[j - 1] == ls[j]);
                assert forall|k: int| j - 1 < k < i - 1 implies !(trim(#[trigger] rest[k]).len()
                    > 0 && trim(rest[k])[0] == '[' && trim(rest[k]).last() == ']') by {
                    assert(rest[k] == ls[k + 1]);
                }
                assert(in_object_zero(rest, in_target, i - 1));
            }
            lemma_effect_name_complete_from(rest, in_target, i - 1);
        }
    }
}

/// The effect name comes from a line of an `[Object.0]` section, trimmed, that reads
/// `effect.name=` followed by the name; and wherever such a section holds a line that
/// starts with `effect.name=`, a name is found.
pub proof fn lemma_effect_name_source(text: Seq<char>, i: int)
    ensures
        effect_name_spec(text) matches Some(v) ==> exists|k: int|
            in_object_zero(lines(text), false, k) && trim(#[trigger] lines(text)[k])
                == "effect.name="@ + v,
        in_object_zero(lines(text), false, i) && "effect.name="@.len() <= trim(lines(text)[i]).len()
            && trim(lines(text)[i]).take("effect.name="@.len() as int) == "effect.name="@
            ==> effect_name_spec(text) is Some,
{
    if effect_name_spec(text) is Some {
        lemma_effect_name_sound_from(lines(text), false);
    }
    if in_object_zero(lines(text), false, i) && "effect.name="@.len() <= trim(lines(text)[i]).len()
        && trim(lines(text)[i]).take("effect.name="@.len() as int) == "effect.name="@ {
        lemma_effect_name_complete_from(lines(text), false, i);
    }
}

} // verus!
