//! Regular expression tester: compiling the pattern, highlighting the
//! matches and capture groups in the test text, and finding the match under
//! the cursor. Matching itself is the `regex` crate's.
use vstd::prelude::*;
use vstd::utf8::*;

verus! {

#[verifier::external_type_specification]
#[verifier::external_body]
pub struct ExRegex(regex::Regex);

/// The spans (byte offsets, start and end) of one match: the whole match
/// first, then each capture group, `None` for a group that did not take part.
pub type CaptureSpans = Seq<Option<(usize, usize)>>;

/// What `Regex::new` reports for a pattern: `None` when it compiles, else the
/// `Display` text of the error.
pub uninterp spec fn regex_compile_error(pattern: Seq<char>) -> Option<Seq<char>>;

/// The capture spans that `Regex::captures_iter` yields, in order, for the
/// regex compiled from `pattern` searching `text`.
pub uninterp spec fn regex_captures(pattern: Seq<char>, text: Seq<char>) -> Seq<CaptureSpans>;

/// A compiled pattern together with the text it was compiled from. It is
/// only made by [`compile_pattern`], so its regex is always the one compiled
/// from its pattern.
pub struct CompiledPattern {
    pattern: String,
    regex: regex::Regex,
}

impl View for CompiledPattern {
    type V = Seq<char>;

    closed spec fn view(&self) -> Seq<char> {
        self.pattern@
    }
}

/// `regex::Regex::new`, with the error turned into its `Display` text.
/// Claimed: it succeeds, keeping the pattern, exactly when the named error is
/// absent, and otherwise fails with the named error text.
#[verifier::external_body]
pub(crate) fn compile_pattern(pattern: &str) -> (r: Result<CompiledPattern, String>)
    ensures
        r is Ok <==> regex_compile_error(pattern@) is None,
        r matches Ok(c) ==> c@ == pattern@,
        r matches Err(e) ==> regex_compile_error(pattern@) == Some(e@),
{
    match regex::Regex::new(pattern) {
        Ok(regex) => Ok(CompiledPattern { pattern: pattern.to_string(), regex }),
        Err(e) => Err(e.to_string()),
    }
}

pub open spec fn spans_view(r: Vec<Vec<Option<(usize, usize)>>>) -> Seq<CaptureSpans> {
    r@.map_values(|c: Vec<Option<(usize, usize)>>| c@)
}

/// A span starts no later than it ends, and both ends fall on character
/// boundaries of the text's UTF-8 bytes.
pub open spec fn span_in_text(span: Option<(usize, usize)>, text: Seq<char>) -> bool {
    match span {
        Some((s, e)) => s <= e && is_char_boundary(encode_utf8(text), s as int) && is_char_boundary(
            encode_utf8(text),
            e as int,
        ),
        None => true,
    }
}

/// Where a capture's whole match starts.
pub open spec fn match_start(cap: CaptureSpans) -> int {
    match cap[0] {
        Some((s, _e)) => s as int,
        None => 0,
    }
}

/// Where a capture's whole match ends.
pub open spec fn match_end(cap: CaptureSpans) -> int {
    match cap[0] {
        Some((_s, e)) => e as int,
        None => 0,
    }
}

/// What the `regex` crate documents of the captures it reports for a text:
/// each has its whole match (group 0), the matches come in order without
/// overlapping, and every reported offset lies on a UTF-8 code point
/// boundary of the text.
pub open spec fn captures_fit(caps: Seq<CaptureSpans>, text: Seq<char>) -> bool {
    &&& forall|i: int| 0 <= i < caps.len() ==> (#[trigger] caps[i]).len() > 0 && caps[i][0] is Some
    &&& forall|i: int, g: int|
        0 <= i < caps.len() && 0 <= g < caps[i].len() ==> span_in_text(#[trigger] caps[i][g], text)
    &&& forall|i: int|
        0 <= i < caps.len() - 1 ==> match_end(#[trigger] caps[i]) <= match_start(caps[i + 1])
}

/// `Regex::captures_iter` over `text`, each `Captures` turned into the spans
/// of its groups (`Captures::iter`, `Match::start`, `Match::end`). Claimed:
/// the result is the named capture list for this pattern and text; each
/// capture has its whole match (`Captures::get(0)` is never `None`); the
/// matches are successive and non-overlapping; and every offset falls on a
/// UTF-8 code point boundary with start <= end (`Match::range` slices the
/// haystack without panicking), all as the crate documents.
#[verifier::external_body]
pub(crate) fn capture_spans(p: &CompiledPattern, text: &str) -> (r: Vec<Vec<Option<(usize, usize)>>>)
    ensures
        spans_view(r) == regex_captures(p@, text@),
        captures_fit(spans_view(r), text@),
{
    p.regex.captures_iter(text).map(|c| c.iter().map(|m| m.map(|m| (m.start(), m.end()))).collect()).collect()
}

// ---------------------------------------------------------------------------
// Highlighting
// ---------------------------------------------------------------------------

/// How one byte of the test text is drawn: on the match background or not,
/// and in the colour of a capture group (by palette slot) or the plain
/// colour.
#[derive(PartialEq, Eq, Clone, Copy, Debug, Structural)]
pub struct HighlightStyle {
    pub in_match: bool,
    pub group_slot: Option<usize>,
}

/// A run of bytes `start..end` of the test text drawn in one style.
#[derive(PartialEq, Eq, Clone, Copy, Debug, Structural)]
pub struct HighlightSegment {
    pub start: usize,
    pub end: usize,
    pub style: HighlightStyle,
}

/// The number of colours in the group palette.
pub open spec fn palette_len() -> int {
    5
}

pub open spec fn plain_style() -> HighlightStyle {
    HighlightStyle { in_match: false, group_slot: None }
}

/// The span covers byte `k`.
pub open spec fn covers(span: Option<(usize, usize)>, k: int) -> bool {
    match span {
        Some((s, e)) => s <= k < e,
        None => false,
    }
}

/// The last capture group (numbered from 1, below `upto`) whose span covers
/// byte `k`.
pub open spec fn last_group_covering(cap: CaptureSpans, k: int, upto: int) -> Option<int>
    decreases upto,
{
    if upto <= 1 {
        None
    } else if covers(cap[upto - 1], k) {
        Some(upto - 1)
    } else {
        last_group_covering(cap, k, upto - 1)
    }
}

/// The style of byte `k` after one more match is painted over `st`: the match
/// background where the whole match covers it, and the colour of the last
/// group covering it.
pub open spec fn paint_capture(st: HighlightStyle, cap: CaptureSpans, k: int) -> HighlightStyle {
    HighlightStyle {
        in_match: st.in_match || (cap.len() > 0 && covers(cap[0], k)),
        group_slot: match last_group_covering(cap, k, cap.len() as int) {
            Some(g) => Some(((g - 1) % palette_len()) as usize),
            None => st.group_slot,
        },
    }
}

/// Painting one match over a byte: a byte inside the whole match (span 0)
/// gets the match background, one outside keeps its background; a byte inside
/// the span of capture group `g >= 1` and inside no later group's span is
/// drawn in palette slot `(g - 1) % 5`; a byte inside no group's span keeps
/// its colour.
pub proof fn law_paint_capture(st: HighlightStyle, cap: CaptureSpans, k: int)
    ensures
        cap.len() > 0 && (cap[0] matches Some((s, e)) && s <= k < e) ==> paint_capture(st, cap, k).in_match,
        !(cap.len() > 0 && (cap[0] matches Some((s, e)) && s <= k < e)) ==> paint_capture(st, cap, k).in_match
            == st.in_match,
        forall|g: int|
            #![trigger cap[g]]
            1 <= g < cap.len() && (cap[g] matches Some((s, e)) && s <= k < e) && (forall|h: int|
                g < h < cap.len() ==> !(#[trigger] cap[h] matches Some((s2, e2)) && s2 <= k < e2))
                ==> paint_capture(st, cap, k).group_slot == Some(((g - 1) % 5) as usize),
        (forall|h: int| 1 <= h < cap.len() ==> !(#[trigger] cap[h] matches Some((s2, e2)) && s2 <= k < e2))
            ==> paint_capture(st, cap, k).group_slot == st.group_slot,
{
    assert forall|g: int|
        #![trigger cap[g]]
        1 <= g < cap.len() && (cap[g] matches Some((s, e)) && s <= k < e) && (forall|h: int|
            g < h < cap.len() ==> !(#[trigger] cap[h] matches Some((s2, e2)) && s2 <= k < e2))
            implies last_group_covering(cap, k, cap.len() as int) == Some(g) by {
        lemma_last_group_is(cap, k, g, cap.len() as int);
    }
    if forall|h: int| 1 <= h < cap.len() ==> !(#[trigger] cap[h] matches Some((s2, e2)) && s2 <= k < e2) {
        lemma_no_group_covers(cap, k, cap.len() as int);
    }
}

proof fn lemma_last_group_is(cap: CaptureSpans, k: int, g: int, upto: int)
    requires
        1 <= g < upto <= cap.len(),
        covers(cap[g], k),
        forall|h: int| g < h < cap.len() ==> !(#[trigger] cap[h] matches Some((s2, e2)) && s2 <= k < e2),
    ensures
        last_group_covering(cap, k, upto) == Some(g),
    decreases upto,
{
    if upto - 1 > g {
        assert(!covers(cap[upto - 1], k));
        lemma_last_group_is(cap, k, g, upto - 1);
    }
}

proof fn lemma_no_group_covers(cap: CaptureSpans, k: int, upto: int)
    requires
        upto <= cap.len(),
        forall|h: int| 1 <= h < cap.len() ==> !(#[trigger] cap[h] matches Some((s2, e2)) && s2 <= k < e2),
    ensures
        last_group_covering(cap, k, upto) is None,
    decreases upto,
{
    if upto > 1 {
        assert(!covers(cap[upto - 1], k));
        lemma_no_group_covers(cap, k, upto - 1);
    }
}

/// The style of byte `k` once all matches are painted, in order.
pub open spec fn style_at(caps: Seq<CaptureSpans>, k: int) -> HighlightStyle
    decreases caps.len(),
{
    if caps.len() == 0 {
        plain_style()
    } else {
        paint_capture(style_at(caps.drop_last(), k), caps.last(), k)
    }
}

/// Byte `k` lies in the span of group `g` of a match.
pub open spec fn in_group_span(cap: CaptureSpans, g: int, k: int) -> bool {
    0 <= g < cap.len() && (cap[g] matches Some((s, e)) && s <= k < e)
}

/// Once all matches are painted, a byte has the match background exactly
/// when some match spans it; it is uncoloured when no capture group of any
/// match spans it; and otherwise it has the colour of the last group spanning
/// it in the last match that has such a group.
pub proof fn law_style_at(caps: Seq<CaptureSpans>, k: int)
    ensures
        style_at(caps, k).in_match <==> exists|m: int| 0 <= m < caps.len() && #[trigger] in_group_span(caps[m], 0, k),
        (forall|m: int, g: int| 0 <= m < caps.len() && 1 <= g ==> !#[trigger] in_group_span(caps[m], g, k))
            ==> style_at(caps, k).group_slot is None,
        forall|m: int, g: int|
            0 <= m < caps.len() && 1 <= g && #[trigger] in_group_span(caps[m], g, k) && (forall|h: int|
                g < h ==> !#[trigger] in_group_span(caps[m], h, k)) && (forall|m2: int, h: int|
                m < m2 < caps.len() && 1 <= h ==> !#[trigger] in_group_span(caps[m2], h, k))
                ==> style_at(caps, k).group_slot == Some(((g - 1) % 5) as usize),
    decreases caps.len(),
{
    if caps.len() > 0 {
        let init = caps.drop_last();
        let cap = caps.last();
        let n = caps.len() - 1;
        law_style_at(init, k);
        law_paint_capture(style_at(init, k), cap, k);
        assert forall|m: int| 0 <= m < init.len() implies init[m] == caps[m] by {}
        if style_at(caps, k).in_match && !style_at(init, k).in_match {
            assert(in_group_span(caps[n], 0, k));
        }
        if exists|m: int| 0 <= m < caps.len() && #[trigger] in_group_span(caps[m], 0, k) {
            let m = choose|m: int| 0 <= m < caps.len() && #[trigger] in_group_span(caps[m], 0, k);
            if m < n {
                assert(in_group_span(init[m], 0, k));
            }
        }
        if forall|m: int, g: int| 0 <= m < caps.len() && 1 <= g ==> !#[trigger] in_group_span(caps[m], g, k) {
            assert forall|m: int, g: int| 0 <= m < init.len() && 1 <= g implies !#[trigger] in_group_span(init[m], g, k) by {
                assert(!in_group_span(caps[m], g, k));
            }
            assert forall|h: int| 1 <= h < cap.len() implies !(#[trigger] cap[h] matches Some((s2, e2)) && s2 <= k < e2) by {
                assert(!in_group_span(caps[n], h, k));
            }
        }
        assert forall|m: int, g: int|
            0 <= m < caps.len() && 1 <= g && #[trigger] in_group_span(caps[m], g, k) && (forall|h: int|
                g < h ==> !#[trigger] in_group_span(caps[m], h, k)) && (forall|m2: int, h: int|
                m < m2 < caps.len() && 1 <= h ==> !#[trigger] in_group_span(caps[m2], h, k))
                implies style_at(caps, k).group_slot == Some(((g - 1) % 5) as usize) by {
            if m == n {
                assert forall|h: int| g < h < cap.len() implies !(#[trigger] cap[h] matches Some((s2, e2)) && s2 <= k < e2) by {
                    assert(!in_group_span(caps[m], h, k));
                }
                assert(cap[g] matches Some((s, e)) && s <= k < e);
            } else {
                assert forall|h: int| 1 <= h < cap.len() implies !(#[trigger] cap[h] matches Some((s2, e2)) && s2 <= k < e2) by {
                    assert(!in_group_span(caps[n], h, k));
                }
                assert(in_group_span(init[m], g, k));
                assert forall|h: int| g < h implies !#[trigger] in_group_span(init[m], h, k) by {
                    assert(!in_group_span(caps[m], h, k));
                }
                assert forall|m2: int, h: int| m < m2 < init.len() && 1 <= h implies !#[trigger] in_group_span(init[m2], h, k) by {
                    assert(!in_group_span(caps[m2], h, k));
                }
            }
        }
    }
}

/// `segs` cut the positions of `styles` into consecutive non-empty runs, each
/// drawn in the style that all its positions have, with neighbouring runs in
/// different styles.
pub open spec fn segments_cover(segs: Seq<HighlightSegment>, styles: Seq<HighlightStyle>) -> bool {
    &&& (styles.len() == 0 <==> segs.len() == 0)
    &&& segs.len() > 0 ==> segs[0].start == 0 && segs.last().end == styles.len()
    &&& forall|i: int| 0 <= i < segs.len() ==> (#[trigger] segs[i]).start < segs[i].end
    &&& forall|i: int| 0 <= i < segs.len() - 1 ==> (#[trigger] segs[i]).end == segs[i + 1].start
    &&& forall|i: int| 0 <= i < segs.len() - 1 ==> (#[trigger] segs[i]).style != segs[i + 1].style
    &&& forall|i: int, k: int|
        #![trigger segs[i], styles[k]]
        0 <= i < segs.len() && segs[i].start <= k < segs[i].end ==> styles[k] == segs[i].style
}

/// The styles of the first `n` bytes once every match is painted.
pub open spec fn painted(caps: Seq<CaptureSpans>, n: int) -> Seq<HighlightStyle> {
    Seq::new(n as nat, |k: int| style_at(caps, k))
}

/// Set the match background on `s..e` (within the first `n` bytes).
fn paint_background(styles: &mut Vec<HighlightStyle>, s: usize, e: usize)
    ensures
        final(styles)@.len() == old(styles)@.len(),
        forall|t: int|
            0 <= t < old(styles)@.len() ==> (#[trigger] final(styles)@[t]).group_slot == old(
                styles,
            )@[t].group_slot && final(styles)@[t].in_match == (old(styles)@[t].in_match || (s <= t
                < e)),
{
    let n = styles.len();
    let ghost before = styles@;
    let mut i = s;
    while i < e
        invariant
            s <= i,
            i <= e || i == s,
            styles@.len() == n == before.len(),
            forall|t: int|
                0 <= t < n ==> (#[trigger] styles@[t]).group_slot == before[t].group_slot
                    && styles@[t].in_match == (before[t].in_match || (s <= t < i)),
        decreases e - i,
    {
        if i < n {
            let g = styles[i].group_slot;
            styles.set(i, HighlightStyle { in_match: true, group_slot: g });
        }
        i += 1;
    }
}

/// Give `s..e` (within the first `n` bytes) the colour slot `slot`.
fn paint_group(styles: &mut Vec<HighlightStyle>, s: usize, e: usize, slot: usize)
    ensures
        final(styles)@.len() == old(styles)@.len(),
        forall|t: int|
            0 <= t < old(styles)@.len() ==> (#[trigger] final(styles)@[t]).in_match == old(
                styles,
            )@[t].in_match && final(styles)@[t].group_slot == (if s <= t < e {
                Some(slot)
            } else {
                old(styles)@[t].group_slot
            }),
{
    let n = styles.len();
    let ghost before = styles@;
    let mut k = s;
    while k < e
        invariant
            s <= k,
            k <= e || k == s,
            styles@.len() == n == before.len(),
            forall|t: int|
                0 <= t < n ==> (#[trigger] styles@[t]).in_match == before[t].in_match
                    && styles@[t].group_slot == (if s <= t < k {
                        Some(slot)
                    } else {
                        before[t].group_slot
                    }),
        decreases e - k,
    {
        if k < n {
            let m = styles[k].in_match;
            styles.set(k, HighlightStyle { in_match: m, group_slot: Some(slot) });
        }
        k += 1;
    }
}

/// Paint one match over the styles.
fn paint_one(styles: &mut Vec<HighlightStyle>, cap: &Vec<Option<(usize, usize)>>)
    ensures
        final(styles)@.len() == old(styles)@.len(),
        forall|t: int|
            0 <= t < old(styles)@.len() ==> #[trigger] final(styles)@[t] == paint_capture(
                old(styles)@[t],
                cap@,
                t,
            ),
{
    let ghost before = styles@;
    let n = styles.len();
    if cap.len() > 0 {
        if let Some((s, e)) = cap[0] {
            paint_background(styles, s, e);
        }
    }
    let ghost mid = styles@;
    assert forall|t: int| 0 <= t < n implies (#[trigger] mid[t]).in_match == (before[t].in_match || (
    cap@.len() > 0 && covers(cap@[0], t))) && mid[t].group_slot == before[t].group_slot by {}
    let mut gi: usize = 1;
    while gi < cap.len()
        invariant
            1 <= gi,
            gi <= cap@.len() || gi == 1,
            styles@.len() == n == mid.len(),
            forall|t: int|
                0 <= t < n ==> (#[trigger] styles@[t]).in_match == mid[t].in_match
                    && styles@[t].group_slot == match last_group_covering(cap@, t, gi as int) {
                        Some(g) => Some(((g - 1) % palette_len()) as usize),
                        None => mid[t].group_slot,
                    },
        decreases cap@.len() - gi,
    {
        if let Some((s, e)) = cap[gi] {
            paint_group(styles, s, e, (gi - 1) % 5);
        }
        gi += 1;
    }
    assert(gi == cap@.len() || (cap@.len() == 0 && gi == 1));
    assert forall|t: int| 0 <= t < n implies #[trigger] styles@[t] == paint_capture(
        before[t],
        cap@,
        t,
    ) by {
        if cap@.len() == 0 {
            assert(last_group_covering(cap@, t, 0) is None);
            assert(last_group_covering(cap@, t, 1) is None);
        }
    }
}

/// The styles of `n` bytes once all matches are painted, in order.
fn paint_styles(caps: &Vec<Vec<Option<(usize, usize)>>>, n: usize) -> (r: Vec<HighlightStyle>)
    ensures
        r@ == painted(spans_view(*caps), n as int),
{
    let mut styles: Vec<HighlightStyle> = Vec::new();
    let mut k: usize = 0;
    while k < n
        invariant
            k <= n,
            styles@.len() == k,
            forall|t: int| 0 <= t < k ==> #[trigger] styles@[t] == plain_style(),
        decreases n - k,
    {
        styles.push(HighlightStyle { in_match: false, group_slot: None });
        k += 1;
    }
    let mut c: usize = 0;
    while c < caps.len()
        invariant
            c <= caps@.len(),
            styles@.len() == n,
            forall|t: int|
                0 <= t < n ==> #[trigger] styles@[t] == style_at(spans_view(*caps).take(c as int), t),
        decreases caps@.len() - c,
    {
        paint_one(&mut styles, &caps[c]);
        proof {
            let caps_v = spans_view(*caps);
            assert(caps_v.take(c + 1).drop_last() =~= caps_v.take(c as int));
            assert(caps_v.take(c + 1).last() == caps@[c as int]@);
        }
        c += 1;
    }
    assert(spans_view(*caps).take(caps@.len() as int) =~= spans_view(*caps));
    assert(styles@ =~= painted(spans_view(*caps), n as int));
    styles
}

/// Cut the positions of `styles` into maximal runs of equal style.
fn consolidate(styles: &Vec<HighlightStyle>) -> (r: Vec<HighlightSegment>)
    ensures
        segments_cover(r@, styles@),
{
    let n = styles.len();
    let mut segs: Vec<HighlightSegment> = Vec::new();
    let mut start: usize = 0;
    while start < n
        invariant
            start <= n == styles@.len(),
            (start == 0 <==> segs@.len() == 0),
            segs@.len() > 0 ==> segs@[0].start == 0 && segs@.last().end == start,
            forall|i: int| 0 <= i < segs@.len() ==> (#[trigger] segs@[i]).start < segs@[i].end,
            forall|i: int| 0 <= i < segs@.len() - 1 ==> (#[trigger] segs@[i]).end == segs@[i + 1].start,
            forall|i: int| 0 <= i < segs@.len() - 1 ==> (#[trigger] segs@[i]).style != segs@[i + 1].style,
            forall|i: int, k: int|
                #![trigger segs@[i], styles@[k]]
                0 <= i < segs@.len() && segs@[i].start <= k < segs@[i].end ==> styles@[k]
                    == segs@[i].style,
            segs@.len() > 0 && start < n ==> styles@[start as int] != segs@.last().style,
        decreases n - start,
    {
        let mut end = start + 1;
        while end < n && styles[end] == styles[start]
            invariant
                start < end <= n == styles@.len(),
                forall|k: int| start <= k < end ==> styles@[k] == styles@[start as int],
            decreases n - end,
        {
            end += 1;
        }
        segs.push(HighlightSegment { start, end, style: styles[start] });
        start = end;
    }
    segs
}

/// The span starts or ends at byte `b`.
pub open spec fn ends_at(span: Option<(usize, usize)>, b: int) -> bool {
    match span {
        Some((s, e)) => s == b || e == b,
        None => false,
    }
}

/// Byte `b` is where some reported span starts or ends.
pub open spec fn span_end_at(caps: Seq<CaptureSpans>, b: int) -> bool {
    exists|i: int, g: int|
        0 <= i < caps.len() && 0 <= g < caps[i].len() && #[trigger] ends_at(caps[i][g], b)
}

proof fn lemma_group_same(cap: CaptureSpans, b: int, upto: int)
    requires
        upto <= cap.len(),
        forall|g: int| 0 <= g < cap.len() ==> !(#[trigger] ends_at(cap[g], b)),
    ensures
        last_group_covering(cap, b - 1, upto) == last_group_covering(cap, b, upto),
    decreases upto,
{
    if upto > 1 {
        assert(!ends_at(cap[upto - 1], b));
        lemma_group_same(cap, b, upto - 1);
    }
}

/// Away from every span's ends, neighbouring bytes are drawn alike.
proof fn lemma_style_same(caps: Seq<CaptureSpans>, b: int)
    requires
        !span_end_at(caps, b),
    ensures
        style_at(caps, b - 1) == style_at(caps, b),
    decreases caps.len(),
{
    if caps.len() > 0 {
        let init = caps.drop_last();
        assert(!span_end_at(init, b)) by {
            if span_end_at(init, b) {
                let (i, g) = choose|i: int, g: int|
                    0 <= i < init.len() && 0 <= g < init[i].len() && #[trigger] ends_at(init[i][g], b);
                assert(init[i] == caps[i]);
                assert(ends_at(caps[i][g], b));
            }
        }
        lemma_style_same(init, b);
        let cap = caps.last();
        assert forall|g: int| 0 <= g < cap.len() implies !(#[trigger] ends_at(cap[g], b)) by {
            if ends_at(cap[g], b) {
                assert(caps[caps.len() - 1][g] == cap[g]);
            }
        }
        lemma_group_same(cap, b, cap.len() as int);
        if cap.len() > 0 {
            assert(!ends_at(cap[0], b));
        }
    }
}

/// Where two segments of a highlight over reported captures meet, the
/// styles differ, so some span ends there: a character boundary.
proof fn lemma_inner_boundary(segs: Seq<HighlightSegment>, caps: Seq<CaptureSpans>, text: Seq<char>, i: int)
    requires
        captures_fit(caps, text),
        segments_cover(segs, painted(caps, encode_utf8(text).len() as int)),
        0 <= i < segs.len() - 1,
    ensures
        is_char_boundary(encode_utf8(text), segs[i].end as int),
{
    let n = encode_utf8(text).len() as int;
    let styles = painted(caps, n);
    let b = segs[i].end as int;
    assert(segs[i].end == segs[i + 1].start);
    assert(segs[i].start <= b - 1 < segs[i].end);
    assert(segs[i + 1].start <= b < segs[i + 1].end);
    assert(segs[i + 1].end <= n) by {
        if i + 1 < segs.len() - 1 {
            assert(segs[i + 1].end == segs[i + 2].start);
            assert(segs[i + 2].start < segs[i + 2].end);
        }
        lemma_segments_end_below(segs, styles, i + 1);
    }
    assert(styles[b - 1] == segs[i].style);
    assert(styles[b] == segs[i + 1].style);
    assert(segs[i].style != segs[i + 1].style);
    if !span_end_at(caps, b) {
        lemma_style_same(caps, b);
        assert(false);
    }
    let (k, g) = choose|k: int, g: int| 0 <= k < caps.len() && 0 <= g < caps[k].len() && #[trigger] ends_at(caps[k][g], b);
    assert(span_in_text(caps[k][g], text));
}

/// Every segment ends within the covered positions.
proof fn lemma_segments_end_below(segs: Seq<HighlightSegment>, styles: Seq<HighlightStyle>, i: int)
    requires
        segments_cover(segs, styles),
        0 <= i < segs.len(),
    ensures
        segs[i].end <= styles.len(),
    decreases segs.len() - i,
{
    if i < segs.len() - 1 {
        lemma_segments_end_below(segs, styles, i + 1);
        assert(segs[i].end == segs[i + 1].start);
        assert(segs[i + 1].start < segs[i + 1].end);
    } else {
        assert(segs[i] == segs.last());
    }
}

/// Every segment of a highlight over reported captures begins and ends on a
/// character boundary of the text.
proof fn lemma_segments_on_boundaries(segs: Seq<HighlightSegment>, caps: Seq<CaptureSpans>, text: Seq<char>)
    requires
        captures_fit(caps, text),
        segments_cover(segs, painted(caps, encode_utf8(text).len() as int)),
    ensures
        forall|i: int|
            0 <= i < segs.len() ==> is_char_boundary(encode_utf8(text), (#[trigger] segs[i]).start as int)
                && is_char_boundary(encode_utf8(text), segs[i].end as int),
{
    broadcast use group_utf8_lib;

    let bytes = encode_utf8(text);
    is_char_boundary_start_end_of_seq(bytes);
    assert forall|i: int| 0 <= i < segs.len() implies is_char_boundary(bytes, (#[trigger] segs[i]).start as int)
        && is_char_boundary(bytes, segs[i].end as int) by {
        if i > 0 {
            lemma_inner_boundary(segs, caps, text, i - 1);
            assert(segs[i - 1].end == segs[i].start);
        }
        if i < segs.len() - 1 {
            lemma_inner_boundary(segs, caps, text, i);
        } else {
            assert(segs[i] == segs.last());
        }
    }
}

/// How the test text is drawn: without a regex, the whole text in the plain
/// style; with one, the maximal runs of equal style once every match has
/// been painted.
pub fn highlight(text: &str, regex: Option<&CompiledPattern>) -> (r: Vec<HighlightSegment>)
    ensures
        match regex {
            None => r@ == seq![HighlightSegment { start: 0, end: text.len(), style: plain_style() }],
            Some(p) => segments_cover(r@, painted(regex_captures(p@, text@), text.len() as int)),
        },
        forall|i: int|
            0 <= i < r@.len() ==> is_char_boundary(encode_utf8(text@), (#[trigger] r@[i]).start as int)
                && is_char_boundary(encode_utf8(text@), r@[i].end as int),
{
    proof {
        broadcast use group_utf8_lib;

        is_char_boundary_start_end_of_seq(encode_utf8(text@));
    }
    match regex {
        None => {
            let bytes = text.as_bytes();
            assert(bytes@.len() == bytes.len());
            let mut r: Vec<HighlightSegment> = Vec::new();
            r.push(
                HighlightSegment {
                    start: 0,
                    end: text.len(),
                    style: HighlightStyle { in_match: false, group_slot: None },
                },
            );
            r
        },
        Some(p) => highlight_matches(text, p),
    }
}

/// How the test text is drawn with a compiled pattern.
fn highlight_matches(text: &str, p: &CompiledPattern) -> (r: Vec<HighlightSegment>)
    ensures
        segments_cover(r@, painted(regex_captures(p@, text@), text.len() as int)),
        forall|i: int|
            0 <= i < r@.len() ==> is_char_boundary(encode_utf8(text@), (#[trigger] r@[i]).start as int)
                && is_char_boundary(encode_utf8(text@), r@[i].end as int),
{
    let caps = capture_spans(p, text);
    let n = text.len();
    let bytes = text.as_bytes();
    assert(bytes@.len() == bytes.len());
    let styles = paint_styles(&caps, n);
    let segs = consolidate(&styles);
    proof {
        lemma_segments_on_boundaries(segs@, spans_view(caps), text@);
    }
    segs
}

/// The palette of group colours (red, green, blue).
pub open spec fn group_palette() -> Seq<(u8, u8, u8)> {
    seq![(100u8, 200u8, 255u8), (100u8, 255u8, 100u8), (255u8, 200u8, 100u8), (255u8, 100u8, 200u8), (200u8, 100u8, 255u8)]
}

/// The colour of capture group `index` (numbered from 1): the palette
/// colours in turn.
pub fn group_color(index: usize) -> (r: (u8, u8, u8))
    requires
        index >= 1,
    ensures
        r == group_palette()[(index - 1) % palette_len()],
{
    let slot = (index - 1) % 5;
    if slot == 0 {
        (100, 200, 255)
    } else if slot == 1 {
        (100, 255, 100)
    } else if slot == 2 {
        (255, 200, 100)
    } else if slot == 3 {
        (255, 100, 200)
    } else {
        (200, 100, 255)
    }
}

/// The whole-match span of a match contains the position, its ends included.
pub open spec fn match_contains(cap: CaptureSpans, idx: int) -> bool {
    cap.len() > 0 && match cap[0] {
        Some((s, e)) => s <= idx <= e,
        None => false,
    }
}

/// `m` is the first match that contains the position.
pub open spec fn is_first_match_at(caps: Seq<CaptureSpans>, idx: int, m: int) -> bool {
    &&& 0 <= m < caps.len()
    &&& match_contains(caps[m], idx)
    &&& forall|j: int| 0 <= j < m ==> !match_contains(#[trigger] caps[j], idx)
}

/// The position of the first match that contains `idx` (ends included).
pub fn match_at(caps: &Vec<Vec<Option<(usize, usize)>>>, idx: usize) -> (r: Option<usize>)
    ensures
        match r {
            Some(m) => is_first_match_at(spans_view(*caps), idx as int, m as int),
            None => forall|m: int| !is_first_match_at(spans_view(*caps), idx as int, m),
        },
{
    let mut j: usize = 0;
    while j < caps.len()
        invariant
            j <= caps@.len(),
            forall|t: int|
                0 <= t < j ==> !match_contains(#[trigger] spans_view(*caps)[t], idx as int),
        decreases caps@.len() - j,
    {
        let cap = &caps[j];
        assert(spans_view(*caps)[j as int] == cap@);
        if cap.len() > 0 {
            if let Some((s, e)) = cap[0] {
                if s <= idx && idx <= e {
                    return Some(j);
                }
            }
        }
        j += 1;
    }
    None
}

// ---------------------------------------------------------------------------
// The tester
// ---------------------------------------------------------------------------

/// The regex tester: pattern, test text, the compiled pattern and the error.
pub struct RegexTester {
    pattern: String,
    test_text: String,
    compiled: Option<CompiledPattern>,
    error: Option<String>,
}

impl RegexTester {
    pub closed spec fn pattern_spec(&self) -> Seq<char> {
        self.pattern@
    }

    pub closed spec fn test_text_spec(&self) -> Seq<char> {
        self.test_text@
    }

    /// The pattern the tester currently matches with, if one compiled.
    pub closed spec fn compiled_spec(&self) -> Option<Seq<char>> {
        match self.compiled {
            Some(c) => Some(c@),
            None => None,
        }
    }

    pub closed spec fn error_spec(&self) -> Option<Seq<char>> {
        match self.error {
            Some(e) => Some(e@),
            None => None,
        }
    }

    /// The state a fresh tool starts in.
    pub open spec fn is_fresh(&self) -> bool {
        &&& (self.pattern_spec() == Seq::<char>::empty())
        &&& (self.test_text_spec() == Seq::<char>::empty())
        &&& (self.compiled_spec() is None)
        &&& (self.error_spec() is None)
    }

    pub fn new() -> (r: Self)
        ensures
            r.is_fresh(),
            r.pattern_spec() == Seq::<char>::empty(),
            r.test_text_spec() == Seq::<char>::empty(),
            r.compiled_spec() is None,
            r.error_spec() is None,
    {
        RegexTester { pattern: String::new(), test_text: String::new(), compiled: None, error: None }
    }

    /// Compile the pattern (after every edit of it). An empty pattern clears
    /// both the regex and the error; otherwise the regex is the compiled
    /// pattern and the error is cleared, or the regex is dropped and the error
    /// reads "Error: " and the compiler's message.
    pub fn compile(&mut self)
        ensures
            final(self).pattern_spec() == old(self).pattern_spec(),
            final(self).test_text_spec() == old(self).test_text_spec(),
            old(self).pattern_spec().len() == 0 ==> final(self).compiled_spec() is None
                && final(self).error_spec() is None,
            old(self).pattern_spec().len() > 0 ==> match regex_compile_error(old(self).pattern_spec()) {
                None => final(self).compiled_spec() == Some(old(self).pattern_spec())
                    && final(self).error_spec() is None,
                Some(e) => final(self).compiled_spec() is None && final(self).error_spec() == Some(
                    "Error: "@ + e,
                ),
            },
    {
        if self.pattern.as_str().is_empty() {
            self.compiled = None;
            self.error = None;
            return;
        }
        match compile_pattern(self.pattern.as_str()) {
            Ok(p) => {
                self.compiled = Some(p);
                self.error = None;
            },
            Err(e) => {
                self.compiled = None;
                self.error = Some(String::from_str("Error: ").concat(e.as_str()));
            },
        }
    }

    /// The capture spans of all matches in the test text, when a pattern is
    /// compiled.
    pub fn captures(&self) -> (r: Option<Vec<Vec<Option<(usize, usize)>>>>)
        ensures
            match self.compiled_spec() {
                None => r is None,
                Some(p) => r matches Some(c) && spans_view(c) == regex_captures(p, self.test_text_spec()),
            },
    {
        match &self.compiled {
            None => None,
            Some(p) => Some(capture_spans(p, self.test_text.as_str())),
        }
    }

    /// How the given text is drawn with the current regex.
    pub fn highlight_text(&self, text: &str) -> (r: Vec<HighlightSegment>)
        ensures
            match self.compiled_spec() {
                None => r@ == seq![HighlightSegment { start: 0, end: text.len(), style: plain_style() }],
                Some(p) => segments_cover(r@, painted(regex_captures(p, text@), text.len() as int)),
            },
            forall|i: int|
                0 <= i < r@.len() ==> is_char_boundary(encode_utf8(text@), (#[trigger] r@[i]).start as int)
                    && is_char_boundary(encode_utf8(text@), r@[i].end as int),
    {
        match &self.compiled {
            None => highlight(text, None),
            Some(p) => highlight(text, Some(p)),
        }
    }

    pub fn set_pattern(&mut self, pattern: &str)
        ensures
            final(self).pattern_spec() == pattern@,
            final(self).test_text_spec() == old(self).test_text_spec(),
            final(self).compiled_spec() == old(self).compiled_spec(),
            final(self).error_spec() == old(self).error_spec(),
    {
        self.pattern = String::from_str(pattern);
    }

    pub fn set_test_text(&mut self, text: &str)
        ensures
            final(self).test_text_spec() == text@,
            final(self).pattern_spec() == old(self).pattern_spec(),
            final(self).compiled_spec() == old(self).compiled_spec(),
            final(self).error_spec() == old(self).error_spec(),
    {
        self.test_text = String::from_str(text);
    }

    pub fn pattern(&self) -> (r: &str)
        ensures
            r@ == self.pattern_spec(),
    {
        self.pattern.as_str()
    }

    pub fn test_text(&self) -> (r: &str)
        ensures
            r@ == self.test_text_spec(),
    {
        self.test_text.as_str()
    }

    pub fn is_compiled(&self) -> (r: bool)
        ensures
            r == self.compiled_spec() is Some,
    {
        self.compiled.is_some()
    }

    pub fn error(&self) -> (r: Option<&str>)
        ensures
            match r {
                Some(e) => self.error_spec() == Some(e@),
                None => self.error_spec() is None,
            },
    {
        match &self.error {
            Some(e) => Some(e.as_str()),
            None => None,
        }
    }
}

} // verus!
