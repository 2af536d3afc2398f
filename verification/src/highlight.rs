use vstd::prelude::*;

use tree_sitter::Language;
use tree_sitter_highlight::HighlightEvent as RawEvent;
use tree_sitter_highlight::{HighlightConfiguration, Highlighter};

use crate::errors::EditorError;

verus! {

// ---------------------------------------------------------------------------
// Declarations of the tokenizer's types. The engine carries these values
// through opaquely; everything it reads out of a highlight run is checked by
// `normalize_events` below.
// ---------------------------------------------------------------------------
#[verifier::external_type_specification]
#[verifier::external_body]
pub struct ExLanguage(Language);

#[verifier::external_type_specification]
#[verifier::external_body]
pub struct ExHighlighter(Highlighter);

#[verifier::external_type_specification]
#[verifier::external_body]
pub struct ExHighlightConfiguration(HighlightConfiguration);

// ---------------------------------------------------------------------------
// The engine's own event model.
// ---------------------------------------------------------------------------
/// One step of a highlight stream, consumed in order by a renderer. In a
/// well-formed stream the `Source` ranges partition the text, and start/end
/// markers nest without crossing.
#[derive(Clone, Copy, Debug, PartialEq, Eq, Structural)]
pub enum HighlightEvent {
    /// A run of text, as a scalar-value range `[start, end)`.
    Source { start: usize, end: usize },
    /// Begin coloring with the token kind at this index until the matching
    /// end marker.
    HighlightStart { kind: usize },
    /// End the innermost open highlight.
    HighlightEnd,
}

/// The position reached after a stream: the end of its last source range.
pub open spec fn events_pos(s: Seq<HighlightEvent>) -> int
    decreases s.len(),
{
    if s.len() == 0 {
        0
    } else {
        match s.last() {
            HighlightEvent::Source { start, end } => end as int,
            _ => events_pos(s.drop_last()),
        }
    }
}

/// The number of highlights left open after a stream.
pub open spec fn events_depth(s: Seq<HighlightEvent>) -> int
    decreases s.len(),
{
    if s.len() == 0 {
        0
    } else {
        events_depth(s.drop_last()) + match s.last() {
            HighlightEvent::HighlightStart { kind } => 1int,
            HighlightEvent::HighlightEnd => -1int,
            _ => 0int,
        }
    }
}

/// Each event is locally valid: every source range continues exactly where
/// the previous one ended, every token kind is below `kinds`, and no end
/// marker closes a highlight that was never opened.
pub open spec fn events_ok(s: Seq<HighlightEvent>, kinds: int) -> bool
    decreases s.len(),
{
    if s.len() == 0 {
        true
    } else {
        events_ok(s.drop_last(), kinds) && match s.last() {
            HighlightEvent::Source { start, end } => start == events_pos(s.drop_last()) && start
                <= end,
            HighlightEvent::HighlightStart { kind } => 0 <= kind < kinds,
            HighlightEvent::HighlightEnd => events_depth(s.drop_last()) > 0,
        }
    }
}

/// A well-formed highlight stream for text of length `len`: source ranges
/// partition `[0, len)` contiguously from offset 0, and all highlights that
/// open also close.
pub open spec fn events_wf(s: Seq<HighlightEvent>, len: int, kinds: int) -> bool {
    events_ok(s, kinds) && events_pos(s) == len && events_depth(s) == 0
}

/// The summed length of all source ranges in a stream.
pub open spec fn source_span_total(s: Seq<HighlightEvent>) -> int
    decreases s.len(),
{
    if s.len() == 0 {
        0
    } else {
        source_span_total(s.drop_last()) + match s.last() {
            HighlightEvent::Source { start, end } => end - start,
            _ => 0int,
        }
    }
}

// ---------------------------------------------------------------------------
// Laws of well-formed streams.
// ---------------------------------------------------------------------------
/// Every prefix of a locally valid stream is locally valid.
pub proof fn lemma_events_ok_prefix(s: Seq<HighlightEvent>, kinds: int, i: int)
    requires
        events_ok(s, kinds),
        0 <= i <= s.len(),
    ensures
        events_ok(s.take(i), kinds),
    decreases s.len() - i,
{
    if i == s.len() {
        assert(s.take(i) =~= s);
    } else {
        lemma_events_ok_prefix(s, kinds, i + 1);
        assert(s.take(i + 1).drop_last() =~= s.take(i));
    }
}

proof fn lemma_source_total_is_pos(s: Seq<HighlightEvent>, kinds: int)
    requires
        events_ok(s, kinds),
    ensures
        source_span_total(s) == events_pos(s),
    decreases s.len(),
{
    if s.len() > 0 {
        lemma_source_total_is_pos(s.drop_last(), kinds);
    }
}

/// At no point does a locally valid stream close more highlights than it has
/// opened.
pub proof fn lemma_events_depth_nonneg(s: Seq<HighlightEvent>, kinds: int, i: int)
    requires
        events_ok(s, kinds),
        0 <= i <= s.len(),
    ensures
        events_depth(s.take(i)) >= 0,
    decreases i,
{
    if i > 0 {
        lemma_events_depth_nonneg(s, kinds, i - 1);
        lemma_events_ok_prefix(s, kinds, i);
        assert(s.take(i).drop_last() =~= s.take(i - 1));
    }
}

/// The partition law of highlight streams: in any well-formed stream the
/// source ranges' lengths sum to exactly the text length, and the start/end
/// markers nest without crossing — no prefix closes a highlight that is not
/// open, and the full stream closes every highlight it opens.
pub proof fn lemma_highlight_partition(s: Seq<HighlightEvent>, len: int, kinds: int)
    requires
        events_wf(s, len, kinds),
    ensures
        source_span_total(s) == len,
        events_depth(s) == 0,
        forall|i: int| 0 <= i <= s.len() ==> events_depth(s.take(i)) >= 0,
{
    lemma_source_total_is_pos(s, kinds);
    assert forall|i: int| 0 <= i <= s.len() implies events_depth(s.take(i)) >= 0 by {
        lemma_events_depth_nonneg(s, kinds, i);
    }
}

// ---------------------------------------------------------------------------
// Normalization of raw tokenizer output.
// ---------------------------------------------------------------------------
/// The number of bytes in the UTF-8 encoding of one scalar value.
pub open spec fn char_len(c: char) -> int {
    vstd::utf8::encode_scalar(c as u32).len() as int
}

/// The UTF-8 width of a scalar value, from its code point range.
fn char_utf8_len(c: char) -> (r: usize)
    ensures
        r as int == char_len(c),
        1 <= r <= 4,
{
    proof {
        vstd::utf8::char_is_scalar(c);
    }
    let u = c as u32;
    if u <= 0x7F {
        1
    } else if u <= 0x7FF {
        2
    } else if u <= 0xFFFF {
        3
    } else {
        4
    }
}

/// The byte length of the UTF-8 encoding of the first `k` scalar values of
/// `t`.
pub open spec fn utf8_prefix_len(t: Seq<char>, k: int) -> int {
    vstd::utf8::encode_utf8(t.take(k)).len() as int
}

proof fn lemma_encode_utf8_snoc(s: Seq<char>, c: char)
    ensures
        vstd::utf8::encode_utf8(s.push(c)) == vstd::utf8::encode_utf8(s)
            + vstd::utf8::encode_scalar(c as u32),
    decreases s.len(),
{
    if s.len() == 0 {
        assert(s.push(c).drop_first() =~= Seq::<char>::empty());
        assert(s =~= Seq::<char>::empty());
        assert(vstd::utf8::encode_scalar(c as u32) + vstd::utf8::encode_utf8(Seq::empty())
            =~= vstd::utf8::encode_utf8(Seq::empty()) + vstd::utf8::encode_scalar(c as u32));
    } else {
        lemma_encode_utf8_snoc(s.drop_first(), c);
        assert(s.push(c).drop_first() =~= s.drop_first().push(c));
        assert(s.push(c)[0] == s[0]);
        assert(vstd::utf8::encode_scalar(s[0] as u32) + (vstd::utf8::encode_utf8(s.drop_first())
            + vstd::utf8::encode_scalar(c as u32)) =~= (vstd::utf8::encode_scalar(s[0] as u32)
            + vstd::utf8::encode_utf8(s.drop_first())) + vstd::utf8::encode_scalar(c as u32));
    }
}

proof fn lemma_utf8_prefix_step(t: Seq<char>, k: int)
    requires
        0 <= k < t.len(),
    ensures
        utf8_prefix_len(t, k + 1) == utf8_prefix_len(t, k) + char_len(t[k]),
{
    assert(t.take(k + 1) =~= t.take(k).push(t[k]));
    lemma_encode_utf8_snoc(t.take(k), t[k]);
}

/// Whether `b` is a boundary of the UTF-8 encoding of `t`: the byte length
/// of some prefix of `t`.
pub open spec fn is_utf8_boundary(t: Seq<char>, b: int) -> bool {
    exists|k: int| 0 <= k <= t.len() && utf8_prefix_len(t, k) == b
}

/// Each raw event is locally valid against the UTF-8 encoding of `t`: every
/// source range continues at the byte position where the previous one ended
/// and ends on an encoding boundary, every token kind is below `kinds`, and
/// no end marker closes a highlight that was never opened.
pub open spec fn raw_events_ok(s: Seq<HighlightEvent>, t: Seq<char>, kinds: int) -> bool
    decreases s.len(),
{
    if s.len() == 0 {
        true
    } else {
        raw_events_ok(s.drop_last(), t, kinds) && match s.last() {
            HighlightEvent::Source { start, end } => start == events_pos(s.drop_last()) && start
                <= end && is_utf8_boundary(t, end as int),
            HighlightEvent::HighlightStart { kind } => 0 <= kind < kinds,
            HighlightEvent::HighlightEnd => events_depth(s.drop_last()) > 0,
        }
    }
}

/// A raw tokenizer stream can be reinterpreted over `t`: its byte-ranged
/// source events partition the whole UTF-8 encoding of `t` on encoding
/// boundaries, its markers balance, and its kinds are in range.
pub open spec fn raw_reinterprets(s: Seq<HighlightEvent>, t: Seq<char>, kinds: int) -> bool {
    &&& raw_events_ok(s, t, kinds)
    &&& events_pos(s) == utf8_prefix_len(t, t.len() as int)
    &&& events_depth(s) == 0
}

/// The encoding of a longer prefix is strictly longer.
proof fn lemma_utf8_prefix_mono(t: Seq<char>, k1: int, k2: int)
    requires
        0 <= k1 <= k2 <= t.len(),
    ensures
        utf8_prefix_len(t, k1) <= utf8_prefix_len(t, k2),
        k1 < k2 ==> utf8_prefix_len(t, k1) < utf8_prefix_len(t, k2),
    decreases k2 - k1,
{
    if k1 < k2 {
        lemma_utf8_prefix_mono(t, k1, k2 - 1);
        lemma_utf8_prefix_step(t, k2 - 1);
    }
}

proof fn lemma_raw_ok_prefix(s: Seq<HighlightEvent>, t: Seq<char>, kinds: int, i: int)
    requires
        raw_events_ok(s, t, kinds),
        0 <= i <= s.len(),
    ensures
        raw_events_ok(s.take(i), t, kinds),
    decreases s.len() - i,
{
    if i == s.len() {
        assert(s.take(i) =~= s);
    } else {
        lemma_raw_ok_prefix(s, t, kinds, i + 1);
        assert(s.take(i + 1).drop_last() =~= s.take(i));
    }
}

/// A stream whose event at position `i` is locally invalid is not locally
/// valid as a whole.
proof fn lemma_raw_fails_at(s: Seq<HighlightEvent>, t: Seq<char>, kinds: int, i: int)
    requires
        0 <= i < s.len(),
        !(match s[i] {
            HighlightEvent::Source { start, end } => start == events_pos(s.take(i)) && start <= end
                && is_utf8_boundary(t, end as int),
            HighlightEvent::HighlightStart { kind } => 0 <= kind < kinds,
            HighlightEvent::HighlightEnd => events_depth(s.take(i)) > 0,
        }),
    ensures
        !raw_events_ok(s, t, kinds),
{
    assert(s.take(i + 1).drop_last() =~= s.take(i));
    assert(s.take(i + 1).last() == s[i]);
    if raw_events_ok(s, t, kinds) {
        lemma_raw_ok_prefix(s, t, kinds, i + 1);
    }
}

/// A byte position strictly inside one scalar's encoding is no boundary.
proof fn lemma_not_boundary_between(t: Seq<char>, k: int, b: int)
    requires
        0 <= k < t.len(),
        utf8_prefix_len(t, k) < b < utf8_prefix_len(t, k + 1),
    ensures
        !is_utf8_boundary(t, b),
{
    assert forall|j: int| 0 <= j <= t.len() implies utf8_prefix_len(t, j) != b by {
        if j <= k {
            lemma_utf8_prefix_mono(t, j, k);
        } else {
            lemma_utf8_prefix_mono(t, k + 1, j);
        }
    }
}

/// A byte position past the whole encoding is no boundary.
proof fn lemma_not_boundary_past_end(t: Seq<char>, b: int)
    requires
        b > utf8_prefix_len(t, t.len() as int),
    ensures
        !is_utf8_boundary(t, b),
{
    assert forall|j: int| 0 <= j <= t.len() implies utf8_prefix_len(t, j) != b by {
        lemma_utf8_prefix_mono(t, j, t.len() as int);
    }
}

/// One raw event (with byte ranges) and its normalized form (with
/// scalar-value ranges) describe the same step of the stream.
pub open spec fn event_corresponds(raw: HighlightEvent, cooked: HighlightEvent, t: Seq<char>) -> bool {
    match (raw, cooked) {
        (
            HighlightEvent::Source { start: bs, end: be },
            HighlightEvent::Source { start: cs, end: ce },
        ) => cs <= ce && bs == utf8_prefix_len(t, cs as int) && be == utf8_prefix_len(
            t,
            ce as int,
        ),
        (
            HighlightEvent::HighlightStart { kind: k1 },
            HighlightEvent::HighlightStart { kind: k2 },
        ) => k1 == k2,
        (HighlightEvent::HighlightEnd, HighlightEvent::HighlightEnd) => true,
        _ => false,
    }
}

/// Reinterprets a raw highlight stream, whose ranges are byte offsets into
/// the UTF-8 encoding of `text`, as scalar-value ranges, checking on the way
/// that the stream is well formed: source ranges contiguous from the start
/// of the text to its end and aligned on encoding boundaries, markers
/// balanced, every token kind below `kinds`. It succeeds exactly on streams
/// that pass those checks, and the result then mirrors the raw stream event
/// for event.
pub fn normalize_events(raw: &Vec<HighlightEvent>, text: &Vec<char>, kinds: usize) -> (r: Option<
    Vec<HighlightEvent>,
>)
    ensures
        (r is Some) == raw_reinterprets(raw@, text@, kinds as int),
        r matches Some(v) ==> ({
            &&& events_wf(v@, text@.len() as int, kinds as int)
            &&& v@.len() == raw@.len()
            &&& forall|i: int|
                0 <= i < raw@.len() ==> event_corresponds(raw@[i], v@[i], text@)
        }),
{
    proof {
        assert(text@.take(0) =~= Seq::<char>::empty());
        assert(raw@.take(0) =~= Seq::<HighlightEvent>::empty());
    }
    let n = text.len();
    let mut out: Vec<HighlightEvent> = Vec::new();
    let mut cpos: usize = 0;
    let mut bpos: usize = 0;
    let mut depth: usize = 0;
    let mut idx: usize = 0;
    while idx < raw.len()
        invariant
            idx <= raw@.len(),
            cpos <= n,
            n == text@.len(),
            events_ok(out@, kinds as int),
            events_pos(out@) == cpos as int,
            events_depth(out@) == depth as int,
            depth <= out@.len(),
            out@.len() == idx,
            bpos as int == utf8_prefix_len(text@, cpos as int),
            forall|i: int| 0 <= i < idx ==> event_corresponds(raw@[i], out@[i], text@),
            raw_events_ok(raw@.take(idx as int), text@, kinds as int),
            events_pos(raw@.take(idx as int)) == bpos as int,
            events_depth(raw@.take(idx as int)) == depth as int,
        decreases raw@.len() - idx,
    {
        let event = raw[idx];
        proof {
            assert(raw@.take(idx + 1).drop_last() =~= raw@.take(idx as int));
            assert(raw@.take(idx + 1).last() == raw@[idx as int]);
        }
        match event {
            HighlightEvent::Source { start, end } => {
                if start != bpos || end < start {
                    proof {
                        lemma_raw_fails_at(raw@, text@, kinds as int, idx as int);
                    }
                    return None;
                }
                let cstart = cpos;
                while bpos < end
                    invariant
                        cstart <= cpos <= n,
                        n == text@.len(),
                        bpos <= end,
                        bpos as int == utf8_prefix_len(text@, cpos as int),
                        idx < raw@.len(),
                        raw@[idx as int] == (HighlightEvent::Source { start, end }),
                        start <= end,
                        raw_events_ok(raw@.take(idx as int), text@, kinds as int),
                        events_pos(raw@.take(idx as int)) == start as int,
                    decreases end - bpos,
                {
                    if cpos == n {
                        proof {
                            lemma_not_boundary_past_end(text@, end as int);
                            lemma_raw_fails_at(raw@, text@, kinds as int, idx as int);
                        }
                        return None;
                    }
                    let cl = char_utf8_len(text[cpos]);
                    proof {
                        lemma_utf8_prefix_step(text@, cpos as int);
                    }
                    if cl > end - bpos {
                        proof {
                            lemma_not_boundary_between(text@, cpos as int, end as int);
                            lemma_raw_fails_at(raw@, text@, kinds as int, idx as int);
                        }
                        return None;
                    }
                    bpos = bpos + cl;
                    cpos = cpos + 1;
                }
                let ev = HighlightEvent::Source { start: cstart, end: cpos };
                proof {
                    assert(out@.push(ev).drop_last() =~= out@);
                    assert(utf8_prefix_len(text@, cpos as int) == end as int);
                    assert(is_utf8_boundary(text@, end as int));
                }
                out.push(ev);
            },
            HighlightEvent::HighlightStart { kind } => {
                if kind >= kinds {
                    proof {
                        lemma_raw_fails_at(raw@, text@, kinds as int, idx as int);
                    }
                    return None;
                }
                let ev = HighlightEvent::HighlightStart { kind };
                proof {
                    assert(out@.push(ev).drop_last() =~= out@);
                }
                out.push(ev);
                let olen = out.len();
                assert(depth < olen);
                depth = depth + 1;
            },
            HighlightEvent::HighlightEnd => {
                if depth == 0 {
                    proof {
                        lemma_raw_fails_at(raw@, text@, kinds as int, idx as int);
                    }
                    return None;
                }
                let ev = HighlightEvent::HighlightEnd;
                proof {
                    assert(out@.push(ev).drop_last() =~= out@);
                }
                out.push(ev);
                depth = depth - 1;
            },
        }
        idx = idx + 1;
    }
    proof {
        assert(raw@.take(raw@.len() as int) =~= raw@);
    }
    if cpos != n || depth != 0 {
        proof {
            if cpos != n {
                lemma_utf8_prefix_mono(text@, cpos as int, n as int);
            }
        }
        return None;
    }
    Some(out)
}

/// The no-highlighting stream: a single source range covering the whole
/// text. Used whenever no grammar is bound or the tokenizer fails.
pub fn fallback_events(len: usize) -> (r: Vec<HighlightEvent>)
    ensures
        r@ == seq![HighlightEvent::Source { start: 0usize, end: len }],
        forall|kinds: int| events_wf(r@, len as int, kinds),
{
    let mut v: Vec<HighlightEvent> = Vec::new();
    v.push(HighlightEvent::Source { start: 0, end: len });
    proof {
        assert(v@ =~= seq![HighlightEvent::Source { start: 0usize, end: len }]);
        assert forall|kinds: int| events_wf(v@, len as int, kinds) by {
            assert(v@.drop_last() =~= Seq::<HighlightEvent>::empty());
            assert(v@.last() == HighlightEvent::Source { start: 0usize, end: len });
            assert(events_pos(v@.drop_last()) == 0);
            assert(events_depth(v@.drop_last()) == 0);
            assert(events_ok(v@.drop_last(), kinds));
            assert(events_pos(v@) == len as int);
            assert(events_depth(v@) == 0);
            assert(events_ok(v@, kinds));
        }
    }
    v
}

// ---------------------------------------------------------------------------
// The grammar binding and the trusted calls into the tokenizer.
// ---------------------------------------------------------------------------
/// Describes how to highlight one language: a tree-sitter grammar handle and
/// the three query sources that drive it.
pub struct Highlighting {
    pub language: Language,
    pub highlight_query: String,
    pub injection_query: String,
    pub locals_query: String,
}

/// What compiling the three query sources against a grammar yields: `None`
/// when they compile, and otherwise the error — `InvalidGrammar` when the
/// grammar handle itself is unusable, `InvalidQuery` for a broken query. The
/// compile is a function of the grammar and the query texts alone.
pub uninterp spec fn query_verdict(
    language: Language,
    highlight_query: Seq<char>,
    injection_query: Seq<char>,
    locals_query: Seq<char>,
) -> Option<EditorError>;

impl Highlighting {
    /// Compiles this grammar binding into a reusable highlight configuration
    /// that reports highlights as indices into `token_kinds`. Succeeds
    /// exactly when the queries compile against the grammar; fails with
    /// `InvalidQuery` when a query does not compile and with
    /// `InvalidGrammar` when the grammar handle itself is unusable.
    pub fn configure(&self, token_kinds: &Vec<String>) -> (r: Result<
        HighlightConfiguration,
        EditorError,
    >)
        ensures
            (r is Ok) == (query_verdict(
                self.language,
                self.highlight_query@,
                self.injection_query@,
                self.locals_query@,
            ) is None),
            r matches Err(e) ==> query_verdict(
                self.language,
                self.highlight_query@,
                self.injection_query@,
                self.locals_query@,
            ) == Some(e) && (e == EditorError::InvalidQuery || e == EditorError::InvalidGrammar),
    {
        match build_highlight_config(self) {
            Ok(mut config) => {
                configure_highlight_names(&mut config, token_kinds);
                Ok(config)
            },
            Err(e) => Err(e),
        }
    }
}

/// Relies on tree_sitter_highlight::HighlightConfiguration::new: compiles
/// the highlight, injection and locals queries against the grammar, with
/// success and error depending on the grammar and the query texts alone. A
/// query error of kind `Language` reports an unusable grammar handle; every
/// other kind reports a broken query.
#[verifier::external_body]
fn build_highlight_config(h: &Highlighting) -> (r: Result<HighlightConfiguration, EditorError>)
    ensures
        (r is Ok) == (query_verdict(
            h.language,
            h.highlight_query@,
            h.injection_query@,
            h.locals_query@,
        ) is None),
        r matches Err(e) ==> query_verdict(
            h.language,
            h.highlight_query@,
            h.injection_query@,
            h.locals_query@,
        ) == Some(e) && (e == EditorError::InvalidQuery || e == EditorError::InvalidGrammar),
{
    let (hq, iq, lq) = (&h.highlight_query, &h.injection_query, &h.locals_query);
    match HighlightConfiguration::new(h.language.clone(), "", hq, iq, lq) {
        Ok(config) => Ok(config),
        Err(e) if matches!(e.kind, tree_sitter::QueryErrorKind::Language) => Err(
            EditorError::InvalidGrammar,
        ),
        Err(_) => Err(EditorError::InvalidQuery),
    }
}

/// Relies on tree_sitter_highlight::HighlightConfiguration::configure: sets
/// the list of recognized token kind names; highlight results then carry
/// indices into that list.
#[verifier::external_body]
fn configure_highlight_names(config: &mut HighlightConfiguration, names: &Vec<String>) {
    config.configure(names.as_slice());
}

/// Relies on tree_sitter_highlight::Highlighter::new: a fresh tokenizer
/// whose internal parse state may be reused without changing the output for
/// identical input.
#[verifier::external_body]
pub(crate) fn new_highlighter() -> Highlighter {
    Highlighter::new()
}

/// What one run of the tokenizer yields for a configuration and a text: the
/// flattened event stream, with byte ranges into the text's UTF-8 encoding,
/// or `None` when the tokenizer fails.
pub uninterp spec fn tokenizer_output(config: HighlightConfiguration, text: Seq<char>) -> Option<
    Seq<HighlightEvent>,
>;

/// Relies on tree_sitter_highlight::Highlighter::highlight: tokenizes the
/// UTF-8 encoding of the text and flattens the event iterator; ranges in the
/// returned raw stream are byte offsets into that encoding. Any tokenizer
/// failure yields `None`. The output depends on the configuration and the
/// text alone: the highlighter's reusable parse state does not change the
/// result for identical input. What the events claim is checked afterwards
/// by `normalize_events`.
#[verifier::external_body]
pub(crate) fn run_highlighter(
    hl: &mut Highlighter,
    config: &HighlightConfiguration,
    text: &Vec<char>,
) -> (r: Option<Vec<HighlightEvent>>)
    ensures
        (match r {
            Some(v) => tokenizer_output(*config, text@) == Some(v@),
            None => tokenizer_output(*config, text@) is None,
        }),
{
    let source: String = text.iter().collect();
    let events = hl.highlight(config, source.as_bytes(), None, None, |_| None).ok()?;
    events.map(|event| match event {
        Ok(RawEvent::Source { start, end }) => Some(HighlightEvent::Source { start, end }),
        Ok(RawEvent::HighlightStart(h)) => Some(HighlightEvent::HighlightStart { kind: h.0 }),
        Ok(RawEvent::HighlightEnd) => Some(HighlightEvent::HighlightEnd),
        Err(_) => None,
    }).collect()
}

} // verus!
