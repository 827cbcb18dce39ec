//! Server-sent-event framing of upstream streams and the token usage that
//! responses and stream events report.
use vstd::prelude::*;
use crate::endpoint::EndpointType;

verus! {

/// `b[from..to]` as a new vector.
pub fn copy_range(b: &[u8], from: usize, to: usize) -> (r: Vec<u8>)
    requires
        from <= to <= b@.len(),
    ensures
        r@ == b@.subrange(from as int, to as int),
{
    let mut out: Vec<u8> = Vec::new();
    let mut i: usize = from;
    while i < to
        invariant
            from <= i <= to,
            to <= b@.len(),
            out@ == b@.subrange(from as int, i as int),
        decreases to - i,
    {
        out.push(b[i]);
        i = i + 1;
        assert(out@ =~= b@.subrange(from as int, i as int));
    }
    out
}

/// End of the event boundary (`\n\n` or `\r\n\r\n`) that starts at `i`, if one does.
pub open spec fn boundary_at(b: Seq<u8>, i: int) -> Option<int> {
    if 0 <= i && i + 1 < b.len() && b[i] == 10 && b[i + 1] == 10 {
        Some(i + 2)
    } else if 0 <= i && i + 3 < b.len() && b[i] == 13 && b[i + 1] == 10 && b[i + 2] == 13 && b[i + 3] == 10 {
        Some(i + 4)
    } else {
        None
    }
}

/// End of the first event boundary at or after `i`.
pub open spec fn boundary_search(b: Seq<u8>, i: int) -> Option<int>
    decreases b.len() - i,
{
    if i < 0 || i >= b.len() {
        None
    } else {
        match boundary_at(b, i) {
            Some(e) => Some(e),
            None => boundary_search(b, i + 1),
        }
    }
}

/// The end of the first complete event in a stream buffer.
pub open spec fn sse_boundary(b: Seq<u8>) -> Option<int> {
    boundary_search(b, 0)
}

proof fn lemma_boundary_search_bounds(b: Seq<u8>, i: int)
    requires
        0 <= i,
    ensures
        boundary_search(b, i) matches Some(e) ==> i + 2 <= e <= b.len(),
    decreases b.len() - i,
{
    if i < b.len() && boundary_at(b, i) is None {
        lemma_boundary_search_bounds(b, i + 1);
    }
}

fn boundary_from(buffer: &[u8], start: usize) -> (r: Option<usize>)
    ensures
        match r {
            Some(e) => boundary_search(buffer@, start as int) == Some(e as int),
            None => boundary_search(buffer@, start as int) is None,
        },
{
    let n = buffer.len();
    let mut i: usize = start;
    while i < n
        invariant
            n == buffer@.len(),
            start <= i,
            boundary_search(buffer@, start as int) == boundary_search(buffer@, i as int),
        decreases n - i,
    {
        if i + 1 < n && buffer[i] == 10 && buffer[i + 1] == 10 {
            return Some(i + 2);
        }
        if n - i > 3 && buffer[i] == 13 && buffer[i + 1] == 10 && buffer[i + 2] == 13 && buffer[i + 3] == 10 {
            return Some(i + 4);
        }
        i = i + 1;
    }
    None
}

/// End of the first complete event (`\n\n` or `\r\n\r\n` included) in `buffer`.
pub fn find_sse_boundary(buffer: &[u8]) -> (r: Option<usize>)
    ensures
        match r {
            Some(e) => sse_boundary(buffer@) == Some(e as int),
            None => sse_boundary(buffer@) is None,
        },
{
    boundary_from(buffer, 0)
}

/// The segments cut from `b` starting at `start`: each ends at the first
/// boundary after its start; what follows the last boundary is the rest.
pub open spec fn segments_from(b: Seq<u8>, start: int) -> (Seq<Seq<u8>>, Seq<u8>)
    decreases b.len() - start,
{
    if start < 0 || start > b.len() {
        (Seq::empty(), Seq::empty())
    } else {
        match boundary_search(b, start) {
            Some(e) => if start < e <= b.len() {
                let (segs, rest) = segments_from(b, e);
                (seq![b.subrange(start, e)] + segs, rest)
            } else {
                (Seq::empty(), b.subrange(start, b.len() as int))
            },
            None => (Seq::empty(), b.subrange(start, b.len() as int)),
        }
    }
}

/// Whether a segment holds only line breaks.
pub open spec fn blank_segment(s: Seq<u8>) -> bool {
    forall|k: int| 0 <= k < s.len() ==> s[k] == 10 || s[k] == 13
}

/// The events of a stream buffer: its segments without the blank ones.
pub open spec fn events_from(b: Seq<u8>, start: int) -> Seq<Seq<u8>>
    decreases b.len() - start,
{
    if start < 0 || start > b.len() {
        Seq::empty()
    } else {
        match boundary_search(b, start) {
            Some(e) => if start < e <= b.len() {
                let seg = b.subrange(start, e);
                if blank_segment(seg) {
                    events_from(b, e)
                } else {
                    seq![seg] + events_from(b, e)
                }
            } else {
                Seq::empty()
            },
            None => Seq::empty(),
        }
    }
}

/// Concatenation of segments.
pub open spec fn flatten(segs: Seq<Seq<u8>>) -> Seq<u8>
    decreases segs.len(),
{
    if segs.len() == 0 {
        Seq::empty()
    } else {
        segs[0] + flatten(segs.drop_first())
    }
}

/// Cutting a stream buffer into segments loses and reorders nothing: the
/// segments followed by the rest spell the buffer, and the rest holds no
/// complete event.
pub proof fn lemma_segments_lossless(b: Seq<u8>, start: int)
    requires
        0 <= start <= b.len(),
    ensures
        flatten(segments_from(b, start).0) + segments_from(b, start).1 == b.subrange(start, b.len() as int),
        boundary_search(segments_from(b, start).1, 0) is None,
    decreases b.len() - start,
{
    lemma_boundary_search_bounds(b, start);
    match boundary_search(b, start) {
        Some(e) => {
            lemma_segments_lossless(b, e);
            let (segs, rest) = segments_from(b, e);
            let all = seq![b.subrange(start, e)] + segs;
            assert(all.drop_first() =~= segs);
            assert(flatten(all) == b.subrange(start, e) + flatten(segs));
            assert(b.subrange(start, e) + b.subrange(e, b.len() as int) =~= b.subrange(start, b.len() as int));
            assert(b.subrange(start, e) + (flatten(segs) + rest) =~= (b.subrange(start, e) + flatten(segs)) + rest);
        },
        None => {
            assert(flatten(Seq::<Seq<u8>>::empty()) == Seq::<u8>::empty());
            assert(Seq::<u8>::empty() + b.subrange(start, b.len() as int) =~= b.subrange(start, b.len() as int));
            lemma_no_boundary_suffix(b, start, start);
        },
    }
}

/// The segments that are not blank, in order.
pub open spec fn nonblank(segs: Seq<Seq<u8>>) -> Seq<Seq<u8>>
    decreases segs.len(),
{
    if segs.len() == 0 {
        Seq::empty()
    } else if blank_segment(segs[0]) {
        nonblank(segs.drop_first())
    } else {
        seq![segs[0]] + nonblank(segs.drop_first())
    }
}

/// The events of a buffer are exactly its segments that are not blank.
pub proof fn lemma_events_are_nonblank_segments(b: Seq<u8>, start: int)
    requires
        0 <= start <= b.len(),
    ensures
        events_from(b, start) == nonblank(segments_from(b, start).0),
    decreases b.len() - start,
{
    lemma_boundary_search_bounds(b, start);
    match boundary_search(b, start) {
        Some(e) => {
            lemma_events_are_nonblank_segments(b, e);
            let all = seq![b.subrange(start, e)] + segments_from(b, e).0;
            assert(all.drop_first() =~= segments_from(b, e).0);
            assert(all[0] == b.subrange(start, e));
        },
        None => {},
    }
}

proof fn lemma_no_boundary_suffix(b: Seq<u8>, start: int, i: int)
    requires
        0 <= start <= i <= b.len(),
        boundary_search(b, i) is None,
    ensures
        boundary_search(b.subrange(start, b.len() as int), i - start) is None,
    decreases b.len() - i,
{
    let s = b.subrange(start, b.len() as int);
    if i < b.len() {
        assert(boundary_at(s, i - start) == match boundary_at(b, i) {
            Some(e) => Some(e - start),
            None => None::<int>,
        });
        lemma_no_boundary_suffix(b, start, i + 1);
    }
}

/// Whether `b[from..to]` holds only line breaks.
fn is_blank(b: &[u8], from: usize, to: usize) -> (r: bool)
    requires
        from <= to <= b@.len(),
    ensures
        r == blank_segment(b@.subrange(from as int, to as int)),
{
    let mut i: usize = from;
    while i < to
        invariant
            from <= i <= to,
            to <= b@.len(),
            forall|k: int| from <= k < i ==> b@[k] == 10 || b@[k] == 13,
        decreases to - i,
    {
        if b[i] != 10 && b[i] != 13 {
            assert(!(b@.subrange(from as int, to as int)[i - from] == 10 || b@.subrange(from as int, to as int)[i - from] == 13));
            return false;
        }
        i = i + 1;
    }
    true
}

/// Cuts the complete events off a stream buffer: the non-blank events in
/// order, and the bytes after the last complete event.
pub fn split_sse_events(buffer: &[u8]) -> (r: (Vec<Vec<u8>>, Vec<u8>))
    ensures
        r.0@.len() == events_from(buffer@, 0).len(),
        forall|k: int| 0 <= k < r.0@.len() ==> #[trigger] r.0@[k]@ == events_from(buffer@, 0)[k],
        r.1@ == segments_from(buffer@, 0).1,
{
    let n = buffer.len();
    let mut events: Vec<Vec<u8>> = Vec::new();
    let mut pos: usize = 0;
    loop
        invariant
            n == buffer@.len(),
            pos <= n,
            events@.len() + events_from(buffer@, pos as int).len() == events_from(buffer@, 0).len(),
            forall|k: int| 0 <= k < events@.len() ==> #[trigger] events@[k]@ == events_from(buffer@, 0)[k],
            forall|k: int| 0 <= k < events_from(buffer@, pos as int).len() ==>
                events_from(buffer@, 0)[events@.len() + k] == #[trigger] events_from(buffer@, pos as int)[k],
            segments_from(buffer@, 0).1 == segments_from(buffer@, pos as int).1,
        decreases n - pos,
    {
        proof { lemma_boundary_search_bounds(buffer@, pos as int); }
        match boundary_from(buffer, pos) {
            Some(end) => {
                let ghost old_events = events@;
                let ghost tail = events_from(buffer@, end as int);
                if !is_blank(buffer, pos, end) {
                    let ev = copy_range(buffer, pos, end);
                    events.push(ev);
                    proof {
                        let seg = buffer@.subrange(pos as int, end as int);
                        assert(events_from(buffer@, pos as int) == seq![seg] + tail);
                        assert forall|k: int| 0 <= k < events@.len() implies #[trigger] events@[k]@ == events_from(buffer@, 0)[k] by {
                            if k == old_events.len() {
                                assert(events_from(buffer@, pos as int)[0] == seg);
                            }
                        }
                        assert forall|k: int| 0 <= k < tail.len() implies
                            events_from(buffer@, 0)[events@.len() + k] == #[trigger] tail[k] by {
                            assert(events_from(buffer@, pos as int)[k + 1] == tail[k]);
                        }
                    }
                } else {
                    assert(events_from(buffer@, pos as int) == tail);
                }
                pos = end;
            },
            None => {
                let rest = copy_range(buffer, pos, n);
                return (events, rest);
            },
        }
    }
}

/// Usage fields of a JSON document, as `serde_json` reads them: whether the
/// top-level object has a `usage` member, and each count that is an integer.
#[derive(Debug, Clone, Copy, PartialEq, Eq, Structural)]
pub struct UsageFields {
    pub has_usage: bool,
    pub prompt_tokens: Option<i64>,
    pub completion_tokens: Option<i64>,
    pub cached_tokens: Option<i64>,
    pub input_tokens: Option<i64>,
    pub output_tokens: Option<i64>,
    pub cache_read_input_tokens: Option<i64>,
    pub cache_creation_input_tokens: Option<i64>,
}

/// What `serde_json` reads from JSON text: `None` when it is not JSON, else
/// the usage fields of the document.
pub uninterp spec fn json_usage(text: Seq<u8>) -> Option<UsageFields>;

/// Parses `text` with `serde_json::from_slice` into a `serde_json::Value` and
/// picks the usage fields: `usage.prompt_tokens`, `usage.completion_tokens`,
/// `usage.prompt_tokens_details.cached_tokens`, `usage.input_tokens`,
/// `usage.output_tokens`, `usage.cache_read_input_tokens` and
/// `usage.cache_creation_input_tokens`, each by `as_i64`.
#[verifier::external_body]
fn read_usage_fields(text: &[u8]) -> (r: Option<UsageFields>)
    ensures
        r == json_usage(text@),
{
    match serde_json::from_slice::<serde_json::Value>(text) {
        Ok(v) => Some(UsageFields {
            has_usage: v.get("usage").is_some(),
            prompt_tokens: v["usage"]["prompt_tokens"].as_i64(),
            completion_tokens: v["usage"]["completion_tokens"].as_i64(),
            cached_tokens: v["usage"]["prompt_tokens_details"]["cached_tokens"].as_i64(),
            input_tokens: v["usage"]["input_tokens"].as_i64(),
            output_tokens: v["usage"]["output_tokens"].as_i64(),
            cache_read_input_tokens: v["usage"]["cache_read_input_tokens"].as_i64(),
            cache_creation_input_tokens: v["usage"]["cache_creation_input_tokens"].as_i64(),
        }),
        Err(_) => None,
    }
}

/// Usage fields of a response body; a body that is not JSON has none.
pub open spec fn body_usage(text: Seq<u8>) -> UsageFields {
    match json_usage(text) {
        Some(u) => u,
        None => no_usage(),
    }
}

/// Usage fields of a document without any.
pub open spec fn no_usage() -> UsageFields {
    UsageFields {
        has_usage: false,
        prompt_tokens: None,
        completion_tokens: None,
        cached_tokens: None,
        input_tokens: None,
        output_tokens: None,
        cache_read_input_tokens: None,
        cache_creation_input_tokens: None,
    }
}

/// Usage fields of a (non-streamed) response body.
pub fn response_usage(body: &[u8]) -> (r: UsageFields)
    ensures
        r == body_usage(body@),
{
    match read_usage_fields(body) {
        Some(u) => u,
        None => UsageFields {
            has_usage: false,
            prompt_tokens: None,
            completion_tokens: None,
            cached_tokens: None,
            input_tokens: None,
            output_tokens: None,
            cache_read_input_tokens: None,
            cache_creation_input_tokens: None,
        },
    }
}

/// Token counts: input, output, cache read, cache creation.
pub type TokenCounts = (i32, i32, i32, i32);

/// A count as stored: the integer truncated to 32 bits, 0 when absent.
pub open spec fn count_of(v: Option<i64>) -> i32 {
    match v {
        Some(x) => x as i32,
        None => 0,
    }
}

fn count(v: Option<i64>) -> (r: i32)
    ensures
        r == count_of(v),
{
    match v {
        Some(x) => x as i32,
        None => 0,
    }
}

/// Token counts in the usage fields, read the way the endpoint type reports them.
pub open spec fn usage_counts(u: UsageFields, t: EndpointType) -> TokenCounts {
    match t {
        EndpointType::OpenAiChat | EndpointType::OpenAiResponse => (
            count_of(u.prompt_tokens),
            count_of(u.completion_tokens),
            count_of(u.cached_tokens),
            0,
        ),
        EndpointType::Anthropic => (
            count_of(u.input_tokens),
            count_of(u.output_tokens),
            count_of(u.cache_read_input_tokens),
            count_of(u.cache_creation_input_tokens),
        ),
        _ => (0, 0, 0, 0),
    }
}

/// Token counts in the usage fields for an upstream of the given type.
pub fn extract_usage(u: &UsageFields, endpoint_type: &EndpointType) -> (r: TokenCounts)
    ensures
        r == usage_counts(*u, *endpoint_type),
{
    match endpoint_type {
        EndpointType::OpenAiChat | EndpointType::OpenAiResponse => (
            count(u.prompt_tokens),
            count(u.completion_tokens),
            count(u.cached_tokens),
            0,
        ),
        EndpointType::Anthropic => (
            count(u.input_tokens),
            count(u.output_tokens),
            count(u.cache_read_input_tokens),
            count(u.cache_creation_input_tokens),
        ),
        _ => (0, 0, 0, 0),
    }
}

/// Whether `b` is valid UTF-8 text.
pub open spec fn is_utf8(b: Seq<u8>) -> bool {
    vstd::utf8::valid_utf8(b)
}

/// Whether `b` is UTF-8, as `std::str::from_utf8` decides it: it succeeds
/// exactly on valid UTF-8.
#[verifier::external_body]
fn utf8_valid(b: &[u8]) -> (r: bool)
    ensures
        r == is_utf8(b@),
{
    std::str::from_utf8(b).is_ok()
}

/// Index of the first line feed at or after `i`.
pub open spec fn newline_from(b: Seq<u8>, i: int) -> Option<int>
    decreases b.len() - i,
{
    if i < 0 || i >= b.len() {
        None
    } else if b[i] == 10 {
        Some(i)
    } else {
        newline_from(b, i + 1)
    }
}

/// A line without the carriage return that ends it, if one does.
pub open spec fn strip_cr(s: Seq<u8>) -> Seq<u8> {
    if s.len() > 0 && s[s.len() - 1] == 13 {
        s.drop_last()
    } else {
        s
    }
}

/// The lines of `b` from `start`, as `str::lines` cuts them: at each line
/// feed, dropping a carriage return before it; a last line needs no line feed.
pub open spec fn lines_from(b: Seq<u8>, start: int) -> Seq<Seq<u8>>
    decreases b.len() - start,
{
    if start < 0 || start >= b.len() {
        Seq::empty()
    } else {
        match newline_from(b, start) {
            Some(k) => if start <= k < b.len() {
                seq![strip_cr(b.subrange(start, k))] + lines_from(b, k + 1)
            } else {
                Seq::empty()
            },
            None => seq![b.subrange(start, b.len() as int)],
        }
    }
}

proof fn lemma_newline_bounds(b: Seq<u8>, i: int)
    requires
        0 <= i,
    ensures
        newline_from(b, i) matches Some(k) ==> i <= k < b.len() && b[k] == 10,
    decreases b.len() - i,
{
    if i < b.len() && b[i] != 10 {
        lemma_newline_bounds(b, i + 1);
    }
}

fn newline_at_or_after(b: &[u8], start: usize) -> (r: Option<usize>)
    ensures
        match r {
            Some(k) => newline_from(b@, start as int) == Some(k as int),
            None => newline_from(b@, start as int) is None,
        },
{
    let n = b.len();
    let mut i: usize = start;
    while i < n
        invariant
            n == b@.len(),
            start <= i,
            newline_from(b@, start as int) == newline_from(b@, i as int),
        decreases n - i,
    {
        if b[i] == 10 {
            return Some(i);
        }
        i = i + 1;
    }
    None
}

/// The lines of `b`, as `str::lines` cuts text.
pub fn split_lines(b: &[u8]) -> (r: Vec<Vec<u8>>)
    ensures
        r@.len() == lines_from(b@, 0).len(),
        forall|k: int| 0 <= k < r@.len() ==> #[trigger] r@[k]@ == lines_from(b@, 0)[k],
{
    let n = b.len();
    let mut lines: Vec<Vec<u8>> = Vec::new();
    let mut pos: usize = 0;
    while pos < n
        invariant
            n == b@.len(),
            pos <= n,
            lines@.len() + lines_from(b@, pos as int).len() == lines_from(b@, 0).len(),
            forall|k: int| 0 <= k < lines@.len() ==> #[trigger] lines@[k]@ == lines_from(b@, 0)[k],
            forall|k: int| 0 <= k < lines_from(b@, pos as int).len() ==>
                lines_from(b@, 0)[lines@.len() + k] == #[trigger] lines_from(b@, pos as int)[k],
        decreases n - pos,
    {
        proof { lemma_newline_bounds(b@, pos as int); }
        let ghost old_lines = lines@;
        match newline_at_or_after(b, pos) {
            Some(k) => {
                let ghost tail = lines_from(b@, k + 1);
                let end = if k > pos && b[k - 1] == 13 { k - 1 } else { k };
                let line = copy_range(b, pos, end);
                proof {
                    assert(line@ == strip_cr(b@.subrange(pos as int, k as int))) by {
                        if k > pos && b@[k - 1] == 13 {
                            assert(b@.subrange(pos as int, k as int).drop_last() =~= b@.subrange(pos as int, k - 1));
                        }
                    }
                    assert(lines_from(b@, pos as int) == seq![line@] + tail);
                }
                lines.push(line);
                proof {
                    assert forall|j: int| 0 <= j < lines@.len() implies #[trigger] lines@[j]@ == lines_from(b@, 0)[j] by {
                        if j == old_lines.len() {
                            assert(lines_from(b@, pos as int)[0] == line@);
                        }
                    }
                    assert forall|j: int| 0 <= j < tail.len() implies
                        lines_from(b@, 0)[lines@.len() + j] == #[trigger] tail[j] by {
                        assert(lines_from(b@, pos as int)[j + 1] == tail[j]);
                    }
                }
                pos = k + 1;
            },
            None => {
                let line = copy_range(b, pos, n);
                proof {
                    assert(lines_from(b@, pos as int) == seq![line@]);
                    assert(lines_from(b@, pos as int)[0] == line@);
                    assert(lines_from(b@, 0)[old_lines.len() as int + 0] == lines_from(b@, pos as int)[0]);
                }
                lines.push(line);
                proof {
                    assert forall|j: int| 0 <= j < lines@.len() implies #[trigger] lines@[j]@ == lines_from(b@, 0)[j] by {
                        if j == old_lines.len() {
                        }
                    }
                }
                return lines;
            },
        }
    }
    proof {
        assert(lines_from(b@, pos as int).len() == 0);
    }
    lines
}

/// The bytes of `data: `.
pub open spec fn data_prefix() -> Seq<u8> {
    seq![100u8, 97, 116, 97, 58, 32]
}

/// The bytes of `event: `.
pub open spec fn event_prefix() -> Seq<u8> {
    seq![101u8, 118, 101, 110, 116, 58, 32]
}

/// The bytes of `message_delta`.
pub open spec fn message_delta() -> Seq<u8> {
    seq![109u8, 101, 115, 115, 97, 103, 101, 95, 100, 101, 108, 116, 97]
}

/// Whether `s` starts with `p`.
pub open spec fn has_prefix(s: Seq<u8>, p: Seq<u8>) -> bool {
    p.len() <= s.len() && s.subrange(0, p.len() as int) == p
}

fn starts_with(s: &Vec<u8>, p: &[u8]) -> (r: bool)
    ensures
        r == has_prefix(s@, p@),
{
    if p.len() > s.len() {
        return false;
    }
    let mut i: usize = 0;
    while i < p.len()
        invariant
            p@.len() <= s@.len(),
            0 <= i <= p@.len(),
            forall|k: int| 0 <= k < i ==> s@[k] == p@[k],
        decreases p@.len() - i,
    {
        if s[i] != p[i] {
            assert(s@.subrange(0, p@.len() as int)[i as int] != p@[i as int]);
            return false;
        }
        i = i + 1;
    }
    assert(s@.subrange(0, p@.len() as int) =~= p@);
    true
}

/// Whether parsed usage fields report a usage.
pub open spec fn reports_usage(o: Option<UsageFields>) -> bool {
    o matches Some(u) && u.has_usage
}

/// Usage of the first `data: ` line (from `i`) whose payload is JSON with a `usage` member.
pub open spec fn data_line_usage(lines: Seq<Seq<u8>>, i: int) -> Option<UsageFields>
    decreases lines.len() - i,
{
    if i < 0 || i >= lines.len() {
        None
    } else if has_prefix(lines[i], data_prefix()) && reports_usage(json_usage(lines[i].subrange(6, lines[i].len() as int))) {
        json_usage(lines[i].subrange(6, lines[i].len() as int))
    } else {
        data_line_usage(lines, i + 1)
    }
}

/// The payloads of the last `event: ` line and of the last `data: ` line,
/// scanning from `i` with the ones seen so far.
pub open spec fn last_event_and_data(lines: Seq<Seq<u8>>, i: int, event: Seq<u8>, data: Seq<u8>) -> (Seq<u8>, Seq<u8>)
    decreases lines.len() - i,
{
    if i < 0 || i >= lines.len() {
        (event, data)
    } else if has_prefix(lines[i], event_prefix()) {
        last_event_and_data(lines, i + 1, lines[i].subrange(7, lines[i].len() as int), data)
    } else if has_prefix(lines[i], data_prefix()) {
        last_event_and_data(lines, i + 1, event, lines[i].subrange(6, lines[i].len() as int))
    } else {
        last_event_and_data(lines, i + 1, event, data)
    }
}

/// The usage an SSE event reports: for OpenAI protocols the first `data:`
/// line whose JSON has `usage`; for Anthropic the last `data:` line when the
/// last `event:` is `message_delta` and its JSON has `usage`; nothing for
/// other protocols or for text that is not UTF-8.
pub open spec fn sse_usage(event: Seq<u8>, t: EndpointType) -> Option<UsageFields> {
    if !is_utf8(event) {
        None
    } else {
        match t {
            EndpointType::OpenAiChat | EndpointType::OpenAiResponse => data_line_usage(lines_from(event, 0), 0),
            EndpointType::Anthropic => {
                let (ev, data) = last_event_and_data(lines_from(event, 0), 0, Seq::empty(), Seq::empty());
                if ev == message_delta() && reports_usage(json_usage(data)) {
                    json_usage(data)
                } else {
                    None
                }
            },
            _ => None,
        }
    }
}

/// The usage an SSE event (or a passed-through chunk) reports, if any.
pub fn extract_usage_from_sse(event: &[u8], endpoint_type: &EndpointType) -> (r: Option<UsageFields>)
    ensures
        r == sse_usage(event@, *endpoint_type),
{
    if !utf8_valid(event) {
        return None;
    }
    let data_p: [u8; 6] = [100u8, 97, 116, 97, 58, 32];
    let event_p: [u8; 7] = [101u8, 118, 101, 110, 116, 58, 32];
    let delta: [u8; 13] = [109u8, 101, 115, 115, 97, 103, 101, 95, 100, 101, 108, 116, 97];
    assert(data_p@ =~= data_prefix());
    assert(event_p@ =~= event_prefix());
    assert(delta@ =~= message_delta());
    let lines = split_lines(event);
    let ghost ls = lines_from(event@, 0);
    match endpoint_type {
        EndpointType::OpenAiChat | EndpointType::OpenAiResponse => {
            let mut i: usize = 0;
            while i < lines.len()
                invariant
                    lines@.len() == ls.len(),
                    forall|k: int| 0 <= k < lines@.len() ==> #[trigger] lines@[k]@ == ls[k],
                    data_p@ == data_prefix(),
                    *endpoint_type == EndpointType::OpenAiChat || *endpoint_type == EndpointType::OpenAiResponse,
                    is_utf8(event@),
                    ls == lines_from(event@, 0),
                    0 <= i <= lines@.len(),
                    data_line_usage(ls, 0) == data_line_usage(ls, i as int),
                decreases lines@.len() - i,
            {
                let line = &lines[i];
                assert(line@ == ls[i as int]);
                if starts_with(line, data_p.as_slice()) {
                    let payload = copy_range(line.as_slice(), 6, line.len());
                    assert(payload@ == ls[i as int].subrange(6, ls[i as int].len() as int));
                    match read_usage_fields(payload.as_slice()) {
                        Some(u) => {
                            if u.has_usage {
                                assert(data_line_usage(ls, i as int) == Some(u));
                                assert(is_utf8(event@));
                                return Some(u);
                            }
                        },
                        None => {},
                    }
                }
                i = i + 1;
            }
            assert(data_line_usage(ls, i as int) is None);
            assert(data_line_usage(ls, 0) is None);
            assert(sse_usage(event@, *endpoint_type) is None);
            None
        },
        EndpointType::Anthropic => {
            let mut ev: Vec<u8> = Vec::new();
            let mut data: Vec<u8> = Vec::new();
            let mut i: usize = 0;
            while i < lines.len()
                invariant
                    lines@.len() == ls.len(),
                    forall|k: int| 0 <= k < lines@.len() ==> #[trigger] lines@[k]@ == ls[k],
                    data_p@ == data_prefix(),
                    event_p@ == event_prefix(),
                    is_utf8(event@),
                    ls == lines_from(event@, 0),
                    0 <= i <= lines@.len(),
                    last_event_and_data(ls, 0, Seq::empty(), Seq::empty()) == last_event_and_data(ls, i as int, ev@, data@),
                decreases lines@.len() - i,
            {
                let line = &lines[i];
                assert(line@ == ls[i as int]);
                if starts_with(line, event_p.as_slice()) {
                    ev = copy_range(line.as_slice(), 7, line.len());
                } else if starts_with(line, data_p.as_slice()) {
                    data = copy_range(line.as_slice(), 6, line.len());
                }
                i = i + 1;
            }
            let ghost scanned = last_event_and_data(ls, 0, Seq::empty(), Seq::empty());
            assert(scanned == (ev@, data@));
            if ev.len() == 13 && starts_with(&ev, delta.as_slice()) {
                assert(ev@ =~= message_delta());
                match read_usage_fields(data.as_slice()) {
                    Some(u) => {
                        if u.has_usage {
                            assert(sse_usage(event@, *endpoint_type) == Some(u));
                            return Some(u);
                        }
                    },
                    None => {},
                }
            } else {
                assert(ev@ != message_delta()) by {
                    if ev@ == message_delta() {
                        assert(ev@.subrange(0, 13) =~= ev@);
                    }
                }
            }
            assert(sse_usage(event@, *endpoint_type) is None);
            None
        },
        _ => None,
    }
}

/// Usage gathered over a stream: the last usage any event reported.
#[derive(Debug, Clone, Copy)]
pub struct StreamUsage {
    pub last: Option<UsageFields>,
}

impl StreamUsage {
    /// Nothing reported yet.
    pub fn new() -> (r: StreamUsage)
        ensures
            r.last is None,
    {
        StreamUsage { last: None }
    }

    /// Takes note of one event (or passed-through chunk) of an upstream of the given type.
    pub fn observe(&mut self, event: &[u8], upstream: &EndpointType)
        ensures
            final(self).last == match sse_usage(event@, *upstream) {
                Some(u) => Some(u),
                None => old(self).last,
            },
    {
        match extract_usage_from_sse(event, upstream) {
            Some(u) => {
                self.last = Some(u);
            },
            None => {},
        }
    }

    /// Token counts of the last reported usage; zeros when none was reported.
    pub fn totals(&self, upstream: &EndpointType) -> (r: TokenCounts)
        ensures
            r == match self.last {
                Some(u) => usage_counts(u, *upstream),
                None => (0i32, 0i32, 0i32, 0i32),
            },
    {
        match &self.last {
            Some(u) => extract_usage(u, upstream),
            None => (0, 0, 0, 0),
        }
    }
}

/// Whether `\n\n` starts at `i` in `b`.
pub open spec fn lf_lf_at(b: Seq<u8>, i: int) -> bool {
    0 <= i && i + 1 < b.len() && b[i] == 10 && b[i + 1] == 10
}

/// Whether `\r\n\r\n` starts at `i` in `b`.
pub open spec fn crlf_crlf_at(b: Seq<u8>, i: int) -> bool {
    0 <= i && i + 3 < b.len() && b[i] == 13 && b[i + 1] == 10 && b[i + 2] == 13 && b[i + 3] == 10
}

proof fn lemma_boundary_search_first(b: Seq<u8>, i: int, k: int)
    requires
        0 <= k <= i,
        lf_lf_at(b, i) || crlf_crlf_at(b, i),
        forall|j: int| 0 <= j < i ==> !lf_lf_at(b, j) && !crlf_crlf_at(b, j),
    ensures
        boundary_search(b, k) == Some(if lf_lf_at(b, i) { i + 2 } else { i + 4 }),
    decreases i - k,
{
    if k < i {
        assert(!lf_lf_at(b, k) && !crlf_crlf_at(b, k));
        assert(boundary_at(b, k) is None);
        lemma_boundary_search_first(b, i, k + 1);
    } else {
        assert(boundary_at(b, k) == Some(if lf_lf_at(b, i) { i + 2 } else { i + 4 }));
    }
}

proof fn lemma_boundary_search_none(b: Seq<u8>, k: int)
    requires
        0 <= k,
        forall|j: int| 0 <= j < b.len() ==> !lf_lf_at(b, j) && !crlf_crlf_at(b, j),
    ensures
        boundary_search(b, k) is None,
    decreases b.len() - k,
{
    if k < b.len() {
        assert(!lf_lf_at(b, k) && !crlf_crlf_at(b, k));
        assert(boundary_at(b, k) is None);
        lemma_boundary_search_none(b, k + 1);
    }
}

/// The first event ends right after the first boundary: when `\n\n` (or
/// `\r\n\r\n`) starts at `i` and no boundary of either kind starts
/// earlier, the first event ends at `i + 2` (or `i + 4`), wherever that is,
/// the very end of the buffer included.
pub proof fn lemma_first_boundary(b: Seq<u8>, i: int)
    requires
        lf_lf_at(b, i) || crlf_crlf_at(b, i),
        forall|j: int| 0 <= j < i ==> !lf_lf_at(b, j) && !crlf_crlf_at(b, j),
    ensures
        sse_boundary(b) == Some(if lf_lf_at(b, i) { i + 2 } else { i + 4 }),
{
    lemma_boundary_search_first(b, i, 0);
}

/// A buffer without any boundary holds no complete event yet.
pub proof fn lemma_no_boundary(b: Seq<u8>)
    requires
        forall|j: int| 0 <= j < b.len() ==> !lf_lf_at(b, j) && !crlf_crlf_at(b, j),
    ensures
        sse_boundary(b) is None,
{
    lemma_boundary_search_none(b, 0);
}

} // verus!
