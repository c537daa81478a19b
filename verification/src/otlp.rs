//! The OTLP log-record formatter: one event plus its span context becomes
//! one OpenTelemetry-shaped JSON line, with trace/span correlation resolved
//! from the active span chain, source-location and thread attributes, and
//! legacy logging field names remapped onto semantic-convention names.

use vstd::prelude::*;
use crate::json::{
    dec_int, fm_insert, fm_insert_soft, fm_lookup, hex_pad, i64_dec_chars, json_string,
    render_object, u128_hex_chars, u64_dec_chars, FieldMap, JVal, JsonValue,
};
use crate::level::Level;
use crate::span::{find_trace_id_in, span_id_in, SpanData, SpanStack};
use crate::text::{chars_to_string, push_str_chars, str_eq};
use crate::json::push_json_string;

verus! {

/// One emitted record: a level, a target, source-location metadata, named
/// fields (the optional message travels as the field `message`), and whether
/// the record marks a span boundary rather than a free-standing log line.
#[derive(Debug)]
pub struct Event {
    /// Severity of the event.
    pub level: Level,
    /// Target namespace the event was emitted under.
    pub target: String,
    /// Module path of the emitting code, when known.
    pub module: Option<String>,
    /// Source file of the emitting code, when known.
    pub file: Option<String>,
    /// Source line of the emitting code, when known.
    pub line: Option<u32>,
    /// Named field values, in insertion order.
    pub fields: FieldMap,
    /// `true` for the synthetic records that document span enter/close.
    pub is_span_boundary: bool,
}

/// Formats events as OTLP-shaped JSON lines.
#[derive(Debug)]
pub struct OtlpFormatter;

/// Distributed-trace identifiers rendered in their wire form: 32 lowercase
/// hex digits for the trace id, 16 for the span id.
#[derive(Debug)]
pub struct TraceInfo {
    /// 32 hex digits, zero-padded, lowercase.
    pub trace_id: String,
    /// 16 hex digits, zero-padded, lowercase.
    pub span_id: String,
}

impl TraceInfo {
    /// Renders a trace/span id pair into fixed-width lowercase hex.
    pub fn from_ids(trace_id: u128, span_id: u64) -> (r: TraceInfo)
        ensures
            r.trace_id@ == hex_pad(trace_id as nat, 32),
            r.span_id@ == hex_pad(span_id as nat, 16),
    {
        let t = u128_hex_chars(trace_id, 32);
        let s = u128_hex_chars(span_id as u128, 16);
        TraceInfo { trace_id: chars_to_string(&t), span_id: chars_to_string(&s) }
    }
}

/// The source-location and thread attributes an event starts from:
/// `code.namespace`, `code.filepath` and `code.lineno` when known, and
/// `thread.name` always.
pub open spec fn base_attributes(e: Event, thread_name: Seq<char>) -> Seq<(Seq<char>, JVal)> {
    let m0 = Seq::<(Seq<char>, JVal)>::empty();
    let m1 = match e.module {
        Some(s) => fm_insert(m0, "code.namespace"@, JVal::Str(s@)),
        None => m0,
    };
    let m2 = match e.file {
        Some(s) => fm_insert(m1, "code.filepath"@, JVal::Str(s@)),
        None => m1,
    };
    let m3 = match e.line {
        Some(l) => fm_insert(m2, "code.lineno"@, JVal::Int(l as int)),
        None => m2,
    };
    fm_insert(m3, "thread.name"@, JVal::Str(thread_name))
}

/// Where an event field's value lands among the attributes: `message` is
/// extracted as the record body and kept out (`None`), `log.target` is
/// dropped (`None`), the legacy `log.file`, `log.line` and `log.module_path`
/// names map onto their semantic-convention names, and every other name
/// passes through unchanged.
pub open spec fn rename_of(k: Seq<char>) -> Option<Seq<char>> {
    if k == "message"@ {
        None
    } else if k == "log.file"@ {
        Some("code.filepath"@)
    } else if k == "log.line"@ {
        Some("code.lineno"@)
    } else if k == "log.module_path"@ {
        Some("code.namespace"@)
    } else if k == "log.target"@ {
        None
    } else {
        Some(k)
    }
}

/// One event field merged into the attributes, under the renames and drops
/// of [`rename_of`]; a kept field overwrites an earlier attribute of the
/// same resulting name.
pub open spec fn merge_event_field(m: Seq<(Seq<char>, JVal)>, k: Seq<char>, v: JVal) -> Seq<
    (Seq<char>, JVal),
> {
    match rename_of(k) {
        None => m,
        Some(k2) => fm_insert(m, k2, v),
    }
}

/// The event fields from position `i` on, merged in order.
pub open spec fn merge_event_fields(
    m: Seq<(Seq<char>, JVal)>,
    fields: Seq<(Seq<char>, JVal)>,
    i: int,
) -> Seq<(Seq<char>, JVal)>
    decreases fields.len() - i,
{
    if i < 0 || i >= fields.len() {
        m
    } else {
        merge_event_fields(merge_event_field(m, fields[i].0, fields[i].1), fields, i + 1)
    }
}

/// The span fields from position `i` on, merged in order without overriding
/// attributes already present.
pub open spec fn merge_span_fields(
    m: Seq<(Seq<char>, JVal)>,
    fields: Seq<(Seq<char>, JVal)>,
    i: int,
) -> Seq<(Seq<char>, JVal)>
    decreases fields.len() - i,
{
    if i < 0 || i >= fields.len() {
        m
    } else {
        merge_span_fields(fm_insert_soft(m, fields[i].0, fields[i].1), fields, i + 1)
    }
}

/// The record body: the event's `message` field when it is a string, else
/// empty.
pub open spec fn body_of(fields: Seq<(Seq<char>, JVal)>) -> Seq<char> {
    match fm_lookup(fields, "message"@) {
        Some(JVal::Str(s)) => s,
        _ => Seq::empty(),
    }
}

/// The full attribute mapping of a record: source-location and thread
/// attributes, then the event fields (which may overwrite them), then — for
/// a span-boundary record with an enclosing span — that span's fields, which
/// never override what is already present.
pub open spec fn otlp_attributes(e: Event, chain: Seq<SpanData>, thread_name: Seq<char>) -> Seq<
    (Seq<char>, JVal),
> {
    let merged = merge_event_fields(base_attributes(e, thread_name), e.fields@, 0);
    if e.is_span_boundary && chain.len() > 0 {
        merge_span_fields(merged, chain[0].fields@, 0)
    } else {
        merged
    }
}

/// The complete OTLP JSON line for an event: fixed key order
/// `Timestamp`, `TraceId` (only if resolved), `SpanId` (only if resolved),
/// `severity`, `SeverityText`, `SeverityNumber`, `Body`, `Attributes`,
/// terminated by one newline.
pub open spec fn otlp_line_spec(
    e: Event,
    chain: Seq<SpanData>,
    thread_name: Seq<char>,
    timestamp: int,
) -> Seq<char> {
    let sev = e.level.severity_text_spec();
    "{\"Timestamp\":\""@ + dec_int(timestamp) + "\""@ + (match find_trace_id_in(chain) {
        Some(t) => ",\"TraceId\":\""@ + hex_pad(t as nat, 32) + "\""@,
        None => Seq::<char>::empty(),
    }) + (match span_id_in(chain) {
        Some(s) => ",\"SpanId\":\""@ + hex_pad(s as nat, 16) + "\""@,
        None => Seq::<char>::empty(),
    }) + ",\"severity\":"@ + json_string(sev) + ",\"SeverityText\":"@ + json_string(sev)
        + ",\"SeverityNumber\":"@ + dec_int(e.level.severity_number_spec()) + ",\"Body\":"@
        + json_string(body_of(e.fields@)) + ",\"Attributes\":"@ + render_object(
        otlp_attributes(e, chain, thread_name),
    ) + "}\n"@
}

/// Relies on `chrono::Utc::now` and `chrono::DateTime::timestamp_millis`:
/// the current time as milliseconds since the Unix epoch. `Utc::now` only
/// returns times at or after the epoch (it panics on a pre-epoch clock), so
/// the milliseconds are non-negative.
#[verifier::external_body]
fn now_millis() -> (r: i64)
    ensures
        r >= 0,
{
    chrono::Utc::now().timestamp_millis()
}

impl OtlpFormatter {
    /// Builds the attribute mapping of steps 5 to 7: base attributes, event
    /// fields with renames, and — for span boundaries — the enclosing span's
    /// fields.
    fn build_attributes(&self, event: &Event, stack: &SpanStack, thread_name: &str) -> (r:
        FieldMap)
        ensures
            r@ == otlp_attributes(*event, stack.chain(), thread_name@),
    {
        let mut attrs = FieldMap::new();
        match &event.module {
            Some(s) => {
                attrs.insert("code.namespace".to_owned(), JsonValue::Str(s.clone()));
            },
            None => {},
        }
        match &event.file {
            Some(s) => {
                attrs.insert("code.filepath".to_owned(), JsonValue::Str(s.clone()));
            },
            None => {},
        }
        match &event.line {
            Some(l) => {
                attrs.insert("code.lineno".to_owned(), JsonValue::Uint(*l as u64));
            },
            None => {},
        }
        attrs.insert("thread.name".to_owned(), JsonValue::Str(thread_name.to_owned()));
        let ghost base = base_attributes(*event, thread_name@);
        proof {
            assert(attrs@ == base);
        }
        let ghost fields = event.fields@;
        let n = event.fields.len();
        let mut i: usize = 0;
        while i < n
            invariant
                fields == event.fields@,
                base == base_attributes(*event, thread_name@),
                n == fields.len(),
                i <= n,
                merge_event_fields(base, fields, 0) == merge_event_fields(
                    attrs@,
                    fields,
                    i as int,
                ),
            decreases n - i,
        {
            let entry = event.fields.entry_at(i);
            let key = &entry.0;
            if str_eq(key.as_str(), "message") {
            } else if str_eq(key.as_str(), "log.file") {
                attrs.insert("code.filepath".to_owned(), entry.1.duplicate());
            } else if str_eq(key.as_str(), "log.line") {
                attrs.insert("code.lineno".to_owned(), entry.1.duplicate());
            } else if str_eq(key.as_str(), "log.module_path") {
                attrs.insert("code.namespace".to_owned(), entry.1.duplicate());
            } else if str_eq(key.as_str(), "log.target") {
            } else {
                attrs.insert(key.clone(), entry.1.duplicate());
            }
            i = i + 1;
        }
        if event.is_span_boundary && stack.depth() > 0 {
            let parent = stack.span_at(0);
            let ghost merged = attrs@;
            let ghost sfields = parent.fields@;
            let m = parent.fields.len();
            let mut k: usize = 0;
            while k < m
                invariant
                    sfields == parent.fields@,
                    m == sfields.len(),
                    k <= m,
                    merge_span_fields(merged, sfields, 0) == merge_span_fields(
                        attrs@,
                        sfields,
                        k as int,
                    ),
                decreases m - k,
            {
                let entry = parent.fields.entry_at(k);
                attrs.insert_if_absent(entry.0.clone(), entry.1.duplicate());
                k = k + 1;
            }
        }
        attrs
    }

    /// Renders one event, with its span context, as one OTLP JSON line using
    /// the given capture timestamp (milliseconds since epoch) and thread
    /// name.
    #[verifier::rlimit(60)]
    pub fn format_event_at(
        &self,
        event: &Event,
        stack: &SpanStack,
        thread_name: &str,
        timestamp_millis: i64,
    ) -> (r: String)
        ensures
            r@ == otlp_line_spec(*event, stack.chain(), thread_name@, timestamp_millis as int),
    {
        let mut out: Vec<char> = Vec::new();
        push_str_chars(&mut out, "{\"Timestamp\":\"");
        let mut ts = i64_dec_chars(timestamp_millis);
        out.append(&mut ts);
        push_str_chars(&mut out, "\"");
        match stack.find_trace_id() {
            Some(tid) => {
                push_str_chars(&mut out, ",\"TraceId\":\"");
                let mut h = u128_hex_chars(tid, 32);
                out.append(&mut h);
                push_str_chars(&mut out, "\"");
            },
            None => {},
        }
        match stack.find_span_id() {
            Some(sid) => {
                push_str_chars(&mut out, ",\"SpanId\":\"");
                let mut h = u128_hex_chars(sid as u128, 16);
                out.append(&mut h);
                push_str_chars(&mut out, "\"");
            },
            None => {},
        }
        push_str_chars(&mut out, ",\"severity\":");
        push_json_string(&mut out, event.level.severity_text());
        push_str_chars(&mut out, ",\"SeverityText\":");
        push_json_string(&mut out, event.level.severity_text());
        push_str_chars(&mut out, ",\"SeverityNumber\":");
        let mut sn = u64_dec_chars(event.level.severity_number() as u64);
        out.append(&mut sn);
        push_str_chars(&mut out, ",\"Body\":");
        let body: String = match event.fields.get("message") {
            Some(v) => match v {
                JsonValue::Str(s) => s.clone(),
                _ => String::new(),
            },
            None => String::new(),
        };
        proof {
            assert(body@ == body_of(event.fields@));
        }
        push_json_string(&mut out, body.as_str());
        push_str_chars(&mut out, ",\"Attributes\":");
        let attrs = self.build_attributes(event, stack, thread_name);
        attrs.push_json_object(&mut out);
        push_str_chars(&mut out, "}\n");
        proof {
            assert(out@ =~= otlp_line_spec(
                *event,
                stack.chain(),
                thread_name@,
                timestamp_millis as int,
            ));
        }
        chars_to_string(&out)
    }

    /// Renders one event as one OTLP JSON line, capturing the timestamp at
    /// render time from the system clock.
    pub fn format_event(&self, event: &Event, stack: &SpanStack, thread_name: &str) -> (r: String)
        ensures
            exists|ts: int|
                0 <= ts && r@ == otlp_line_spec(*event, stack.chain(), thread_name@, ts),
    {
        let ts = now_millis();
        let r = self.format_event_at(event, stack, thread_name, ts);
        proof {
            assert(r@ == otlp_line_spec(*event, stack.chain(), thread_name@, ts as int));
        }
        r
    }
}

/// `true` iff the two attribute tables agree as mappings: every name looks
/// up to the same value in both.
pub open spec fn lookup_equal(m1: Seq<(Seq<char>, JVal)>, m2: Seq<(Seq<char>, JVal)>) -> bool {
    forall|q: Seq<char>| #[trigger] fm_lookup(m1, q) == fm_lookup(m2, q)
}

/// Merging the same field into lookup-equal tables keeps them lookup-equal.
proof fn lemma_field_step_preserves(
    m1: Seq<(Seq<char>, JVal)>,
    m2: Seq<(Seq<char>, JVal)>,
    k: Seq<char>,
    v: JVal,
)
    requires
        lookup_equal(m1, m2),
    ensures
        lookup_equal(merge_event_field(m1, k, v), merge_event_field(m2, k, v)),
{
    match rename_of(k) {
        None => {},
        Some(k2) => {
            assert forall|q: Seq<char>| #[trigger] fm_lookup(merge_event_field(m1, k, v), q)
                == fm_lookup(merge_event_field(m2, k, v), q) by {
                crate::json::lemma_insert_lookup(m1, k2, v, q);
                crate::json::lemma_insert_lookup(m2, k2, v, q);
            }
        },
    }
}

/// Merging equal field suffixes into lookup-equal tables keeps them
/// lookup-equal.
proof fn lemma_merge_preserves(
    m1: Seq<(Seq<char>, JVal)>,
    m2: Seq<(Seq<char>, JVal)>,
    f1: Seq<(Seq<char>, JVal)>,
    f2: Seq<(Seq<char>, JVal)>,
    i: int,
)
    requires
        lookup_equal(m1, m2),
        f1.len() == f2.len(),
        forall|j: int| i <= j < f1.len() ==> f1[j] == f2[j],
    ensures
        lookup_equal(merge_event_fields(m1, f1, i), merge_event_fields(m2, f2, i)),
    decreases f1.len() - i,
{
    if 0 <= i < f1.len() {
        lemma_field_step_preserves(m1, m2, f1[i].0, f1[i].1);
        lemma_merge_preserves(
            merge_event_field(m1, f1[i].0, f1[i].1),
            merge_event_field(m2, f2[i].0, f2[i].1),
            f1,
            f2,
            i + 1,
        );
    }
}

/// Softly merging the same span-field suffix into lookup-equal tables keeps
/// them lookup-equal.
proof fn lemma_span_merge_preserves(
    m1: Seq<(Seq<char>, JVal)>,
    m2: Seq<(Seq<char>, JVal)>,
    f: Seq<(Seq<char>, JVal)>,
    i: int,
)
    requires
        lookup_equal(m1, m2),
    ensures
        lookup_equal(merge_span_fields(m1, f, i), merge_span_fields(m2, f, i)),
    decreases f.len() - i,
{
    if 0 <= i < f.len() {
        let k = f[i].0;
        let v = f[i].1;
        assert forall|q: Seq<char>| #[trigger] fm_lookup(fm_insert_soft(m1, k, v), q) == fm_lookup(
            fm_insert_soft(m2, k, v),
            q,
        ) by {
            crate::json::lemma_insert_soft_lookup(m1, k, v, q);
            crate::json::lemma_insert_soft_lookup(m2, k, v, q);
            assert(fm_lookup(m1, k) == fm_lookup(m2, k));
        }
        lemma_span_merge_preserves(fm_insert_soft(m1, k, v), fm_insert_soft(m2, k, v), f, i + 1);
    }
}

/// Merging two fields whose resulting attribute names differ (or that are
/// dropped) commutes, up to lookup equality.
proof fn lemma_merge_commute(
    m: Seq<(Seq<char>, JVal)>,
    k1: Seq<char>,
    v1: JVal,
    k2: Seq<char>,
    v2: JVal,
)
    requires
        rename_of(k1) != rename_of(k2) || rename_of(k1) is None || rename_of(k2) is None,
    ensures
        lookup_equal(
            merge_event_field(merge_event_field(m, k1, v1), k2, v2),
            merge_event_field(merge_event_field(m, k2, v2), k1, v1),
        ),
{
    match (rename_of(k1), rename_of(k2)) {
        (Some(r1), Some(r2)) => {
            assert forall|q: Seq<char>| #[trigger] fm_lookup(
                merge_event_field(merge_event_field(m, k1, v1), k2, v2),
                q,
            ) == fm_lookup(merge_event_field(merge_event_field(m, k2, v2), k1, v1), q) by {
                crate::json::lemma_insert_lookup(m, r1, v1, q);
                crate::json::lemma_insert_lookup(fm_insert(m, r1, v1), r2, v2, q);
                crate::json::lemma_insert_lookup(m, r2, v2, q);
                crate::json::lemma_insert_lookup(fm_insert(m, r2, v2), r1, v1, q);
            }
        },
        _ => {},
    }
}

/// Merging a field list with two adjacent, differently-landing entries
/// swapped gives a lookup-equal result, from any start position at or before
/// the swapped pair.
proof fn lemma_merge_swap_from(
    m: Seq<(Seq<char>, JVal)>,
    f1: Seq<(Seq<char>, JVal)>,
    f2: Seq<(Seq<char>, JVal)>,
    i: int,
    j: int,
)
    requires
        0 <= j <= i,
        i + 1 < f1.len(),
        f2 == f1.update(i, f1[i + 1]).update(i + 1, f1[i]),
        rename_of(f1[i].0) != rename_of(f1[i + 1].0) || rename_of(f1[i].0) is None || rename_of(
            f1[i + 1].0,
        ) is None,
    ensures
        lookup_equal(merge_event_fields(m, f1, j), merge_event_fields(m, f2, j)),
    decreases i - j,
{
    assert(f2.len() == f1.len());
    if j == i {
        let k1 = f1[i].0;
        let v1 = f1[i].1;
        let k2 = f1[i + 1].0;
        let v2 = f1[i + 1].1;
        assert(f2[i] == (k2, v2));
        assert(f2[i + 1] == (k1, v1));
        let ma = merge_event_field(merge_event_field(m, k1, v1), k2, v2);
        let mb = merge_event_field(merge_event_field(m, k2, v2), k1, v1);
        lemma_merge_commute(m, k1, v1, k2, v2);
        let m1a = merge_event_field(m, k1, v1);
        assert(merge_event_fields(m, f1, i) == merge_event_fields(m1a, f1, i + 1));
        assert(merge_event_fields(m1a, f1, i + 1) == merge_event_fields(
            merge_event_field(m1a, f1[i + 1].0, f1[i + 1].1),
            f1,
            i + 2,
        ));
        assert(merge_event_fields(m, f1, i) == merge_event_fields(ma, f1, i + 2));
        let m2a = merge_event_field(m, k2, v2);
        assert(merge_event_fields(m, f2, i) == merge_event_fields(m2a, f2, i + 1));
        assert(merge_event_fields(m2a, f2, i + 1) == merge_event_fields(
            merge_event_field(m2a, f2[i + 1].0, f2[i + 1].1),
            f2,
            i + 2,
        ));
        assert(merge_event_fields(m, f2, i) == merge_event_fields(mb, f2, i + 2));
        assert(forall|j2: int| i + 2 <= j2 < f1.len() ==> f1[j2] == f2[j2]);
        lemma_merge_preserves(ma, mb, f1, f2, i + 2);
    } else {
        assert(f2[j] == f1[j]);
        lemma_merge_swap_from(merge_event_field(m, f1[j].0, f1[j].1), f1, f2, i, j + 1);
    }
}

/// Attribute identity is independent of field insertion order: two events
/// that differ only by swapping two adjacent fields with distinct names —
/// whose values land under different attribute names, or not at all — have
/// the same record body and attribute mappings that agree on every name,
/// whatever the span context. (Where two fields land under the same
/// attribute name, the later one wins by the documented override order, and
/// this independence deliberately does not apply.)
pub proof fn lemma_attributes_order_independent(
    e1: Event,
    e2: Event,
    chain: Seq<SpanData>,
    thread_name: Seq<char>,
    i: int,
)
    requires
        base_attributes(e1, thread_name) == base_attributes(e2, thread_name),
        e1.is_span_boundary == e2.is_span_boundary,
        0 <= i,
        i + 1 < e1.fields@.len(),
        e2.fields@ == e1.fields@.update(i, e1.fields@[i + 1]).update(i + 1, e1.fields@[i]),
        e1.fields@[i].0 != e1.fields@[i + 1].0,
        rename_of(e1.fields@[i].0) != rename_of(e1.fields@[i + 1].0) || rename_of(
            e1.fields@[i].0,
        ) is None || rename_of(e1.fields@[i + 1].0) is None,
    ensures
        lookup_equal(
            otlp_attributes(e1, chain, thread_name),
            otlp_attributes(e2, chain, thread_name),
        ),
        body_of(e1.fields@) == body_of(e2.fields@),
{
    crate::json::lemma_swap_lookup(e1.fields@, i, "message"@);
    lemma_merge_swap_from(base_attributes(e1, thread_name), e1.fields@, e2.fields@, i, 0);
    let merged1 = merge_event_fields(base_attributes(e1, thread_name), e1.fields@, 0);
    let merged2 = merge_event_fields(base_attributes(e2, thread_name), e2.fields@, 0);
    if e1.is_span_boundary && chain.len() > 0 {
        lemma_span_merge_preserves(merged1, merged2, chain[0].fields@, 0);
    }
}

/// An output accumulator that adapts piecewise string writes onto one owned
/// buffer, handed to the caller whole on completion.
#[derive(Debug)]
pub struct WriteAdaptor {
    /// Everything written so far.
    pub buffer: String,
}

impl WriteAdaptor {
    /// An empty adaptor.
    pub fn new() -> (r: WriteAdaptor)
        ensures
            r.buffer@ == Seq::<char>::empty(),
    {
        WriteAdaptor { buffer: String::new() }
    }

    /// Appends `s` to the buffer.
    pub fn write_str(&mut self, s: &str)
        ensures
            final(self).buffer@ == old(self).buffer@ + s@,
    {
        self.buffer.append(s);
    }

    /// Flushing is a no-op: the buffer is already in its final place.
    pub fn flush(&mut self)
        ensures
            *final(self) == *old(self),
    {
    }

    /// Hands the accumulated buffer out.
    pub fn into_string(self) -> (r: String)
        ensures
            r@ == self.buffer@,
    {
        self.buffer
    }
}

} // verus!
