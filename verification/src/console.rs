//! The three console render strategies — compact, pretty and JSON lines —
//! and the span enter/close boundary lines.

use vstd::prelude::*;
use crate::json::{dec_int, json_string, render_jval, JVal};
use crate::otlp::{body_of, Event};
use crate::span::SpanData;
use crate::text::{chars_to_string, push_str_chars, str_eq};
use crate::json::push_json_value;

verus! {

/// Which textual form a console layer renders.
#[derive(Clone, Copy, Debug, PartialEq, Eq, Structural)]
pub enum LogFormat {
    Compact,
    Pretty,
    Json,
}

/// `n` spaces.
pub open spec fn spaces(n: nat) -> Seq<char>
    decreases n,
{
    if n == 0 {
        Seq::empty()
    } else {
        spaces((n - 1) as nat).push(' ')
    }
}

/// The `field=value` text of the fields from position `i` on, comma-joined,
/// skipping the `message` field; `first` says whether nothing stands before.
pub open spec fn compact_fields(fields: Seq<(Seq<char>, JVal)>, i: int, first: bool) -> Seq<char>
    decreases fields.len() - i,
{
    if i < 0 || i >= fields.len() {
        Seq::empty()
    } else if fields[i].0 == "message"@ {
        compact_fields(fields, i + 1, first)
    } else {
        (if first {
            Seq::<char>::empty()
        } else {
            ", "@
        }) + fields[i].0 + "="@ + render_jval(fields[i].1) + compact_fields(fields, i + 1, false)
    }
}

/// The compact form: one line,
/// `<level> <target>: <message> {field=value, ...}`, fields in insertion
/// order with `message` extracted up front.
pub open spec fn compact_line_spec(e: Event) -> Seq<char> {
    e.level.severity_text_spec() + " "@ + e.target@ + ": "@ + body_of(e.fields@) + " {"@
        + compact_fields(e.fields@, 0, true) + "}\n"@
}

/// The `"field":value` JSON members of the fields from position `i` on,
/// comma-joined, skipping the `message` field.
pub open spec fn json_fields(fields: Seq<(Seq<char>, JVal)>, i: int, first: bool) -> Seq<char>
    decreases fields.len() - i,
{
    if i < 0 || i >= fields.len() {
        Seq::empty()
    } else if fields[i].0 == "message"@ {
        json_fields(fields, i + 1, first)
    } else {
        (if first {
            Seq::<char>::empty()
        } else {
            ","@
        }) + json_string(fields[i].0) + ":"@ + render_jval(fields[i].1) + json_fields(
            fields,
            i + 1,
            false,
        )
    }
}

/// The JSON form: one object per line with the fixed keys `level`, `target`,
/// `message`, `fields` and `timestamp`.
pub open spec fn json_line_spec(e: Event, timestamp: int) -> Seq<char> {
    "{\"level\":"@ + json_string(e.level.severity_text_spec()) + ",\"target\":"@ + json_string(
        e.target@,
    ) + ",\"message\":"@ + json_string(body_of(e.fields@)) + ",\"fields\":{"@ + json_fields(
        e.fields@,
        0,
        true,
    ) + "},\"timestamp\":"@ + dec_int(timestamp) + "}\n"@
}

/// The field lines of the pretty form from position `i` on: each non-message
/// field on a line of its own as `<indent>field: value`.
pub open spec fn pretty_fields(fields: Seq<(Seq<char>, JVal)>, i: int, indent: Seq<char>) -> Seq<
    char,
>
    decreases fields.len() - i,
{
    if i < 0 || i >= fields.len() {
        Seq::empty()
    } else if fields[i].0 == "message"@ {
        pretty_fields(fields, i + 1, indent)
    } else {
        indent + fields[i].0 + ": "@ + render_jval(fields[i].1) + "\n"@ + pretty_fields(
            fields,
            i + 1,
            indent,
        )
    }
}

/// The pretty form: a header line indented two spaces per nesting depth,
/// then each field on its own further-indented line.
pub open spec fn pretty_lines_spec(e: Event, depth: nat) -> Seq<char> {
    spaces(2 * depth) + e.level.severity_text_spec() + " "@ + e.target@ + ": "@ + body_of(
        e.fields@,
    ) + "\n"@ + pretty_fields(e.fields@, 0, spaces(2 * depth + 2))
}

/// The line documenting a span's entry.
pub open spec fn enter_line_spec(s: SpanData) -> Seq<char> {
    s.level.severity_text_spec() + " "@ + s.target@ + ": "@ + s.name@ + " new\n"@
}

/// The line documenting a span's close.
pub open spec fn close_line_spec(s: SpanData) -> Seq<char> {
    s.level.severity_text_spec() + " "@ + s.target@ + ": "@ + s.name@ + " close\n"@
}

/// Space sequences concatenate: `a + b` spaces are `a` spaces then `b`.
pub proof fn lemma_spaces_add(a: nat, b: nat)
    ensures
        spaces(a + b) == spaces(a) + spaces(b),
    decreases b,
{
    if b == 0 {
        assert(spaces(a + 0) =~= spaces(a) + spaces(0));
    } else {
        lemma_spaces_add(a, (b - 1) as nat);
        assert(spaces(a + b) =~= spaces(a) + spaces(b));
    }
}

/// Appends `n` spaces to `out`.
fn push_spaces(out: &mut Vec<char>, n: usize)
    ensures
        final(out)@ == old(out)@ + spaces(n as nat),
{
    let mut i: usize = 0;
    while i < n
        invariant
            i <= n,
            out@ == old(out)@ + spaces(i as nat),
        decreases n - i,
    {
        out.push(' ');
        i = i + 1;
    }
}

/// Appends the message of `e` (its `message` field when it is a string) to
/// `out`.
fn push_body(out: &mut Vec<char>, e: &Event)
    ensures
        final(out)@ == old(out)@ + body_of(e.fields@),
{
    match e.fields.get("message") {
        Some(v) => match v {
            crate::json::JsonValue::Str(s) => {
                push_str_chars(out, s.as_str());
            },
            _ => {
                proof {
                    assert(old(out)@ + body_of(e.fields@) =~= old(out)@);
                }
            },
        },
        None => {
            proof {
                assert(old(out)@ + body_of(e.fields@) =~= old(out)@);
            }
        },
    }
}

/// The message of `e` as an owned string.
fn body_string(e: &Event) -> (r: String)
    ensures
        r@ == body_of(e.fields@),
{
    match e.fields.get("message") {
        Some(v) => match v {
            crate::json::JsonValue::Str(s) => s.clone(),
            _ => String::new(),
        },
        None => String::new(),
    }
}

/// Renders `e` in the compact form.
pub fn render_compact(e: &Event) -> (r: String)
    ensures
        r@ == compact_line_spec(*e),
{
    let mut out: Vec<char> = Vec::new();
    push_str_chars(&mut out, e.level.severity_text());
    push_str_chars(&mut out, " ");
    push_str_chars(&mut out, e.target.as_str());
    push_str_chars(&mut out, ": ");
    push_body(&mut out, e);
    push_str_chars(&mut out, " {");
    let ghost fields = e.fields@;
    let ghost head = out@;
    let n = e.fields.len();
    let mut i: usize = 0;
    let mut first: bool = true;
    while i < n
        invariant
            fields == e.fields@,
            n == fields.len(),
            i <= n,
            head + compact_fields(fields, 0, true) == out@ + compact_fields(
                fields,
                i as int,
                first,
            ),
        decreases n - i,
    {
        let entry = e.fields.entry_at(i);
        if str_eq(entry.0.as_str(), "message") {
        } else {
            if !first {
                push_str_chars(&mut out, ", ");
            }
            push_str_chars(&mut out, entry.0.as_str());
            push_str_chars(&mut out, "=");
            push_json_value(&mut out, &entry.1);
            first = false;
        }
        i = i + 1;
    }
    push_str_chars(&mut out, "}\n");
    proof {
        assert(out@ =~= compact_line_spec(*e));
    }
    chars_to_string(&out)
}

/// Renders `e` in the JSON form with the given timestamp.
pub fn render_json(e: &Event, timestamp_millis: i64) -> (r: String)
    ensures
        r@ == json_line_spec(*e, timestamp_millis as int),
{
    let mut out: Vec<char> = Vec::new();
    push_str_chars(&mut out, "{\"level\":");
    crate::json::push_json_string(&mut out, e.level.severity_text());
    push_str_chars(&mut out, ",\"target\":");
    crate::json::push_json_string(&mut out, e.target.as_str());
    push_str_chars(&mut out, ",\"message\":");
    let body = body_string(e);
    crate::json::push_json_string(&mut out, body.as_str());
    push_str_chars(&mut out, ",\"fields\":{");
    let ghost fields = e.fields@;
    let ghost head = out@;
    let n = e.fields.len();
    let mut i: usize = 0;
    let mut first: bool = true;
    while i < n
        invariant
            fields == e.fields@,
            n == fields.len(),
            i <= n,
            head + json_fields(fields, 0, true) == out@ + json_fields(fields, i as int, first),
        decreases n - i,
    {
        let entry = e.fields.entry_at(i);
        if str_eq(entry.0.as_str(), "message") {
        } else {
            if !first {
                push_str_chars(&mut out, ",");
            }
            crate::json::push_json_string(&mut out, entry.0.as_str());
            push_str_chars(&mut out, ":");
            push_json_value(&mut out, &entry.1);
            first = false;
        }
        i = i + 1;
    }
    push_str_chars(&mut out, "},\"timestamp\":");
    let mut ts = crate::json::i64_dec_chars(timestamp_millis);
    out.append(&mut ts);
    push_str_chars(&mut out, "}\n");
    proof {
        assert(out@ =~= json_line_spec(*e, timestamp_millis as int));
    }
    chars_to_string(&out)
}

/// Renders `e` in the pretty form, indented for nesting depth `depth`.
pub fn render_pretty(e: &Event, depth: usize) -> (r: String)
    ensures
        r@ == pretty_lines_spec(*e, depth as nat),
{
    let mut out: Vec<char> = Vec::new();
    push_spaces(&mut out, depth);
    push_spaces(&mut out, depth);
    proof {
        lemma_spaces_add(depth as nat, depth as nat);
        assert(out@ =~= spaces(2 * depth as nat));
    }
    push_str_chars(&mut out, e.level.severity_text());
    push_str_chars(&mut out, " ");
    push_str_chars(&mut out, e.target.as_str());
    push_str_chars(&mut out, ": ");
    push_body(&mut out, e);
    push_str_chars(&mut out, "\n");
    let mut indent_v: Vec<char> = Vec::new();
    push_spaces(&mut indent_v, depth);
    push_spaces(&mut indent_v, depth);
    push_spaces(&mut indent_v, 2);
    proof {
        lemma_spaces_add(depth as nat, depth as nat);
        lemma_spaces_add(2 * depth as nat, 2);
        assert(indent_v@ =~= spaces(2 * depth as nat + 2));
    }
    let indent = chars_to_string(&indent_v);
    let ghost ind = indent@;
    let ghost fields = e.fields@;
    let ghost head = out@;
    let n = e.fields.len();
    let mut i: usize = 0;
    while i < n
        invariant
            fields == e.fields@,
            ind == indent@,
            n == fields.len(),
            i <= n,
            head + pretty_fields(fields, 0, ind) == out@ + pretty_fields(fields, i as int, ind),
        decreases n - i,
    {
        let entry = e.fields.entry_at(i);
        if str_eq(entry.0.as_str(), "message") {
        } else {
            push_str_chars(&mut out, indent.as_str());
            push_str_chars(&mut out, entry.0.as_str());
            push_str_chars(&mut out, ": ");
            push_json_value(&mut out, &entry.1);
            push_str_chars(&mut out, "\n");
        }
        i = i + 1;
    }
    proof {
        assert(out@ =~= pretty_lines_spec(*e, depth as nat));
    }
    chars_to_string(&out)
}

/// Renders the boundary line for entering `s`.
pub fn render_span_enter(s: &SpanData) -> (r: String)
    ensures
        r@ == enter_line_spec(*s),
{
    let mut out: Vec<char> = Vec::new();
    push_str_chars(&mut out, s.level.severity_text());
    push_str_chars(&mut out, " ");
    push_str_chars(&mut out, s.target.as_str());
    push_str_chars(&mut out, ": ");
    push_str_chars(&mut out, s.name.as_str());
    push_str_chars(&mut out, " new\n");
    proof {
        assert(out@ =~= enter_line_spec(*s));
    }
    chars_to_string(&out)
}

/// Renders the boundary line for closing `s`.
pub fn render_span_close(s: &SpanData) -> (r: String)
    ensures
        r@ == close_line_spec(*s),
{
    let mut out: Vec<char> = Vec::new();
    push_str_chars(&mut out, s.level.severity_text());
    push_str_chars(&mut out, " ");
    push_str_chars(&mut out, s.target.as_str());
    push_str_chars(&mut out, ": ");
    push_str_chars(&mut out, s.name.as_str());
    push_str_chars(&mut out, " close\n");
    proof {
        assert(out@ =~= close_line_spec(*s));
    }
    chars_to_string(&out)
}

} // verus!
