use vstd::prelude::*;
use vstd::std_specs::cmp::PartialEqSpecImpl;

use crate::ffmpeg::seconds_text;
use crate::plan::SegmentKind;
use crate::text::{
    char_count, decimal, decimal_string, digit_char, join, opt_view, pad_left, pad_right, push_decimal,
    push_padded_left, push_padded_right, push_str,
};

verus! {

/// How progress is reported: readable lines, only the final line, or one JSON
/// object per line.
#[derive(Debug, Clone, Copy, PartialEq, Eq, Structural)]
pub enum LogMode {
    Text,
    Quiet,
    Json,
}

#[derive(Debug, Clone, Copy, PartialEq, Eq, Structural)]
pub enum SegmentStatus {
    Okay,
    Fail,
}

/// A progress event of a build.
#[derive(Debug, Clone)]
pub enum BuildEvent {
    Discover { units: usize, orphans: usize },
    Warn { message: String },
    Plan { segments: usize, total_ms: u64, summary: String },
    Segment {
        index: usize,
        total: usize,
        name: String,
        kind: SegmentKind,
        basename: Option<String>,
        duration_ms: u64,
        elapsed_ms: u64,
        status: SegmentStatus,
    },
    Concat { output: String, bytes: u64, duration_ms: u64 },
    Done { output: String, bytes: u64, duration_ms: u64, elapsed_ms: u64 },
}

impl PartialEq for BuildEvent {
    fn eq(&self, other: &Self) -> (res: bool) {
        match (self, other) {
            (
                BuildEvent::Discover { units: a, orphans: b },
                BuildEvent::Discover { units: c, orphans: d },
            ) => *a == *c && *b == *d,
            (BuildEvent::Warn { message: a }, BuildEvent::Warn { message: b }) => *a == *b,
            (
                BuildEvent::Plan { segments: a, total_ms: b, summary: c },
                BuildEvent::Plan { segments: d, total_ms: e, summary: f },
            ) => *a == *d && *b == *e && *c == *f,
            (
                BuildEvent::Segment {
                    index: a1,
                    total: a2,
                    name: a3,
                    kind: a4,
                    basename: a5,
                    duration_ms: a6,
                    elapsed_ms: a7,
                    status: a8,
                },
                BuildEvent::Segment {
                    index: b1,
                    total: b2,
                    name: b3,
                    kind: b4,
                    basename: b5,
                    duration_ms: b6,
                    elapsed_ms: b7,
                    status: b8,
                },
            ) => {
                let same_base = match (a5, b5) {
                    (Some(x), Some(y)) => *x == *y,
                    (None, None) => true,
                    _ => false,
                };
                *a1 == *b1 && *a2 == *b2 && *a3 == *b3 && *a4 == *b4 && same_base && *a6 == *b6
                    && *a7 == *b7 && *a8 == *b8
            },
            (
                BuildEvent::Concat { output: a, bytes: b, duration_ms: c },
                BuildEvent::Concat { output: d, bytes: e, duration_ms: f },
            ) => *a == *d && *b == *e && *c == *f,
            (
                BuildEvent::Done { output: a, bytes: b, duration_ms: c, elapsed_ms: d },
                BuildEvent::Done { output: e, bytes: f, duration_ms: g, elapsed_ms: h },
            ) => *a == *e && *b == *f && *c == *g && *d == *h,
            _ => false,
        }
    }
}

impl PartialEqSpecImpl for BuildEvent {
    open spec fn obeys_eq_spec() -> bool {
        true
    }

    open spec fn eq_spec(&self, other: &Self) -> bool {
        match (*self, *other) {
            (
                BuildEvent::Discover { units: a, orphans: b },
                BuildEvent::Discover { units: c, orphans: d },
            ) => a == c && b == d,
            (BuildEvent::Warn { message: a }, BuildEvent::Warn { message: b }) => a@ == b@,
            (
                BuildEvent::Plan { segments: a, total_ms: b, summary: c },
                BuildEvent::Plan { segments: d, total_ms: e, summary: f },
            ) => a == d && b == e && c@ == f@,
            (
                BuildEvent::Segment {
                    index: a1,
                    total: a2,
                    name: a3,
                    kind: a4,
                    basename: a5,
                    duration_ms: a6,
                    elapsed_ms: a7,
                    status: a8,
                },
                BuildEvent::Segment {
                    index: b1,
                    total: b2,
                    name: b3,
                    kind: b4,
                    basename: b5,
                    duration_ms: b6,
                    elapsed_ms: b7,
                    status: b8,
                },
            ) => a1 == b1 && a2 == b2 && a3@ == b3@ && a4 == b4 && opt_view(a5) == opt_view(b5)
                && a6 == b6 && a7 == b7 && a8 == b8,
            (
                BuildEvent::Concat { output: a, bytes: b, duration_ms: c },
                BuildEvent::Concat { output: d, bytes: e, duration_ms: f },
            ) => a@ == d@ && b == e && c == f,
            (
                BuildEvent::Done { output: a, bytes: b, duration_ms: c, elapsed_ms: d },
                BuildEvent::Done { output: e, bytes: f, duration_ms: g, elapsed_ms: h },
            ) => a@ == e@ && b == f && c == g && d == h,
            _ => false,
        }
    }
}

} // verus!

verus! {

/// A JSON scalar, as a field of a one-level JSON object.
#[derive(Debug, Clone)]
pub enum JsonScalar {
    Str(String),
    UInt(u64),
    Int(i64),
    Null,
}

/// A JSON scalar as a mathematical value.
pub enum JsonScalarModel {
    Str(Seq<char>),
    UInt(u64),
    Int(i64),
    Null,
}

impl View for JsonScalar {
    type V = JsonScalarModel;

    open spec fn view(&self) -> JsonScalarModel {
        match self {
            JsonScalar::Str(s) => JsonScalarModel::Str(s@),
            JsonScalar::UInt(n) => JsonScalarModel::UInt(*n),
            JsonScalar::Int(n) => JsonScalarModel::Int(*n),
            JsonScalar::Null => JsonScalarModel::Null,
        }
    }
}

/// A one-level JSON object: its keys and scalar values, in order.
#[derive(Debug, Clone)]
pub struct JsonObject {
    pub fields: Vec<(String, JsonScalar)>,
}

impl View for JsonObject {
    type V = Seq<(Seq<char>, JsonScalarModel)>;

    open spec fn view(&self) -> Seq<(Seq<char>, JsonScalarModel)> {
        self.fields@.map_values(|f: (String, JsonScalar)| (f.0@, f.1@))
    }
}

/// The lower-case hexadecimal digit of `d` (`0 <= d < 16`).
pub open spec fn hex_digit(d: nat) -> char {
    if d < 10 {
        digit_char(d)
    } else if d == 10 {
        'a'
    } else if d == 11 {
        'b'
    } else if d == 12 {
        'c'
    } else if d == 13 {
        'd'
    } else if d == 14 {
        'e'
    } else {
        'f'
    }
}

/// How one character stands inside a JSON string as serde_json writes it: a
/// quote and a backslash behind a backslash, backspace, form feed, newline,
/// carriage return and tab by their short escapes, the other control
/// characters below 0x20 as `\u00` and two hexadecimal digits, and every
/// other character as itself.
pub open spec fn json_char(c: char) -> Seq<char> {
    if c == '"' {
        seq!['\\', '"']
    } else if c == '\\' {
        seq!['\\', '\\']
    } else if c == '\u{8}' {
        seq!['\\', 'b']
    } else if c == '\u{c}' {
        seq!['\\', 'f']
    } else if c == '\n' {
        seq!['\\', 'n']
    } else if c == '\r' {
        seq!['\\', 'r']
    } else if c == '\t' {
        seq!['\\', 't']
    } else if (c as nat) < 0x20 {
        seq!['\\', 'u', '0', '0', hex_digit((c as nat) / 16), hex_digit((c as nat) % 16)]
    } else {
        seq![c]
    }
}

/// The characters of `s`, each as it stands inside a JSON string.
pub open spec fn json_escaped(s: Seq<char>) -> Seq<char>
    decreases s.len(),
{
    if s.len() == 0 {
        Seq::empty()
    } else {
        json_escaped(s.drop_last()) + json_char(s.last())
    }
}

/// `s` as a JSON string.
pub open spec fn json_string(s: Seq<char>) -> Seq<char> {
    seq!['"'] + json_escaped(s) + seq!['"']
}

/// A scalar as JSON text: a string, a number in decimal, or `null`.
pub open spec fn json_scalar_text(v: JsonScalarModel) -> Seq<char> {
    match v {
        JsonScalarModel::Str(s) => json_string(s),
        JsonScalarModel::UInt(n) => decimal(n as nat),
        JsonScalarModel::Int(n) => if n < 0 {
            seq!['-'] + decimal((-n) as nat)
        } else {
            decimal(n as nat)
        },
        JsonScalarModel::Null => "null"@,
    }
}

/// The first position of key `k` among `fields`, or -1.
pub open spec fn key_position(fields: Seq<(Seq<char>, JsonScalarModel)>, k: Seq<char>) -> int
    decreases fields.len(),
{
    if fields.len() == 0 {
        -1
    } else if key_position(fields.drop_last(), k) >= 0 {
        key_position(fields.drop_last(), k)
    } else if fields.last().0 == k {
        fields.len() - 1
    } else {
        -1
    }
}

/// The members of an object into which `fields` were inserted one by one: a
/// repeated key keeps the place where it first came and takes the value that
/// came last.
pub open spec fn object_members(fields: Seq<(Seq<char>, JsonScalarModel)>) -> Seq<
    (Seq<char>, JsonScalarModel),
>
    decreases fields.len(),
{
    if fields.len() == 0 {
        Seq::empty()
    } else {
        let m = object_members(fields.drop_last());
        let f = fields.last();
        let at = key_position(m, f.0);
        if at >= 0 {
            m.update(at, f)
        } else {
            m.push(f)
        }
    }
}

/// One member of an object as JSON text: the key as a string, a colon, the value.
pub open spec fn json_member(f: (Seq<char>, JsonScalarModel)) -> Seq<char> {
    json_string(f.0) + seq![':'] + json_scalar_text(f.1)
}

/// The compact JSON text of an object with these fields: braces around its
/// members, separated by commas, with no space anywhere.
pub open spec fn json_object_text(fields: Seq<(Seq<char>, JsonScalarModel)>) -> Seq<char> {
    seq!['{'] + join(
        object_members(fields).map_values(|f: (Seq<char>, JsonScalarModel)| json_member(f)),
        seq![','],
    ) + seq!['}']
}

/// Writes the object with `serde_json`: each field is inserted in turn into
/// an order-keeping `serde_json::Map` (the crate's `preserve_order` feature,
/// where inserting a present key keeps its place and replaces its value),
/// which is then written by `serde_json::Value`'s `Display` in its compact
/// form. The contract takes that text to be `json_object_text`.
#[verifier::external_body]
fn json_object_line(obj: &JsonObject) -> (line: String)
    ensures
        line@ == json_object_text(obj@),
{
    let mut map = serde_json::Map::new();
    for (key, value) in obj.fields.iter() {
        let value = match value {
            JsonScalar::Str(s) => serde_json::Value::String(s.clone()),
            JsonScalar::UInt(n) => serde_json::Value::from(*n),
            JsonScalar::Int(n) => serde_json::Value::from(*n),
            JsonScalar::Null => serde_json::Value::Null,
        };
        map.insert(key.clone(), value);
    }
    serde_json::Value::Object(map).to_string()
}

pub open spec fn kind_label(kind: SegmentKind) -> Seq<char> {
    match kind {
        SegmentKind::LeadIn => "lead-in"@,
        SegmentKind::Unit => "unit"@,
        SegmentKind::Gap => "gap"@,
        SegmentKind::Tail => "tail"@,
    }
}

/// The name of a segment kind, as in logs and JSON.
pub fn segment_kind_label(kind: SegmentKind) -> (s: String)
    ensures
        s@ == kind_label(kind),
{
    match kind {
        SegmentKind::LeadIn => "lead-in".to_string(),
        SegmentKind::Unit => "unit".to_string(),
        SegmentKind::Gap => "gap".to_string(),
        SegmentKind::Tail => "tail".to_string(),
    }
}

pub open spec fn status_label(status: SegmentStatus) -> Seq<char> {
    match status {
        SegmentStatus::Okay => "ok"@,
        SegmentStatus::Fail => "fail"@,
    }
}

fn segment_status_label(status: SegmentStatus) -> (s: String)
    ensures
        s@ == status_label(status),
{
    match status {
        SegmentStatus::Okay => "ok".to_string(),
        SegmentStatus::Fail => "fail".to_string(),
    }
}

pub open spec fn str_field(key: Seq<char>, value: Seq<char>) -> (Seq<char>, JsonScalarModel) {
    (key, JsonScalarModel::Str(value))
}

pub open spec fn num_field(key: Seq<char>, value: u64) -> (Seq<char>, JsonScalarModel) {
    (key, JsonScalarModel::UInt(value))
}

/// The fields of an event's JSON line: `phase` names the event, then its
/// fields in declaration order.
pub open spec fn event_fields(e: BuildEvent) -> Seq<(Seq<char>, JsonScalarModel)> {
    match e {
        BuildEvent::Discover { units, orphans } => seq![
            str_field("phase"@, "discover"@),
            num_field("units"@, units as u64),
            num_field("orphans"@, orphans as u64),
        ],
        BuildEvent::Warn { message } => seq![
            str_field("phase"@, "warn"@),
            str_field("message"@, message@),
        ],
        BuildEvent::Plan { segments, total_ms, summary } => seq![
            str_field("phase"@, "plan"@),
            num_field("segments"@, segments as u64),
            num_field("total_ms"@, total_ms),
            str_field("summary"@, summary@),
        ],
        BuildEvent::Segment {
            index,
            total,
            name,
            kind,
            basename,
            duration_ms,
            elapsed_ms,
            status,
        } => seq![
            str_field("phase"@, "segment"@),
            num_field("index"@, index as u64),
            num_field("total"@, total as u64),
            str_field("name"@, name@),
            str_field("kind"@, kind_label(kind)),
            match basename {
                Some(b) => str_field("basename"@, b@),
                None => ("basename"@, JsonScalarModel::Null),
            },
            num_field("duration_ms"@, duration_ms),
            num_field("elapsed_ms"@, elapsed_ms),
            str_field("status"@, status_label(status)),
        ],
        BuildEvent::Concat { output, bytes, duration_ms } => seq![
            str_field("phase"@, "concat"@),
            str_field("output"@, output@),
            num_field("bytes"@, bytes),
            num_field("duration_ms"@, duration_ms),
        ],
        BuildEvent::Done { output, bytes, duration_ms, elapsed_ms } => seq![
            str_field("phase"@, "done"@),
            str_field("output"@, output@),
            num_field("bytes"@, bytes),
            num_field("duration_ms"@, duration_ms),
            num_field("elapsed_ms"@, elapsed_ms),
        ],
    }
}

fn str_entry(key: &str, value: String) -> (f: (String, JsonScalar))
    ensures
        (f.0@, f.1@) == str_field(key@, value@),
{
    (key.to_string(), JsonScalar::Str(value))
}

fn num_entry(key: &str, value: u64) -> (f: (String, JsonScalar))
    ensures
        (f.0@, f.1@) == num_field(key@, value),
{
    (key.to_string(), JsonScalar::UInt(value))
}

/// The JSON object of an event.
pub fn event_json(e: &BuildEvent) -> (obj: JsonObject)
    ensures
        obj@ == event_fields(*e),
{
    let fields = match e {
        BuildEvent::Discover { units, orphans } => vec![
            str_entry("phase", "discover".to_string()),
            num_entry("units", *units as u64),
            num_entry("orphans", *orphans as u64),
        ],
        BuildEvent::Warn { message } => vec![
            str_entry("phase", "warn".to_string()),
            str_entry("message", message.clone()),
        ],
        BuildEvent::Plan { segments, total_ms, summary } => vec![
            str_entry("phase", "plan".to_string()),
            num_entry("segments", *segments as u64),
            num_entry("total_ms", *total_ms),
            str_entry("summary", summary.clone()),
        ],
        BuildEvent::Segment {
            index,
            total,
            name,
            kind,
            basename,
            duration_ms,
            elapsed_ms,
            status,
        } => vec![
            str_entry("phase", "segment".to_string()),
            num_entry("index", *index as u64),
            num_entry("total", *total as u64),
            str_entry("name", name.clone()),
            str_entry("kind", segment_kind_label(*kind)),
            match basename {
                Some(b) => str_entry("basename", b.clone()),
                None => ("basename".to_string(), JsonScalar::Null),
            },
            num_entry("duration_ms", *duration_ms),
            num_entry("elapsed_ms", *elapsed_ms),
            str_entry("status", segment_status_label(*status)),
        ],
        BuildEvent::Concat { output, bytes, duration_ms } => vec![
            str_entry("phase", "concat".to_string()),
            str_entry("output", output.clone()),
            num_entry("bytes", *bytes),
            num_entry("duration_ms", *duration_ms),
        ],
        BuildEvent::Done { output, bytes, duration_ms, elapsed_ms } => vec![
            str_entry("phase", "done".to_string()),
            str_entry("output", output.clone()),
            num_entry("bytes", *bytes),
            num_entry("duration_ms", *duration_ms),
            num_entry("elapsed_ms", *elapsed_ms),
        ],
    };
    let obj = JsonObject { fields };
    assert(obj@ =~= event_fields(*e));
    obj
}

} // verus!

verus! {

/// A count of tenths as `whole.tenth`, such as `47.2`.
pub open spec fn tenths_text(t: nat) -> Seq<char> {
    decimal(t / 10) + "."@ + decimal(t % 10)
}

/// Milliseconds as seconds rounded to the nearest tenth (halves up).
pub open spec fn seconds_tenths(ms: nat) -> Seq<char> {
    tenths_text(ms / 100 + if ms % 100 >= 50 { 1nat } else { 0nat })
}

/// Bytes as mebibytes rounded to the nearest tenth (halves up).
pub open spec fn mebibytes_tenths(bytes: nat) -> Seq<char> {
    tenths_text((bytes * 10 + 524288) / 1048576)
}

fn push_tenths(out: &mut String, t: u64)
    ensures
        final(out)@ == old(out)@ + tenths_text(t as nat),
{
    push_decimal(out, t / 10);
    push_str(out, ".");
    push_decimal(out, t % 10);
}

pub fn push_seconds_tenths(out: &mut String, ms: u64)
    ensures
        final(out)@ == old(out)@ + seconds_tenths(ms as nat),
{
    let t = ms / 100 + if ms % 100 >= 50 { 1 } else { 0 };
    push_tenths(out, t);
}

fn push_mebibytes_tenths(out: &mut String, bytes: u64)
    ensures
        final(out)@ == old(out)@ + mebibytes_tenths(bytes as nat),
{
    let t: u128 = ((bytes as u128) * 10 + 524288) / 1048576;
    assert(t <= u64::MAX) by (nonlinear_arith)
        requires
            t == (bytes * 10 + 524288) / 1048576,
            bytes <= u64::MAX,
    ;
    push_tenths(out, t as u64);
}

/// The readable line of an event.
pub open spec fn text_line(e: BuildEvent) -> Seq<char> {
    match e {
        BuildEvent::Discover { units, orphans } => "[discover] "@ + decimal(units as nat)
            + " units ("@ + decimal(orphans as nat) + " orphans skipped)"@,
        BuildEvent::Warn { message } => "WARN "@ + message@,
        BuildEvent::Plan { segments, total_ms, summary } => "[plan]     "@ + decimal(
            segments as nat,
        ) + " segments ("@ + summary@ + ") total "@ + seconds_tenths(total_ms as nat) + "s"@,
        BuildEvent::Segment {
            index,
            total,
            name,
            kind,
            basename,
            duration_ms,
            elapsed_ms,
            status,
        } => "[build]    ["@ + pad_left(decimal(index as nat), decimal(total as nat).len())
            + "/"@ + decimal(total as nat) + "] "@ + name@ + " "@ + pad_right(
            segment_label(kind, opt_view(basename)),
            20,
        ) + " "@ + seconds_text(duration_ms as nat) + "s ... "@ + status_label(status) + " ("@
            + seconds_tenths(elapsed_ms as nat) + "s)"@,
        BuildEvent::Concat { output, bytes, duration_ms } => "[concat]   "@ + output@ + " ("@
            + mebibytes_tenths(bytes as nat) + "MB, "@ + seconds_tenths(duration_ms as nat)
            + "s)"@,
        BuildEvent::Done { elapsed_ms, .. } => "done in "@ + seconds_tenths(elapsed_ms as nat)
            + "s"@,
    }
}

/// What a segment line says of the segment: its kind, and the unit's
/// basename for a unit.
pub open spec fn segment_label(kind: SegmentKind, basename: Option<Seq<char>>) -> Seq<char> {
    kind_label(kind) + match basename {
        Some(b) => " "@ + b,
        None => Seq::empty(),
    }
}

/// The one line that quiet mode prints for a finished build.
pub open spec fn quiet_done_line(output: Seq<char>, bytes: u64, duration_ms: u64) -> Seq<char> {
    "done: "@ + output + " ("@ + mebibytes_tenths(bytes as nat) + "MB, "@ + seconds_tenths(
        duration_ms as nat,
    ) + "s)"@
}

/// What goes to standard output for an event in a mode.
pub open spec fn stdout_line(mode: LogMode, e: BuildEvent) -> Option<Seq<char>> {
    match mode {
        LogMode::Json => Some(json_object_text(event_fields(e))),
        LogMode::Text => match e {
            BuildEvent::Warn { .. } => None,
            _ => Some(text_line(e)),
        },
        LogMode::Quiet => match e {
            BuildEvent::Done { output, bytes, duration_ms, .. } => Some(
                quiet_done_line(output@, bytes, duration_ms),
            ),
            _ => None,
        },
    }
}

/// What goes to standard error for an event in a mode: warnings, outside JSON mode.
pub open spec fn stderr_line(mode: LogMode, e: BuildEvent) -> Option<Seq<char>> {
    match mode {
        LogMode::Json => None,
        _ => match e {
            BuildEvent::Warn { .. } => Some(text_line(e)),
            _ => None,
        },
    }
}

fn text_line_of(e: &BuildEvent) -> (s: String)
    ensures
        s@ == text_line(*e),
{
    let mut out = String::new();
    match e {
        BuildEvent::Discover { units, orphans } => {
            push_str(&mut out, "[discover] ");
            push_decimal(&mut out, *units as u64);
            push_str(&mut out, " units (");
            push_decimal(&mut out, *orphans as u64);
            push_str(&mut out, " orphans skipped)");
        },
        BuildEvent::Warn { message } => {
            push_str(&mut out, "WARN ");
            push_str(&mut out, message.as_str());
        },
        BuildEvent::Plan { segments, total_ms, summary } => {
            push_str(&mut out, "[plan]     ");
            push_decimal(&mut out, *segments as u64);
            push_str(&mut out, " segments (");
            push_str(&mut out, summary.as_str());
            push_str(&mut out, ") total ");
            push_seconds_tenths(&mut out, *total_ms);
            push_str(&mut out, "s");
        },
        BuildEvent::Segment {
            index,
            total,
            name,
            kind,
            basename,
            duration_ms,
            elapsed_ms,
            status,
        } => {
            push_str(&mut out, "[build]    [");
            let idx = decimal_string(*index as u64);
            let tot = decimal_string(*total as u64);
            push_padded_left(&mut out, idx.as_str(), char_count(tot.as_str()));
            push_str(&mut out, "/");
            push_str(&mut out, tot.as_str());
            push_str(&mut out, "] ");
            push_str(&mut out, name.as_str());
            push_str(&mut out, " ");
            let mut label = segment_kind_label(*kind);
            let ghost kind_text = label@;
            match basename {
                Some(b) => {
                    push_str(&mut label, " ");
                    push_str(&mut label, b.as_str());
                },
                None => {
                    assert(label@ =~= kind_text + Seq::<char>::empty());
                },
            }
            push_padded_right(&mut out, label.as_str(), 20);
            push_str(&mut out, " ");
            let secs = crate::ffmpeg::format_seconds(*duration_ms);
            push_str(&mut out, secs.as_str());
            push_str(&mut out, "s ... ");
            let st = segment_status_label(*status);
            push_str(&mut out, st.as_str());
            push_str(&mut out, " (");
            push_seconds_tenths(&mut out, *elapsed_ms);
            push_str(&mut out, "s)");
        },
        BuildEvent::Concat { output, bytes, duration_ms } => {
            push_str(&mut out, "[concat]   ");
            push_str(&mut out, output.as_str());
            push_str(&mut out, " (");
            push_mebibytes_tenths(&mut out, *bytes);
            push_str(&mut out, "MB, ");
            push_seconds_tenths(&mut out, *duration_ms);
            push_str(&mut out, "s)");
        },
        BuildEvent::Done { elapsed_ms, .. } => {
            push_str(&mut out, "done in ");
            push_seconds_tenths(&mut out, *elapsed_ms);
            push_str(&mut out, "s");
        },
    }
    assert(out@ =~= text_line(*e));
    out
}

/// The line an event prints on standard output in a mode, if any: every
/// event but warnings in text mode, only the final line in quiet mode, and
/// every event as one JSON object in JSON mode.
pub fn format_event_stdout(mode: LogMode, event: &BuildEvent) -> (line: Option<String>)
    ensures
        opt_view(line) == stdout_line(mode, *event),
{
    match mode {
        LogMode::Json => Some(json_object_line(&event_json(event))),
        LogMode::Text => match event {
            BuildEvent::Warn { .. } => None,
            _ => Some(text_line_of(event)),
        },
        LogMode::Quiet => match event {
            BuildEvent::Done { output, bytes, duration_ms, .. } => {
                let mut out = String::new();
                push_str(&mut out, "done: ");
                push_str(&mut out, output.as_str());
                push_str(&mut out, " (");
                push_mebibytes_tenths(&mut out, *bytes);
                push_str(&mut out, "MB, ");
                push_seconds_tenths(&mut out, *duration_ms);
                push_str(&mut out, "s)");
                assert(out@ =~= quiet_done_line(output@, *bytes, *duration_ms));
                Some(out)
            },
            _ => None,
        },
    }
}

/// The line an event prints on standard error in a mode, if any: warnings,
/// in text and quiet mode.
pub fn format_event_stderr(mode: LogMode, event: &BuildEvent) -> (line: Option<String>)
    ensures
        opt_view(line) == stderr_line(mode, *event),
{
    match mode {
        LogMode::Json => None,
        _ => match event {
            BuildEvent::Warn { .. } => Some(text_line_of(event)),
            _ => None,
        },
    }
}

/// The fields of the JSON line of an error.
pub open spec fn error_fields(message: Seq<char>, code: i32) -> Seq<(Seq<char>, JsonScalarModel)> {
    seq![
        str_field("phase"@, "error"@),
        ("code"@, JsonScalarModel::Int(code as i64)),
        str_field("message"@, message),
    ]
}

/// The line of a failed run: `[error] <message>`, or a JSON object with the
/// exit code and the message in JSON mode.
pub open spec fn error_line(mode: LogMode, message: Seq<char>, code: i32) -> Seq<char> {
    match mode {
        LogMode::Json => json_object_text(error_fields(message, code)),
        _ => "[error] "@ + message,
    }
}

pub fn format_error(mode: LogMode, message: &str, code: i32) -> (line: String)
    ensures
        line@ == error_line(mode, message@, code),
{
    match mode {
        LogMode::Json => {
            let obj = JsonObject {
                fields: vec![
                    str_entry("phase", "error".to_string()),
                    ("code".to_string(), JsonScalar::Int(code as i64)),
                    str_entry("message", message.to_string()),
                ],
            };
            assert(obj@ =~= error_fields(message@, code));
            json_object_line(&obj)
        },
        _ => {
            let mut out = String::new();
            push_str(&mut out, "[error] ");
            push_str(&mut out, message);
            out
        },
    }
}

} // verus!

verus! {

/// An event as a mathematical value.
pub enum EventModel {
    Discover { units: usize, orphans: usize },
    Warn { message: Seq<char> },
    Plan { segments: usize, total_ms: u64, summary: Seq<char> },
    Segment {
        index: usize,
        total: usize,
        name: Seq<char>,
        kind: SegmentKind,
        basename: Option<Seq<char>>,
        duration_ms: u64,
        elapsed_ms: u64,
        status: SegmentStatus,
    },
    Concat { output: Seq<char>, bytes: u64, duration_ms: u64 },
    Done { output: Seq<char>, bytes: u64, duration_ms: u64, elapsed_ms: u64 },
}

impl View for BuildEvent {
    type V = EventModel;

    open spec fn view(&self) -> EventModel {
        match self {
            BuildEvent::Discover { units, orphans } => EventModel::Discover {
                units: *units,
                orphans: *orphans,
            },
            BuildEvent::Warn { message } => EventModel::Warn { message: message@ },
            BuildEvent::Plan { segments, total_ms, summary } => EventModel::Plan {
                segments: *segments,
                total_ms: *total_ms,
                summary: summary@,
            },
            BuildEvent::Segment {
                index,
                total,
                name,
                kind,
                basename,
                duration_ms,
                elapsed_ms,
                status,
            } => EventModel::Segment {
                index: *index,
                total: *total,
                name: name@,
                kind: *kind,
                basename: opt_view(*basename),
                duration_ms: *duration_ms,
                elapsed_ms: *elapsed_ms,
                status: *status,
            },
            BuildEvent::Concat { output, bytes, duration_ms } => EventModel::Concat {
                output: output@,
                bytes: *bytes,
                duration_ms: *duration_ms,
            },
            BuildEvent::Done { output, bytes, duration_ms, elapsed_ms } => EventModel::Done {
                output: output@,
                bytes: *bytes,
                duration_ms: *duration_ms,
                elapsed_ms: *elapsed_ms,
            },
        }
    }
}

pub open spec fn event_views(v: Seq<BuildEvent>) -> Seq<EventModel> {
    v.map_values(|e: BuildEvent| e@)
}

} // verus!

verus! {

/// `fields` has a member named `key`, and every member of that name holds `v`.
pub open spec fn carries(fields: Seq<(Seq<char>, JsonScalarModel)>, key: Seq<char>, v: JsonScalarModel) -> bool {
    &&& exists|i: int| 0 <= i < fields.len() && #[trigger] fields[i].0 == key
    &&& forall|i: int| 0 <= i < fields.len() && #[trigger] fields[i].0 == key ==> fields[i].1 == v
}

/// No two members of `fields` share a key.
pub open spec fn distinct_keys(fields: Seq<(Seq<char>, JsonScalarModel)>) -> bool {
    forall|i: int, j: int| 0 <= i < j < fields.len() ==> #[trigger] fields[i].0 != #[trigger] fields[j].0
}

proof fn lemma_key_position(s: Seq<(Seq<char>, JsonScalarModel)>, k: Seq<char>)
    ensures
        key_position(s, k) == -1 <==> forall|i: int| 0 <= i < s.len() ==> #[trigger] s[i].0 != k,
        key_position(s, k) >= 0 ==> key_position(s, k) < s.len() && s[key_position(s, k)].0 == k,
        key_position(s, k) >= -1,
    decreases s.len(),
{
    if s.len() > 0 {
        let d = s.drop_last();
        lemma_key_position(d, k);
        assert(forall|i: int| 0 <= i < d.len() ==> d[i] == s[i]);
        if key_position(d, k) == -1 && s.last().0 != k {
            assert forall|i: int| 0 <= i < s.len() implies #[trigger] s[i].0 != k by {
                if i < d.len() {
                    assert(d[i].0 != k);
                }
            }
        }
    }
}

proof fn lemma_members_of_distinct(f: Seq<(Seq<char>, JsonScalarModel)>)
    requires
        distinct_keys(f),
    ensures
        object_members(f) == f,
    decreases f.len(),
{
    if f.len() > 0 {
        let d = f.drop_last();
        assert(distinct_keys(d)) by {
            assert forall|i: int, j: int| 0 <= i < j < d.len() implies #[trigger] d[i].0
                != #[trigger] d[j].0 by {
                assert(d[i] == f[i] && d[j] == f[j]);
            }
        }
        lemma_members_of_distinct(d);
        lemma_key_position(d, f.last().0);
        assert forall|i: int| 0 <= i < d.len() implies #[trigger] d[i].0 != f.last().0 by {
            assert(d[i] == f[i]);
            assert(f[i].0 != f[f.len() - 1].0);
        }
        assert(d.push(f.last()) =~= f);
    }
}

proof fn lemma_carries(f: Seq<(Seq<char>, JsonScalarModel)>, i: int, key: Seq<char>, v: JsonScalarModel)
    requires
        distinct_keys(f),
        0 <= i < f.len(),
        f[i] == (key, v),
    ensures
        carries(f, key, v),
{
    assert(f[i].0 == key);
    assert forall|j: int| 0 <= j < f.len() && #[trigger] f[j].0 == key implies f[j].1 == v by {
        if j < i {
            assert(f[j].0 != f[i].0);
        } else if j > i {
            assert(f[i].0 != f[j].0);
        }
    }
}

/// What the JSON line of an event says: its keys are all different, so the
/// object has exactly these members, and each member carries the event's
/// field of the same name (`phase` naming the kind of event).
pub proof fn law_event_json_fields(e: BuildEvent)
    ensures
        object_members(event_fields(e)) == event_fields(e),
        match e {
            BuildEvent::Discover { units, orphans } => {
                let f = event_fields(e);
                &&& f.len() == 3
                &&& carries(f, "phase"@, JsonScalarModel::Str("discover"@))
                &&& carries(f, "units"@, JsonScalarModel::UInt(units as u64))
                &&& carries(f, "orphans"@, JsonScalarModel::UInt(orphans as u64))
            },
            BuildEvent::Warn { message } => {
                let f = event_fields(e);
                &&& f.len() == 2
                &&& carries(f, "phase"@, JsonScalarModel::Str("warn"@))
                &&& carries(f, "message"@, JsonScalarModel::Str(message@))
            },
            BuildEvent::Plan { segments, total_ms, summary } => {
                let f = event_fields(e);
                &&& f.len() == 4
                &&& carries(f, "phase"@, JsonScalarModel::Str("plan"@))
                &&& carries(f, "segments"@, JsonScalarModel::UInt(segments as u64))
                &&& carries(f, "total_ms"@, JsonScalarModel::UInt(total_ms))
                &&& carries(f, "summary"@, JsonScalarModel::Str(summary@))
            },
            BuildEvent::Segment {
                index,
                total,
                name,
                kind,
                basename,
                duration_ms,
                elapsed_ms,
                status,
            } => {
                let f = event_fields(e);
                &&& f.len() == 9
                &&& carries(f, "phase"@, JsonScalarModel::Str("segment"@))
                &&& carries(f, "index"@, JsonScalarModel::UInt(index as u64))
                &&& carries(f, "total"@, JsonScalarModel::UInt(total as u64))
                &&& carries(f, "name"@, JsonScalarModel::Str(name@))
                &&& carries(f, "kind"@, JsonScalarModel::Str(kind_label(kind)))
                &&& carries(
                    f,
                    "basename"@,
                    match basename {
                        Some(b) => JsonScalarModel::Str(b@),
                        None => JsonScalarModel::Null,
                    },
                )
                &&& carries(f, "duration_ms"@, JsonScalarModel::UInt(duration_ms))
                &&& carries(f, "elapsed_ms"@, JsonScalarModel::UInt(elapsed_ms))
                &&& carries(f, "status"@, JsonScalarModel::Str(status_label(status)))
            },
            BuildEvent::Concat { output, bytes, duration_ms } => {
                let f = event_fields(e);
                &&& f.len() == 4
                &&& carries(f, "phase"@, JsonScalarModel::Str("concat"@))
                &&& carries(f, "output"@, JsonScalarModel::Str(output@))
                &&& carries(f, "bytes"@, JsonScalarModel::UInt(bytes))
                &&& carries(f, "duration_ms"@, JsonScalarModel::UInt(duration_ms))
            },
            BuildEvent::Done { output, bytes, duration_ms, elapsed_ms } => {
                let f = event_fields(e);
                &&& f.len() == 5
                &&& carries(f, "phase"@, JsonScalarModel::Str("done"@))
                &&& carries(f, "output"@, JsonScalarModel::Str(output@))
                &&& carries(f, "bytes"@, JsonScalarModel::UInt(bytes))
                &&& carries(f, "duration_ms"@, JsonScalarModel::UInt(duration_ms))
                &&& carries(f, "elapsed_ms"@, JsonScalarModel::UInt(elapsed_ms))
            },
        },
{
    reveal_strlit("phase");
    reveal_strlit("units");
    reveal_strlit("orphans");
    reveal_strlit("message");
    reveal_strlit("segments");
    reveal_strlit("total_ms");
    reveal_strlit("summary");
    reveal_strlit("index");
    reveal_strlit("total");
    reveal_strlit("name");
    reveal_strlit("kind");
    reveal_strlit("basename");
    reveal_strlit("duration_ms");
    reveal_strlit("elapsed_ms");
    reveal_strlit("status");
    reveal_strlit("output");
    reveal_strlit("bytes");
    let f = event_fields(e);
    assert(distinct_keys(f)) by {
        assert forall|i: int, j: int| 0 <= i < j < f.len() implies #[trigger] f[i].0
            != #[trigger] f[j].0 by {
            let a = f[i].0;
            let b = f[j].0;
            if a.len() == b.len() {
                assert(a[0] != b[0] || a[1] != b[1] || a[2] != b[2]);
            }
        }
    }
    lemma_members_of_distinct(f);
    match e {
        BuildEvent::Discover { .. } => {
            lemma_carries(f, 0, f[0].0, f[0].1);
            lemma_carries(f, 1, f[1].0, f[1].1);
            lemma_carries(f, 2, f[2].0, f[2].1);
        },
        BuildEvent::Warn { .. } => {
            lemma_carries(f, 0, f[0].0, f[0].1);
            lemma_carries(f, 1, f[1].0, f[1].1);
        },
        BuildEvent::Plan { .. } => {
            lemma_carries(f, 0, f[0].0, f[0].1);
            lemma_carries(f, 1, f[1].0, f[1].1);
            lemma_carries(f, 2, f[2].0, f[2].1);
            lemma_carries(f, 3, f[3].0, f[3].1);
        },
        BuildEvent::Segment { .. } => {
            lemma_carries(f, 0, f[0].0, f[0].1);
            lemma_carries(f, 1, f[1].0, f[1].1);
            lemma_carries(f, 2, f[2].0, f[2].1);
            lemma_carries(f, 3, f[3].0, f[3].1);
            lemma_carries(f, 4, f[4].0, f[4].1);
            lemma_carries(f, 5, f[5].0, f[5].1);
            lemma_carries(f, 6, f[6].0, f[6].1);
            lemma_carries(f, 7, f[7].0, f[7].1);
            lemma_carries(f, 8, f[8].0, f[8].1);
        },
        BuildEvent::Concat { .. } => {
            lemma_carries(f, 0, f[0].0, f[0].1);
            lemma_carries(f, 1, f[1].0, f[1].1);
            lemma_carries(f, 2, f[2].0, f[2].1);
            lemma_carries(f, 3, f[3].0, f[3].1);
        },
        BuildEvent::Done { .. } => {
            lemma_carries(f, 0, f[0].0, f[0].1);
            lemma_carries(f, 1, f[1].0, f[1].1);
            lemma_carries(f, 2, f[2].0, f[2].1);
            lemma_carries(f, 3, f[3].0, f[3].1);
            lemma_carries(f, 4, f[4].0, f[4].1);
        },
    }
}

} // verus!
