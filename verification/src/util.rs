//! The serialization protocol: a pure transform from an attribute
//! snapshot, span metadata and a lifecycle kind to one compact JSON
//! document.

use vstd::prelude::*;
use vstd::string::StringExecFns;

use crate::host::to_upper;
use crate::host::upper_of;
use crate::storage::obj_get;
use crate::storage::obj_has_key;
use crate::storage::obj_insert;
use crate::storage::obj_remove;
use crate::storage::obj_wf;
use crate::storage::AttrObject;
use crate::value::render_record;
use crate::value::JsonVal;
use crate::value::SpecObj;
use crate::value::SpecVal;

verus! {

/// Which lifecycle transition a record stands for.
#[derive(Debug, Copy, Clone, PartialEq, Eq, Structural)]
pub enum Type {
    Enter,
    Event,
    Exit,
}

/// The wire name of each lifecycle kind.
pub open spec fn kind_str(t: Type) -> Seq<char> {
    match t {
        Type::Enter => "enter"@,
        Type::Event => "event"@,
        Type::Exit => "exit"@,
    }
}

/// The word each lifecycle kind contributes to the message field.
pub open spec fn kind_msg(t: Type) -> Seq<char> {
    match t {
        Type::Enter => "START"@,
        Type::Event => "EVENT"@,
        Type::Exit => "END"@,
    }
}

impl Type {
    pub fn as_str(&self) -> (r: &'static str)
        ensures
            r@ == kind_str(*self),
    {
        match *self {
            Type::Enter => "enter",
            Type::Event => "event",
            Type::Exit => "exit",
        }
    }

    pub fn as_msg(&self) -> (r: &'static str)
        ensures
            r@ == kind_msg(*self),
    {
        match *self {
            Type::Enter => "START",
            Type::Event => "EVENT",
            Type::Exit => "END",
        }
    }
}

/// The verbosity level a record was emitted at.
#[derive(Debug, Copy, Clone, PartialEq, Eq, Structural)]
pub enum Level {
    Trace,
    Debug,
    Info,
    Warn,
    Error,
}

/// The lowercase wire name of each level.
pub open spec fn level_str(l: Level) -> Seq<char> {
    match l {
        Level::Trace => "trace"@,
        Level::Debug => "debug"@,
        Level::Info => "info"@,
        Level::Warn => "warn"@,
        Level::Error => "error"@,
    }
}

pub fn level_as_str(level: &Level) -> (r: &'static str)
    ensures
        r@ == level_str(*level),
{
    match *level {
        Level::Trace => "trace",
        Level::Debug => "debug",
        Level::Info => "info",
        Level::Warn => "warn",
        Level::Error => "error",
    }
}

/// The levels that carry source-location and thread context: the
/// diagnostic tiers stay rich, INFO and WARN stay lean.
pub open spec fn is_diagnostic(l: Level) -> bool {
    l is Trace || l is Debug || l is Error
}

/// The read-only description of a span or event, as the host runtime
/// hands it over.
#[derive(Debug)]
pub struct SpanMetadata {
    pub level: Level,
    pub name: String,
    pub target: String,
    pub file: Option<String>,
    pub line: Option<u32>,
}

/// The identity of the emitting thread, as the host runtime hands it
/// over.
#[derive(Debug)]
pub struct ThreadInfo {
    pub id: String,
    pub name: Option<String>,
}

/// The message of an enter or exit record: the span name in capitals,
/// and whether the span starts or ends.
pub open spec fn spec_span_context(name: Seq<char>, t: Type) -> Seq<char> {
    match t {
        Type::Event => "["@ + kind_msg(t) + "]"@,
        _ => "["@ + upper_of(name) + " | "@ + kind_msg(t) + "]"@,
    }
}

/// The message of an event record: the recorded `message` attribute
/// when it is a string, else the metadata target.
pub open spec fn spec_event_msg(attrs: SpecObj, target: Seq<char>) -> Seq<char> {
    let m = match obj_get(attrs, "message"@) {
        Some(SpecVal::Str(s)) => s,
        _ => target,
    };
    "["@ + kind_msg(Type::Event) + "]"@ + " "@ + m
}

/// `[LOGIN_HANDLER | START]`, `[EVENT]`, and the like.
pub fn format_span_context(metadata: &SpanMetadata, span_type: Type) -> (r: String)
    ensures
        r@ == spec_span_context(metadata.name@, span_type),
{
    let mut r = String::new();
    r.append("[");
    match span_type {
        Type::Event => {},
        _ => {
            let u = to_upper(metadata.name.as_str());
            r.append(u.as_str());
            r.append(" | ");
        },
    }
    r.append(span_type.as_msg());
    r.append("]");
    assert(r@ =~= spec_span_context(metadata.name@, span_type));
    r
}

/// `[EVENT] Received request to log in.`, falling back to the target
/// when no message attribute was recorded.
pub fn format_event_message(metadata: &SpanMetadata, attributes: &AttrObject) -> (r: String)
    ensures
        r@ == spec_event_msg(attributes@, metadata.target@),
{
    let mut r = format_span_context(metadata, Type::Event);
    r.append(" ");
    let key = "message".to_owned();
    match attributes.get(&key) {
        Some(v) => match v {
            JsonVal::Str(s) => {
                let m = s.clone();
                r.append(m.as_str());
            },
            _ => r.append(metadata.target.as_str()),
        },
        None => r.append(metadata.target.as_str()),
    }
    assert(r@ =~= spec_event_msg(attributes@, metadata.target@));
    r
}

/// The core metadata every record carries, inserted over a snapshot:
/// time, message, level and target always; file, line and thread
/// identity at the diagnostic levels only.
pub open spec fn spec_core_fields(
    o: SpecObj,
    meta: SpanMetadata,
    msg: Seq<char>,
    now: Seq<char>,
    th: ThreadInfo,
) -> SpecObj {
    let o1 = obj_insert(o, "time"@, SpecVal::Str(now));
    let o2 = obj_insert(o1, "msg"@, SpecVal::Str(msg));
    let o3 = obj_insert(o2, "level"@, SpecVal::Str(level_str(meta.level)));
    let o4 = obj_insert(o3, "target"@, SpecVal::Str(meta.target@));
    if is_diagnostic(meta.level) {
        let o5 = match meta.file {
            Some(f) => obj_insert(o4, "file"@, SpecVal::Str(f@)),
            None => o4,
        };
        let o6 = match meta.line {
            Some(l) => obj_insert(o5, "line"@, SpecVal::UInt(l as u64)),
            None => o5,
        };
        let o7 = obj_insert(o6, "thread_id"@, SpecVal::Str(th.id@));
        obj_insert(
            o7,
            "thread_name"@,
            SpecVal::Str(
                match th.name {
                    Some(n) => n@,
                    None => Seq::empty(),
                },
            ),
        )
    } else {
        o4
    }
}

pub fn insert_core_fields(
    obj: &mut AttrObject,
    metadata: &SpanMetadata,
    msg: &str,
    now: &str,
    thread: &ThreadInfo,
)
    requires
        obj_wf(old(obj)@),
    ensures
        obj_wf(final(obj)@),
        final(obj)@ == spec_core_fields(old(obj)@, *metadata, msg@, now@, *thread),
{
    obj.insert("time".to_owned(), JsonVal::Str(now.to_owned()));
    obj.insert("msg".to_owned(), JsonVal::Str(msg.to_owned()));
    obj.insert("level".to_owned(), JsonVal::Str(level_as_str(&metadata.level).to_owned()));
    obj.insert("target".to_owned(), JsonVal::Str(metadata.target.clone()));
    let diagnostic = match metadata.level {
        Level::Trace | Level::Debug | Level::Error => true,
        _ => false,
    };
    if diagnostic {
        match &metadata.file {
            Some(f) => obj.insert("file".to_owned(), JsonVal::Str(f.clone())),
            None => {},
        }
        match &metadata.line {
            Some(l) => obj.insert("line".to_owned(), JsonVal::UInt(*l as u64)),
            None => {},
        }
        obj.insert("thread_id".to_owned(), JsonVal::Str(thread.id.clone()));
        let tname = match &thread.name {
            Some(n) => n.clone(),
            None => String::new(),
        };
        obj.insert("thread_name".to_owned(), JsonVal::Str(tname));
    }
}

/// The message of a record of kind `t`.
pub open spec fn record_msg(attrs: SpecObj, meta: SpanMetadata, t: Type) -> Seq<char> {
    match t {
        Type::Event => spec_event_msg(attrs, meta.target@),
        _ => spec_span_context(meta.name@, t),
    }
}

/// The full attribute set of one record: the snapshot, the core
/// fields, the lifecycle kind; any raw `message` attribute is dropped,
/// its content having been folded into `msg`.
pub open spec fn spec_record_fields(
    attrs: SpecObj,
    meta: SpanMetadata,
    t: Type,
    now: Seq<char>,
    th: ThreadInfo,
) -> SpecObj {
    let msg = record_msg(attrs, meta, t);
    let o = spec_core_fields(attrs, meta, msg, now, th);
    let o2 = obj_insert(o, "span_type"@, SpecVal::Str(kind_str(t)));
    obj_remove(o2, "message"@)
}

/// What the core-field pass leaves under each key: the injected
/// metadata under its own names, the snapshot's value everywhere else.
pub open spec fn core_field_at(
    o: SpecObj,
    meta: SpanMetadata,
    msg: Seq<char>,
    now: Seq<char>,
    th: ThreadInfo,
    q: Seq<char>,
) -> Option<SpecVal> {
    if q == "thread_name"@ && is_diagnostic(meta.level) {
        Some(
            SpecVal::Str(
                match th.name {
                    Some(n) => n@,
                    None => Seq::empty(),
                },
            ),
        )
    } else if q == "thread_id"@ && is_diagnostic(meta.level) {
        Some(SpecVal::Str(th.id@))
    } else if q == "line"@ && is_diagnostic(meta.level) {
        match meta.line {
            Some(l) => Some(SpecVal::UInt(l as u64)),
            None => obj_get(o, q),
        }
    } else if q == "file"@ && is_diagnostic(meta.level) {
        match meta.file {
            Some(f) => Some(SpecVal::Str(f@)),
            None => obj_get(o, q),
        }
    } else if q == "target"@ {
        Some(SpecVal::Str(meta.target@))
    } else if q == "level"@ {
        Some(SpecVal::Str(level_str(meta.level)))
    } else if q == "msg"@ {
        Some(SpecVal::Str(msg))
    } else if q == "time"@ {
        Some(SpecVal::Str(now))
    } else {
        obj_get(o, q)
    }
}

/// What a finished record holds under each key: no raw `message`, the
/// lifecycle kind under `span_type`, the core fields under their
/// names, and the snapshot's own attributes everywhere else.
pub open spec fn record_field_at(
    attrs: SpecObj,
    meta: SpanMetadata,
    t: Type,
    now: Seq<char>,
    th: ThreadInfo,
    q: Seq<char>,
) -> Option<SpecVal> {
    if q == "message"@ {
        None
    } else if q == "span_type"@ {
        Some(SpecVal::Str(kind_str(t)))
    } else {
        core_field_at(attrs, meta, record_msg(attrs, meta, t), now, th, q)
    }
}

/// The record key names are pairwise distinct; these shape facts let
/// the solver tell them apart.
proof fn record_key_facts()
    ensures
        "time"@.len() == 4,
        "msg"@.len() == 3,
        "level"@.len() == 5,
        "target"@.len() == 6,
        "file"@.len() == 4,
        "line"@.len() == 4,
        "thread_id"@.len() == 9,
        "thread_name"@.len() == 11,
        "span_type"@.len() == 9,
        "message"@.len() == 7,
        "elapsed_time_ms"@.len() == 15,
        "time_since_span_entered_ms"@.len() == 26,
        "file"@[0] == 'f',
        "line"@[0] == 'l',
        "time"@[0] == 't',
        "span_type"@[0] == 's',
        "thread_id"@[0] == 't',
{
    reveal_strlit("time");
    reveal_strlit("msg");
    reveal_strlit("level");
    reveal_strlit("target");
    reveal_strlit("file");
    reveal_strlit("line");
    reveal_strlit("thread_id");
    reveal_strlit("thread_name");
    reveal_strlit("span_type");
    reveal_strlit("message");
    reveal_strlit("elapsed_time_ms");
    reveal_strlit("time_since_span_entered_ms");
}

/// The core-field pass looked up key by key.
pub proof fn lemma_core_fields_get(
    o: SpecObj,
    meta: SpanMetadata,
    msg: Seq<char>,
    now: Seq<char>,
    th: ThreadInfo,
    q: Seq<char>,
)
    requires
        obj_wf(o),
    ensures
        obj_wf(spec_core_fields(o, meta, msg, now, th)),
        obj_get(spec_core_fields(o, meta, msg, now, th), q) == core_field_at(
            o,
            meta,
            msg,
            now,
            th,
            q,
        ),
{
    record_key_facts();
    let o1 = obj_insert(o, "time"@, SpecVal::Str(now));
    let o2 = obj_insert(o1, "msg"@, SpecVal::Str(msg));
    let o3 = obj_insert(o2, "level"@, SpecVal::Str(level_str(meta.level)));
    let o4 = obj_insert(o3, "target"@, SpecVal::Str(meta.target@));
    crate::storage::lemma_insert_get(o, "time"@, SpecVal::Str(now), q);
    crate::storage::lemma_insert_get(o1, "msg"@, SpecVal::Str(msg), q);
    crate::storage::lemma_insert_get(o2, "level"@, SpecVal::Str(level_str(meta.level)), q);
    crate::storage::lemma_insert_get(o3, "target"@, SpecVal::Str(meta.target@), q);
    if is_diagnostic(meta.level) {
        let o5 = match meta.file {
            Some(f) => obj_insert(o4, "file"@, SpecVal::Str(f@)),
            None => o4,
        };
        let o6 = match meta.line {
            Some(l) => obj_insert(o5, "line"@, SpecVal::UInt(l as u64)),
            None => o5,
        };
        if let Some(f) = meta.file {
            crate::storage::lemma_insert_get(o4, "file"@, SpecVal::Str(f@), q);
        }
        if let Some(l) = meta.line {
            crate::storage::lemma_insert_get(o5, "line"@, SpecVal::UInt(l as u64), q);
        }
        let tname = SpecVal::Str(
            match th.name {
                Some(n) => n@,
                None => Seq::empty(),
            },
        );
        let o7 = obj_insert(o6, "thread_id"@, SpecVal::Str(th.id@));
        crate::storage::lemma_insert_get(o6, "thread_id"@, SpecVal::Str(th.id@), q);
        crate::storage::lemma_insert_get(o7, "thread_name"@, tname, q);
        assert(spec_core_fields(o, meta, msg, now, th) == obj_insert(o7, "thread_name"@, tname));
    } else {
        assert(spec_core_fields(o, meta, msg, now, th) == o4);
    }
}

/// A finished record looked up key by key.
pub proof fn lemma_record_fields_get(
    attrs: SpecObj,
    meta: SpanMetadata,
    t: Type,
    now: Seq<char>,
    th: ThreadInfo,
    q: Seq<char>,
)
    requires
        obj_wf(attrs),
    ensures
        obj_wf(spec_record_fields(attrs, meta, t, now, th)),
        obj_get(spec_record_fields(attrs, meta, t, now, th), q) == record_field_at(
            attrs,
            meta,
            t,
            now,
            th,
            q,
        ),
{
    record_key_facts();
    let msg = record_msg(attrs, meta, t);
    let o = spec_core_fields(attrs, meta, msg, now, th);
    let o2 = obj_insert(o, "span_type"@, SpecVal::Str(kind_str(t)));
    lemma_core_fields_get(attrs, meta, msg, now, th, q);
    crate::storage::lemma_insert_get(o, "span_type"@, SpecVal::Str(kind_str(t)), q);
    crate::storage::lemma_remove_get(o2, "message"@, q);
    assert(spec_record_fields(attrs, meta, t, now, th) == obj_remove(o2, "message"@));
}

/// Level-gated metadata: a record at INFO or WARN never carries source
/// location or thread identity; a record at a diagnostic level carries
/// all four when the host supplied file and line — provided no user
/// attribute already sat under those names.
pub proof fn lemma_level_gated_metadata(
    attrs: SpecObj,
    meta: SpanMetadata,
    t: Type,
    now: Seq<char>,
    th: ThreadInfo,
)
    requires
        obj_wf(attrs),
        !obj_has_key(attrs, "file"@),
        !obj_has_key(attrs, "line"@),
        !obj_has_key(attrs, "thread_id"@),
        !obj_has_key(attrs, "thread_name"@),
    ensures
        !is_diagnostic(meta.level) ==> {
            &&& !obj_has_key(spec_record_fields(attrs, meta, t, now, th), "file"@)
            &&& !obj_has_key(spec_record_fields(attrs, meta, t, now, th), "line"@)
            &&& !obj_has_key(spec_record_fields(attrs, meta, t, now, th), "thread_id"@)
            &&& !obj_has_key(spec_record_fields(attrs, meta, t, now, th), "thread_name"@)
        },
        is_diagnostic(meta.level) && meta.file is Some && meta.line is Some ==> {
            &&& obj_has_key(spec_record_fields(attrs, meta, t, now, th), "file"@)
            &&& obj_has_key(spec_record_fields(attrs, meta, t, now, th), "line"@)
            &&& obj_has_key(spec_record_fields(attrs, meta, t, now, th), "thread_id"@)
            &&& obj_has_key(spec_record_fields(attrs, meta, t, now, th), "thread_name"@)
        },
{
    record_key_facts();
    lemma_record_fields_get(attrs, meta, t, now, th, "file"@);
    lemma_record_fields_get(attrs, meta, t, now, th, "line"@);
    lemma_record_fields_get(attrs, meta, t, now, th, "thread_id"@);
    lemma_record_fields_get(attrs, meta, t, now, th, "thread_name"@);
}

/// An exit record of a span that was never entered carries no
/// elapsed-time field — provided no user attribute sat under that
/// name.
pub proof fn lemma_exit_without_timer(
    attrs: SpecObj,
    meta: SpanMetadata,
    now: Seq<char>,
    th: ThreadInfo,
)
    requires
        obj_wf(attrs),
        !obj_has_key(attrs, "elapsed_time_ms"@),
    ensures
        !obj_has_key(spec_record_fields(attrs, meta, Type::Exit, now, th), "elapsed_time_ms"@),
{
    record_key_facts();
    lemma_record_fields_get(attrs, meta, Type::Exit, now, th, "elapsed_time_ms"@);
}

/// An exit record of a span whose timer ran carries the elapsed time
/// the timer reported.
pub proof fn lemma_exit_with_timer(
    attrs: SpecObj,
    meta: SpanMetadata,
    now: Seq<char>,
    th: ThreadInfo,
    ms: u64,
)
    requires
        obj_wf(attrs),
    ensures
        obj_get(
            spec_record_fields(
                obj_insert(attrs, "elapsed_time_ms"@, SpecVal::UInt(ms)),
                meta,
                Type::Exit,
                now,
                th,
            ),
            "elapsed_time_ms"@,
        ) == Some(SpecVal::UInt(ms)),
{
    record_key_facts();
    let with = obj_insert(attrs, "elapsed_time_ms"@, SpecVal::UInt(ms));
    crate::storage::lemma_insert_get(attrs, "elapsed_time_ms"@, SpecVal::UInt(ms), "elapsed_time_ms"@);
    lemma_record_fields_get(with, meta, Type::Exit, now, th, "elapsed_time_ms"@);
}

/// The JSON text of one record.
pub open spec fn spec_serialize_span(
    attrs: SpecObj,
    meta: SpanMetadata,
    t: Type,
    now: Seq<char>,
    th: ThreadInfo,
) -> Seq<char> {
    render_record(spec_record_fields(attrs, meta, t, now, th))
}

/// Serializes one record: computes the message, injects the core
/// fields and the kind, drops any raw `message` attribute, renders.
pub fn serialize_span(
    attributes: AttrObject,
    metadata: &SpanMetadata,
    span_type: Type,
    now: &str,
    thread: &ThreadInfo,
) -> (r: String)
    requires
        obj_wf(attributes@),
    ensures
        r@ == spec_serialize_span(attributes@, *metadata, span_type, now@, *thread),
{
    let mut attributes = attributes;
    let msg = match span_type {
        Type::Event => format_event_message(metadata, &attributes),
        _ => format_span_context(metadata, span_type),
    };
    insert_core_fields(&mut attributes, metadata, msg.as_str(), now, thread);
    attributes.insert("span_type".to_owned(), JsonVal::Str(span_type.as_str().to_owned()));
    attributes.remove(&"message".to_owned());
    attributes.to_json()
}

} // verus!
