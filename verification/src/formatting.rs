//! The lifecycle coordinator: one function per span/event transition,
//! from plain state and notification values to the record to emit.
//!
//! The host runtime side — span tree lookup, extension slots, thread
//! identity, the sink — stays outside; each function here takes what
//! that side supplies as plain values and hands back the finished,
//! newline-terminated record.

use vstd::prelude::*;

use crate::host::now_rfc2822;
use crate::host::push_char;
use crate::storage::apply_fields;
use crate::storage::base_attrs;
use crate::storage::fields_view;
use crate::storage::obj_insert;
use crate::storage::SproutStorage;
use crate::util::spec_serialize_span;
use crate::util::serialize_span;
use crate::util::SpanMetadata;
use crate::util::ThreadInfo;
use crate::util::Type;
use crate::util::spec_record_fields;
use crate::value::lemma_line_single_newline;
use crate::value::whole_line;
use crate::value::JsonVal;
use crate::value::SpecVal;

verus! {

/// The formatting layer: the application identity stamped into every
/// record, and the per-transition record builders.
pub struct TrunkLayer {
    pub name: String,
    pub pid: u32,
}

/// Records a batch of fields on a store, first to last.
fn record_fields(storage: &mut SproutStorage, fields: &Vec<(String, JsonVal)>)
    requires
        old(storage).wf(),
    ensures
        final(storage).wf(),
        final(storage)@ == apply_fields(old(storage)@, fields_view(fields@)),
        final(storage).entered() == old(storage).entered(),
{
    let n = fields.len();
    let mut i: usize = 0;
    while i < n
        invariant
            n == fields@.len(),
            i <= n,
            storage.wf(),
            storage@ == apply_fields(old(storage)@, fields_view(fields@).take(i as int)),
            storage.entered() == old(storage).entered(),
        decreases n - i,
    {
        let f = &fields[i];
        storage.record_field(f.0.as_str(), f.1.duplicate());
        proof {
            assert(fields_view(fields@).take(i + 1).drop_last() =~= fields_view(fields@).take(
                i as int,
            ));
            let ghost fi = fields@[i as int];
            assert(fields_view(fields@).take(i + 1).last() == (fi.0@, fi.1@));
        }
        i = i + 1;
    }
    assert(fields_view(fields@).take(n as int) =~= fields_view(fields@));
}

/// The attribute set a new span starts from: its parent's snapshot
/// when it has a parent, the bare application identity otherwise.
pub open spec fn span_seed(
    layer: TrunkLayer,
    parent: Option<&SproutStorage>,
) -> crate::value::SpecObj {
    match parent {
        Some(p) => p@,
        None => base_attrs(layer.name@, layer.pid as u64),
    }
}

impl TrunkLayer {
    /// A new formatting layer for the application called `name`,
    /// running as process `pid`.
    pub fn new(name: String, pid: u32) -> (r: TrunkLayer)
        ensures
            r.name@ == name@,
            r.pid == pid,
    {
        TrunkLayer { name, pid }
    }

    /// A span was created: its store inherits the parent snapshot (or
    /// is freshly seeded), the creation-time fields are recorded over
    /// it, and an `Enter` record is built from the result.
    pub fn new_span(
        &self,
        parent: Option<&SproutStorage>,
        fields: &Vec<(String, JsonVal)>,
        metadata: &SpanMetadata,
        thread: &ThreadInfo,
    ) -> (r: (SproutStorage, String))
        requires
            match parent {
                Some(p) => p.wf(),
                None => true,
            },
        ensures
            r.0.wf(),
            !r.0.entered(),
            r.0@ == apply_fields(span_seed(*self, parent), fields_view(fields@)),
            exists|now: Seq<char>|
                r.1@ == spec_serialize_span(r.0@, *metadata, Type::Enter, now, *thread) + seq![
                    '\n',
                ],
            whole_line(r.1@),
    {
        let mut visitor = match parent {
            Some(p) => p.inherit(),
            None => SproutStorage::new(self.name.as_str(), self.pid),
        };
        record_fields(&mut visitor, fields);
        let now = now_rfc2822();
        let mut line = serialize_span(
            visitor.clone_attributes(),
            metadata,
            Type::Enter,
            now.as_str(),
            thread,
        );
        push_char(&mut line, '\n');
        assert(line@ == spec_serialize_span(visitor@, *metadata, Type::Enter, now@, *thread)
            + seq!['\n']);
        proof {
            lemma_line_single_newline(
                spec_record_fields(visitor@, *metadata, Type::Enter, now@, *thread),
            );
        }
        (visitor, line)
    }

    /// Fields were recorded on an existing span: fold them into its
    /// store. No record is emitted.
    pub fn on_record(&self, storage: &mut SproutStorage, fields: &Vec<(String, JsonVal)>)
        requires
            old(storage).wf(),
        ensures
            final(storage).wf(),
            final(storage)@ == apply_fields(old(storage)@, fields_view(fields@)),
            final(storage).entered() == old(storage).entered(),
    {
        record_fields(storage, fields);
    }

    /// The span became the active frame: start its timer. No record
    /// is emitted.
    pub fn on_enter(&self, storage: &mut SproutStorage)
        ensures
            final(storage)@ == old(storage)@,
            final(storage).entered(),
    {
        storage.mark_entered();
    }

    /// An event fired: snapshot the enclosing span's store (or seed a
    /// transient one), record the event fields, note the time since
    /// the span was entered when a timer runs, and build an `Event`
    /// record. The span's own timer is read, never consumed.
    pub fn on_event(
        &self,
        current: Option<&SproutStorage>,
        fields: &Vec<(String, JsonVal)>,
        metadata: &SpanMetadata,
        thread: &ThreadInfo,
    ) -> (r: String)
        requires
            match current {
                Some(c) => c.wf(),
                None => true,
            },
        ensures
            ({
                let a1 = apply_fields(span_seed(*self, current), fields_view(fields@));
                if match current {
                    Some(c) => c.entered(),
                    None => false,
                } {
                    exists|ms: u64, now: Seq<char>|
                        r@ == spec_serialize_span(
                            obj_insert(a1, "time_since_span_entered_ms"@, SpecVal::UInt(ms)),
                            *metadata,
                            Type::Event,
                            now,
                            *thread,
                        ) + seq!['\n']
                } else {
                    exists|now: Seq<char>|
                        r@ == spec_serialize_span(a1, *metadata, Type::Event, now, *thread) + seq![
                            '\n',
                        ]
                }
            }),
            whole_line(r@),
    {
        let mut visitor = match current {
            Some(c) => c.inherit(),
            None => SproutStorage::new(self.name.as_str(), self.pid),
        };
        record_fields(&mut visitor, fields);
        let elapsed: Option<u64> = match current {
            Some(c) => c.peek_elapsed_millis(),
            None => None,
        };
        let ghost a1 = visitor@;
        proof {
            assert(a1 == apply_fields(span_seed(*self, current), fields_view(fields@)));
        }
        let attr = match elapsed {
            Some(ms) => Some(JsonVal::UInt(ms)),
            None => None,
        };
        let _ = visitor.add_attribute_opt("time_since_span_entered_ms", attr);
        let now = now_rfc2822();
        let mut line = serialize_span(
            visitor.clone_attributes(),
            metadata,
            Type::Event,
            now.as_str(),
            thread,
        );
        push_char(&mut line, '\n');
        proof {
            if let Some(ms) = elapsed {
                assert(line@ == spec_serialize_span(
                    obj_insert(a1, "time_since_span_entered_ms"@, SpecVal::UInt(ms)),
                    *metadata,
                    Type::Event,
                    now@,
                    *thread,
                ) + seq!['\n']);
            } else {
                assert(line@ == spec_serialize_span(a1, *metadata, Type::Event, now@, *thread)
                    + seq!['\n']);
            }
            lemma_line_single_newline(
                spec_record_fields(visitor@, *metadata, Type::Event, now@, *thread),
            );
        }
        line
    }

    /// The span closed: consume its timer, note the elapsed time when
    /// one ran, and build the final `Exit` record. The store is of no
    /// further use afterwards.
    pub fn on_close(
        &self,
        storage: &mut SproutStorage,
        metadata: &SpanMetadata,
        thread: &ThreadInfo,
    ) -> (r: String)
        requires
            old(storage).wf(),
        ensures
            final(storage).wf(),
            !final(storage).entered(),
            if old(storage).entered() {
                exists|ms: u64|
                    final(storage)@ == obj_insert(
                        old(storage)@,
                        "elapsed_time_ms"@,
                        SpecVal::UInt(ms),
                    )
            } else {
                final(storage)@ == old(storage)@
            },
            exists|now: Seq<char>|
                r@ == spec_serialize_span(final(storage)@, *metadata, Type::Exit, now, *thread)
                    + seq!['\n'],
            whole_line(r@),
    {
        let elapsed = storage.take_elapsed_millis();
        let attr = match elapsed {
            Some(ms) => Some(JsonVal::UInt(ms)),
            None => None,
        };
        let _ = storage.add_attribute_opt("elapsed_time_ms", attr);
        let now = now_rfc2822();
        let mut line = serialize_span(
            storage.clone_attributes(),
            metadata,
            Type::Exit,
            now.as_str(),
            thread,
        );
        push_char(&mut line, '\n');
        assert(line@ == spec_serialize_span(storage@, *metadata, Type::Exit, now@, *thread) + seq![
            '\n',
        ]);
        proof {
            lemma_line_single_newline(
                spec_record_fields(storage@, *metadata, Type::Exit, now@, *thread),
            );
        }
        line
    }
}


} // verus!
