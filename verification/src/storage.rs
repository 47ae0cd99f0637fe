//! The per-span attribute store: an ordered JSON object plus an
//! optional entered-at timestamp.

use vstd::prelude::*;
use vstd::string::StrSliceExecFns;

use crate::error::SproutError;
use crate::host::duration_millis;
use crate::host::instant_elapsed;
use crate::host::instant_now;
use crate::host::push_char;
use crate::value::append_json_string;
use crate::value::append_val;
use crate::value::render_entries;
use crate::value::render_record;
use crate::value::JsonVal;
use crate::value::SpecObj;
use crate::value::SpecVal;

verus! {

/// The position of the entry holding key `k`, or `-1` when no entry
/// does. Always the first match, though a well-formed object has at
/// most one.
pub open spec fn obj_key_idx(o: SpecObj, k: Seq<char>) -> int
    decreases o.len(),
{
    if o.len() == 0 {
        -1
    } else if o[0].0 == k {
        0
    } else {
        let r = obj_key_idx(o.drop_first(), k);
        if r < 0 {
            -1
        } else {
            r + 1
        }
    }
}

pub open spec fn obj_has_key(o: SpecObj, k: Seq<char>) -> bool {
    obj_key_idx(o, k) >= 0
}

pub open spec fn obj_get(o: SpecObj, k: Seq<char>) -> Option<SpecVal> {
    if obj_has_key(o, k) {
        Some(o[obj_key_idx(o, k)].1)
    } else {
        None
    }
}

/// Insertion into the object: an existing key keeps its place and gets
/// the new value; a fresh key goes to the end.
pub open spec fn obj_insert(o: SpecObj, k: Seq<char>, v: SpecVal) -> SpecObj {
    if obj_has_key(o, k) {
        o.update(obj_key_idx(o, k), (k, v))
    } else {
        o.push((k, v))
    }
}

pub open spec fn obj_remove(o: SpecObj, k: Seq<char>) -> SpecObj {
    if obj_has_key(o, k) {
        o.remove(obj_key_idx(o, k))
    } else {
        o
    }
}

/// Well-formedness: no key occurs twice.
pub open spec fn obj_wf(o: SpecObj) -> bool {
    forall|i: int, j: int| 0 <= i < j < o.len() ==> o[i].0 != o[j].0
}

pub proof fn lemma_key_idx_props(o: SpecObj, k: Seq<char>)
    ensures
        -1 <= obj_key_idx(o, k) < o.len(),
        obj_key_idx(o, k) >= 0 ==> o[obj_key_idx(o, k)].0 == k,
        forall|j: int| 0 <= j < obj_key_idx(o, k) ==> o[j].0 != k,
        obj_key_idx(o, k) < 0 ==> forall|j: int| 0 <= j < o.len() ==> o[j].0 != k,
    decreases o.len(),
{
    if o.len() == 0 {
    } else if o[0].0 == k {
    } else {
        lemma_key_idx_props(o.drop_first(), k);
        if obj_key_idx(o, k) < 0 {
            assert forall|j: int| 0 <= j < o.len() implies o[j].0 != k by {
                if j > 0 {
                    assert(o.drop_first()[j - 1] == o[j]);
                }
            }
        } else {
            assert forall|j: int| 0 <= j < obj_key_idx(o, k) implies o[j].0 != k by {
                if j > 0 {
                    assert(o.drop_first()[j - 1] == o[j]);
                }
            }
        }
    }
}

/// The first entry matching `k` is where `obj_key_idx` points.
pub proof fn lemma_key_idx_first(o: SpecObj, k: Seq<char>, i: int)
    requires
        0 <= i < o.len(),
        o[i].0 == k,
        forall|j: int| 0 <= j < i ==> o[j].0 != k,
    ensures
        obj_key_idx(o, k) == i,
    decreases o.len(),
{
    if i == 0 {
    } else {
        assert(o[0].0 != k);
        assert(o.drop_first()[i - 1] == o[i]);
        assert forall|j: int| 0 <= j < i - 1 implies o.drop_first()[j].0 != k by {
            assert(o.drop_first()[j] == o[j + 1]);
        }
        lemma_key_idx_first(o.drop_first(), k, i - 1);
    }
}

/// What insertion does to lookups: the inserted key now holds the new
/// value, every other key is untouched. Well-formedness survives.
pub proof fn lemma_insert_get(o: SpecObj, k: Seq<char>, v: SpecVal, q: Seq<char>)
    requires
        obj_wf(o),
    ensures
        obj_wf(obj_insert(o, k, v)),
        obj_get(obj_insert(o, k, v), q) == if q == k {
            Some(v)
        } else {
            obj_get(o, q)
        },
{
    lemma_key_idx_props(o, k);
    lemma_key_idx_props(o, q);
    let o2 = obj_insert(o, k, v);
    if obj_has_key(o, k) {
        let i = obj_key_idx(o, k);
        assert(forall|j: int| 0 <= j < o2.len() ==> o2[j].0 == o[j].0);
        assert(obj_wf(o2));
        if q == k {
            lemma_key_idx_first(o2, k, i);
        } else {
            if obj_has_key(o, q) {
                let jq = obj_key_idx(o, q);
                lemma_key_idx_first(o2, q, jq);
                assert(o2[jq].1 == o[jq].1);
            } else {
                lemma_key_idx_props(o2, q);
            }
        }
    } else {
        let n = o.len();
        assert forall|a: int, b: int| 0 <= a < b < o2.len() implies o2[a].0 != o2[b].0 by {
            if b == n {
                assert(o2[a].0 == o[a].0);
            }
        }
        if q == k {
            lemma_key_idx_first(o2, k, n as int);
        } else {
            if obj_has_key(o, q) {
                let jq = obj_key_idx(o, q);
                lemma_key_idx_first(o2, q, jq);
                assert(o2[jq].1 == o[jq].1);
            } else {
                lemma_key_idx_props(o2, q);
            }
        }
    }
}

/// What removal does to lookups: the removed key is gone, every other
/// key is untouched. Well-formedness survives.
pub proof fn lemma_remove_get(o: SpecObj, k: Seq<char>, q: Seq<char>)
    requires
        obj_wf(o),
    ensures
        obj_wf(obj_remove(o, k)),
        obj_get(obj_remove(o, k), q) == if q == k {
            None::<SpecVal>
        } else {
            obj_get(o, q)
        },
{
    lemma_key_idx_props(o, k);
    lemma_key_idx_props(o, q);
    if !obj_has_key(o, k) {
        return ;
    }
    let i = obj_key_idx(o, k);
    let o2 = obj_remove(o, k);
    assert(forall|j: int| 0 <= j < i ==> o2[j] == o[j]);
    assert(forall|j: int| i <= j < o2.len() ==> o2[j] == o[j + 1]);
    assert forall|a: int, b: int| 0 <= a < b < o2.len() implies o2[a].0 != o2[b].0 by {
        let a1: int = if a < i { a } else { a + 1 };
        let b1: int = if b < i { b } else { b + 1 };
        assert(o2[a] == o[a1] && o2[b] == o[b1]);
    }
    if q == k {
        assert forall|j: int| 0 <= j < o2.len() implies o2[j].0 != k by {
            if j >= i {
                assert(o2[j] == o[j + 1]);
                assert(o[i].0 != o[j + 1].0);
            }
        }
        lemma_key_idx_props(o2, k);
    } else {
        if obj_has_key(o, q) {
            let jq = obj_key_idx(o, q);
            if jq < i {
                lemma_key_idx_first(o2, q, jq);
            } else {
                assert(jq != i);
                assert(o2[jq - 1] == o[jq]);
                assert forall|j: int| 0 <= j < jq - 1 implies o2[j].0 != q by {
                    if j >= i {
                        assert(o2[j] == o[j + 1]);
                    }
                }
                lemma_key_idx_first(o2, q, jq - 1);
            }
        } else {
            assert forall|j: int| 0 <= j < o2.len() implies o2[j].0 != q by {
                if j >= i {
                    assert(o2[j] == o[j + 1]);
                }
            }
            lemma_key_idx_props(o2, q);
        }
    }
}

/// An ordered string-keyed JSON object with unique keys.
#[derive(Debug, PartialEq, Eq)]
pub struct AttrObject {
    entries: Vec<(String, JsonVal)>,
}

impl View for AttrObject {
    type V = SpecObj;

    closed spec fn view(&self) -> SpecObj {
        Seq::new(self.entries@.len(), |i: int| (self.entries@[i].0@, self.entries@[i].1@))
    }
}

impl AttrObject {
    pub fn empty() -> (r: AttrObject)
        ensures
            r@ == Seq::<(Seq<char>, SpecVal)>::empty(),
            obj_wf(r@),
    {
        let r = AttrObject { entries: Vec::new() };
        assert(r@ =~= Seq::<(Seq<char>, SpecVal)>::empty());
        r
    }

    fn find(&self, key: &String) -> (r: Option<usize>)
        ensures
            match r {
                Some(i) => i < self@.len() && obj_key_idx(self@, key@) == i,
                None => obj_key_idx(self@, key@) == -1,
            },
    {
        let n = self.entries.len();
        let mut i: usize = 0;
        while i < n
            invariant
                n == self.entries@.len(),
                self@.len() == n,
                i <= n,
                forall|j: int| 0 <= j < i ==> self@[j].0 != key@,
            decreases n - i,
        {
            if self.entries[i].0 == *key {
                proof {
                    assert(self@[i as int].0 == key@);
                    lemma_key_idx_first(self@, key@, i as int);
                }
                return Some(i);
            }
            assert(self@[i as int].0 != key@);
            i = i + 1;
        }
        proof {
            lemma_key_idx_props(self@, key@);
        }
        None
    }

    /// Inserts or overwrites: an existing key keeps its position, a
    /// fresh key is appended.
    pub fn insert(&mut self, key: String, value: JsonVal)
        requires
            obj_wf(old(self)@),
        ensures
            final(self)@ == obj_insert(old(self)@, key@, value@),
            obj_wf(final(self)@),
    {
        proof {
            lemma_key_idx_props(self@, key@);
        }
        match self.find(&key) {
            Some(i) => {
                self.entries[i] = (key, value);
                assert(self@ =~= obj_insert(old(self)@, key@, value@));
            },
            None => {
                self.entries.push((key, value));
                assert(self@ =~= obj_insert(old(self)@, key@, value@));
                assert forall|i: int, j: int| 0 <= i < j < self@.len() implies self@[i].0
                    != self@[j].0 by {
                    if j == self@.len() - 1 {
                        assert(self@[i] == old(self)@[i]);
                    }
                }
            },
        }
    }

    /// Removes the entry under `key`, if one exists.
    pub fn remove(&mut self, key: &String)
        requires
            obj_wf(old(self)@),
        ensures
            final(self)@ == obj_remove(old(self)@, key@),
            obj_wf(final(self)@),
    {
        match self.find(key) {
            Some(i) => {
                self.entries.remove(i);
                assert(self@ =~= obj_remove(old(self)@, key@));
            },
            None => {
                assert(self@ =~= obj_remove(old(self)@, key@));
            },
        }
    }

    /// The value under `key`, if any.
    pub fn get(&self, key: &String) -> (r: Option<&JsonVal>)
        ensures
            match r {
                Some(v) => obj_get(self@, key@) == Some(v@),
                None => obj_get(self@, key@) is None,
            },
    {
        match self.find(key) {
            Some(i) => Some(&self.entries[i].1),
            None => None,
        }
    }

    /// An independent deep copy holding the same entries.
    pub fn duplicate(&self) -> (r: AttrObject)
        ensures
            r@ == self@,
    {
        let n = self.entries.len();
        let mut out: Vec<(String, JsonVal)> = Vec::new();
        let mut i: usize = 0;
        while i < n
            invariant
                n == self.entries@.len(),
                i <= n,
                out@.len() == i,
                forall|j: int|
                    0 <= j < i ==> (out@[j].0@, out@[j].1@) == (
                        self.entries@[j].0@,
                        self.entries@[j].1@,
                    ),
            decreases n - i,
        {
            let e = &self.entries[i];
            out.push((e.0.clone(), e.1.duplicate()));
            i = i + 1;
        }
        let r = AttrObject { entries: out };
        assert(r@ =~= self@);
        r
    }

    /// Renders the object as one compact JSON document.
    pub fn to_json(&self) -> (r: String)
        ensures
            r@ == render_record(self@),
    {
        let n = self.entries.len();
        let mut out = String::new();
        push_char(&mut out, '{');
        assert(out@ =~= seq!['{'] + render_entries(self@.take(0)));
        let mut i: usize = 0;
        while i < n
            invariant
                n == self.entries@.len(),
                self@.len() == n,
                i <= n,
                out@ == seq!['{'] + render_entries(self@.take(i as int)),
            decreases n - i,
        {
            let ghost pre = out@;
            if i > 0 {
                push_char(&mut out, ',');
            }
            let e = &self.entries[i];
            append_json_string(&mut out, e.0.as_str());
            push_char(&mut out, ':');
            append_val(&mut out, &e.1);
            proof {
                assert(self@[i as int] == (self.entries@[i as int].0@, self.entries@[i as int].1@));
                assert(self@.take(i + 1).drop_last() =~= self@.take(i as int));
                assert(self@.take(i + 1).last() == self@[i as int]);
                if i == 0 {
                    assert(out@ =~= seq!['{'] + render_entries(self@.take(1)));
                } else {
                    assert(out@ =~= seq!['{'] + render_entries(self@.take(i + 1)));
                }
            }
            i = i + 1;
        }
        push_char(&mut out, '}');
        assert(self@.take(n as int) =~= self@);
        assert(out@ =~= seq!['{'] + render_entries(self@) + seq!['}']);
        out
    }
}

/// Idempotent snapshotting: `clone_attributes` promises a copy whose
/// entries are exactly the store's, so two snapshots taken without an
/// intervening mutation are equal objects — and each is independently
/// owned by construction.
pub proof fn lemma_snapshot_idempotent(s: &SproutStorage, a: SpecObj, b: SpecObj)
    requires
        a == s@,
        b == s@,
    ensures
        a == b,
{
}

/// True of field names the store silently drops: they duplicate log
/// metadata injected elsewhere.
pub open spec fn is_log_key(name: Seq<char>) -> bool {
    name.len() >= 4 && name.take(4) == "log."@
}

/// Strips a raw-identifier escape prefix from a field name.
pub open spec fn strip_raw(name: Seq<char>) -> Seq<char> {
    if name.len() >= 2 && name.take(2) == "r#"@ {
        name.skip(2)
    } else {
        name
    }
}

/// One field-recording step: drop `log.`-prefixed names, strip a raw
/// prefix, insert the rest.
pub open spec fn record_step(o: SpecObj, name: Seq<char>, v: SpecVal) -> SpecObj {
    if is_log_key(name) {
        o
    } else {
        obj_insert(o, strip_raw(name), v)
    }
}

/// Recording a whole batch of fields, first to last.
pub open spec fn apply_fields(o: SpecObj, fs: Seq<(Seq<char>, SpecVal)>) -> SpecObj
    decreases fs.len(),
{
    if fs.len() == 0 {
        o
    } else {
        record_step(apply_fields(o, fs.drop_last()), fs.last().0, fs.last().1)
    }
}

/// Whether some field in the batch lands on key `k` after filtering
/// and prefix-stripping.
pub open spec fn touches(fs: Seq<(Seq<char>, SpecVal)>, k: Seq<char>) -> bool {
    exists|i: int| 0 <= i < fs.len() && !is_log_key(fs[i].0) && strip_raw(fs[i].0) == k
}

/// The value the last field landing on `k` carries. Meaningful only
/// when some field touches `k`.
pub open spec fn last_field_val(fs: Seq<(Seq<char>, SpecVal)>, k: Seq<char>) -> SpecVal
    decreases fs.len(),
{
    if fs.len() == 0 {
        arbitrary()
    } else if !is_log_key(fs.last().0) && strip_raw(fs.last().0) == k {
        fs.last().1
    } else {
        last_field_val(fs.drop_last(), k)
    }
}

/// Inheritance and collision: after recording a batch of fields over a
/// parent snapshot, a key some field landed on holds the last such
/// field's value — the child wins — while every key no field landed on
/// keeps the parent's value, so parent-only keys survive.
pub proof fn lemma_inheritance(parent: SpecObj, fs: Seq<(Seq<char>, SpecVal)>, k: Seq<char>)
    requires
        obj_wf(parent),
    ensures
        obj_wf(apply_fields(parent, fs)),
        touches(fs, k) ==> obj_get(apply_fields(parent, fs), k) == Some(last_field_val(fs, k)),
        !touches(fs, k) ==> obj_get(apply_fields(parent, fs), k) == obj_get(parent, k),
    decreases fs.len(),
{
    if fs.len() == 0 {
    } else {
        lemma_inheritance(parent, fs.drop_last(), k);
        let prev = apply_fields(parent, fs.drop_last());
        let f = fs.last();
        let rest = fs.drop_last();
        if is_log_key(f.0) || strip_raw(f.0) != k {
            assert(touches(fs, k) == touches(rest, k)) by {
                if touches(rest, k) {
                    let i = choose|i: int|
                        0 <= i < rest.len() && !is_log_key(rest[i].0) && strip_raw(rest[i].0) == k;
                    assert(fs[i] == rest[i]);
                    assert(touches(fs, k));
                }
                if touches(fs, k) {
                    let i = choose|i: int|
                        0 <= i < fs.len() && !is_log_key(fs[i].0) && strip_raw(fs[i].0) == k;
                    assert(i < fs.len() - 1);
                    assert(rest[i] == fs[i]);
                    assert(touches(rest, k));
                }
            }
        } else {
            assert(0 <= fs.len() - 1 < fs.len() && !is_log_key(fs[fs.len() - 1].0) && strip_raw(
                fs[fs.len() - 1].0,
            ) == k);
            assert(touches(fs, k));
        }
        if !is_log_key(f.0) {
            lemma_insert_get(prev, strip_raw(f.0), f.1, k);
        }
    }
}

/// The character-sequence shape of a batch of recorded fields.
pub open spec fn fields_view(fs: Seq<(String, JsonVal)>) -> Seq<(Seq<char>, SpecVal)> {
    Seq::new(fs.len(), |i: int| (fs[i].0@, fs[i].1@))
}

/// The attribute seed every store starts from: the application's
/// identity and its process id.
pub open spec fn base_attrs(name: Seq<char>, pid: u64) -> SpecObj {
    obj_insert(
        obj_insert(Seq::empty(), "app_name"@, SpecVal::Str(name)),
        "pid"@,
        SpecVal::UInt(pid),
    )
}

/// The attribute state a span carries while open: its accumulated
/// key/value attributes and, while the span is the active frame, the
/// instant it was entered.
#[derive(Debug)]
pub struct SproutStorage {
    pub(crate) attributes: AttrObject,
    pub(crate) entered_at: Option<std::time::Instant>,
}

impl View for SproutStorage {
    type V = SpecObj;

    closed spec fn view(&self) -> SpecObj {
        self.attributes@
    }
}

impl SproutStorage {
    pub open spec fn wf(&self) -> bool {
        obj_wf(self@)
    }

    /// Whether the span is currently the active frame: its timer runs.
    pub closed spec fn entered(&self) -> bool {
        self.entered_at is Some
    }

    /// A fresh store seeded with exactly the application identity
    /// fields; no timer runs.
    pub fn new(name: &str, pid: u32) -> (r: SproutStorage)
        ensures
            r@ == base_attrs(name@, pid as u64),
            r.wf(),
            !r.entered(),
    {
        let mut attributes = AttrObject::empty();
        attributes.insert("app_name".to_owned(), JsonVal::Str(name.to_owned()));
        attributes.insert("pid".to_owned(), JsonVal::UInt(pid as u64));
        SproutStorage { attributes, entered_at: None }
    }

    /// The inheritable snapshot: the attributes carry over, the timer
    /// never does.
    pub fn inherit(&self) -> (r: SproutStorage)
        ensures
            r@ == self@,
            !r.entered(),
    {
        SproutStorage { attributes: self.attributes.duplicate(), entered_at: None }
    }

    /// An independent copy of the current attributes, safe to mutate
    /// without affecting the store.
    pub fn clone_attributes(&self) -> (r: AttrObject)
        ensures
            r@ == self@,
    {
        self.attributes.duplicate()
    }

    /// Inserts `value` under `key` when present; absent values leave
    /// the store untouched. Never fails: the attribute root is an
    /// object by construction.
    pub fn add_attribute_opt(&mut self, key: &str, value: Option<JsonVal>) -> (r: Result<
        (),
        SproutError,
    >)
        requires
            old(self).wf(),
        ensures
            r is Ok,
            final(self).wf(),
            match value {
                Some(v) => final(self)@ == obj_insert(old(self)@, key@, v@),
                None => final(self)@ == old(self)@,
            },
            final(self).entered() == old(self).entered(),
    {
        if let Some(v) = value {
            self.attributes.insert(key.to_owned(), v);
        }
        Ok(())
    }

    /// Records one user field: `log.`-prefixed names are dropped, a
    /// raw-identifier escape prefix is stripped, everything else is
    /// inserted, overwriting an equally-named attribute.
    pub fn record_field(&mut self, name: &str, value: JsonVal)
        requires
            old(self).wf(),
        ensures
            final(self).wf(),
            final(self)@ == record_step(old(self)@, name@, value@),
            final(self).entered() == old(self).entered(),
    {
        let n = name.unicode_len();
        if n >= 4 && name.get_char(0) == 'l' && name.get_char(1) == 'o' && name.get_char(2) == 'g'
            && name.get_char(3) == '.' {
            proof {
                reveal_strlit("log.");
                assert(name@.take(4) =~= "log."@);
            }
            return ;
        }
        proof {
            reveal_strlit("log.");
            assert(!is_log_key(name@)) by {
                if name@.len() >= 4 && name@.take(4) == "log."@ {
                    assert(name@[0] == name@.take(4)[0]);
                    assert(name@[1] == name@.take(4)[1]);
                    assert(name@[2] == name@.take(4)[2]);
                    assert(name@[3] == name@.take(4)[3]);
                }
            }
        }
        if n >= 2 && name.get_char(0) == 'r' && name.get_char(1) == '#' {
            proof {
                reveal_strlit("r#");
                assert(name@.take(2) =~= "r#"@);
            }
            let rest = name.substring_char(2, n);
            assert(rest@ == strip_raw(name@));
            self.attributes.insert(rest.to_owned(), value);
        } else {
            proof {
                reveal_strlit("r#");
                assert(strip_raw(name@) == name@) by {
                    if name@.len() >= 2 && name@.take(2) == "r#"@ {
                        assert(name@[0] == name@.take(2)[0]);
                        assert(name@[1] == name@.take(2)[1]);
                    }
                }
            }
            self.attributes.insert(name.to_owned(), value);
        }
    }

    /// Starts the activation timer: the span became the active frame.
    pub fn mark_entered(&mut self)
        ensures
            final(self)@ == old(self)@,
            final(self).entered(),
    {
        self.entered_at = Some(instant_now());
    }

    /// Stops the timer and reports the elapsed milliseconds, or
    /// reports nothing when no timer was running.
    pub fn take_elapsed_millis(&mut self) -> (r: Option<u64>)
        ensures
            final(self)@ == old(self)@,
            !final(self).entered(),
            r is Some <==> old(self).entered(),
    {
        match self.entered_at {
            None => None,
            Some(t) => {
                let d = instant_elapsed(&t);
                let m = duration_millis(&d);
                self.entered_at = None;
                Some(#[verifier::truncate] (m as u64))
            },
        }
    }

    /// Reads the elapsed milliseconds without consuming the timer: an
    /// event does not end the span's activation.
    pub fn peek_elapsed_millis(&self) -> (r: Option<u64>)
        ensures
            r is Some <==> self.entered(),
    {
        match &self.entered_at {
            None => None,
            Some(t) => {
                let d = instant_elapsed(t);
                let m = duration_millis(&d);
                Some(#[verifier::truncate] (m as u64))
            },
        }
    }
}

} // verus!
