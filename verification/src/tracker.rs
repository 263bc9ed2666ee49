//! The span lifecycle tracker.
//!
//! One record per live span, keyed by span identifier. The tracker owns
//! creation (with the sorted field slots and the derived correlation
//! identifiers), reference counting, entry timestamping, field recording, and
//! removal on close. Its view is the map from span identifier to record, and
//! every operation's contract is an exact statement about that map.

use vstd::prelude::*;
use crate::values::{FieldValueIndex, ValueTypes, wf_slots, distinct_names, no_nul_chars,
    create_field_slots, update_value, apply_all, lemma_update_is_apply_one};
use crate::{Level, Timestamp};

verus! {

/// The 16-byte correlation identifier of a span: presence flag, the middle
/// of the process seed, and the span identifier in little-endian bytes.
pub open spec fn activity_id_spec(seed: Seq<u8>, span_id: u64) -> Seq<u8> {
    seq![1u8] + seed.subrange(1, 8) + vstd::bytes::spec_u64_to_le_bytes(span_id)
}

/// The related (parent) identifier: the parent's activity identifier, or the
/// seed with the presence flag cleared when the span has no parent.
pub open spec fn related_id_spec(seed: Seq<u8>, parent_id: u64) -> Seq<u8> {
    if parent_id != 0 {
        activity_id_spec(seed, parent_id)
    } else {
        seq![0u8] + seed.subrange(1, 16)
    }
}

/// Derives a span's activity identifier from the process seed.
pub fn derive_activity_id(seed: &Vec<u8>, span_id: u64) -> (r: Vec<u8>)
    requires
        seed@.len() == 16,
    ensures
        r@ == activity_id_spec(seed@, span_id),
        r@.len() == 16,
{
    let mut out: Vec<u8> = Vec::new();
    out.push(1u8);
    let mut i: usize = 1;
    while i < 8
        invariant
            seed@.len() == 16,
            1 <= i <= 8,
            out@.len() == i,
            out@[0] == 1u8,
            forall|k: int| 1 <= k < i ==> out@[k] == seed@[k],
        decreases 8 - i,
    {
        out.push(seed[i]);
        i = i + 1;
    }
    let mut tail = vstd::bytes::u64_to_le_bytes(span_id);
    out.append(&mut tail);
    proof {
        vstd::bytes::lemma_auto_spec_u64_to_from_le_bytes();
        assert(out@ =~= activity_id_spec(seed@, span_id));
    }
    out
}

/// Derives a span's related identifier from the process seed.
pub fn derive_related_id(seed: &Vec<u8>, parent_id: u64) -> (r: Vec<u8>)
    requires
        seed@.len() == 16,
    ensures
        r@ == related_id_spec(seed@, parent_id),
        r@.len() == 16,
{
    if parent_id != 0 {
        derive_activity_id(seed, parent_id)
    } else {
        let mut out: Vec<u8> = Vec::new();
        out.push(0u8);
        let mut i: usize = 1;
        while i < 16
            invariant
                seed@.len() == 16,
                1 <= i <= 16,
                out@.len() == i,
                out@[0] == 0u8,
                forall|k: int| 1 <= k < i ==> out@[k] == seed@[k],
            decreases 16 - i,
        {
            out.push(seed[i]);
            i = i + 1;
        }
        proof {
            assert(out@ =~= related_id_spec(seed@, 0));
        }
        out
    }
}

/// The record of one live span.
pub struct SpanData {
    pub id: u64,
    /// Zero when the span has no parent.
    pub parent_id: u64,
    pub name: String,
    pub level: Level,
    pub fields: Vec<FieldValueIndex>,
    pub activity_id: Vec<u8>,
    pub related_activity_id: Vec<u8>,
    pub start_time: Timestamp,
    pub ref_count: u64,
}

impl SpanData {
    pub open spec fn wf(self) -> bool {
        &&& wf_slots(self.fields@)
        &&& no_nul_chars(self.name@)
        &&& self.start_time.wf()
        &&& self.start_time.secs <= crate::MAX_RFC3339_SECS
        &&& self.activity_id@.len() == 16
        &&& self.related_activity_id@.len() == 16
        &&& self.ref_count >= 1
        &&& self.id != 0
    }

    /// The parent span, if the span has one.
    pub fn parent(&self) -> (r: Option<u64>)
        ensures
            r == if self.parent_id != 0 {
                Some(self.parent_id)
            } else {
                None::<u64>
            },
    {
        if self.parent_id != 0 {
            Some(self.parent_id)
        } else {
            None
        }
    }

    /// How many fields the span declared.
    pub fn field_count(&self) -> (r: usize)
        ensures
            r == self.fields@.len(),
    {
        self.fields.len()
    }
}

pub open spec fn distinct_span_ids(spans: Seq<SpanData>) -> bool {
    forall|i: int, j: int| 0 <= i < j < spans.len() ==> spans[i].id != spans[j].id
}

pub open spec fn has_span_id(spans: Seq<SpanData>, id: u64) -> bool {
    exists|i: int| 0 <= i < spans.len() && spans[i].id == id
}

pub open spec fn span_index(spans: Seq<SpanData>, id: u64) -> int {
    choose|i: int| 0 <= i < spans.len() && spans[i].id == id
}

/// The abstract state of the tracker: span identifier to record.
pub open spec fn map_of(spans: Seq<SpanData>) -> Map<u64, SpanData> {
    Map::new(|id: u64| has_span_id(spans, id), |id: u64| spans[span_index(spans, id)])
}

/// The store of live span records, with the process-wide activity seed.
pub struct SpanTracker {
    pub spans: Vec<SpanData>,
    pub seed: Vec<u8>,
}

impl View for SpanTracker {
    type V = Map<u64, SpanData>;

    open spec fn view(&self) -> Map<u64, SpanData> {
        map_of(self.spans@)
    }
}

/// A record at some index is what the map holds under its identifier.
proof fn lemma_map_at(spans: Seq<SpanData>, j: int)
    requires
        distinct_span_ids(spans),
        0 <= j < spans.len(),
    ensures
        map_of(spans).contains_key(spans[j].id),
        map_of(spans)[spans[j].id] == spans[j],
{
    assert(has_span_id(spans, spans[j].id));
    let i = span_index(spans, spans[j].id);
    if i != j {
        if i < j {
            assert(spans[i].id != spans[j].id);
        } else {
            assert(spans[j].id != spans[i].id);
        }
    }
}

impl SpanTracker {
    pub open spec fn wf(self) -> bool {
        &&& self.seed@.len() == 16
        &&& distinct_span_ids(self.spans@)
        &&& forall|i: int| 0 <= i < self.spans@.len() ==> (#[trigger] self.spans@[i]).wf()
    }

    /// An empty tracker over the given process seed.
    pub fn new(seed: Vec<u8>) -> (r: SpanTracker)
        requires
            seed@.len() == 16,
        ensures
            r.wf(),
            r@ == Map::<u64, SpanData>::empty(),
            r.seed@ == seed@,
    {
        let t = SpanTracker { spans: Vec::new(), seed };
        proof {
            assert(t@ =~= Map::<u64, SpanData>::empty());
        }
        t
    }

    fn find_index(&self, id: u64) -> (r: Option<usize>)
        ensures
            match r {
                Some(i) => i < self.spans@.len() && self.spans@[i as int].id == id,
                None => forall|i: int| 0 <= i < self.spans@.len() ==> self.spans@[i].id != id,
            },
    {
        let n = self.spans.len();
        let mut i: usize = 0;
        while i < n
            invariant
                n == self.spans@.len(),
                i <= n,
                forall|k: int| 0 <= k < i ==> self.spans@[k].id != id,
            decreases n - i,
        {
            if self.spans[i].id == id {
                return Some(i);
            }
            i = i + 1;
        }
        None
    }

    /// Creates the record of a new span: sorted field slots from the declared
    /// names, correlation identifiers derived from the seed, reference count
    /// one. A record already stored under the same identifier is overwritten,
    /// the documented collision policy of the host contract.
    pub fn create_span_data_for_new_span(
        &mut self,
        id: u64,
        parent_id: u64,
        name: String,
        level: Level,
        field_names: &Vec<String>,
    )
        requires
            old(self).wf(),
            id != 0,
            distinct_names(field_names@),
            no_nul_chars(name@),
            forall|i: int| 0 <= i < field_names@.len() ==> no_nul_chars((#[trigger] field_names@[i])@),
        ensures
            final(self).wf(),
            final(self).seed@ == old(self).seed@,
            final(self)@.dom() == old(self)@.dom().insert(id),
            forall|k: u64|
                k != id && old(self)@.contains_key(k) ==> final(self)@.contains_key(k) && final(self)@[k] == old(self)@[k],
            final(self)@.contains_key(id),
            ({
                let d = final(self)@[id];
                &&& d.id == id
                &&& d.parent_id == parent_id
                &&& d.name == name
                &&& d.level == level
                &&& d.ref_count == 1
                &&& d.start_time == (Timestamp { secs: 0, nanos: 0 })
                &&& d.activity_id@ == activity_id_spec(old(self).seed@, id)
                &&& d.related_activity_id@ == related_id_spec(old(self).seed@, parent_id)
                &&& d.fields@.len() == if field_names@.len() <= 32 {
                    field_names@.len() as int
                } else {
                    32
                }
                &&& forall|i: int|
                    0 <= i < d.fields@.len() ==> (#[trigger] d.fields@[i]).field == field_names@[i]
                        && d.fields@[i].value == ValueTypes::v_none
            }),
    {
        let fields = create_field_slots(field_names);
        let activity_id = derive_activity_id(&self.seed, id);
        let related_activity_id = derive_related_id(&self.seed, parent_id);
        let d = SpanData {
            id,
            parent_id,
            name,
            level,
            fields,
            activity_id,
            related_activity_id,
            start_time: Timestamp::epoch(),
            ref_count: 1,
        };
        let found = self.find_index(id);
        let ghost old_spans = self.spans@;
        match found {
            Some(i) => {
                self.spans[i] = d;
                proof {
                    lemma_frame_update(old_spans, self.spans@, i as int, id);
                    lemma_map_at(self.spans@, i as int);
                }
            },
            None => {
                self.spans.push(d);
                proof {
                    lemma_frame_push(old_spans, self.spans@, id);
                    lemma_map_at(self.spans@, self.spans@.len() - 1);
                }
            },
        }
    }

    /// Increments the reference count of a live span; a handle to it was
    /// cloned. The count saturates rather than wrap, so it only ever gates
    /// deallocation. An unknown identifier is ignored.
    pub fn addref_span(&mut self, id: u64)
        requires
            old(self).wf(),
        ensures
            final(self).wf(),
            final(self).seed@ == old(self).seed@,
            final(self)@ == addref_map(old(self)@, id),
    {
        let found = self.find_index(id);
        let ghost old_spans = self.spans@;
        match found {
            Some(i) => {
                let rc = self.spans[i].ref_count;
                if rc < u64::MAX {
                    self.spans[i].ref_count = rc + 1;
                } else {
                    proof {
                        assert(self.spans@ =~= old_spans);
                    }
                }
            },
            None => {},
        }
        proof {
            lemma_addref_matches(old_spans, self.spans@, found, id);
        }
    }

    /// Decrements the reference count; removes the record when it reaches
    /// zero. Returns whether the span is still alive. Closing an identifier
    /// that is not tracked is tolerated and reports alive.
    pub fn release_span(&mut self, id: u64) -> (alive: bool)
        requires
            old(self).wf(),
        ensures
            final(self).wf(),
            final(self).seed@ == old(self).seed@,
            final(self)@ == release_map(old(self)@, id),
            alive == release_alive(old(self)@, id),
    {
        let found = self.find_index(id);
        let ghost old_spans = self.spans@;
        match found {
            Some(i) => {
                proof {
                    lemma_map_at(old_spans, i as int);
                }
                let rc = self.spans[i].ref_count;
                if rc > 1 {
                    self.spans[i].ref_count = rc - 1;
                    proof {
                        lemma_release_decrement(old_spans, self.spans@, i as int, id);
                    }
                    true
                } else {
                    let _ = self.spans.swap_remove(i);
                    proof {
                        lemma_release_remove(old_spans, self.spans@, i as int, id);
                    }
                    false
                }
            },
            None => {
                proof {
                    assert(!map_of(old_spans).contains_key(id));
                }
                true
            },
        }
    }

    /// Records the entry time of a span. Re-entering a span that is already
    /// entered overwrites the time: repeated entry without an intervening
    /// exit is a documented limitation, not corrected here. Returns whether
    /// the span was known.
    pub fn enter_span(&mut self, id: u64, timestamp: Timestamp) -> (found: bool)
        requires
            old(self).wf(),
            timestamp.wf(),
            timestamp.secs <= crate::MAX_RFC3339_SECS,
        ensures
            final(self).wf(),
            final(self).seed@ == old(self).seed@,
            final(self)@ == enter_map(old(self)@, id, timestamp),
            found == old(self)@.contains_key(id),
    {
        let found = self.find_index(id);
        let ghost old_spans = self.spans@;
        match found {
            Some(i) => {
                proof {
                    lemma_map_at(old_spans, i as int);
                }
                self.spans[i].start_time = timestamp;
                proof {
                    lemma_enter_update(old_spans, self.spans@, i as int, id, timestamp);
                }
                true
            },
            None => {
                proof {
                    assert(!map_of(old_spans).contains_key(id));
                }
                false
            },
        }
    }

    /// Applies a batch of recordings to a live span's fields, each by name
    /// through the sorted permutation; names the span never declared are
    /// dropped. Recording on an unknown identifier changes nothing.
    pub fn update_span_values(&mut self, id: u64, updates: &Vec<(String, ValueTypes)>)
        requires
            old(self).wf(),
        ensures
            final(self).wf(),
            final(self).seed@ == old(self).seed@,
            !old(self)@.contains_key(id) ==> final(self)@ == old(self)@,
            old(self)@.contains_key(id) ==> {
                &&& final(self)@.dom() == old(self)@.dom()
                &&& forall|k: u64|
                    k != id && old(self)@.contains_key(k) ==> final(self)@[k] == old(self)@[k]
                &&& final(self)@.contains_key(id)
                &&& final(self)@[id].fields@ == apply_all(old(self)@[id].fields@, updates@)
                &&& final(self)@[id].id == old(self)@[id].id
                &&& final(self)@[id].parent_id == old(self)@[id].parent_id
                &&& final(self)@[id].name == old(self)@[id].name
                &&& final(self)@[id].level == old(self)@[id].level
                &&& final(self)@[id].activity_id == old(self)@[id].activity_id
                &&& final(self)@[id].related_activity_id == old(self)@[id].related_activity_id
                &&& final(self)@[id].start_time == old(self)@[id].start_time
                &&& final(self)@[id].ref_count == old(self)@[id].ref_count
            },
    {
        let found = self.find_index(id);
        let ghost old_spans = self.spans@;
        match found {
            Some(i) => {
                proof {
                    lemma_map_at(old_spans, i as int);
                }
                let mut d = self.spans.swap_remove(i);
                let ghost spans1 = self.spans@;
                let ghost d0 = d;
                proof {
                    lemma_frame_swap_remove(old_spans, spans1, i as int, id);
                }
                let n = updates.len();
                let mut j: usize = 0;
                while j < n
                    invariant
                        n == updates@.len(),
                        j <= n,
                        wf_slots(d.fields@),
                        d.fields@ == apply_all(d0.fields@, updates@.take(j as int)),
                        d.id == d0.id,
                        d.parent_id == d0.parent_id,
                        d.name == d0.name,
                        d.level == d0.level,
                        d.activity_id == d0.activity_id,
                        d.related_activity_id == d0.related_activity_id,
                        d.start_time == d0.start_time,
                        d.ref_count == d0.ref_count,
                        d0.wf(),
                    decreases n - j,
                {
                    let ghost pre = d.fields@;
                    let name_arg = updates[j].0.as_str();
                    let value_arg = updates[j].1.dup();
                    update_value(&mut d.fields, name_arg, value_arg);
                    proof {
                        lemma_update_is_apply_one(pre, d.fields@, updates@[j as int].0@, updates@[j as int].1);
                        assert(updates@.take(j + 1).drop_last() =~= updates@.take(j as int));
                        assert(updates@.take(j + 1).last() == updates@[j as int]);
                    }
                    j = j + 1;
                }
                proof {
                    assert(updates@.take(n as int) =~= updates@);
                }
                self.spans.push(d);
                proof {
                    lemma_frame_push(spans1, self.spans@, id);
                    lemma_map_at(self.spans@, self.spans@.len() - 1);
                    assert(map_of(self.spans@).dom() =~= map_of(old_spans).dom());
                }
            },
            None => {
                proof {
                    assert(!map_of(old_spans).contains_key(id));
                }
            },
        }
    }

    /// A borrowed view of a live span's record, for the encoders.
    pub fn get_span(&self, id: u64) -> (r: Option<&SpanData>)
        requires
            self.wf(),
        ensures
            match r {
                Some(d) => self@.contains_key(id) && *d == self@[id],
                None => !self@.contains_key(id),
            },
    {
        let found = self.find_index(id);
        match found {
            Some(i) => {
                proof {
                    lemma_map_at(self.spans@, i as int);
                }
                Some(&self.spans[i])
            },
            None => {
                proof {
                    assert(!self@.contains_key(id));
                }
                None
            },
        }
    }
}

/// The map after a reference count increment (saturating at the top).
pub open spec fn addref_map(m: Map<u64, SpanData>, id: u64) -> Map<u64, SpanData> {
    if m.contains_key(id) && m[id].ref_count < u64::MAX {
        m.insert(id, SpanData { ref_count: (m[id].ref_count + 1) as u64, ..m[id] })
    } else {
        m
    }
}

/// The map after a close: decrement, removing the record at zero.
pub open spec fn release_map(m: Map<u64, SpanData>, id: u64) -> Map<u64, SpanData> {
    if !m.contains_key(id) {
        m
    } else if m[id].ref_count > 1 {
        m.insert(id, SpanData { ref_count: (m[id].ref_count - 1) as u64, ..m[id] })
    } else {
        m.remove(id)
    }
}

/// Whether a close leaves the span alive.
pub open spec fn release_alive(m: Map<u64, SpanData>, id: u64) -> bool {
    !m.contains_key(id) || m[id].ref_count > 1
}

/// The map after an entry timestamp is recorded.
pub open spec fn enter_map(m: Map<u64, SpanData>, id: u64, t: Timestamp) -> Map<u64, SpanData> {
    if m.contains_key(id) {
        m.insert(id, SpanData { start_time: t, ..m[id] })
    } else {
        m
    }
}

/// After an in-place overwrite at index `i` with a record carrying `id`, the
/// map is the old map with `id` rebound to the new record.
proof fn lemma_frame_update(old_spans: Seq<SpanData>, new_spans: Seq<SpanData>, i: int, id: u64)
    requires
        distinct_span_ids(old_spans),
        0 <= i < old_spans.len(),
        old_spans[i].id == id,
        new_spans == old_spans.update(i, new_spans[i]),
        new_spans[i].id == id,
    ensures
        distinct_span_ids(new_spans),
        map_of(new_spans) == map_of(old_spans).insert(id, new_spans[i]),
{
    assert forall|p: int, q: int| 0 <= p < q < new_spans.len() implies new_spans[p].id
        != new_spans[q].id by {
        assert(old_spans[p].id != old_spans[q].id);
    }
    assert forall|k: u64| true implies #[trigger] map_of(new_spans).contains_key(k) == map_of(old_spans).insert(id, new_spans[i]).contains_key(k) by {
        if k == id {
            lemma_map_at(new_spans, i);
        } else {
            if has_span_id(old_spans, k) {
                let j = span_index(old_spans, k);
                lemma_map_at(new_spans, j);
            }
            if has_span_id(new_spans, k) {
                let j = span_index(new_spans, k);
                lemma_map_at(old_spans, j);
            }
        }
    }
    assert forall|k: u64| #[trigger] map_of(new_spans).contains_key(k) implies map_of(new_spans)[k]
        == map_of(old_spans).insert(id, new_spans[i])[k] by {
        if k == id {
            lemma_map_at(new_spans, i);
        } else {
            let j = span_index(new_spans, k);
            assert(new_spans[j].id == k);
            assert(j != i);
            assert(new_spans[j] == old_spans[j]);
            lemma_map_at(new_spans, j);
            lemma_map_at(old_spans, j);
        }
    }
    assert(map_of(new_spans) =~= map_of(old_spans).insert(id, new_spans[i]));
}

/// After a push of a record carrying a fresh `id`, the map gains one binding.
proof fn lemma_frame_push(old_spans: Seq<SpanData>, new_spans: Seq<SpanData>, id: u64)
    requires
        distinct_span_ids(old_spans),
        forall|i: int| 0 <= i < old_spans.len() ==> old_spans[i].id != id,
        new_spans == old_spans.push(new_spans.last()),
        new_spans.last().id == id,
        new_spans.len() == old_spans.len() + 1,
    ensures
        distinct_span_ids(new_spans),
        map_of(new_spans) == map_of(old_spans).insert(id, new_spans.last()),
{
    assert forall|p: int, q: int| 0 <= p < q < new_spans.len() implies new_spans[p].id
        != new_spans[q].id by {
        if q < new_spans.len() - 1 {
            assert(old_spans[p].id != old_spans[q].id);
        } else {
            assert(new_spans[p] == old_spans[p]);
        }
    }
    assert forall|k: u64| true implies #[trigger] map_of(new_spans).contains_key(k) == map_of(old_spans).insert(id, new_spans.last()).contains_key(k) by {
        if k == id {
            lemma_map_at(new_spans, new_spans.len() - 1);
        } else {
            if has_span_id(old_spans, k) {
                let j = span_index(old_spans, k);
                lemma_map_at(new_spans, j);
            }
            if has_span_id(new_spans, k) {
                let j = span_index(new_spans, k);
                assert(j < new_spans.len() - 1);
                lemma_map_at(old_spans, j);
            }
        }
    }
    assert forall|k: u64| #[trigger] map_of(new_spans).contains_key(k) implies map_of(new_spans)[k]
        == map_of(old_spans).insert(id, new_spans.last())[k] by {
        if k == id {
            lemma_map_at(new_spans, new_spans.len() - 1);
        } else {
            let j = span_index(new_spans, k);
            assert(j < new_spans.len() - 1);
            lemma_map_at(new_spans, j);
            lemma_map_at(old_spans, j);
        }
    }
    assert(map_of(new_spans) =~= map_of(old_spans).insert(id, new_spans.last()));
}

proof fn lemma_addref_matches(
    old_spans: Seq<SpanData>,
    new_spans: Seq<SpanData>,
    found: Option<usize>,
    id: u64,
)
    requires
        distinct_span_ids(old_spans),
        match found {
            Some(i) => (i as int) < old_spans.len() && old_spans[i as int].id == id && new_spans
                == if old_spans[i as int].ref_count < u64::MAX {
                old_spans.update(
                    i as int,
                    SpanData {
                        ref_count: (old_spans[i as int].ref_count + 1) as u64,
                        ..old_spans[i as int]
                    },
                )
            } else {
                old_spans
            },
            None => (forall|i: int| 0 <= i < old_spans.len() ==> old_spans[i].id != id)
                && new_spans == old_spans,
        },
    ensures
        distinct_span_ids(new_spans),
        map_of(new_spans) == addref_map(map_of(old_spans), id),
{
    match found {
        Some(i) => {
            lemma_map_at(old_spans, i as int);
            if old_spans[i as int].ref_count < u64::MAX {
                assert(new_spans[i as int] == SpanData {
                    ref_count: (map_of(old_spans)[id].ref_count + 1) as u64,
                    ..map_of(old_spans)[id]
                });
                lemma_frame_update(old_spans, new_spans, i as int, id);
            }
        },
        None => {
            assert(!map_of(old_spans).contains_key(id));
        },
    }
}

proof fn lemma_release_decrement(
    old_spans: Seq<SpanData>,
    new_spans: Seq<SpanData>,
    i: int,
    id: u64,
)
    requires
        distinct_span_ids(old_spans),
        0 <= i < old_spans.len(),
        old_spans[i].id == id,
        old_spans[i].ref_count > 1,
        new_spans == old_spans.update(
            i,
            SpanData { ref_count: (old_spans[i].ref_count - 1) as u64, ..old_spans[i] },
        ),
    ensures
        distinct_span_ids(new_spans),
        map_of(new_spans) == release_map(map_of(old_spans), id),
{
    lemma_map_at(old_spans, i);
    assert(new_spans[i] == SpanData {
        ref_count: (map_of(old_spans)[id].ref_count - 1) as u64,
        ..map_of(old_spans)[id]
    });
    lemma_frame_update(old_spans, new_spans, i, id);
}

proof fn lemma_release_remove(old_spans: Seq<SpanData>, new_spans: Seq<SpanData>, i: int, id: u64)
    requires
        distinct_span_ids(old_spans),
        0 <= i < old_spans.len(),
        old_spans[i].id == id,
        old_spans[i].ref_count <= 1,
        new_spans == old_spans.update(i, old_spans.last()).drop_last(),
    ensures
        distinct_span_ids(new_spans),
        map_of(new_spans) == release_map(map_of(old_spans), id),
{
    lemma_map_at(old_spans, i);
    lemma_frame_swap_remove(old_spans, new_spans, i, id);
    assert(release_map(map_of(old_spans), id) == map_of(old_spans).remove(id));
}

/// After the record at index `i` is removed by moving the last record into
/// its place, the map has lost exactly the binding of `id`.
proof fn lemma_frame_swap_remove(
    old_spans: Seq<SpanData>,
    new_spans: Seq<SpanData>,
    i: int,
    id: u64,
)
    requires
        distinct_span_ids(old_spans),
        0 <= i < old_spans.len(),
        old_spans[i].id == id,
        new_spans == old_spans.update(i, old_spans.last()).drop_last(),
    ensures
        distinct_span_ids(new_spans),
        map_of(new_spans) == map_of(old_spans).remove(id),
        forall|j: int| 0 <= j < new_spans.len() ==> new_spans[j].id != id,
{
    lemma_map_at(old_spans, i);
    assert forall|j: int| 0 <= j < new_spans.len() implies new_spans[j].id != id by {
        let sj = if j == i {
            old_spans.len() - 1
        } else {
            j
        };
        assert(new_spans[j] == old_spans[sj]);
        if old_spans[sj].id == id {
            assert(sj == i);
        }
    }
    assert forall|p: int, q: int| 0 <= p < q < new_spans.len() implies new_spans[p].id
        != new_spans[q].id by {
        let sp = if p == i {
            old_spans.len() - 1
        } else {
            p
        };
        let sq = if q == i {
            old_spans.len() - 1
        } else {
            q
        };
        assert(new_spans[p] == old_spans[sp]);
        assert(new_spans[q] == old_spans[sq]);
    }
    assert forall|k: u64| true implies #[trigger] map_of(new_spans).contains_key(k) == map_of(
        old_spans,
    ).remove(id).contains_key(k) by {
        if k == id {
            if has_span_id(new_spans, k) {
                let j = span_index(new_spans, k);
                let sj = if j == i {
                    old_spans.len() - 1
                } else {
                    j
                };
                assert(new_spans[j] == old_spans[sj]);
                assert(old_spans[sj].id == id);
                assert(sj == i);
                assert(j < old_spans.len() - 1);
                assert(false);
            }
        } else {
            if has_span_id(old_spans, k) {
                let j = span_index(old_spans, k);
                assert(old_spans[j].id == k);
                assert(j != i);
                if j == old_spans.len() - 1 {
                    assert(i < old_spans.len() - 1);
                    assert(new_spans[i] == old_spans[j]);
                    lemma_map_at(new_spans, i);
                } else {
                    assert(new_spans[j] == old_spans[j]);
                    lemma_map_at(new_spans, j);
                }
            }
            if has_span_id(new_spans, k) {
                let j = span_index(new_spans, k);
                let sj = if j == i {
                    old_spans.len() - 1
                } else {
                    j
                };
                assert(new_spans[j] == old_spans[sj]);
                lemma_map_at(old_spans, sj);
            }
        }
    }
    assert forall|k: u64| #[trigger] map_of(new_spans).contains_key(k) implies map_of(new_spans)[k]
        == map_of(old_spans).remove(id)[k] by {
        let j = span_index(new_spans, k);
        let sj = if j == i {
            old_spans.len() - 1
        } else {
            j
        };
        assert(new_spans[j] == old_spans[sj]);
        lemma_map_at(new_spans, j);
        lemma_map_at(old_spans, sj);
    }
    assert(map_of(new_spans) =~= map_of(old_spans).remove(id));
}

proof fn lemma_enter_update(
    old_spans: Seq<SpanData>,
    new_spans: Seq<SpanData>,
    i: int,
    id: u64,
    t: Timestamp,
)
    requires
        distinct_span_ids(old_spans),
        0 <= i < old_spans.len(),
        old_spans[i].id == id,
        new_spans == old_spans.update(i, SpanData { start_time: t, ..old_spans[i] }),
    ensures
        distinct_span_ids(new_spans),
        map_of(new_spans) == enter_map(map_of(old_spans), id, t),
{
    lemma_map_at(old_spans, i);
    assert(new_spans[i] == SpanData { start_time: t, ..map_of(old_spans)[id] });
    lemma_frame_update(old_spans, new_spans, i, id);
}

/// Reference counting is exact: after a handle is cloned, the first close
/// leaves the record alive and the second close removes it; a close of a
/// freshly created record, never cloned, removes it at once.
pub proof fn lemma_refcount_correctness(m: Map<u64, SpanData>, id: u64)
    requires
        m.contains_key(id),
        m[id].ref_count == 1,
    ensures
        ({
            let m1 = addref_map(m, id);
            let m2 = release_map(m1, id);
            let m3 = release_map(m2, id);
            &&& release_alive(m1, id)
            &&& m2.contains_key(id)
            &&& !release_alive(m2, id)
            &&& !m3.contains_key(id)
        }),
        !release_alive(m, id),
        !release_map(m, id).contains_key(id),
{
    let m1 = addref_map(m, id);
    assert(m1[id].ref_count == 2);
    let m2 = release_map(m1, id);
    assert(m2[id].ref_count == 1);
}

} // verus!
