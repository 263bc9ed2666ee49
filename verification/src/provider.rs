//! The channel and the compact native encoder.
//!
//! A `Provider` owns the outside tracepoint channel, a reusable scratch
//! builder (grows to the largest event seen, never shrinks), and the log of
//! buffers it has produced. Each write builds the event twice, in lockstep:
//! once through the outside builder, once as an `EmittedEvent` record; the
//! contracts tie both to the same abstract field sequence, so what was
//! handed to the channel is exactly what the log says.

use vstd::prelude::*;
use vstd::string::StringSliceAdditionalSpecFns;
use std::sync::Arc;
use crate::eh::{WireField, WireValue, le_bytes16, str_payload, provider_sets, eb_entries,
    eb_header, provider_new,
    provider_find_set, provider_register_set, es_enabled, eb_new,
    eb_reset, eb_opcode, eb_add_u64, eb_add_i64, eb_add_i32, eb_add_u128_bytes, eb_add_i128_bytes,
    eb_add_bool, eb_add_char, eb_add_str, eb_add_str_bytes, eb_add_struct, eb_write,
    FORMAT_DEFAULT, FORMAT_SIGNED_INT, FORMAT_TIME, FORMAT_BOOLEAN, FORMAT_FLOAT,
    FORMAT_STRING_UTF, OPCODE_INFO, OPCODE_ACTIVITY_START, OPCODE_ACTIVITY_STOP};
use crate::values::{FieldValueIndex, ValueTypes, str_bytes, no_nul_chars};
use crate::registry::{MetadataRegistry, ParsedEventMetadata};
use crate::tracker::{SpanData, activity_id_spec, derive_activity_id};
use crate::{Level, Timestamp};

verus! {

/// One field of an emitted buffer, as recorded in the log.
#[derive(Clone, PartialEq, Eq, Debug)]
pub struct EmittedField {
    pub name: String,
    pub value: EmittedValue,
    pub format: u8,
}

/// The recorded shape of a field value.
#[derive(Clone, PartialEq, Eq, Debug)]
pub enum EmittedValue {
    EU64(u64),
    EI64(i64),
    EI32(i32),
    EU128(u128),
    EI128(i128),
    EBool(bool),
    EChar(char),
    EStr(String),
    EStrBytes(Vec<u8>),
    EStruct(u8),
}

/// One buffer handed to the channel.
#[derive(Clone, PartialEq, Eq, Debug)]
pub struct EmittedEvent {
    pub name: String,
    pub tag: u16,
    pub opcode: u8,
    pub level: u8,
    pub keyword: u64,
    pub activity_id: Option<Vec<u8>>,
    pub related_activity_id: Option<Vec<u8>>,
    pub fields: Vec<EmittedField>,
}

pub open spec fn value_model(v: EmittedValue) -> WireValue {
    match v {
        EmittedValue::EU64(u) => WireValue::WU64(u),
        EmittedValue::EI64(i) => WireValue::WI64(i),
        EmittedValue::EI32(i) => WireValue::WI32(i),
        EmittedValue::EU128(u) => WireValue::WBytes(le_bytes16(u)),
        EmittedValue::EI128(i) => WireValue::WBytes(le_bytes16(i as u128)),
        EmittedValue::EBool(b) => WireValue::WBool(b),
        EmittedValue::EChar(c) => WireValue::WChar(c),
        EmittedValue::EStr(s) => WireValue::WStr(str_payload(str_bytes(s@))),
        EmittedValue::EStrBytes(b) => WireValue::WStr(str_payload(b@)),
        EmittedValue::EStruct(n) => WireValue::WStruct(n),
    }
}

pub open spec fn field_model(f: EmittedField) -> WireField {
    WireField { name: str_bytes(f.name@), value: value_model(f.value), format: f.format }
}

/// The abstract field sequence of a recorded buffer.
pub open spec fn fields_model(s: Seq<EmittedField>) -> Seq<WireField> {
    s.map_values(|f: EmittedField| field_model(f))
}

/// How one loggable value translates into wire fields: absent values add
/// nothing; every other shape adds exactly one typed field. A float's bits
/// travel as a 64-bit value marked with the float format, the exact bytes of
/// the value.
pub open spec fn field_wire(name: Seq<u8>, v: ValueTypes) -> Seq<WireField> {
    match v {
        ValueTypes::v_none => Seq::empty(),
        ValueTypes::v_u64(u) => seq![
            WireField { name, value: WireValue::WU64(u), format: FORMAT_DEFAULT },
        ],
        ValueTypes::v_i64(i) => seq![
            WireField { name, value: WireValue::WI64(i), format: FORMAT_SIGNED_INT },
        ],
        ValueTypes::v_u128(u) => seq![
            WireField { name, value: WireValue::WBytes(le_bytes16(u)), format: FORMAT_DEFAULT },
        ],
        ValueTypes::v_i128(i) => seq![
            WireField {
                name,
                value: WireValue::WBytes(le_bytes16(i as u128)),
                format: FORMAT_DEFAULT,
            },
        ],
        ValueTypes::v_f64_bits(b) => seq![
            WireField { name, value: WireValue::WU64(b), format: FORMAT_FLOAT },
        ],
        ValueTypes::v_bool(b) => seq![
            WireField { name, value: WireValue::WBool(b), format: FORMAT_BOOLEAN },
        ],
        ValueTypes::v_str(s) => seq![
            WireField {
                name,
                value: WireValue::WStr(str_payload(str_bytes(s@))),
                format: FORMAT_DEFAULT,
            },
        ],
        ValueTypes::v_char(c) => seq![
            WireField { name, value: WireValue::WChar(c), format: FORMAT_STRING_UTF },
        ],
    }
}

/// The wire fields of a span's slots, in declaration order.
pub open spec fn slots_wire(fields: Seq<FieldValueIndex>) -> Seq<WireField>
    decreases fields.len(),
{
    if fields.len() == 0 {
        Seq::empty()
    } else {
        slots_wire(fields.drop_last()) + field_wire(
            str_bytes(fields.last().field@),
            fields.last().value,
        )
    }
}

/// The wire fields of an event's (name, value) pairs, in order.
pub open spec fn pairs_wire(pairs: Seq<(String, ValueTypes)>) -> Seq<WireField>
    decreases pairs.len(),
{
    if pairs.len() == 0 {
        Seq::empty()
    } else {
        pairs_wire(pairs.drop_last()) + field_wire(
            str_bytes(pairs.last().0@),
            pairs.last().1,
        )
    }
}

/// The native buffer of a span-start event: the typed start time, then the
/// span's fields.
pub open spec fn native_span_start_wire(start_secs: u64, fields: Seq<FieldValueIndex>) -> Seq<
    WireField,
> {
    seq![
        WireField {
            name: str_bytes("start time"@),
            value: WireValue::WU64(start_secs),
            format: FORMAT_TIME,
        },
    ] + slots_wire(fields)
}

/// The native buffer of a span-stop event.
pub open spec fn native_span_stop_wire(stop_secs: u64, fields: Seq<FieldValueIndex>) -> Seq<
    WireField,
> {
    seq![
        WireField {
            name: str_bytes("stop time"@),
            value: WireValue::WU64(stop_secs),
            format: FORMAT_TIME,
        },
    ] + slots_wire(fields)
}

/// The native buffer of a plain event.
pub open spec fn native_record_wire(secs: u64, pairs: Seq<(String, ValueTypes)>) -> Seq<WireField> {
    seq![
        WireField { name: str_bytes("time"@), value: WireValue::WU64(secs), format: FORMAT_TIME },
    ] + pairs_wire(pairs)
}

/// Every (level, keyword) pair the channel pre-registers for a set of site
/// keywords and the default keyword: each keyword at each of the five
/// severities.
pub open spec fn expected_sets(kws: Seq<u64>, default_kw: u64) -> Set<(u8, u64)> {
    Set::new(|p: (u8, u64)| 2 <= p.0 <= 6 && (kws.contains(p.1) || p.1 == default_kw))
}

pub open spec fn kws_of(entries: Seq<ParsedEventMetadata>) -> Seq<u64> {
    entries.map_values(|e: ParsedEventMetadata| e.meta.kw)
}

/// The channel: the outside provider, the reusable scratch builder, and the
/// log of emitted buffers.
pub struct EtwProvider {
    pub eh: eventheader_dynamic::Provider,
    pub builder: eventheader_dynamic::EventBuilder,
    pub emitted: Vec<EmittedEvent>,
}

/// A provider name the channel accepts: ASCII letters, digits or
/// underscore, judged byte by byte as the channel does.
pub open spec fn valid_provider_name(name: Seq<u8>) -> bool {
    forall|i: int|
        0 <= i < name.len() ==> ((97u8 <= #[trigger] name[i] <= 122u8) || (65u8 <= name[i] <= 90u8)
            || (48u8 <= name[i] <= 57u8) || name[i] == 95u8)
}

/// A provider group the channel accepts: lowercase ASCII letters or digits,
/// judged byte by byte as the channel does.
pub open spec fn valid_provider_group(group: Seq<u8>) -> bool {
    forall|i: int|
        0 <= i < group.len() ==> ((97u8 <= #[trigger] group[i] <= 122u8) || (48u8 <= group[i]
            <= 57u8))
}

impl EtwProvider {
    /// Opens the channel and pre-registers an event set for every registered
    /// site keyword, and for the default keyword, at each severity: keywords
    /// are static but severities are chosen per call, so all five are
    /// registered up front.
    pub fn new(
        name: &str,
        group: Option<&str>,
        registry: &MetadataRegistry,
        default_keyword: u64,
    ) -> (r: EtwProvider)
        requires
            valid_provider_name(name.spec_bytes()),
            match group {
                Some(g) => valid_provider_group(g.spec_bytes()) && name.spec_bytes().len()
                    + g.spec_bytes().len() < 234,
                None => name.spec_bytes().len() < 234,
            },
        ensures
            provider_sets(r.eh) == expected_sets(kws_of(registry.entries@), default_keyword),
            eb_entries(r.builder) == Seq::<WireField>::empty(),
            r.emitted@ == Seq::<EmittedEvent>::empty(),
    {
        let mut eh = provider_new(name, group);
        let n = registry.entries.len();
        let mut i: usize = 0;
        proof {
            assert(provider_sets(eh) =~= Set::new(
                |p: (u8, u64)| 2 <= p.0 <= 6 && kws_of(registry.entries@).take(0).contains(p.1),
            ));
        }
        while i < n
            invariant
                n == registry.entries@.len(),
                i <= n,
                provider_sets(eh) == Set::new(
                    |p: (u8, u64)|
                        2 <= p.0 <= 6 && kws_of(registry.entries@).take(i as int).contains(p.1),
                ),
            decreases n - i,
        {
            let kw = registry.entries[i].meta.kw;
            let _ = provider_register_set(&mut eh, 2, kw);
            let _ = provider_register_set(&mut eh, 3, kw);
            let _ = provider_register_set(&mut eh, 4, kw);
            let _ = provider_register_set(&mut eh, 5, kw);
            let _ = provider_register_set(&mut eh, 6, kw);
            proof {
                let kws = kws_of(registry.entries@);
                assert(kws[i as int] == kw);
                lemma_take_contains_step(kws, i as int);
                assert(provider_sets(eh) =~= Set::new(
                    |p: (u8, u64)| 2 <= p.0 <= 6 && kws.take(i + 1).contains(p.1),
                ));
            }
            i = i + 1;
        }
        let _ = provider_register_set(&mut eh, 2, default_keyword);
        let _ = provider_register_set(&mut eh, 3, default_keyword);
        let _ = provider_register_set(&mut eh, 4, default_keyword);
        let _ = provider_register_set(&mut eh, 5, default_keyword);
        let _ = provider_register_set(&mut eh, 6, default_keyword);
        proof {
            let kws = kws_of(registry.entries@);
            assert(kws.take(n as int) =~= kws);
            assert(provider_sets(eh) =~= expected_sets(kws, default_keyword));
        }
        EtwProvider { eh, builder: eb_new(), emitted: Vec::new() }
    }

    /// Asks the channel whether a collector listens at this severity and
    /// keyword. The answer is kernel state; all that is certain is that an
    /// unregistered pair is never enabled.
    pub fn enabled(&self, level: &Level, keyword: u64) -> (r: bool)
        ensures
            !provider_sets(self.eh).contains((level.as_int_spec(), keyword)) ==> r == false,
    {
        let es = provider_find_set(&self.eh, level.map_level(), keyword);
        match es {
            Some(s) => es_enabled(&s),
            None => false,
        }
    }

    /// The event set for (level, keyword): found if already created, else
    /// registered now.
    pub(crate) fn get_set(&mut self, level: u8, keyword: u64) -> (r: Arc<eventheader_dynamic::EventSet>)
        ensures
            provider_sets(final(self).eh) == provider_sets(old(self).eh).insert((level, keyword)),
            final(self).builder == old(self).builder,
            final(self).emitted == old(self).emitted,
    {
        let found = provider_find_set(&self.eh, level, keyword);
        match found {
            Some(es) => {
                proof {
                    assert(provider_sets(self.eh) =~= provider_sets(self.eh).insert(
                        (level, keyword),
                    ));
                }
                es
            },
            None => provider_register_set(&mut self.eh, level, keyword),
        }
    }

    /// Writes a span-start buffer: activity opcode, the span's start time,
    /// its fields, and its correlation identifiers.
    pub fn span_start(&mut self, span: &SpanData, keyword: u64, event_tag: u32)
        requires
            span.wf(),
            no_nul_chars(span.name@),
        ensures
            provider_sets(final(self).eh) == provider_sets(old(self).eh).insert(
                (span.level.as_int_spec(), keyword),
            ),
            final(self).emitted@.len() == old(self).emitted@.len() + 1,
            forall|k: int|
                0 <= k < old(self).emitted@.len() ==> final(self).emitted@[k] == old(
                    self,
                ).emitted@[k],
            ({
                let e = final(self).emitted@.last();
                &&& e.name == span.name
                &&& e.tag == (event_tag & 0xffff) as u16
                &&& e.opcode == OPCODE_ACTIVITY_START
                &&& e.level == span.level.as_int_spec()
                &&& e.keyword == keyword
                &&& fields_model(e.fields@) == native_span_start_wire(
                    span.start_time.secs,
                    span.fields@,
                )
                &&& match e.activity_id {
                    Some(v) => span.activity_id@[0] != 0 && v@ == span.activity_id@,
                    None => span.activity_id@[0] == 0,
                }
                &&& match e.related_activity_id {
                    Some(v) => span.activity_id@[0] != 0 && span.related_activity_id@[0] != 0
                        && v@ == span.related_activity_id@,
                    None => span.activity_id@[0] == 0 || span.related_activity_id@[0] == 0,
                }
            }),
            eb_entries(final(self).builder) == native_span_start_wire(
                span.start_time.secs,
                span.fields@,
            ),
            eb_header(final(self).builder) == (
                str_bytes(span.name@),
                (event_tag & 0xffff) as u16,
                OPCODE_ACTIVITY_START,
            ),
    {
        proof {
            assert(event_tag & 0xffff < 0x10000) by (bit_vector);
        }
        let tag16: u16 = (event_tag & 0xffff) as u16;
        let es = self.get_set(span.level.map_level(), keyword);
        eb_reset(&mut self.builder, span.name.as_str(), tag16);
        eb_opcode(&mut self.builder, OPCODE_ACTIVITY_START);
        let mut fields_log: Vec<EmittedField> = Vec::new();
        proof {
            reveal_strlit("start time");
        }
        eb_add_u64(&mut self.builder, "start time", span.start_time.secs, FORMAT_TIME);
        fields_log.push(
            EmittedField {
                name: slit_start_time(),
                value: EmittedValue::EU64(span.start_time.secs),
                format: FORMAT_TIME,
            },
        );
        proof {
            assert(fields_model(fields_log@) =~= native_span_start_wire(
                span.start_time.secs,
                span.fields@.take(0),
            ));
            assert(eb_entries(self.builder) =~= native_span_start_wire(
                span.start_time.secs,
                span.fields@.take(0),
            ));
        }
        add_slots(&mut self.builder, &mut fields_log, &span.fields);
        proof {
            assert(fields_model(fields_log@) =~= native_span_start_wire(
                span.start_time.secs,
                span.fields@,
            ));
            assert(eb_entries(self.builder) =~= native_span_start_wire(
                span.start_time.secs,
                span.fields@,
            ));
        }
        let act_present = span.activity_id[0] != 0;
        let rel_present = act_present && span.related_activity_id[0] != 0;
        let act: Option<&Vec<u8>> = if act_present {
            Some(&span.activity_id)
        } else {
            None
        };
        let rel: Option<&Vec<u8>> = if rel_present {
            Some(&span.related_activity_id)
        } else {
            None
        };
        let _ = eb_write(&self.builder, &es, act, rel);
        let act_log: Option<Vec<u8>> = if act_present {
            Some(span.activity_id.clone())
        } else {
            None
        };
        let rel_log: Option<Vec<u8>> = if rel_present {
            Some(span.related_activity_id.clone())
        } else {
            None
        };
        self.emitted.push(
            EmittedEvent {
                name: span.name.clone(),
                tag: tag16,
                opcode: OPCODE_ACTIVITY_START,
                level: span.level.map_level(),
                keyword,
                activity_id: act_log,
                related_activity_id: rel_log,
                fields: fields_log,
            },
        );
    }

    /// Writes a span-stop buffer: activity-stop opcode, the stop time, the
    /// span's final field values, and its correlation identifiers. The
    /// compact layout documents the stop time only; the start rides along
    /// for interface symmetry with the Common Schema writer.
    pub fn span_stop(
        &mut self,
        start_stop_times: (Timestamp, Timestamp),
        span: &SpanData,
        keyword: u64,
        event_tag: u32,
    )
        requires
            span.wf(),
            no_nul_chars(span.name@),
        ensures
            provider_sets(final(self).eh) == provider_sets(old(self).eh).insert(
                (span.level.as_int_spec(), keyword),
            ),
            final(self).emitted@.len() == old(self).emitted@.len() + 1,
            forall|k: int|
                0 <= k < old(self).emitted@.len() ==> final(self).emitted@[k] == old(
                    self,
                ).emitted@[k],
            ({
                let e = final(self).emitted@.last();
                &&& e.name == span.name
                &&& e.tag == (event_tag & 0xffff) as u16
                &&& e.opcode == OPCODE_ACTIVITY_STOP
                &&& e.level == span.level.as_int_spec()
                &&& e.keyword == keyword
                &&& fields_model(e.fields@) == native_span_stop_wire(
                    start_stop_times.1.secs,
                    span.fields@,
                )
                &&& match e.activity_id {
                    Some(v) => span.activity_id@[0] != 0 && v@ == span.activity_id@,
                    None => span.activity_id@[0] == 0,
                }
                &&& match e.related_activity_id {
                    Some(v) => span.activity_id@[0] != 0 && span.related_activity_id@[0] != 0
                        && v@ == span.related_activity_id@,
                    None => span.activity_id@[0] == 0 || span.related_activity_id@[0] == 0,
                }
            }),
            eb_entries(final(self).builder) == native_span_stop_wire(
                start_stop_times.1.secs,
                span.fields@,
            ),
            eb_header(final(self).builder) == (
                str_bytes(span.name@),
                (event_tag & 0xffff) as u16,
                OPCODE_ACTIVITY_STOP,
            ),
    {
        proof {
            assert(event_tag & 0xffff < 0x10000) by (bit_vector);
        }
        let tag16: u16 = (event_tag & 0xffff) as u16;
        let es = self.get_set(span.level.map_level(), keyword);
        eb_reset(&mut self.builder, span.name.as_str(), tag16);
        eb_opcode(&mut self.builder, OPCODE_ACTIVITY_STOP);
        let mut fields_log: Vec<EmittedField> = Vec::new();
        proof {
            reveal_strlit("stop time");
        }
        eb_add_u64(&mut self.builder, "stop time", start_stop_times.1.secs, FORMAT_TIME);
        fields_log.push(
            EmittedField {
                name: slit_stop_time(),
                value: EmittedValue::EU64(start_stop_times.1.secs),
                format: FORMAT_TIME,
            },
        );
        proof {
            assert(fields_model(fields_log@) =~= native_span_stop_wire(
                start_stop_times.1.secs,
                span.fields@.take(0),
            ));
            assert(eb_entries(self.builder) =~= native_span_stop_wire(
                start_stop_times.1.secs,
                span.fields@.take(0),
            ));
        }
        add_slots(&mut self.builder, &mut fields_log, &span.fields);
        proof {
            assert(fields_model(fields_log@) =~= native_span_stop_wire(
                start_stop_times.1.secs,
                span.fields@,
            ));
            assert(eb_entries(self.builder) =~= native_span_stop_wire(
                start_stop_times.1.secs,
                span.fields@,
            ));
        }
        let act_present = span.activity_id[0] != 0;
        let rel_present = act_present && span.related_activity_id[0] != 0;
        let act: Option<&Vec<u8>> = if act_present {
            Some(&span.activity_id)
        } else {
            None
        };
        let rel: Option<&Vec<u8>> = if rel_present {
            Some(&span.related_activity_id)
        } else {
            None
        };
        let _ = eb_write(&self.builder, &es, act, rel);
        let act_log: Option<Vec<u8>> = if act_present {
            Some(span.activity_id.clone())
        } else {
            None
        };
        let rel_log: Option<Vec<u8>> = if rel_present {
            Some(span.related_activity_id.clone())
        } else {
            None
        };
        self.emitted.push(
            EmittedEvent {
                name: span.name.clone(),
                tag: tag16,
                opcode: OPCODE_ACTIVITY_STOP,
                level: span.level.map_level(),
                keyword,
                activity_id: act_log,
                related_activity_id: rel_log,
                fields: fields_log,
            },
        );
    }

    /// Writes a plain event buffer: the event time, then the caller's
    /// fields, correlated to the surrounding span when there is one.
    pub fn write_record(
        &mut self,
        timestamp: Timestamp,
        current_span: u64,
        parent_span: u64,
        event_name: &str,
        level: &Level,
        keyword: u64,
        event_tag: u32,
        event_fields: &Vec<(String, ValueTypes)>,
        seed: &Vec<u8>,
    )
        requires
            no_nul_chars(event_name@),
            forall|i: int|
                0 <= i < event_fields@.len() ==> no_nul_chars((#[trigger] event_fields@[i]).0@),
            seed@.len() == 16,
        ensures
            provider_sets(final(self).eh) == provider_sets(old(self).eh).insert(
                (level.as_int_spec(), keyword),
            ),
            final(self).emitted@.len() == old(self).emitted@.len() + 1,
            forall|k: int|
                0 <= k < old(self).emitted@.len() ==> final(self).emitted@[k] == old(
                    self,
                ).emitted@[k],
            ({
                let e = final(self).emitted@.last();
                &&& e.name@ == event_name@
                &&& e.tag == (event_tag & 0xffff) as u16
                &&& e.opcode == OPCODE_INFO
                &&& e.level == level.as_int_spec()
                &&& e.keyword == keyword
                &&& fields_model(e.fields@) == native_record_wire(timestamp.secs, event_fields@)
                &&& match e.activity_id {
                    Some(v) => current_span != 0 && v@ == activity_id_spec(seed@, current_span),
                    None => current_span == 0,
                }
                &&& match e.related_activity_id {
                    Some(v) => current_span != 0 && parent_span != 0 && v@ == activity_id_spec(
                        seed@,
                        parent_span,
                    ),
                    None => current_span == 0 || parent_span == 0,
                }
            }),
            eb_entries(final(self).builder) == native_record_wire(timestamp.secs, event_fields@),
            eb_header(final(self).builder) == (
                str_bytes(event_name@),
                (event_tag & 0xffff) as u16,
                OPCODE_INFO,
            ),
    {
        proof {
            assert(event_tag & 0xffff < 0x10000) by (bit_vector);
        }
        let tag16: u16 = (event_tag & 0xffff) as u16;
        let es = self.get_set(level.map_level(), keyword);
        eb_reset(&mut self.builder, event_name, tag16);
        eb_opcode(&mut self.builder, OPCODE_INFO);
        let mut fields_log: Vec<EmittedField> = Vec::new();
        proof {
            reveal_strlit("time");
        }
        eb_add_u64(&mut self.builder, "time", timestamp.secs, FORMAT_TIME);
        fields_log.push(
            EmittedField {
                name: slit_time(),
                value: EmittedValue::EU64(timestamp.secs),
                format: FORMAT_TIME,
            },
        );
        proof {
            assert(fields_model(fields_log@) =~= native_record_wire(
                timestamp.secs,
                event_fields@.take(0),
            ));
            assert(eb_entries(self.builder) =~= native_record_wire(
                timestamp.secs,
                event_fields@.take(0),
            ));
        }
        add_pairs(&mut self.builder, &mut fields_log, event_fields);
        proof {
            assert(fields_model(fields_log@) =~= native_record_wire(timestamp.secs, event_fields@));
            assert(eb_entries(self.builder) =~= native_record_wire(timestamp.secs, event_fields@));
        }
        let act: Option<Vec<u8>> = if current_span != 0 {
            Some(derive_activity_id(seed, current_span))
        } else {
            None
        };
        let rel: Option<Vec<u8>> = if current_span != 0 && parent_span != 0 {
            Some(derive_activity_id(seed, parent_span))
        } else {
            None
        };
        let _ = eb_write(&self.builder, &es, act.as_ref(), rel.as_ref());
        self.emitted.push(
            EmittedEvent {
                name: event_name.to_owned(),
                tag: tag16,
                opcode: OPCODE_INFO,
                level: level.map_level(),
                keyword,
                activity_id: act,
                related_activity_id: rel,
                fields: fields_log,
            },
        );
    }
}

/// A one-shot copy of the literal name of the typed time field.
fn slit_start_time() -> (r: String)
    ensures
        r@ == "start time"@,
{
    let s: &str = "start time";
    s.to_owned()
}

/// A one-shot copy of the literal name of the typed stop-time field.
fn slit_stop_time() -> (r: String)
    ensures
        r@ == "stop time"@,
{
    let s: &str = "stop time";
    s.to_owned()
}

/// A one-shot copy of the literal name of the typed event-time field.
fn slit_time() -> (r: String)
    ensures
        r@ == "time"@,
{
    let s: &str = "time";
    s.to_owned()
}

/// Prefix membership grows by exactly the next element.
proof fn lemma_take_contains_step(s: Seq<u64>, i: int)
    requires
        0 <= i < s.len(),
    ensures
        forall|x: u64| #[trigger]
            s.take(i + 1).contains(x) <==> (s.take(i).contains(x) || x == s[i]),
{
    assert forall|x: u64| #[trigger] s.take(i + 1).contains(x) implies (s.take(i).contains(x) || x
        == s[i]) by {
        let k = choose|k: int| 0 <= k < s.take(i + 1).len() && #[trigger] s.take(i + 1)[k] == x;
        if k < i {
            assert(s.take(i)[k] == x);
        }
    }
    assert forall|x: u64| (s.take(i).contains(x) || x == s[i]) implies #[trigger] s.take(
        i + 1,
    ).contains(x) by {
        if s.take(i).contains(x) {
            let k = choose|k: int| 0 <= k < s.take(i).len() && #[trigger] s.take(i)[k] == x;
            assert(s.take(i + 1)[k] == x);
        } else {
            assert(s.take(i + 1)[i] == x);
        }
    }
}

/// Adds one loggable value to the builder and, in lockstep, to the log
/// record being assembled: both grow by exactly the value's wire fields.
pub(crate) fn add_field_value(
    builder: &mut eventheader_dynamic::EventBuilder,
    out: &mut Vec<EmittedField>,
    name: &str,
    value: &ValueTypes,
)
    requires
        no_nul_chars(name@),
    ensures
        eb_entries(*final(builder)) == eb_entries(*old(builder)) + field_wire(
            str_bytes(name@),
            *value,
        ),
        eb_header(*final(builder)) == eb_header(*old(builder)),
        fields_model(final(out)@) == fields_model(old(out)@) + field_wire(
            str_bytes(name@),
            *value,
        ),
{
    let ghost old_entries = eb_entries(*builder);
    let ghost old_model = fields_model(out@);
    match value {
        ValueTypes::v_none => {
            proof {
                assert(eb_entries(*builder) =~= old_entries + field_wire(str_bytes(name@), *value));
                assert(fields_model(out@) =~= old_model + field_wire(str_bytes(name@), *value));
            }
        },
        ValueTypes::v_u64(u) => {
            eb_add_u64(builder, name, *u, FORMAT_DEFAULT);
            out.push(
                EmittedField {
                    name: name.to_owned(),
                    value: EmittedValue::EU64(*u),
                    format: FORMAT_DEFAULT,
                },
            );
            proof {
                lemma_push_model(old(out)@, out@, name@, *value);
                assert(eb_entries(*builder) =~= old_entries + field_wire(str_bytes(name@), *value));
            }
        },
        ValueTypes::v_i64(i) => {
            eb_add_i64(builder, name, *i, FORMAT_SIGNED_INT);
            out.push(
                EmittedField {
                    name: name.to_owned(),
                    value: EmittedValue::EI64(*i),
                    format: FORMAT_SIGNED_INT,
                },
            );
            proof {
                lemma_push_model(old(out)@, out@, name@, *value);
                assert(eb_entries(*builder) =~= old_entries + field_wire(str_bytes(name@), *value));
            }
        },
        ValueTypes::v_u128(u) => {
            eb_add_u128_bytes(builder, name, *u, FORMAT_DEFAULT);
            out.push(
                EmittedField {
                    name: name.to_owned(),
                    value: EmittedValue::EU128(*u),
                    format: FORMAT_DEFAULT,
                },
            );
            proof {
                lemma_push_model(old(out)@, out@, name@, *value);
                assert(eb_entries(*builder) =~= old_entries + field_wire(str_bytes(name@), *value));
            }
        },
        ValueTypes::v_i128(i) => {
            eb_add_i128_bytes(builder, name, *i, FORMAT_DEFAULT);
            out.push(
                EmittedField {
                    name: name.to_owned(),
                    value: EmittedValue::EI128(*i),
                    format: FORMAT_DEFAULT,
                },
            );
            proof {
                lemma_push_model(old(out)@, out@, name@, *value);
                assert(eb_entries(*builder) =~= old_entries + field_wire(str_bytes(name@), *value));
            }
        },
        ValueTypes::v_f64_bits(b) => {
            // The eight bytes of a float are its bit pattern; handing the
            // bits as a 64-bit value with the float format writes the same
            // field the float itself would.
            eb_add_u64(builder, name, *b, FORMAT_FLOAT);
            out.push(
                EmittedField {
                    name: name.to_owned(),
                    value: EmittedValue::EU64(*b),
                    format: FORMAT_FLOAT,
                },
            );
            proof {
                lemma_push_model(old(out)@, out@, name@, *value);
                assert(eb_entries(*builder) =~= old_entries + field_wire(str_bytes(name@), *value));
            }
        },
        ValueTypes::v_bool(b) => {
            eb_add_bool(builder, name, *b, FORMAT_BOOLEAN);
            out.push(
                EmittedField {
                    name: name.to_owned(),
                    value: EmittedValue::EBool(*b),
                    format: FORMAT_BOOLEAN,
                },
            );
            proof {
                lemma_push_model(old(out)@, out@, name@, *value);
                assert(eb_entries(*builder) =~= old_entries + field_wire(str_bytes(name@), *value));
            }
        },
        ValueTypes::v_str(s) => {
            eb_add_str(builder, name, s.as_str(), FORMAT_DEFAULT);
            out.push(
                EmittedField {
                    name: name.to_owned(),
                    value: EmittedValue::EStr(s.clone()),
                    format: FORMAT_DEFAULT,
                },
            );
            proof {
                lemma_push_model(old(out)@, out@, name@, *value);
                assert(eb_entries(*builder) =~= old_entries + field_wire(str_bytes(name@), *value));
            }
        },
        ValueTypes::v_char(c) => {
            eb_add_char(builder, name, *c, FORMAT_STRING_UTF);
            out.push(
                EmittedField {
                    name: name.to_owned(),
                    value: EmittedValue::EChar(*c),
                    format: FORMAT_STRING_UTF,
                },
            );
            proof {
                lemma_push_model(old(out)@, out@, name@, *value);
                assert(eb_entries(*builder) =~= old_entries + field_wire(str_bytes(name@), *value));
            }
        },
    }
}

/// Pushing one recorded field extends the log's model by that field's wire
/// form.
proof fn lemma_push_model(
    old_out: Seq<EmittedField>,
    new_out: Seq<EmittedField>,
    name: Seq<char>,
    value: ValueTypes,
)
    requires
        new_out.len() == old_out.len() + 1,
        forall|k: int| 0 <= k < old_out.len() ==> new_out[k] == old_out[k],
        field_wire(str_bytes(name), value).len() == 1,
        field_model(new_out.last()) == field_wire(str_bytes(name), value)[0],
    ensures
        fields_model(new_out) == fields_model(old_out) + field_wire(str_bytes(name), value),
{
    assert(fields_model(new_out) =~= fields_model(old_out) + field_wire(str_bytes(name), value));
}

/// Adds a span's field slots to the builder and the log record, in
/// declaration order.
fn add_slots(
    builder: &mut eventheader_dynamic::EventBuilder,
    out: &mut Vec<EmittedField>,
    fields: &Vec<FieldValueIndex>,
)
    requires
        forall|i: int| 0 <= i < fields@.len() ==> no_nul_chars((#[trigger] fields@[i]).field@),
    ensures
        eb_entries(*final(builder)) == eb_entries(*old(builder)) + slots_wire(fields@),
        eb_header(*final(builder)) == eb_header(*old(builder)),
        fields_model(final(out)@) == fields_model(old(out)@) + slots_wire(fields@),
{
    let ghost base_entries = eb_entries(*builder);
    let ghost base_model = fields_model(out@);
    let n = fields.len();
    let mut i: usize = 0;
    proof {
        assert(eb_entries(*builder) =~= base_entries + slots_wire(fields@.take(0)));
        assert(fields_model(out@) =~= base_model + slots_wire(fields@.take(0)));
    }
    while i < n
        invariant
            n == fields@.len(),
            i <= n,
            forall|k: int| 0 <= k < fields@.len() ==> no_nul_chars((#[trigger] fields@[k]).field@),
            eb_entries(*builder) == base_entries + slots_wire(fields@.take(i as int)),
            eb_header(*builder) == eb_header(*old(builder)),
            fields_model(out@) == base_model + slots_wire(fields@.take(i as int)),
        decreases n - i,
    {
        add_field_value(builder, out, fields[i].field.as_str(), &fields[i].value);
        proof {
            assert(fields@.take(i + 1).drop_last() =~= fields@.take(i as int));
            assert(fields@.take(i + 1).last() == fields@[i as int]);
            assert(eb_entries(*builder) =~= base_entries + slots_wire(fields@.take(i + 1)));
            assert(fields_model(out@) =~= base_model + slots_wire(fields@.take(i + 1)));
        }
        i = i + 1;
    }
    proof {
        assert(fields@.take(n as int) =~= fields@);
    }
}

/// Adds an event's (name, value) pairs to the builder and the log record,
/// in order.
fn add_pairs(
    builder: &mut eventheader_dynamic::EventBuilder,
    out: &mut Vec<EmittedField>,
    pairs: &Vec<(String, ValueTypes)>,
)
    requires
        forall|i: int| 0 <= i < pairs@.len() ==> no_nul_chars((#[trigger] pairs@[i]).0@),
    ensures
        eb_entries(*final(builder)) == eb_entries(*old(builder)) + pairs_wire(pairs@),
        eb_header(*final(builder)) == eb_header(*old(builder)),
        fields_model(final(out)@) == fields_model(old(out)@) + pairs_wire(pairs@),
{
    let ghost base_entries = eb_entries(*builder);
    let ghost base_model = fields_model(out@);
    let n = pairs.len();
    let mut i: usize = 0;
    proof {
        assert(eb_entries(*builder) =~= base_entries + pairs_wire(pairs@.take(0)));
        assert(fields_model(out@) =~= base_model + pairs_wire(pairs@.take(0)));
    }
    while i < n
        invariant
            n == pairs@.len(),
            i <= n,
            forall|k: int| 0 <= k < pairs@.len() ==> no_nul_chars((#[trigger] pairs@[k]).0@),
            eb_entries(*builder) == base_entries + pairs_wire(pairs@.take(i as int)),
            eb_header(*builder) == eb_header(*old(builder)),
            fields_model(out@) == base_model + pairs_wire(pairs@.take(i as int)),
        decreases n - i,
    {
        add_field_value(builder, out, pairs[i].0.as_str(), &pairs[i].1);
        proof {
            assert(pairs@.take(i + 1).drop_last() =~= pairs@.take(i as int));
            assert(pairs@.take(i + 1).last() == pairs@[i as int]);
            assert(eb_entries(*builder) =~= base_entries + pairs_wire(pairs@.take(i + 1)));
            assert(fields_model(out@) =~= base_model + pairs_wire(pairs@.take(i + 1)));
        }
        i = i + 1;
    }
    proof {
        assert(pairs@.take(n as int) =~= pairs@);
    }
}

/// Wire encoding determinism: two buffers built from the same timestamp and
/// the same fields carry exactly the same field sequence; a buffer depends
/// on nothing but its inputs. Only the wall-clock values a caller passes in
/// can differ between two otherwise identical calls.
pub proof fn lemma_wire_encoding_determinism(
    e1: EmittedEvent,
    e2: EmittedEvent,
    secs: u64,
    pairs: Seq<(String, ValueTypes)>,
)
    requires
        fields_model(e1.fields@) == native_record_wire(secs, pairs),
        fields_model(e2.fields@) == native_record_wire(secs, pairs),
    ensures
        fields_model(e1.fields@) == fields_model(e2.fields@),
{
}

} // verus!
