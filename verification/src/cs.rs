//! The Common Schema encoder.
//!
//! The alternative, structured layout some trace consumers ask for: a
//! versioned envelope (PartA: time and correlation, PartB: the record's
//! kind and identity, PartC: the caller's fields), written through the same
//! channel. Span starts are deliberately not emitted in this layout; only
//! span completion is documented by the schema.

use vstd::prelude::*;
use vstd::string::StringSliceAdditionalSpecFns;
use crate::eh::{WireField, WireValue, str_payload, provider_sets, eb_entries, eb_header,
    eb_reset, eb_opcode, eb_add_i32, eb_add_str, eb_add_str_bytes, eb_add_struct, eb_write,
    format_rfc3339, rfc3339_of, FORMAT_DEFAULT, FORMAT_SIGNED_INT, OPCODE_INFO};
use crate::values::{FieldValueIndex, ValueTypes, str_bytes, no_nul_chars, bytes_cmp,
    lemma_bytes_lt_connected};
use crate::tracker::SpanData;
use crate::provider::{EtwProvider, EmittedField, EmittedValue, EmittedEvent, field_wire,
    fields_model, field_model, add_field_value};
use crate::{Level, Timestamp, hex16_bytes, to_hex_utf8_bytes, MAX_RFC3339_SECS};

verus! {

/// The schema version marker carried by every Common Schema buffer.
pub const CS_VERSION: i32 = 0x0401;

/// One caller field in the Common Schema layout: as on the native wire,
/// except that a field literally named "message" becomes the document-level
/// "Body" slot.
pub open spec fn cs_field_wire(name: Seq<char>, v: ValueTypes) -> Seq<WireField> {
    if str_bytes(name) == str_bytes("message"@) {
        field_wire(str_bytes("Body"@), v)
    } else {
        field_wire(str_bytes(name), v)
    }
}

pub open spec fn cs_slots_wire(fields: Seq<FieldValueIndex>) -> Seq<WireField>
    decreases fields.len(),
{
    if fields.len() == 0 {
        Seq::empty()
    } else {
        cs_slots_wire(fields.drop_last()) + cs_field_wire(
            fields.last().field@,
            fields.last().value,
        )
    }
}

pub open spec fn cs_pairs_wire(pairs: Seq<(String, ValueTypes)>) -> Seq<WireField>
    decreases pairs.len(),
{
    if pairs.len() == 0 {
        Seq::empty()
    } else {
        cs_pairs_wire(pairs.drop_last()) + cs_field_wire(pairs.last().0@, pairs.last().1)
    }
}

/// The fixed head of every Common Schema buffer: the version marker and
/// PartA with the wall-clock time and, when correlated, the span identity.
pub open spec fn cs_head_wire(time_chars: Seq<char>, span_id: u64) -> Seq<WireField> {
    seq![
        WireField {
            name: str_bytes("__csver__"@),
            value: WireValue::WI32(CS_VERSION),
            format: FORMAT_SIGNED_INT,
        },
        WireField {
            name: str_bytes("PartA"@),
            value: WireValue::WStruct(if span_id != 0 {
                2
            } else {
                1
            }),
            format: 0u8,
        },
        WireField {
            name: str_bytes("time"@),
            value: WireValue::WStr(str_payload(str_bytes(time_chars))),
            format: FORMAT_DEFAULT,
        },
    ] + if span_id != 0 {
        seq![
            WireField { name: str_bytes("ext_dt"@), value: WireValue::WStruct(2), format: 0u8 },
            WireField {
                name: str_bytes("traceId"@),
                value: WireValue::WStr(str_payload(str_bytes(""@))),
                format: FORMAT_DEFAULT,
            },
            WireField {
                name: str_bytes("spanId"@),
                value: WireValue::WStr(str_payload(hex16_bytes(span_id))),
                format: FORMAT_DEFAULT,
            },
        ]
    } else {
        Seq::empty()
    }
}

/// The whole Common Schema span-completion buffer.
pub open spec fn cs_span_stop_wire(
    start: Timestamp,
    stop: Timestamp,
    span_id: u64,
    parent_id: u64,
    name: Seq<char>,
    fields: Seq<FieldValueIndex>,
) -> Seq<WireField> {
    cs_head_wire(rfc3339_of(stop.secs, stop.nanos), span_id) + seq![
        WireField {
            name: str_bytes("PartB"@),
            value: WireValue::WStruct(if parent_id != 0 {
                4
            } else {
                3
            }),
            format: 0u8,
        },
        WireField {
            name: str_bytes("_typeName"@),
            value: WireValue::WStr(str_payload(str_bytes("Span"@))),
            format: FORMAT_DEFAULT,
        },
    ] + (if parent_id != 0 {
        seq![
            WireField {
                name: str_bytes("parentId"@),
                value: WireValue::WStr(str_payload(hex16_bytes(parent_id))),
                format: FORMAT_DEFAULT,
            },
        ]
    } else {
        Seq::empty()
    }) + seq![
        WireField {
            name: str_bytes("name"@),
            value: WireValue::WStr(str_payload(str_bytes(name))),
            format: FORMAT_DEFAULT,
        },
        WireField {
            name: str_bytes("startTime"@),
            value: WireValue::WStr(str_payload(str_bytes(rfc3339_of(start.secs, start.nanos)))),
            format: FORMAT_DEFAULT,
        },
    ] + (if fields.len() > 0 {
        seq![
            WireField {
                name: str_bytes("PartC"@),
                value: WireValue::WStruct(fields.len() as u8),
                format: 0u8,
            },
        ]
    } else {
        Seq::empty()
    }) + cs_slots_wire(fields)
}

/// The whole Common Schema event buffer.
pub open spec fn cs_record_wire(
    timestamp: Timestamp,
    current_span: u64,
    name: Seq<char>,
    pairs: Seq<(String, ValueTypes)>,
) -> Seq<WireField> {
    cs_head_wire(rfc3339_of(timestamp.secs, timestamp.nanos), current_span) + seq![
        WireField { name: str_bytes("PartB"@), value: WireValue::WStruct(3), format: 0u8 },
        WireField {
            name: str_bytes("_typeName"@),
            value: WireValue::WStr(str_payload(str_bytes("Log"@))),
            format: FORMAT_DEFAULT,
        },
        WireField {
            name: str_bytes("name"@),
            value: WireValue::WStr(str_payload(str_bytes(name))),
            format: FORMAT_DEFAULT,
        },
        WireField {
            name: str_bytes("eventTime"@),
            value: WireValue::WStr(str_payload(str_bytes(rfc3339_of(timestamp.secs, timestamp.nanos)))),
            format: FORMAT_DEFAULT,
        },
    ] + (if pairs.len() > 0 {
        seq![
            WireField {
                name: str_bytes("PartC"@),
                value: WireValue::WStruct(
                    if pairs.len() > 127 {
                        127u8
                    } else {
                        pairs.len() as u8
                    },
                ),
                format: 0u8,
            },
        ]
    } else {
        Seq::empty()
    }) + cs_pairs_wire(pairs)
}

/// Adds a string field to the builder and the log record.
fn push_str_field(
    builder: &mut eventheader_dynamic::EventBuilder,
    out: &mut Vec<EmittedField>,
    name: &str,
    value: &str,
)
    requires
        no_nul_chars(name@),
    ensures
        eb_entries(*final(builder)) == eb_entries(*old(builder)).push(
            WireField {
                name: str_bytes(name@),
                value: WireValue::WStr(str_payload(str_bytes(value@))),
                format: FORMAT_DEFAULT,
            },
        ),
        eb_header(*final(builder)) == eb_header(*old(builder)),
        fields_model(final(out)@) == fields_model(old(out)@).push(
            WireField {
                name: str_bytes(name@),
                value: WireValue::WStr(str_payload(str_bytes(value@))),
                format: FORMAT_DEFAULT,
            },
        ),
{
    eb_add_str(builder, name, value, FORMAT_DEFAULT);
    out.push(
        EmittedField {
            name: name.to_owned(),
            value: EmittedValue::EStr(value.to_owned()),
            format: FORMAT_DEFAULT,
        },
    );
    proof {
        assert(fields_model(out@) =~= fields_model(old(out)@).push(
            WireField {
                name: str_bytes(name@),
                value: WireValue::WStr(str_payload(str_bytes(value@))),
                format: FORMAT_DEFAULT,
            },
        ));
    }
}

/// Adds a raw-bytes string field to the builder and the log record.
fn push_str_bytes_field(
    builder: &mut eventheader_dynamic::EventBuilder,
    out: &mut Vec<EmittedField>,
    name: &str,
    value: Vec<u8>,
)
    requires
        no_nul_chars(name@),
    ensures
        eb_entries(*final(builder)) == eb_entries(*old(builder)).push(
            WireField {
                name: str_bytes(name@),
                value: WireValue::WStr(str_payload(value@)),
                format: FORMAT_DEFAULT,
            },
        ),
        eb_header(*final(builder)) == eb_header(*old(builder)),
        fields_model(final(out)@) == fields_model(old(out)@).push(
            WireField {
                name: str_bytes(name@),
                value: WireValue::WStr(str_payload(value@)),
                format: FORMAT_DEFAULT,
            },
        ),
{
    let ghost vview = value@;
    eb_add_str_bytes(builder, name, value.as_slice(), FORMAT_DEFAULT);
    out.push(
        EmittedField {
            name: name.to_owned(),
            value: EmittedValue::EStrBytes(value),
            format: FORMAT_DEFAULT,
        },
    );
    proof {
        assert(fields_model(out@) =~= fields_model(old(out)@).push(
            WireField {
                name: str_bytes(name@),
                value: WireValue::WStr(str_payload(vview)),
                format: FORMAT_DEFAULT,
            },
        ));
    }
}

/// Adds a struct (field-group) marker to the builder and the log record.
fn push_struct_field(
    builder: &mut eventheader_dynamic::EventBuilder,
    out: &mut Vec<EmittedField>,
    name: &str,
    count: u8,
)
    requires
        no_nul_chars(name@),
        1 <= count < 128,
    ensures
        eb_entries(*final(builder)) == eb_entries(*old(builder)).push(
            WireField { name: str_bytes(name@), value: WireValue::WStruct(count), format: 0u8 },
        ),
        eb_header(*final(builder)) == eb_header(*old(builder)),
        fields_model(final(out)@) == fields_model(old(out)@).push(
            WireField { name: str_bytes(name@), value: WireValue::WStruct(count), format: 0u8 },
        ),
{
    eb_add_struct(builder, name, count);
    out.push(
        EmittedField { name: name.to_owned(), value: EmittedValue::EStruct(count), format: 0u8 },
    );
    proof {
        assert(fields_model(out@) =~= fields_model(old(out)@).push(
            WireField { name: str_bytes(name@), value: WireValue::WStruct(count), format: 0u8 },
        ));
    }
}

/// Adds a 32-bit signed field to the builder and the log record.
fn push_i32_field(
    builder: &mut eventheader_dynamic::EventBuilder,
    out: &mut Vec<EmittedField>,
    name: &str,
    value: i32,
)
    requires
        no_nul_chars(name@),
    ensures
        eb_entries(*final(builder)) == eb_entries(*old(builder)).push(
            WireField {
                name: str_bytes(name@),
                value: WireValue::WI32(value),
                format: FORMAT_SIGNED_INT,
            },
        ),
        eb_header(*final(builder)) == eb_header(*old(builder)),
        fields_model(final(out)@) == fields_model(old(out)@).push(
            WireField {
                name: str_bytes(name@),
                value: WireValue::WI32(value),
                format: FORMAT_SIGNED_INT,
            },
        ),
{
    eb_add_i32(builder, name, value, FORMAT_SIGNED_INT);
    out.push(
        EmittedField {
            name: name.to_owned(),
            value: EmittedValue::EI32(value),
            format: FORMAT_SIGNED_INT,
        },
    );
    proof {
        assert(fields_model(out@) =~= fields_model(old(out)@).push(
            WireField {
                name: str_bytes(name@),
                value: WireValue::WI32(value),
                format: FORMAT_SIGNED_INT,
            },
        ));
    }
}

/// Adds one caller field in the Common Schema layout: a field named
/// "message" is renamed to the "Body" slot.
fn cs_add_field_value(
    builder: &mut eventheader_dynamic::EventBuilder,
    out: &mut Vec<EmittedField>,
    name: &str,
    value: &ValueTypes,
)
    requires
        no_nul_chars(name@),
    ensures
        eb_entries(*final(builder)) == eb_entries(*old(builder)) + cs_field_wire(name@, *value),
        eb_header(*final(builder)) == eb_header(*old(builder)),
        fields_model(final(out)@) == fields_model(old(out)@) + cs_field_wire(name@, *value),
{
    let c = bytes_cmp(name.as_bytes(), "message".as_bytes());
    if c == 0 {
        proof {
            reveal_strlit("Body");
            assert(no_nul_chars("Body"@));
        }
        add_field_value(builder, out, "Body", value);
    } else {
        proof {
            if c == 1 {
                lemma_bytes_lt_connected(name.spec_bytes(), "message".spec_bytes());
            } else {
                lemma_bytes_lt_connected("message".spec_bytes(), name.spec_bytes());
            }
        }
        add_field_value(builder, out, name, value);
    }
}

/// Adds a span's slots in the Common Schema layout.
fn cs_add_slots(
    builder: &mut eventheader_dynamic::EventBuilder,
    out: &mut Vec<EmittedField>,
    fields: &Vec<FieldValueIndex>,
)
    requires
        forall|i: int| 0 <= i < fields@.len() ==> no_nul_chars((#[trigger] fields@[i]).field@),
    ensures
        eb_entries(*final(builder)) == eb_entries(*old(builder)) + cs_slots_wire(fields@),
        eb_header(*final(builder)) == eb_header(*old(builder)),
        fields_model(final(out)@) == fields_model(old(out)@) + cs_slots_wire(fields@),
{
    let ghost base_entries = eb_entries(*builder);
    let ghost base_model = fields_model(out@);
    let n = fields.len();
    let mut i: usize = 0;
    proof {
        assert(eb_entries(*builder) =~= base_entries + cs_slots_wire(fields@.take(0)));
        assert(fields_model(out@) =~= base_model + cs_slots_wire(fields@.take(0)));
    }
    while i < n
        invariant
            n == fields@.len(),
            i <= n,
            forall|k: int| 0 <= k < fields@.len() ==> no_nul_chars((#[trigger] fields@[k]).field@),
            eb_entries(*builder) == base_entries + cs_slots_wire(fields@.take(i as int)),
            eb_header(*builder) == eb_header(*old(builder)),
            fields_model(out@) == base_model + cs_slots_wire(fields@.take(i as int)),
        decreases n - i,
    {
        cs_add_field_value(builder, out, fields[i].field.as_str(), &fields[i].value);
        proof {
            assert(fields@.take(i + 1).drop_last() =~= fields@.take(i as int));
            assert(fields@.take(i + 1).last() == fields@[i as int]);
            assert(eb_entries(*builder) =~= base_entries + cs_slots_wire(fields@.take(i + 1)));
            assert(fields_model(out@) =~= base_model + cs_slots_wire(fields@.take(i + 1)));
        }
        i = i + 1;
    }
    proof {
        assert(fields@.take(n as int) =~= fields@);
    }
}

/// Adds an event's pairs in the Common Schema layout.
fn cs_add_pairs(
    builder: &mut eventheader_dynamic::EventBuilder,
    out: &mut Vec<EmittedField>,
    pairs: &Vec<(String, ValueTypes)>,
)
    requires
        forall|i: int| 0 <= i < pairs@.len() ==> no_nul_chars((#[trigger] pairs@[i]).0@),
    ensures
        eb_entries(*final(builder)) == eb_entries(*old(builder)) + cs_pairs_wire(pairs@),
        eb_header(*final(builder)) == eb_header(*old(builder)),
        fields_model(final(out)@) == fields_model(old(out)@) + cs_pairs_wire(pairs@),
{
    let ghost base_entries = eb_entries(*builder);
    let ghost base_model = fields_model(out@);
    let n = pairs.len();
    let mut i: usize = 0;
    proof {
        assert(eb_entries(*builder) =~= base_entries + cs_pairs_wire(pairs@.take(0)));
        assert(fields_model(out@) =~= base_model + cs_pairs_wire(pairs@.take(0)));
    }
    while i < n
        invariant
            n == pairs@.len(),
            i <= n,
            forall|k: int| 0 <= k < pairs@.len() ==> no_nul_chars((#[trigger] pairs@[k]).0@),
            eb_entries(*builder) == base_entries + cs_pairs_wire(pairs@.take(i as int)),
            eb_header(*builder) == eb_header(*old(builder)),
            fields_model(out@) == base_model + cs_pairs_wire(pairs@.take(i as int)),
        decreases n - i,
    {
        cs_add_field_value(builder, out, pairs[i].0.as_str(), &pairs[i].1);
        proof {
            assert(pairs@.take(i + 1).drop_last() =~= pairs@.take(i as int));
            assert(pairs@.take(i + 1).last() == pairs@[i as int]);
            assert(eb_entries(*builder) =~= base_entries + cs_pairs_wire(pairs@.take(i + 1)));
            assert(fields_model(out@) =~= base_model + cs_pairs_wire(pairs@.take(i + 1)));
        }
        i = i + 1;
    }
    proof {
        assert(pairs@.take(n as int) =~= pairs@);
    }
}

/// Writes the fixed head of a Common Schema buffer.
fn cs_add_head(
    builder: &mut eventheader_dynamic::EventBuilder,
    out: &mut Vec<EmittedField>,
    time_str: &str,
    span_id: u64,
)
    ensures
        eb_entries(*final(builder)) == eb_entries(*old(builder)) + cs_head_wire(
            time_str@,
            span_id,
        ),
        eb_header(*final(builder)) == eb_header(*old(builder)),
        fields_model(final(out)@) == fields_model(old(out)@) + cs_head_wire(time_str@, span_id),
{
    let ghost base_entries = eb_entries(*builder);
    let ghost base_model = fields_model(out@);
    proof {
        reveal_strlit("__csver__");
        reveal_strlit("PartA");
        reveal_strlit("time");
        reveal_strlit("ext_dt");
        reveal_strlit("traceId");
        reveal_strlit("spanId");
        assert(no_nul_chars("__csver__"@));
        assert(no_nul_chars("PartA"@));
        assert(no_nul_chars("time"@));
        assert(no_nul_chars("ext_dt"@));
        assert(no_nul_chars("traceId"@));
        assert(no_nul_chars("spanId"@));
    }
    push_i32_field(builder, out, "__csver__", CS_VERSION);
    let parta_count: u8 = if span_id != 0 {
        2
    } else {
        1
    };
    push_struct_field(builder, out, "PartA", parta_count);
    push_str_field(builder, out, "time", time_str);
    if span_id != 0 {
        push_struct_field(builder, out, "ext_dt", 2);
        push_str_field(builder, out, "traceId", "");
        let hex = to_hex_utf8_bytes(span_id);
        push_str_bytes_field(builder, out, "spanId", hex);
    }
    proof {
        assert(eb_entries(*builder) =~= base_entries + cs_head_wire(time_str@, span_id));
        assert(fields_model(out@) =~= base_model + cs_head_wire(time_str@, span_id));
    }
}

impl EtwProvider {
    /// A span's start is not emitted in the Common Schema layout: the schema
    /// only documents span completion, so this writes nothing.
    pub fn cs_span_start(&mut self, _span: &SpanData, _keyword: u64, _event_tag: u32)
        ensures
            *final(self) == *old(self),
    {
    }

    /// Writes a span-completion buffer in the Common Schema layout.
    pub fn cs_span_stop(
        &mut self,
        span: &SpanData,
        start_stop_times: (Timestamp, Timestamp),
        keyword: u64,
        event_tag: u32,
    )
        requires
            span.wf(),
            no_nul_chars(span.name@),
            start_stop_times.0.wf(),
            start_stop_times.1.wf(),
            start_stop_times.0.secs <= MAX_RFC3339_SECS,
            start_stop_times.1.secs <= MAX_RFC3339_SECS,
        ensures
            provider_sets(final(self).eh) == provider_sets(old(self).eh).insert(
                (span.level.as_int_spec(), keyword),
            ),
            final(self).emitted@.len() == old(self).emitted@.len() + 1,
            forall|k: int|
                0 <= k < old(self).emitted@.len() ==> final(self).emitted@[k] == old(
                    self,
                ).emitted@[k],
            ({
                let e = final(self).emitted@.last();
                &&& e.name == span.name
                &&& e.tag == (event_tag & 0xffff) as u16
                &&& e.opcode == OPCODE_INFO
                &&& e.level == span.level.as_int_spec()
                &&& e.keyword == keyword
                &&& e.activity_id is None
                &&& e.related_activity_id is None
                &&& fields_model(e.fields@) == cs_span_stop_wire(
                    start_stop_times.0,
                    start_stop_times.1,
                    span.id,
                    span.parent_id,
                    span.name@,
                    span.fields@,
                )
            }),
            eb_entries(final(self).builder) == cs_span_stop_wire(
                start_stop_times.0,
                start_stop_times.1,
                span.id,
                span.parent_id,
                span.name@,
                span.fields@,
            ),
    {
        proof {
            assert(event_tag & 0xffff < 0x10000) by (bit_vector);
        }
        let tag16: u16 = (event_tag & 0xffff) as u16;
        let es = self.get_set(span.level.map_level(), keyword);
        eb_reset(&mut self.builder, span.name.as_str(), tag16);
        eb_opcode(&mut self.builder, OPCODE_INFO);
        let mut fields_log: Vec<EmittedField> = Vec::new();
        let stop_str = format_rfc3339(start_stop_times.1.secs, start_stop_times.1.nanos);
        cs_add_head(&mut self.builder, &mut fields_log, stop_str.as_str(), span.id);
        let ghost expected = cs_span_stop_wire(
            start_stop_times.0,
            start_stop_times.1,
            span.id,
            span.parent_id,
            span.name@,
            span.fields@,
        );
        proof {
            reveal_strlit("PartB");
            reveal_strlit("_typeName");
            reveal_strlit("Span");
            reveal_strlit("parentId");
            reveal_strlit("name");
            reveal_strlit("startTime");
            reveal_strlit("PartC");
            assert(no_nul_chars("PartB"@));
            assert(no_nul_chars("_typeName"@));
            assert(no_nul_chars("parentId"@));
            assert(no_nul_chars("name"@));
            assert(no_nul_chars("startTime"@));
            assert(no_nul_chars("PartC"@));
        }
        let partb_count: u8 = if span.parent_id != 0 {
            4
        } else {
            3
        };
        push_struct_field(&mut self.builder, &mut fields_log, "PartB", partb_count);
        push_str_field(&mut self.builder, &mut fields_log, "_typeName", "Span");
        if span.parent_id != 0 {
            let hex = to_hex_utf8_bytes(span.parent_id);
            push_str_bytes_field(&mut self.builder, &mut fields_log, "parentId", hex);
        }
        push_str_field(&mut self.builder, &mut fields_log, "name", span.name.as_str());
        let start_str = format_rfc3339(start_stop_times.0.secs, start_stop_times.0.nanos);
        push_str_field(&mut self.builder, &mut fields_log, "startTime", start_str.as_str());
        let nfields = span.fields.len();
        if nfields > 0 {
            push_struct_field(&mut self.builder, &mut fields_log, "PartC", nfields as u8);
        }
        cs_add_slots(&mut self.builder, &mut fields_log, &span.fields);
        proof {
            assert(eb_entries(self.builder) =~= expected);
            assert(fields_model(fields_log@) =~= expected);
        }
        let _ = eb_write(&self.builder, &es, None, None);
        self.emitted.push(
            EmittedEvent {
                name: span.name.clone(),
                tag: tag16,
                opcode: OPCODE_INFO,
                level: span.level.map_level(),
                keyword,
                activity_id: None,
                related_activity_id: None,
                fields: fields_log,
            },
        );
    }

    /// Writes an event buffer in the Common Schema layout.
    pub fn cs_write_record(
        &mut self,
        timestamp: Timestamp,
        current_span: u64,
        event_name: &str,
        level: &Level,
        keyword: u64,
        event_tag: u32,
        event_fields: &Vec<(String, ValueTypes)>,
    )
        requires
            no_nul_chars(event_name@),
            forall|i: int|
                0 <= i < event_fields@.len() ==> no_nul_chars((#[trigger] event_fields@[i]).0@),
            timestamp.wf(),
            timestamp.secs <= MAX_RFC3339_SECS,
        ensures
            provider_sets(final(self).eh) == provider_sets(old(self).eh).insert(
                (level.as_int_spec(), keyword),
            ),
            final(self).emitted@.len() == old(self).emitted@.len() + 1,
            forall|k: int|
                0 <= k < old(self).emitted@.len() ==> final(self).emitted@[k] == old(
                    self,
                ).emitted@[k],
            ({
                let e = final(self).emitted@.last();
                &&& e.name@ == event_name@
                &&& e.tag == (event_tag & 0xffff) as u16
                &&& e.opcode == OPCODE_INFO
                &&& e.level == level.as_int_spec()
                &&& e.keyword == keyword
                &&& e.activity_id is None
                &&& e.related_activity_id is None
                &&& fields_model(e.fields@) == cs_record_wire(
                    timestamp,
                    current_span,
                    event_name@,
                    event_fields@,
                )
            }),
            eb_entries(final(self).builder) == cs_record_wire(
                timestamp,
                current_span,
                event_name@,
                event_fields@,
            ),
    {
        proof {
            assert(event_tag & 0xffff < 0x10000) by (bit_vector);
        }
        let tag16: u16 = (event_tag & 0xffff) as u16;
        let es = self.get_set(level.map_level(), keyword);
        eb_reset(&mut self.builder, event_name, tag16);
        eb_opcode(&mut self.builder, OPCODE_INFO);
        let mut fields_log: Vec<EmittedField> = Vec::new();
        let time_str = format_rfc3339(timestamp.secs, timestamp.nanos);
        cs_add_head(&mut self.builder, &mut fields_log, time_str.as_str(), current_span);
        let ghost expected = cs_record_wire(timestamp, current_span, event_name@, event_fields@);
        proof {
            reveal_strlit("PartB");
            reveal_strlit("_typeName");
            reveal_strlit("Log");
            reveal_strlit("name");
            reveal_strlit("eventTime");
            reveal_strlit("PartC");
            assert(no_nul_chars("PartB"@));
            assert(no_nul_chars("_typeName"@));
            assert(no_nul_chars("name"@));
            assert(no_nul_chars("eventTime"@));
            assert(no_nul_chars("PartC"@));
        }
        push_struct_field(&mut self.builder, &mut fields_log, "PartB", 3);
        push_str_field(&mut self.builder, &mut fields_log, "_typeName", "Log");
        push_str_field(&mut self.builder, &mut fields_log, "name", event_name);
        push_str_field(&mut self.builder, &mut fields_log, "eventTime", time_str.as_str());
        // The field-group header counts at most 127 members; a larger batch
        // is truncated in the count, never an error.
        let npairs = event_fields.len();
        if npairs > 0 {
            let count: u8 = if npairs > 127 {
                127
            } else {
                npairs as u8
            };
            push_struct_field(&mut self.builder, &mut fields_log, "PartC", count);
        }
        cs_add_pairs(&mut self.builder, &mut fields_log, event_fields);
        proof {
            assert(eb_entries(self.builder) =~= expected);
            assert(fields_model(fields_log@) =~= expected);
        }
        let _ = eb_write(&self.builder, &es, None, None);
        self.emitted.push(
            EmittedEvent {
                name: event_name.to_owned(),
                tag: tag16,
                opcode: OPCODE_INFO,
                level: level.map_level(),
                keyword,
                activity_id: None,
                related_activity_id: None,
                fields: fields_log,
            },
        );
    }
}

} // verus!
