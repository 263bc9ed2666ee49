//! Span scenarios, as a logging front-end would drive the subscriber core:
//! a span with fields and a message, repeated entry, a nested span, an
//! error event, and a late field recording.

use tracing_etw::layer::{EtwSubscriber, LayerBuilder, NormalOutput};
use tracing_etw::provider::EmittedValue;
use tracing_etw::registry::EventMetadata;
use tracing_etw::values::ValueTypes;
use tracing_etw::{Level, Timestamp};

fn seed() -> Vec<u8> {
    let mut s = vec![0u8; 16];
    s[1] = 0xaa;
    s
}

fn ts(secs: u64) -> Timestamp {
    Timestamp { secs, nanos: 0 }
}

fn build(name: &str) -> EtwSubscriber<NormalOutput> {
    let region: Vec<Option<EventMetadata>> = Vec::new();
    LayerBuilder::new(name).build_subscriber(&region, false, seed()).unwrap()
}

fn span_fields() -> (Vec<String>, Vec<(String, ValueTypes)>) {
    let names = vec![
        "message".to_string(),
        "fieldC".to_string(),
        "fieldB".to_string(),
        "fieldA".to_string(),
    ];
    let values = vec![
        ("message".to_string(), ValueTypes::v_str("inside main!".to_string())),
        ("fieldC".to_string(), ValueTypes::v_u64(b'x' as u64)),
        ("fieldB".to_string(), ValueTypes::v_str("asdf".to_string())),
        ("fieldA".to_string(), ValueTypes::v_i64(7)),
    ];
    (names, values)
}

#[test]
fn span_test_1() {
    let mut sub = build("SpanTests");
    let (names, values) = span_fields();

    let span = sub.new_span(0, "span name".to_string(), Level::Info, &names, &values);
    sub.on_enter(span, 0, ts(1));
    sub.on_enter(span, 0, ts(2));

    let none_names: Vec<String> = Vec::new();
    let none_values: Vec<(String, ValueTypes)> = Vec::new();
    let span2 = sub.new_span(span, "span 2".to_string(), Level::Error, &none_names, &none_values);
    sub.on_enter(span2, 0, ts(3));

    let event_fields = vec![(
        "message".to_string(),
        ValueTypes::v_str("error event".to_string()),
    )];
    sub.on_event(1, ts(4), span2, span, "error event", &Level::Error, &event_fields);

    sub.on_record(span, &vec![("fieldB".to_string(), ValueTypes::v_i64(12345))]);
}

#[test]
fn subscriber_span_test_1() {
    let mut sub = build("SpanTests");
    let (names, values) = span_fields();

    let span = sub.new_span(0, "span name".to_string(), Level::Info, &names, &values);
    sub.on_enter(span, 0, ts(1));
    sub.on_enter(span, 0, ts(2));

    let none_names: Vec<String> = Vec::new();
    let none_values: Vec<(String, ValueTypes)> = Vec::new();
    let span2 = sub.new_span(span, "span 2".to_string(), Level::Error, &none_names, &none_values);
    sub.on_enter(span2, 0, ts(3));

    let event_fields = vec![(
        "message".to_string(),
        ValueTypes::v_str("error event".to_string()),
    )];
    sub.on_event(1, ts(4), span2, span, "error event", &Level::Error, &event_fields);

    sub.on_record(span, &vec![("fieldB".to_string(), ValueTypes::v_i64(12345))]);
}

#[test]
fn every_value_shape_reaches_the_buffer() {
    let mut sub = build("ValueShapes");
    let fields = vec![
        ("a".to_string(), ValueTypes::v_u64(1)),
        ("b".to_string(), ValueTypes::v_i64(-2)),
        ("c".to_string(), ValueTypes::v_u128(3 << 90)),
        ("d".to_string(), ValueTypes::v_i128(-(4i128 << 90))),
        ("e".to_string(), ValueTypes::v_f64_bits(1.25f64.to_bits())),
        ("f".to_string(), ValueTypes::v_bool(false)),
        ("g".to_string(), ValueTypes::v_str("text".to_string())),
        ("h".to_string(), ValueTypes::v_char('Ω')),
    ];
    sub.on_event(1, ts(5), 0, 0, "shapes", &Level::Trace, &fields);
    let e = &sub.provider.emitted[0];
    assert_eq!(e.level, 6);
    assert_eq!(e.fields.len(), 9);
    assert_eq!(e.fields[1].value, EmittedValue::EU64(1));
    assert_eq!(e.fields[2].value, EmittedValue::EI64(-2));
    assert_eq!(e.fields[3].value, EmittedValue::EU128(3 << 90));
    assert_eq!(e.fields[4].value, EmittedValue::EI128(-(4i128 << 90)));
    assert_eq!(e.fields[5].value, EmittedValue::EU64(1.25f64.to_bits()));
    assert_eq!(e.fields[5].format, 8);
    assert_eq!(e.fields[6].value, EmittedValue::EBool(false));
    assert_eq!(e.fields[7].value, EmittedValue::EStr("text".to_string()));
    assert_eq!(e.fields[8].value, EmittedValue::EChar('Ω'));
}

#[test]
fn native_span_buffers_carry_the_final_field_values() {
    let mut sub = build("SpanBuffers");
    let names = vec!["a".to_string(), "b".to_string()];
    let values = vec![("a".to_string(), ValueTypes::v_u64(1))];
    let id = sub.new_span(0, "measured".to_string(), Level::Info, &names, &values);
    sub.on_enter(id, 0, ts(50));
    sub.on_record(id, &vec![("b".to_string(), ValueTypes::v_u64(2))]);
    sub.on_exit(id, 0, ts(60));

    let start = &sub.provider.emitted[0];
    assert_eq!(start.opcode, 1);
    assert_eq!(start.fields[0].name, "start time");
    assert_eq!(start.fields[0].value, EmittedValue::EU64(50));
    // At entry, only `a` was recorded; `b` was still absent.
    assert_eq!(start.fields.len(), 2);
    assert_eq!(start.fields[1].name, "a");

    let stop = &sub.provider.emitted[1];
    assert_eq!(stop.opcode, 2);
    assert_eq!(stop.fields[0].name, "stop time");
    assert_eq!(stop.fields[0].value, EmittedValue::EU64(60));
    // By exit, the late recording of `b` is in the buffer.
    assert_eq!(stop.fields.len(), 3);
    assert_eq!(stop.fields[1].name, "a");
    assert_eq!(stop.fields[2].name, "b");
    assert_eq!(stop.fields[2].value, EmittedValue::EU64(2));
}

#[test]
fn message_keeps_its_name_in_the_native_layout() {
    // Only the Common Schema layout renames "message"; the native layout
    // writes it as any other field.
    let mut sub = build("NativeMessage");
    let fields = vec![(
        "message".to_string(),
        ValueTypes::v_str("plain".to_string()),
    )];
    sub.on_event(1, ts(1), 0, 0, "msg", &Level::Info, &fields);
    let e = &sub.provider.emitted[0];
    assert_eq!(e.fields[1].name, "message");
    assert_eq!(e.fields[1].value, EmittedValue::EStr("plain".to_string()));
}
