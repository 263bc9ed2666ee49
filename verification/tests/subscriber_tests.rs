//! The builder, the enablement filter, and the subscriber core end to end.

use tracing_etw::error::EtwError;
use tracing_etw::hash::fnv1a_bytes;
use tracing_etw::layer::{CommonSchemaOutput, EtwSubscriber, Interest, LayerBuilder, NormalOutput};
use tracing_etw::provider::{EmittedValue, EtwProvider};
use tracing_etw::registry::EventMetadata;
use tracing_etw::values::ValueTypes;
use tracing_etw::{Level, Timestamp};

fn seed() -> Vec<u8> {
    vec![0, 9, 8, 7, 6, 5, 4, 3, 0, 0, 0, 0, 0, 0, 0, 0]
}

fn ts(secs: u64) -> Timestamp {
    Timestamp { secs, nanos: 0 }
}

fn empty_region() -> Vec<Option<EventMetadata>> {
    Vec::new()
}

fn native(name: &str) -> EtwSubscriber<NormalOutput> {
    LayerBuilder::new(name)
        .build_subscriber(&empty_region(), false, seed())
        .expect("valid configuration")
}

#[test]
fn provider_id_derives_from_name() {
    let layer = LayerBuilder::new("MyProvider");
    assert_eq!(
        layer.get_provider_id().to_u128(),
        0xb3864c38_4273_58c5_545b_8b3608343471
    );
}

#[test]
fn invalid_provider_name_is_rejected() {
    let r = LayerBuilder::new("bad name!").validate_config();
    match r {
        Err(EtwError::InvalidProviderNameCharacters(s)) => {
            assert_eq!(s, "bad name!");
        },
        _ => panic!("expected the invalid-name error"),
    }
    assert!(LayerBuilder::new("Good_Name_42").validate_config().is_ok());
}

#[test]
fn overlong_name_and_group_are_rejected() {
    let long = "a".repeat(230);
    let r = LayerBuilder::new(&long).with_provider_group("abcdef").validate_config();
    match r {
        Err(EtwError::TooManyCharacters(n)) => assert_eq!(n, 236),
        _ => panic!("expected the length error"),
    }
    assert!(LayerBuilder::new(&long).validate_config().is_ok());
}

#[test]
fn invalid_group_characters_are_rejected() {
    let r = LayerBuilder::new("fine").with_provider_group("NoUpper").validate_config();
    match r {
        Err(EtwError::InvalidProviderGroupCharacters(s)) => assert_eq!(s, "NoUpper"),
        _ => panic!("expected the group error"),
    }
    assert!(LayerBuilder::new("fine").with_provider_group("ok123").validate_config().is_ok());
}

#[test]
fn error_messages_name_each_failure() {
    assert!(EtwError::EmptyProviderGroupGuid.message().contains("zeros"));
    assert!(
        EtwError::InvalidProviderGroupCharacters("X".to_string()).message().contains("lower case")
    );
    assert!(
        EtwError::InvalidProviderNameCharacters("X".to_string()).message().contains("alphanumeric")
    );
    assert!(EtwError::TooManyCharacters(300).message().contains("234"));
}

#[test]
fn build_subscriber_rejects_bad_configuration() {
    let r = LayerBuilder::new("bad name!").build_subscriber(&empty_region(), false, seed());
    assert!(r.is_err());
    let r = LayerBuilder::new("fine").build_subscriber(&empty_region(), false, seed());
    assert!(r.is_ok());
}

#[test]
fn pull_model_reports_sometimes() {
    let sub = native("PullModel");
    assert_eq!(sub.register_callsite(1, &Level::Info), Interest::Sometimes);
}

#[test]
fn disabled_channel_writes_nothing() {
    // No collector listens in this environment, so the filter must turn
    // every call away without a single buffer emitted — for events and for
    // spans alike.
    let mut sub = native("DisabledTest");
    let fields = vec![("x".to_string(), ValueTypes::v_u64(7))];
    let wrote = sub.handle_event(1, ts(5), 0, 0, "quiet event", &Level::Error, &fields);
    assert!(!wrote);
    assert_eq!(sub.provider.emitted.len(), 0);

    let no_names: Vec<String> = Vec::new();
    let no_values: Vec<(String, ValueTypes)> = Vec::new();
    let id = sub.new_span(0, "quiet span".to_string(), Level::Info, &no_names, &no_values);
    assert!(!sub.handle_enter(id, 1, &Level::Info, ts(6)));
    assert!(!sub.handle_exit(id, 1, &Level::Info, ts(7)));
    assert_eq!(sub.provider.emitted.len(), 0);
    // The disabled entry did not even stamp the start time.
    assert_eq!(sub.tracker.get_span(id).unwrap().start_time, ts(0));
}

#[test]
fn enabled_channel_writes_on_the_next_call() {
    // The pull model re-checks on every call: once the channel reports the
    // (level, keyword) pair enabled, the very next call is written.
    let mut sub = native("ToggleTest");
    let fields = vec![("x".to_string(), ValueTypes::v_u64(7))];
    assert!(!sub.handle_event(1, ts(5), 0, 0, "before toggle", &Level::Info, &fields));

    let mut fresh = eventheader_dynamic::Provider::new(
        "ToggleTest2",
        &eventheader_dynamic::Provider::new_options(),
    );
    let _ = fresh.create_unregistered(true, eventheader::Level::from_int(4), 1);
    sub.provider.eh = fresh;

    let wrote = sub.handle_event(1, ts(5), 0, 0, "after toggle", &Level::Info, &fields);
    assert!(wrote);
    assert_eq!(sub.provider.emitted.len(), 1);
    assert_eq!(sub.provider.emitted[0].name, "after toggle");
    assert_eq!(sub.provider.emitted[0].keyword, 1);
}

#[test]
fn wire_encoding_is_deterministic() {
    let mut sub = native("DeterminismTest");
    let fields = vec![
        ("message".to_string(), ValueTypes::v_str("inside!".to_string())),
        ("fieldA".to_string(), ValueTypes::v_u64(7)),
        ("fieldB".to_string(), ValueTypes::v_i64(-1)),
        ("half".to_string(), ValueTypes::v_f64_bits(0.5f64.to_bits())),
    ];
    sub.on_event(1, ts(1000), 3, 0, "same event", &Level::Info, &fields);
    sub.on_event(1, ts(1000), 3, 0, "same event", &Level::Info, &fields);
    assert_eq!(sub.provider.emitted.len(), 2);
    assert_eq!(sub.provider.emitted[0], sub.provider.emitted[1]);
}

#[test]
fn native_event_buffer_has_time_then_fields() {
    let mut sub = native("EventShape");
    let fields = vec![
        ("count".to_string(), ValueTypes::v_u64(9)),
        ("skip".to_string(), ValueTypes::v_none),
        ("flag".to_string(), ValueTypes::v_bool(true)),
    ];
    sub.on_event(1, ts(77), 0, 0, "shaped", &Level::Warn, &fields);
    let e = &sub.provider.emitted[0];
    assert_eq!(e.opcode, 0);
    assert_eq!(e.level, 3);
    // The time field, then the two present values; the absent one vanishes.
    assert_eq!(e.fields.len(), 3);
    assert_eq!(e.fields[0].name, "time");
    assert_eq!(e.fields[0].value, EmittedValue::EU64(77));
    assert_eq!(e.fields[1].name, "count");
    assert_eq!(e.fields[2].name, "flag");
    assert_eq!(e.fields[2].value, EmittedValue::EBool(true));
    // No surrounding span: no correlation identifiers.
    assert!(e.activity_id.is_none());
    assert!(e.related_activity_id.is_none());
}

#[test]
fn registered_site_keyword_and_tag_reach_the_buffer() {
    let identity = fnv1a_bytes(b"site_one");
    let region = vec![Some(EventMetadata { kw: 42, identity, event_tag: 9 })];
    let mut sub: EtwSubscriber<NormalOutput> = LayerBuilder::new("SiteKeywords")
        .build_subscriber(&region, false, seed())
        .unwrap();
    let fields = Vec::new();
    sub.on_event(identity, ts(1), 0, 0, "with site", &Level::Info, &fields);
    sub.on_event(12345, ts(1), 0, 0, "without site", &Level::Info, &fields);
    assert_eq!(sub.provider.emitted[0].keyword, 42);
    assert_eq!(sub.provider.emitted[0].tag, 9);
    assert_eq!(sub.provider.emitted[1].keyword, 1);
    assert_eq!(sub.provider.emitted[1].tag, 0);
}

#[test]
fn end_to_end_scenario() {
    let mut sub = native("EndToEnd");
    let no_names: Vec<String> = Vec::new();
    let no_values: Vec<(String, ValueTypes)> = Vec::new();

    let outer = sub.new_span(0, "outer".to_string(), Level::Info, &no_names, &no_values);
    sub.on_enter(outer, 0, ts(10));
    let inner = sub.new_span(outer, "inner".to_string(), Level::Info, &no_names, &no_values);
    sub.on_enter(inner, 0, ts(11));
    let fields = vec![("x".to_string(), ValueTypes::v_u64(7))];
    sub.on_event(1, ts(12), inner, outer, "inside", &Level::Info, &fields);
    sub.on_exit(inner, 0, ts(13));
    sub.on_exit(outer, 0, ts(14));
    assert!(!sub.try_close(inner));
    assert!(!sub.try_close(outer));

    let emitted = &sub.provider.emitted;
    assert_eq!(emitted.len(), 5);

    // Exactly one start and one stop buffer per span.
    let starts: Vec<_> = emitted.iter().filter(|e| e.opcode == 1).collect();
    let stops: Vec<_> = emitted.iter().filter(|e| e.opcode == 2).collect();
    assert_eq!(starts.len(), 2);
    assert_eq!(stops.len(), 2);
    assert_eq!(starts[0].name, "outer");
    assert_eq!(starts[1].name, "inner");
    assert_eq!(stops[0].name, "inner");
    assert_eq!(stops[1].name, "outer");

    // The inner span points at the outer span as its parent activity.
    let outer_activity = starts[0].activity_id.clone().expect("outer is correlated");
    let inner_activity = starts[1].activity_id.clone().expect("inner is correlated");
    assert_eq!(
        starts[1].related_activity_id.clone().expect("inner has a parent"),
        outer_activity
    );
    assert!(starts[0].related_activity_id.is_none());

    // The event inside the inner span carries the inner span's identifier.
    let event = &emitted[2];
    assert_eq!(event.opcode, 0);
    assert_eq!(event.activity_id.clone().expect("event is correlated"), inner_activity);
    assert_eq!(
        event.related_activity_id.clone().expect("event has a parent span"),
        outer_activity
    );

    // The records are gone after the close.
    assert!(sub.tracker.get_span(inner).is_none());
    assert!(sub.tracker.get_span(outer).is_none());
}

#[test]
fn common_schema_span_start_is_silent_and_stop_is_structured() {
    let mut sub: EtwSubscriber<CommonSchemaOutput> =
        LayerBuilder::new_common_schema_events("CsSpans")
            .build_subscriber(&empty_region(), false, seed())
            .unwrap();
    let names = vec!["b".to_string()];
    let values = vec![("b".to_string(), ValueTypes::v_u64(5))];
    let id = sub.new_span(0, "cs span".to_string(), Level::Info, &names, &values);
    sub.on_enter(id, 0, ts(100));
    assert_eq!(sub.provider.emitted.len(), 0);
    sub.on_exit(id, 0, ts(160));
    assert_eq!(sub.provider.emitted.len(), 1);
    let e = &sub.provider.emitted[0];
    assert_eq!(e.name, "cs span");
    assert_eq!(e.opcode, 0);
    assert!(e.activity_id.is_none());

    let field_names: Vec<&str> = e.fields.iter().map(|f| f.name.as_str()).collect();
    assert_eq!(
        field_names,
        vec![
            "__csver__", "PartA", "time", "ext_dt", "traceId", "spanId", "PartB", "_typeName",
            "name", "startTime", "PartC", "b",
        ]
    );
    assert_eq!(e.fields[0].value, EmittedValue::EI32(0x0401));
    // The wall-clock renderings: stop time in PartA, start time in PartB.
    assert_eq!(
        e.fields[2].value,
        EmittedValue::EStr("1970-01-01T00:02:40+00:00".to_string())
    );
    assert_eq!(
        e.fields[9].value,
        EmittedValue::EStr("1970-01-01T00:01:40+00:00".to_string())
    );
    // The span identity, as sixteen hexadecimal digits.
    assert_eq!(
        e.fields[5].value,
        EmittedValue::EStrBytes(b"0000000000000001".to_vec())
    );
    assert_eq!(e.fields[11].value, EmittedValue::EU64(5));
}

#[test]
fn common_schema_event_renames_message_to_body() {
    let mut sub: EtwSubscriber<CommonSchemaOutput> =
        LayerBuilder::new_common_schema_events("CsEvents")
            .build_subscriber(&empty_region(), false, seed())
            .unwrap();
    let fields = vec![
        ("message".to_string(), ValueTypes::v_str("hello".to_string())),
        ("n".to_string(), ValueTypes::v_u64(3)),
    ];
    sub.on_event(1, ts(12), 0x2a, "cs event", &Level::Error, &fields);
    let e = &sub.provider.emitted[0];
    let field_names: Vec<&str> = e.fields.iter().map(|f| f.name.as_str()).collect();
    assert_eq!(
        field_names,
        vec![
            "__csver__", "PartA", "time", "ext_dt", "traceId", "spanId", "PartB", "_typeName",
            "name", "eventTime", "PartC", "Body", "n",
        ]
    );
    assert_eq!(e.fields[2].value, EmittedValue::EStr("1970-01-01T00:00:12+00:00".to_string()));
    assert_eq!(e.fields[5].value, EmittedValue::EStrBytes(b"000000000000002a".to_vec()));
    assert_eq!(e.fields[7].value, EmittedValue::EStr("Log".to_string()));
    assert_eq!(e.fields[11].value, EmittedValue::EStr("hello".to_string()));
}

#[test]
fn provider_reports_unregistered_pairs_disabled() {
    let region = vec![Some(EventMetadata { kw: 2, identity: 77, event_tag: 0 })];
    let registry = tracing_etw::registry::process_static_metadata(&region, false);
    let provider = EtwProvider::new("EnableProbe", None, &registry, 1);
    // Whatever the kernel says, nothing is enabled in this environment.
    assert!(!provider.enabled(&Level::Info, 1));
    assert!(!provider.enabled(&Level::Error, 2));
    assert!(!provider.enabled(&Level::Info, 999));
}

#[test]
fn filter_type_answers_like_its_layer() {
    let sub = native("FilterPair");
    let filter = tracing_etw::layer::EtwFilter { layer: sub };
    assert_eq!(filter.callsite_enabled(1, &Level::Info), Interest::Sometimes);
    assert!(!filter.enabled(1, &Level::Info));
    assert!(!filter.event_enabled(1, &Level::Error));
}

#[test]
fn group_configuration_opens_the_channel() {
    let sub = LayerBuilder::new("GroupedProvider")
        .with_provider_group("group01")
        .build_subscriber(&empty_region(), false, seed());
    assert!(sub.is_ok());
}

#[test]
fn explicit_provider_id_overrides_the_derived_one() {
    let id = tracing_etw::guid::GuidWrapper(0x1234_5678_9abc_def0_1122_3344_5566_7788);
    let layer = LayerBuilder::new("Overridden").with_provider_id(&id);
    assert_eq!(layer.get_provider_id().to_u128(), 0x1234_5678_9abc_def0_1122_3344_5566_7788);
    let layer = layer.with_default_keyword(0x1000);
    assert_eq!(layer.default_keyword, 0x1000);
}

#[test]
fn span_ids_are_distinct_and_increasing() {
    let mut sub = native("DistinctIds");
    let no_names: Vec<String> = Vec::new();
    let no_values: Vec<(String, ValueTypes)> = Vec::new();
    let a = sub.new_span(0, "a".to_string(), Level::Info, &no_names, &no_values);
    let b = sub.new_span(0, "b".to_string(), Level::Info, &no_names, &no_values);
    let c = sub.new_span(0, "c".to_string(), Level::Info, &no_names, &no_values);
    assert_eq!(a, 1);
    assert_eq!(b, 2);
    assert_eq!(c, 3);
}

#[test]
fn span_buffers_use_the_callsite_keyword_and_tag() {
    let identity = fnv1a_bytes(b"span_site");
    let region = vec![Some(EventMetadata { kw: 77, identity, event_tag: 5 })];
    let mut sub: EtwSubscriber<NormalOutput> = LayerBuilder::new("SpanKeywords")
        .build_subscriber(&region, false, seed())
        .unwrap();
    let no_names: Vec<String> = Vec::new();
    let no_values: Vec<(String, ValueTypes)> = Vec::new();
    let id = sub.new_span(0, "kw span".to_string(), Level::Info, &no_names, &no_values);
    sub.on_enter(id, identity, ts(1));
    sub.on_exit(id, identity, ts(2));
    assert_eq!(sub.provider.emitted[0].keyword, 77);
    assert_eq!(sub.provider.emitted[0].tag, 5);
    assert_eq!(sub.provider.emitted[1].keyword, 77);
    assert_eq!(sub.provider.emitted[1].tag, 5);

    // An unregistered span callsite falls back to the defaults.
    let id = sub.new_span(0, "plain span".to_string(), Level::Info, &no_names, &no_values);
    sub.on_enter(id, 0, ts(3));
    assert_eq!(sub.provider.emitted[2].keyword, 1);
    assert_eq!(sub.provider.emitted[2].tag, 0);
}

#[test]
fn oversized_payloads_are_tolerated() {
    // The channel truncates a counted string at 65535 bytes and counts at
    // most 127 fields in a group; neither is an error here, and the log
    // keeps the caller's full values.
    let mut sub = native("Oversize");
    let big = "x".repeat(70_000);
    let fields = vec![("blob".to_string(), ValueTypes::v_str(big.clone()))];
    sub.on_event(1, ts(1), 0, 0, "big event", &Level::Info, &fields);
    assert_eq!(
        sub.provider.emitted[0].fields[1].value,
        EmittedValue::EStr(big)
    );

    let mut sub: EtwSubscriber<CommonSchemaOutput> =
        LayerBuilder::new_common_schema_events("Oversize2")
            .build_subscriber(&empty_region(), false, seed())
            .unwrap();
    let mut many: Vec<(String, ValueTypes)> = Vec::new();
    for i in 0..130u64 {
        many.push((format!("f{:03}", i), ValueTypes::v_u64(i)));
    }
    sub.on_event(1, ts(1), 0, "many fields", &Level::Info, &many);
    let e = &sub.provider.emitted[0];
    // The group header counts 127; every field is still encoded after it.
    let partc = e.fields.iter().position(|f| f.name == "PartC").unwrap();
    assert_eq!(e.fields[partc].value, EmittedValue::EStruct(127));
    assert_eq!(e.fields.len(), partc + 1 + 130);
}
