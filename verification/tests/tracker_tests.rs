//! The span tracker: field round-trips, reference counting, correlation
//! identifiers.

use tracing_etw::tracker::{derive_activity_id, derive_related_id, SpanTracker};
use tracing_etw::values::{create_field_slots, update_value, ValueTypes};
use tracing_etw::{Level, Timestamp};

fn seed() -> Vec<u8> {
    vec![0, 1, 2, 3, 4, 5, 6, 7, 0, 0, 0, 0, 0, 0, 0, 0]
}

fn names(list: &[&str]) -> Vec<String> {
    list.iter().map(|s| s.to_string()).collect()
}

#[test]
fn span_field_round_trip() {
    let mut fields = create_field_slots(&names(&["a", "b", "c"]));
    assert_eq!(fields.len(), 3);
    update_value(&mut fields, "b", ValueTypes::v_u64(12345));
    assert!(matches!(fields[0].value, ValueTypes::v_none));
    assert!(matches!(fields[1].value, ValueTypes::v_u64(12345)));
    assert!(matches!(fields[2].value, ValueTypes::v_none));
    assert_eq!(fields[0].field, "a");
    assert_eq!(fields[1].field, "b");
    assert_eq!(fields[2].field, "c");

    // An undeclared field is dropped and the array does not grow.
    update_value(&mut fields, "d", ValueTypes::v_u64(1));
    assert_eq!(fields.len(), 3);
    assert!(matches!(fields[0].value, ValueTypes::v_none));
    assert!(matches!(fields[1].value, ValueTypes::v_u64(12345)));
    assert!(matches!(fields[2].value, ValueTypes::v_none));
}

#[test]
fn slots_sort_by_name_not_declaration_order() {
    // Declared out of alphabetical order, as a span macro would.
    let mut fields = create_field_slots(&names(&["fieldC", "fieldB", "fieldA"]));
    update_value(&mut fields, "fieldB", ValueTypes::v_str("asdf".to_string()));
    update_value(&mut fields, "fieldA", ValueTypes::v_u64(7));
    update_value(&mut fields, "fieldC", ValueTypes::v_char('x'));
    assert_eq!(fields[0].field, "fieldC");
    assert!(matches!(fields[0].value, ValueTypes::v_char('x')));
    assert!(matches!(&fields[1].value, ValueTypes::v_str(s) if s == "asdf"));
    assert!(matches!(fields[2].value, ValueTypes::v_u64(7)));
    // The permutation walks the names alphabetically.
    assert_eq!(fields[fields[0].sort_index as usize].field, "fieldA");
    assert_eq!(fields[fields[1].sort_index as usize].field, "fieldB");
    assert_eq!(fields[fields[2].sort_index as usize].field, "fieldC");
}

#[test]
fn declarations_beyond_the_cap_are_dropped() {
    let mut many: Vec<String> = Vec::new();
    for i in 0..40 {
        many.push(format!("f{:02}", i));
    }
    let fields = create_field_slots(&many);
    assert_eq!(fields.len(), 32);
}

#[test]
fn refcount_keeps_record_alive_until_last_close() {
    let mut t = SpanTracker::new(seed());
    t.create_span_data_for_new_span(7, 0, "outer".to_string(), Level::Info, &names(&[]));

    // A cloned handle: two closes are needed.
    t.addref_span(7);
    let alive = t.release_span(7);
    assert!(alive);
    assert!(t.get_span(7).is_some());
    let alive = t.release_span(7);
    assert!(!alive);
    assert!(t.get_span(7).is_none());

    // Without a clone, one close removes the record immediately.
    t.create_span_data_for_new_span(8, 0, "single".to_string(), Level::Info, &names(&[]));
    let alive = t.release_span(8);
    assert!(!alive);
    assert!(t.get_span(8).is_none());

    // A close of an unknown identifier is tolerated.
    let alive = t.release_span(999);
    assert!(alive);
}

#[test]
fn enter_records_start_time_and_overwrites_on_reentry() {
    let mut t = SpanTracker::new(seed());
    t.create_span_data_for_new_span(1, 0, "s".to_string(), Level::Debug, &names(&["x"]));
    assert_eq!(t.get_span(1).unwrap().start_time, Timestamp { secs: 0, nanos: 0 });

    assert!(t.enter_span(1, Timestamp { secs: 10, nanos: 5 }));
    assert_eq!(t.get_span(1).unwrap().start_time, Timestamp { secs: 10, nanos: 5 });

    // Re-entry without exit overwrites: the documented limitation.
    assert!(t.enter_span(1, Timestamp { secs: 20, nanos: 0 }));
    assert_eq!(t.get_span(1).unwrap().start_time, Timestamp { secs: 20, nanos: 0 });

    assert!(!t.enter_span(2, Timestamp { secs: 1, nanos: 0 }));
}

#[test]
fn creation_with_colliding_id_overwrites() {
    let mut t = SpanTracker::new(seed());
    t.create_span_data_for_new_span(5, 0, "first".to_string(), Level::Info, &names(&["a"]));
    t.create_span_data_for_new_span(5, 3, "second".to_string(), Level::Warn, &names(&["b"]));
    let d = t.get_span(5).unwrap();
    assert_eq!(d.name, "second");
    assert_eq!(d.parent_id, 3);
    assert_eq!(d.fields.len(), 1);
    assert_eq!(d.fields[0].field, "b");
    assert_eq!(d.ref_count, 1);
}

#[test]
fn activity_ids_derive_from_seed_and_span_id() {
    let s = seed();
    let id = derive_activity_id(&s, 0x1122334455667788);
    assert_eq!(id.len(), 16);
    assert_eq!(id[0], 1);
    assert_eq!(&id[1..8], &s[1..8]);
    assert_eq!(&id[8..16], &0x1122334455667788u64.to_le_bytes());

    let rel = derive_related_id(&s, 0);
    assert_eq!(rel[0], 0);
    assert_eq!(&rel[1..16], &s[1..16]);

    let rel = derive_related_id(&s, 42);
    assert_eq!(rel, derive_activity_id(&s, 42));
}

#[test]
fn record_values_update_only_their_span() {
    let mut t = SpanTracker::new(seed());
    t.create_span_data_for_new_span(1, 0, "one".to_string(), Level::Info, &names(&["k"]));
    t.create_span_data_for_new_span(2, 0, "two".to_string(), Level::Info, &names(&["k"]));
    let updates = vec![("k".to_string(), ValueTypes::v_i64(-4))];
    t.update_span_values(1, &updates);
    assert!(matches!(t.get_span(1).unwrap().fields[0].value, ValueTypes::v_i64(-4)));
    assert!(matches!(t.get_span(2).unwrap().fields[0].value, ValueTypes::v_none));
    // Recording on an unknown span changes nothing.
    t.update_span_values(9, &updates);
    assert!(t.get_span(9).is_none());
}
