//! The metadata registry: building, deduplication, lookup, keyword sums.

use tracing_etw::hash::{fnv1a_bytes, hash_identity, FNV1aHasher64HasherBuilder};
use tracing_etw::registry::{process_static_metadata, register_site, EventMetadata};
use tracing_etw::to_hex_utf8_bytes;
use core::hash::Hasher;

fn site(kw: u64, identity: u64, event_tag: u32) -> Option<EventMetadata> {
    Some(EventMetadata { kw, identity, event_tag })
}

#[test]
fn test_ten() {
    let names = [
        "TestEventWithKeyword1",
        "TestEventWithKeyword2",
        "TestEventWithKeyword3",
        "TestEventWithKeyword4",
        "TestEventWithKeyword5",
        "TestEventWithKeyword6",
        "TestEventWithKeyword7",
        "TestEventWithKeyword8",
        "TestEventWithKeyword9",
        "TestEventWithKeyword10",
    ];
    let mut region: Vec<Option<EventMetadata>> = Vec::new();
    let mut kw: u64 = 1;
    for name in names.iter() {
        let identity = fnv1a_bytes(name.as_bytes());
        register_site(&mut region, kw, identity, 0);
        kw += 1;
    }
    assert_eq!(region.len(), 10);

    let registry = process_static_metadata(&region, false);

    let mut sum: u64 = 0;
    for event in registry.event_metadata() {
        sum += event.kw;
    }

    let expected = 55;
    assert_eq!(sum, expected);
    assert_eq!(registry.keyword_sum(), expected);
}

#[test]
fn duplicate_registrations_collapse() {
    let region = vec![
        site(3, 100, 0),
        site(3, 100, 0),
        None,
        site(5, 200, 7),
        site(3, 100, 0),
    ];
    let registry = process_static_metadata(&region, false);
    assert_eq!(registry.event_metadata().len(), 2);
    assert_eq!(registry.keyword_sum(), 8);

    let hit = registry.get_event_metadata(100).expect("registered site");
    assert_eq!(hit.kw, 3);
    assert_eq!(hit.identity, 100);
    let hit = registry.get_event_metadata(200).expect("registered site");
    assert_eq!(hit.kw, 5);
    assert_eq!(hit.event_tag, 7);
    assert!(registry.get_event_metadata(300).is_none());
}

#[test]
fn sentinel_head_slot_is_skipped() {
    let region = vec![site(9, 1, 0), site(2, 2, 0), site(4, 3, 0)];
    let with_sentinel = process_static_metadata(&region, true);
    assert_eq!(with_sentinel.event_metadata().len(), 2);
    assert_eq!(with_sentinel.keyword_sum(), 6);
    assert!(with_sentinel.get_event_metadata(1).is_none());

    let without = process_static_metadata(&region, false);
    assert_eq!(without.event_metadata().len(), 3);
    assert_eq!(without.keyword_sum(), 15);
}

#[test]
fn empty_region_has_no_sites() {
    let region: Vec<Option<EventMetadata>> = Vec::new();
    let registry = process_static_metadata(&region, false);
    assert_eq!(registry.event_metadata().len(), 0);
    assert_eq!(registry.keyword_sum(), 0);
    assert!(registry.get_event_metadata(0).is_none());
    assert!(registry.get_event_metadata(42).is_none());
}

#[test]
fn building_twice_answers_lookups_identically() {
    let region = vec![
        site(1, 11, 0),
        site(2, 22, 1),
        None,
        site(3, 33, 2),
        site(2, 22, 1),
        site(4, 44, 3),
    ];
    let a = process_static_metadata(&region, false);
    let b = process_static_metadata(&region, false);
    for id in [0u64, 11, 22, 33, 44, 55, 1 << 60] {
        assert_eq!(a.get_event_metadata(id), b.get_event_metadata(id));
    }
    assert_eq!(a.event_metadata().len(), b.event_metadata().len());
}

#[test]
fn lookup_survives_many_sites() {
    let mut region: Vec<Option<EventMetadata>> = Vec::new();
    for i in 0..200u64 {
        region.push(site(i, i * 7 + 1, i as u32));
    }
    let registry = process_static_metadata(&region, false);
    for i in 0..200u64 {
        let hit = registry.get_event_metadata(i * 7 + 1).expect("present");
        assert_eq!(hit.kw, i);
        assert_eq!(hit.event_tag, i as u32);
    }
    assert!(registry.get_event_metadata(3).is_none());
}

#[test]
fn fnv1a_matches_reference_implementation() {
    // Known FNV-1a 64-bit vectors.
    assert_eq!(fnv1a_bytes(b""), 14695981039346656037);
    assert_eq!(fnv1a_bytes(b"a"), 12638187200555641996);
    assert_eq!(fnv1a_bytes(b"ab"), 620445648566982762);

    let _ = FNV1aHasher64HasherBuilder::new();
    for sample in [&b"span name"[..], b"fieldB", b"TestEventWithKeyword1"] {
        let mut reference = hashers::fnv::FNV1aHasher64::default();
        reference.write(sample);
        assert_eq!(fnv1a_bytes(sample), reference.finish());
    }

    // A site identity hashes as the eight little-endian bytes of the id.
    let id: u64 = 0x0123_4567_89ab_cdef;
    assert_eq!(hash_identity(id), fnv1a_bytes(&id.to_le_bytes()));
}

#[test]
fn hex_digits_of_a_span_id() {
    assert_eq!(to_hex_utf8_bytes(0), b"0000000000000000".to_vec());
    assert_eq!(to_hex_utf8_bytes(0x12345678), b"0000000012345678".to_vec());
    assert_eq!(to_hex_utf8_bytes(u64::MAX), b"ffffffffffffffff".to_vec());
    assert_eq!(to_hex_utf8_bytes(0xabcdef), b"0000000000abcdef".to_vec());
}
