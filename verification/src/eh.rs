//! Trusted boundary to the Linux user_events tracepoint crates.
//!
//! The channel (provider, event sets, tracepoint writes) and the wire
//! builder belong to the `eventheader_dynamic` crate; nothing here is
//! verified against their code. Each wrapper's contract states only what that
//! crate's source shows, over two named views: the set of (level, keyword)
//! event sets a provider has created, and the sequence of fields added to a
//! builder since its last reset.

use vstd::prelude::*;
use std::sync::Arc;
use vstd::string::StringSliceAdditionalSpecFns;
use crate::values::no_nul_chars;

verus! {

/// An abstract wire field, as handed to the builder: name, value, format.
pub struct WireField {
    pub name: Seq<u8>,
    pub value: WireValue,
    pub format: u8,
}

/// The value shapes the builder accepts. The wire stores a field as its
/// width, its bytes and a format byte: a 16-byte value is its little-endian
/// bytes whatever its sign, and a counted string holds at most 65535 bytes
/// of payload. A struct entry groups the following `count` fields.
pub enum WireValue {
    WU64(u64),
    WI64(i64),
    WI32(i32),
    WBytes(Seq<u8>),
    WBool(bool),
    WChar(char),
    WStr(Seq<u8>),
    WStruct(u8),
}

/// The little-endian bytes of a 128-bit value, as the builder writes them.
pub open spec fn le_bytes16(v: u128) -> Seq<u8> {
    Seq::new(16, |i: int| ((v >> (8 * i)) & 0xff) as u8)
}

/// What a counted string field stores: the payload, truncated to 65535
/// bytes, exactly as the builder stores it.
pub open spec fn str_payload(b: Seq<u8>) -> Seq<u8> {
    if b.len() <= 65535 {
        b
    } else {
        b.take(65535)
    }
}

// Field format codes of the eventheader encoding, as its source defines them.
pub const FORMAT_DEFAULT: u8 = 0;
pub const FORMAT_SIGNED_INT: u8 = 2;
pub const FORMAT_TIME: u8 = 6;
pub const FORMAT_BOOLEAN: u8 = 7;
pub const FORMAT_FLOAT: u8 = 8;
pub const FORMAT_STRING_UTF: u8 = 11;

// Opcodes of the eventheader encoding.
pub const OPCODE_INFO: u8 = 0;
pub const OPCODE_ACTIVITY_START: u8 = 1;
pub const OPCODE_ACTIVITY_STOP: u8 = 2;

#[verifier::external_type_specification]
#[verifier::external_body]
pub struct ExProvider(eventheader_dynamic::Provider);

#[verifier::external_type_specification]
#[verifier::external_body]
pub struct ExEventSet(eventheader_dynamic::EventSet);

#[verifier::external_type_specification]
#[verifier::external_body]
pub struct ExEventBuilder(eventheader_dynamic::EventBuilder);

/// The (level, keyword) event sets a provider has created so far.
pub uninterp spec fn provider_sets(p: eventheader_dynamic::Provider) -> Set<(u8, u64)>;

/// The fields added to a builder since its last reset, in order.
pub uninterp spec fn eb_entries(b: eventheader_dynamic::EventBuilder) -> Seq<WireField>;

/// The (event name bytes, event tag, opcode) a builder currently carries.
pub uninterp spec fn eb_header(b: eventheader_dynamic::EventBuilder) -> (Seq<u8>, u16, u8);

/// Relies on eventheader_dynamic's Provider::new_options,
/// ProviderOptions::group_name and Provider::new: builds a provider with the
/// given name and optional group, with no event set created yet.
/// Provider::new requires name plus group shorter than 234 bytes, and a name
/// without NUL, space or colon; group_name requires lowercase ASCII
/// alphanumeric.
#[verifier::external_body]
pub(crate) fn provider_new(name: &str, group: Option<&str>) -> (r: eventheader_dynamic::Provider)
    requires
        name.spec_bytes().len() + (match group {
            Some(g) => g.spec_bytes().len(),
            None => 0,
        }) < 234,
        forall|i: int|
            0 <= i < name.spec_bytes().len() ==> #[trigger] name.spec_bytes()[i] != 0u8
                && name.spec_bytes()[i] != 32u8 && name.spec_bytes()[i] != 58u8,
        match group {
            Some(g) => forall|i: int|
                0 <= i < g.spec_bytes().len() ==> (97u8 <= #[trigger] g.spec_bytes()[i] <= 122u8)
                    || (48u8 <= g.spec_bytes()[i] <= 57u8),
            None => true,
        },
    ensures
        provider_sets(r) == Set::<(u8, u64)>::empty(),
{
    let mut options = eventheader_dynamic::Provider::new_options();
    if let Some(g) = group {
        options.group_name(g);
    }
    eventheader_dynamic::Provider::new(name, &options)
}

/// Relies on eventheader_dynamic's Provider::find_set: returns the event set
/// registered under (level, keyword), if one was created.
#[verifier::external_body]
pub(crate) fn provider_find_set(
    p: &eventheader_dynamic::Provider,
    level: u8,
    keyword: u64,
) -> (r: Option<Arc<eventheader_dynamic::EventSet>>)
    ensures
        r is Some <==> provider_sets(*p).contains((level, keyword)),
{
    p.find_set(eventheader::Level::from_int(level), keyword)
}

/// Relies on eventheader_dynamic's Provider::register_set: creates (or
/// returns) the event set under (level, keyword) and tries to register its
/// tracepoint with the kernel.
#[verifier::external_body]
pub(crate) fn provider_register_set(
    p: &mut eventheader_dynamic::Provider,
    level: u8,
    keyword: u64,
) -> (r: Arc<eventheader_dynamic::EventSet>)
    ensures
        provider_sets(*final(p)) == provider_sets(*old(p)).insert((level, keyword)),
{
    p.register_set(eventheader::Level::from_int(level), keyword)
}

/// Relies on eventheader_dynamic's EventSet::enabled. Whether a collector
/// listens is kernel state, so nothing is promised of the result.
#[verifier::external_body]
pub(crate) fn es_enabled(es: &Arc<eventheader_dynamic::EventSet>) -> bool {
    es.enabled()
}

/// Relies on eventheader_dynamic's EventBuilder::new: a fresh builder with
/// no event name, tag zero, opcode zero and no fields.
#[verifier::external_body]
pub(crate) fn eb_new() -> (r: eventheader_dynamic::EventBuilder)
    ensures
        eb_entries(r) == Seq::<WireField>::empty(),
        eb_header(r) == (Seq::<u8>::empty(), 0u16, 0u8),
{
    eventheader_dynamic::EventBuilder::new()
}

/// Relies on eventheader_dynamic's EventBuilder::reset: clears the previous
/// event and starts one with the given name and tag, opcode zero.
#[verifier::external_body]
pub(crate) fn eb_reset(b: &mut eventheader_dynamic::EventBuilder, name: &str, event_tag: u16)
    requires
        no_nul_chars(name@),
    ensures
        eb_entries(*final(b)) == Seq::<WireField>::empty(),
        eb_header(*final(b)) == (name.spec_bytes(), event_tag, 0u8),
{
    b.reset(name, event_tag);
}

/// Relies on eventheader_dynamic's EventBuilder::opcode: records the opcode,
/// leaving name, tag and fields alone.
#[verifier::external_body]
pub(crate) fn eb_opcode(b: &mut eventheader_dynamic::EventBuilder, opcode: u8)
    ensures
        eb_entries(*final(b)) == eb_entries(*old(b)),
        eb_header(*final(b)) == (eb_header(*old(b)).0, eb_header(*old(b)).1, opcode),
{
    b.opcode(eventheader::Opcode::from_int(opcode));
}

/// Relies on eventheader_dynamic's EventBuilder::add_value at u64: appends
/// one 64-bit value field. The wire stores width, bytes and format, not
/// signedness, so the unsigned claim is keyed to the formats the signed
/// twin leaves free.
#[verifier::external_body]
pub(crate) fn eb_add_u64(b: &mut eventheader_dynamic::EventBuilder, name: &str, value: u64, format: u8)
    requires
        no_nul_chars(name@),
        format < 128,
        format != FORMAT_SIGNED_INT,
    ensures
        eb_entries(*final(b)) == eb_entries(*old(b)).push(
            WireField { name: name.spec_bytes(), value: WireValue::WU64(value), format },
        ),
        eb_header(*final(b)) == eb_header(*old(b)),
{
    b.add_value(name, value, eventheader::FieldFormat::from_int(format), 0);
}

/// Relies on eventheader_dynamic's EventBuilder::add_value at i64: the
/// signed 64-bit field, keyed to the signed format.
#[verifier::external_body]
pub(crate) fn eb_add_i64(b: &mut eventheader_dynamic::EventBuilder, name: &str, value: i64, format: u8)
    requires
        no_nul_chars(name@),
        format == FORMAT_SIGNED_INT,
    ensures
        eb_entries(*final(b)) == eb_entries(*old(b)).push(
            WireField { name: name.spec_bytes(), value: WireValue::WI64(value), format },
        ),
        eb_header(*final(b)) == eb_header(*old(b)),
{
    b.add_value(name, value, eventheader::FieldFormat::from_int(format), 0);
}

/// Relies on eventheader_dynamic's EventBuilder::add_value at i32: a
/// 32-bit value under any format but the character one, which the char
/// twin claims.
#[verifier::external_body]
pub(crate) fn eb_add_i32(b: &mut eventheader_dynamic::EventBuilder, name: &str, value: i32, format: u8)
    requires
        no_nul_chars(name@),
        format < 128,
        format != FORMAT_STRING_UTF,
    ensures
        eb_entries(*final(b)) == eb_entries(*old(b)).push(
            WireField { name: name.spec_bytes(), value: WireValue::WI32(value), format },
        ),
        eb_header(*final(b)) == eb_header(*old(b)),
{
    b.add_value(name, value, eventheader::FieldFormat::from_int(format), 0);
}

/// Relies on eventheader_dynamic's EventBuilder::add_value at [u8; 16]: the
/// sixteen little-endian bytes of a 128-bit value, as one fixed-width
/// field; the wire keeps only the bytes, so that is what the entry claims.
#[verifier::external_body]
pub(crate) fn eb_add_u128_bytes(
    b: &mut eventheader_dynamic::EventBuilder,
    name: &str,
    value: u128,
    format: u8,
)
    requires
        no_nul_chars(name@),
        format < 128,
    ensures
        eb_entries(*final(b)) == eb_entries(*old(b)).push(
            WireField { name: name.spec_bytes(), value: WireValue::WBytes(le_bytes16(value)), format },
        ),
        eb_header(*final(b)) == eb_header(*old(b)),
{
    b.add_value(name, value.to_le_bytes(), eventheader::FieldFormat::from_int(format), 0);
}

/// Relies on eventheader_dynamic's EventBuilder::add_value at [u8; 16], for
/// the little-endian bytes of a signed 128-bit value in two's complement,
/// the same byte-level entry shape as its unsigned twin.
#[verifier::external_body]
pub(crate) fn eb_add_i128_bytes(
    b: &mut eventheader_dynamic::EventBuilder,
    name: &str,
    value: i128,
    format: u8,
)
    requires
        no_nul_chars(name@),
        format < 128,
    ensures
        eb_entries(*final(b)) == eb_entries(*old(b)).push(
            WireField {
                name: name.spec_bytes(),
                value: WireValue::WBytes(le_bytes16(value as u128)),
                format,
            },
        ),
        eb_header(*final(b)) == eb_header(*old(b)),
{
    b.add_value(name, value.to_le_bytes(), eventheader::FieldFormat::from_int(format), 0);
}

/// Relies on eventheader_dynamic's EventBuilder::add_value at bool.
#[verifier::external_body]
pub(crate) fn eb_add_bool(b: &mut eventheader_dynamic::EventBuilder, name: &str, value: bool, format: u8)
    requires
        no_nul_chars(name@),
        format < 128,
    ensures
        eb_entries(*final(b)) == eb_entries(*old(b)).push(
            WireField { name: name.spec_bytes(), value: WireValue::WBool(value), format },
        ),
        eb_header(*final(b)) == eb_header(*old(b)),
{
    b.add_value(name, value, eventheader::FieldFormat::from_int(format), 0);
}

/// Relies on eventheader_dynamic's EventBuilder::add_value at char: a
/// 32-bit scalar keyed to the character format.
#[verifier::external_body]
pub(crate) fn eb_add_char(b: &mut eventheader_dynamic::EventBuilder, name: &str, value: char, format: u8)
    requires
        no_nul_chars(name@),
        format == FORMAT_STRING_UTF,
    ensures
        eb_entries(*final(b)) == eb_entries(*old(b)).push(
            WireField { name: name.spec_bytes(), value: WireValue::WChar(value), format },
        ),
        eb_header(*final(b)) == eb_header(*old(b)),
{
    b.add_value(name, value, eventheader::FieldFormat::from_int(format), 0);
}

/// Relies on eventheader_dynamic's EventBuilder::add_str at u8: a counted
/// string field holding the given UTF-8 text; a payload over 65535 bytes is
/// truncated there by the builder.
#[verifier::external_body]
pub(crate) fn eb_add_str(b: &mut eventheader_dynamic::EventBuilder, name: &str, value: &str, format: u8)
    requires
        no_nul_chars(name@),
        format < 128,
    ensures
        eb_entries(*final(b)) == eb_entries(*old(b)).push(
            WireField {
                name: name.spec_bytes(),
                value: WireValue::WStr(str_payload(value.spec_bytes())),
                format,
            },
        ),
        eb_header(*final(b)) == eb_header(*old(b)),
{
    b.add_str(name, value, eventheader::FieldFormat::from_int(format), 0);
}

/// Relies on eventheader_dynamic's EventBuilder::add_str at u8, for a field
/// whose payload is already raw bytes; over 65535 of them are truncated
/// there by the builder.
#[verifier::external_body]
pub(crate) fn eb_add_str_bytes(
    b: &mut eventheader_dynamic::EventBuilder,
    name: &str,
    value: &[u8],
    format: u8,
)
    requires
        no_nul_chars(name@),
        format < 128,
    ensures
        eb_entries(*final(b)) == eb_entries(*old(b)).push(
            WireField { name: name.spec_bytes(), value: WireValue::WStr(str_payload(value@)), format },
        ),
        eb_header(*final(b)) == eb_header(*old(b)),
{
    b.add_str(name, value, eventheader::FieldFormat::from_int(format), 0);
}

/// Relies on eventheader_dynamic's EventBuilder::add_struct: a field that
/// groups the next `count` fields; the count must be 1 to 127.
#[verifier::external_body]
pub(crate) fn eb_add_struct(b: &mut eventheader_dynamic::EventBuilder, name: &str, count: u8)
    requires
        no_nul_chars(name@),
        1 <= count < 128,
    ensures
        eb_entries(*final(b)) == eb_entries(*old(b)).push(
            WireField { name: name.spec_bytes(), value: WireValue::WStruct(count), format: 0u8 },
        ),
        eb_header(*final(b)) == eb_header(*old(b)),
{
    b.add_struct(name, count, 0);
}

/// Relies on eventheader_dynamic's EventBuilder::write: sends the built
/// event to the event set's tracepoint, with the optional activity
/// identifiers. A disabled or unregistered set makes this a no-op. The
/// result is the kernel's errno, for diagnostics only; nothing is promised
/// of it.
#[verifier::external_body]
pub(crate) fn eb_write(
    b: &eventheader_dynamic::EventBuilder,
    es: &Arc<eventheader_dynamic::EventSet>,
    activity_id: Option<&Vec<u8>>,
    related_id: Option<&Vec<u8>>,
) -> i32
    requires
        match activity_id {
            Some(a) => a@.len() == 16,
            None => true,
        },
        match related_id {
            Some(r) => r@.len() == 16,
            None => true,
        },
        related_id is Some ==> activity_id is Some,
{
    let to_arr = |v: &Vec<u8>| {
        let mut arr = [0u8; 16];
        arr.copy_from_slice(v.as_slice());
        arr
    };
    let act = activity_id.map(to_arr);
    let rel = related_id.map(to_arr);
    b.write(es, act.as_ref(), rel.as_ref())
}

/// Relies on eventheader's Guid::from_name and Guid::to_u128: the
/// name-derived provider identity, a function of the name alone.
#[verifier::external_body]
pub(crate) fn guid_from_name(name: &str) -> (r: u128)
    ensures
        r == guid_of_name(name@),
{
    eventheader::Guid::from_name(name).to_u128()
}

/// What eventheader's Guid::from_name computes from a provider name.
pub uninterp spec fn guid_of_name(name: Seq<char>) -> u128;

/// Relies on chrono's DateTime::from_timestamp and DateTime::to_rfc3339:
/// the RFC 3339 rendering of a Unix timestamp, in UTC, a function of the
/// timestamp alone. from_timestamp is only defined on an in-range
/// timestamp, so one is required.
#[verifier::external_body]
pub(crate) fn format_rfc3339(secs: u64, nanos: u32) -> (r: String)
    requires
        secs <= 253_402_300_799,
        nanos < 1_000_000_000,
    ensures
        r@ == rfc3339_of(secs, nanos),
{
    let dt = chrono::DateTime::<chrono::Utc>::from_timestamp(secs as i64, nanos).unwrap();
    dt.to_rfc3339()
}

/// What chrono's to_rfc3339 renders for a UTC timestamp.
pub uninterp spec fn rfc3339_of(secs: u64, nanos: u32) -> Seq<char>;

} // verus!
