//! The channel configuration builder, the enablement filter, and the
//! subscriber core that ties registry, tracker and encoder together.
//!
//! The builder validates a configuration before any channel is opened. The
//! subscriber core is the per-call state machine: a log call consults the
//! filter first, and only an enabled call reaches the encoder; span calls
//! drive the tracker and emit start/stop buffers.

use vstd::prelude::*;
use vstd::string::StringSliceAdditionalSpecFns;
use core::marker::PhantomData;
use crate::error::EtwError;
use crate::guid::GuidWrapper;
use crate::eh::{provider_sets, guid_of_name};
use crate::registry::{EventMetadata, MetadataRegistry, process_static_metadata};
use crate::tracker::SpanTracker;
use crate::values::{ValueTypes, distinct_names, no_nul_chars, str_bytes};
use crate::provider::{EtwProvider, valid_provider_name, valid_provider_group, expected_sets,
    kws_of, native_record_wire, native_span_start_wire, native_span_stop_wire, fields_model};
use crate::cs::{cs_record_wire, cs_span_stop_wire};
use crate::eh::{OPCODE_INFO, OPCODE_ACTIVITY_START, OPCODE_ACTIVITY_STOP};
use crate::{Level, Timestamp, MAX_RFC3339_SECS};

verus! {

/// Seal for the output-mode markers: only the two modes below exist.
pub trait Sealed {}

pub struct SealedStruct;

/// Marker trait of the two wire layouts a channel can write.
pub trait OutputMode: Sealed {}

/// The compact native layout.
pub struct NormalOutput(SealedStruct);

impl Sealed for NormalOutput {}

impl OutputMode for NormalOutput {}

/// The Common Schema layout.
pub struct CommonSchemaOutput(SealedStruct);

impl Sealed for CommonSchemaOutput {}

impl OutputMode for CommonSchemaOutput {}

/// Whether the channel can call back when a collector attaches or detaches.
/// The user_events channel cannot, so every enablement check is live (the
/// pull model).
pub fn supports_enable_callback() -> (r: bool)
    ensures
        r == false,
{
    false
}

/// A callsite's cached interest: always or never (the push model, cached
/// until invalidated), or sometimes (the pull model, re-checked every call).
#[derive(Clone, Copy, PartialEq, Eq, Structural, Debug)]
pub enum Interest {
    Always,
    Sometimes,
    Never,
}

/// Configuration of one channel: its name, its 128-bit identity (derived
/// from the name unless supplied), an optional provider group, and the
/// keyword given to events that set none.
pub struct LayerBuilder<OutMode: OutputMode> {
    pub provider_name: String,
    pub provider_id: GuidWrapper,
    pub provider_group: Option<String>,
    pub default_keyword: u64,
    pub _o: PhantomData<OutMode>,
}

impl LayerBuilder<NormalOutput> {
    /// A builder for a channel in the native layout.
    pub fn new(name: &str) -> (r: LayerBuilder<NormalOutput>)
        ensures
            r.provider_name@ == name@,
            r.provider_id.0 == guid_of_name(name@),
            r.provider_group is None,
            r.default_keyword == 1,
    {
        LayerBuilder {
            provider_name: name.to_owned(),
            provider_id: GuidWrapper::from_name(name),
            provider_group: None,
            default_keyword: 1,
            _o: PhantomData,
        }
    }
}

impl LayerBuilder<CommonSchemaOutput> {
    /// A builder for a channel in the Common Schema layout. Only for
    /// consumers that ask for that layout; it is slower to produce.
    pub fn new_common_schema_events(name: &str) -> (r: LayerBuilder<CommonSchemaOutput>)
        ensures
            r.provider_name@ == name@,
            r.provider_id.0 == guid_of_name(name@),
            r.provider_group is None,
            r.default_keyword == 1,
    {
        LayerBuilder {
            provider_name: name.to_owned(),
            provider_id: GuidWrapper::from_name(name),
            provider_group: None,
            default_keyword: 1,
            _o: PhantomData,
        }
    }
}

/// The combined byte length of the configured name and group.
pub open spec fn combined_len<OutMode: OutputMode>(b: LayerBuilder<OutMode>) -> int {
    str_bytes(b.provider_name@).len() + match b.provider_group {
        Some(g) => str_bytes(g@).len() as int,
        None => 0int,
    }
}

/// A configuration the channel accepts.
pub open spec fn config_ok<OutMode: OutputMode>(b: LayerBuilder<OutMode>) -> bool {
    &&& valid_provider_name(str_bytes(b.provider_name@))
    &&& combined_len(b) < 234
    &&& match b.provider_group {
        Some(g) => valid_provider_group(str_bytes(g@)),
        None => true,
    }
}

impl<OutMode: OutputMode> LayerBuilder<OutMode> {
    /// Replaces the name-derived channel identity with an explicit one.
    pub fn with_provider_id(self, guid: &GuidWrapper) -> (r: Self)
        ensures
            r.provider_id == *guid,
            r.provider_name == self.provider_name,
            r.provider_group == self.provider_group,
            r.default_keyword == self.default_keyword,
    {
        LayerBuilder { provider_id: *guid, ..self }
    }

    /// The channel identity the builder will use.
    pub fn get_provider_id(&self) -> (r: GuidWrapper)
        ensures
            r == self.provider_id,
    {
        self.provider_id
    }

    /// Sets the keyword used for events that do not set one. Without this
    /// call the default keyword is 1; keyword 0 is reserved by some
    /// collectors and best avoided.
    pub fn with_default_keyword(self, kw: u64) -> (r: Self)
        ensures
            r.default_keyword == kw,
            r.provider_name == self.provider_name,
            r.provider_id == self.provider_id,
            r.provider_group == self.provider_group,
    {
        LayerBuilder { default_keyword: kw, ..self }
    }

    /// Joins the channel to a provider group.
    pub fn with_provider_group(self, group_id: &str) -> (r: Self)
        ensures
            r.provider_group matches Some(g) && g@ == group_id@,
            r.provider_name == self.provider_name,
            r.provider_id == self.provider_id,
            r.default_keyword == self.default_keyword,
    {
        LayerBuilder { provider_group: Some(group_id.to_owned()), ..self }
    }

    /// Checks the configuration, in the order the channel would reject it:
    /// the name must be ASCII alphanumeric or underscore; name and group
    /// together must stay under 234 bytes; the group must be lowercase ASCII
    /// alphanumeric. Exactly the failing rule's error comes back.
    pub fn validate_config(&self) -> (r: Result<(), EtwError>)
        ensures
            r is Ok <==> config_ok(*self),
            !valid_provider_name(str_bytes(self.provider_name@)) ==> (r matches Err(
                EtwError::InvalidProviderNameCharacters(s),
            ) && s@ == self.provider_name@),
            valid_provider_name(str_bytes(self.provider_name@)) && combined_len(*self) >= 234 ==> (r matches Err(
                EtwError::TooManyCharacters(n),
            ) && n == if combined_len(*self) <= usize::MAX {
                combined_len(*self)
            } else {
                usize::MAX as int
            }),
            valid_provider_name(str_bytes(self.provider_name@)) && combined_len(*self) < 234 && (
            self.provider_group matches Some(g) && !valid_provider_group(str_bytes(g@))) ==> (r matches Err(
                EtwError::InvalidProviderGroupCharacters(s),
            ) && s@ == self.provider_group->Some_0@),
    {
        if !check_provider_name(self.provider_name.as_str()) {
            return Err(EtwError::InvalidProviderNameCharacters(self.provider_name.clone()));
        }
        let name_len = self.provider_name.as_str().as_bytes().len();
        let group_len: usize = match &self.provider_group {
            Some(g) => g.as_str().as_bytes().len(),
            None => 0,
        };
        proof {
            assert(name_len == str_bytes(self.provider_name@).len());
            assert(group_len as int == match self.provider_group {
                Some(g) => str_bytes(g@).len() as int,
                None => 0int,
            });
        }
        let total: usize = if name_len <= usize::MAX - group_len {
            name_len + group_len
        } else {
            usize::MAX
        };
        if total >= 234 {
            return Err(EtwError::TooManyCharacters(total));
        }
        match &self.provider_group {
            Some(g) => {
                if !check_provider_group(g.as_str()) {
                    return Err(EtwError::InvalidProviderGroupCharacters(g.clone()));
                }
            },
            None => {},
        }
        Ok(())
    }

    /// Builds the subscriber core: the registry from the registration
    /// region, an empty span tracker over the process seed, and the opened
    /// channel with its event sets pre-registered.
    pub fn build_subscriber(
        self,
        region: &Vec<Option<EventMetadata>>,
        skip_first: bool,
        seed: Vec<u8>,
    ) -> (r: Result<EtwSubscriber<OutMode>, EtwError>)
        requires
            seed@.len() == 16,
        ensures
            r is Ok <==> config_ok(self),
            !valid_provider_name(str_bytes(self.provider_name@)) ==> (r matches Err(
                EtwError::InvalidProviderNameCharacters(s),
            ) && s@ == self.provider_name@),
            valid_provider_name(str_bytes(self.provider_name@)) && combined_len(self) >= 234 ==> (
            r matches Err(EtwError::TooManyCharacters(n)) && n == if combined_len(self)
                <= usize::MAX {
                combined_len(self)
            } else {
                usize::MAX as int
            }),
            valid_provider_name(str_bytes(self.provider_name@)) && combined_len(self) < 234 && (
            self.provider_group matches Some(g) && !valid_provider_group(str_bytes(g@))) ==> (
            r matches Err(EtwError::InvalidProviderGroupCharacters(s)) && s@
                == self.provider_group->Some_0@),
            r matches Ok(s) ==> {
                &&& s.wf()
                &&& s.default_keyword == self.default_keyword
                &&& s.registry.wf()
                &&& s.registry.built_from(region@, skip_first)
                &&& s.tracker@ == Map::<u64, crate::tracker::SpanData>::empty()
                &&& s.tracker.seed@ == seed@
                &&& s.provider.emitted@ == Seq::<crate::provider::EmittedEvent>::empty()
                &&& provider_sets(s.provider.eh) == expected_sets(
                    kws_of(s.registry.entries@),
                    self.default_keyword,
                )
            },
    {
        match self.validate_config() {
            Ok(()) => {},
            Err(e) => {
                return Err(e);
            },
        }
        let registry = process_static_metadata(region, skip_first);
        let group: Option<&str> = match &self.provider_group {
            Some(g) => Some(g.as_str()),
            None => None,
        };
        let provider = EtwProvider::new(
            self.provider_name.as_str(),
            group,
            &registry,
            self.default_keyword,
        );
        let tracker = SpanTracker::new(seed);
        Ok(
            EtwSubscriber {
                provider,
                registry,
                tracker,
                default_keyword: self.default_keyword,
                next_span_id: 1,
                _o: PhantomData,
            },
        )
    }
}

/// Checks a provider name: ASCII letters, digits or underscore.
fn check_provider_name(name: &str) -> (r: bool)
    ensures
        r == valid_provider_name(name.spec_bytes()),
{
    let bytes = name.as_bytes();
    let n = bytes.len();
    let mut i: usize = 0;
    while i < n
        invariant
            n == name.spec_bytes().len(),
            bytes@ == name.spec_bytes(),
            i <= n,
            forall|k: int|
                0 <= k < i ==> (97u8 <= #[trigger] bytes@[k] <= 122u8) || (65u8 <= bytes@[k]
                    <= 90u8) || (48u8 <= bytes@[k] <= 57u8) || bytes@[k] == 95u8,
        decreases n - i,
    {
        let b = bytes[i];
        let ok = (97 <= b && b <= 122) || (65 <= b && b <= 90) || (48 <= b && b <= 57) || b == 95;
        if !ok {
            return false;
        }
        i = i + 1;
    }
    true
}

/// Checks a provider group: lowercase ASCII letters or digits.
fn check_provider_group(group: &str) -> (r: bool)
    ensures
        r == valid_provider_group(group.spec_bytes()),
{
    let bytes = group.as_bytes();
    let n = bytes.len();
    let mut i: usize = 0;
    while i < n
        invariant
            n == group.spec_bytes().len(),
            bytes@ == group.spec_bytes(),
            i <= n,
            forall|k: int|
                0 <= k < i ==> (97u8 <= #[trigger] bytes@[k] <= 122u8) || (48u8 <= bytes@[k]
                    <= 57u8),
        decreases n - i,
    {
        let b = bytes[i];
        let ok = (97 <= b && b <= 122) || (48 <= b && b <= 57);
        if !ok {
            return false;
        }
        i = i + 1;
    }
    true
}

/// The subscriber core: registry, tracker, channel, default keyword and the
/// next span identifier to hand out.
pub struct EtwSubscriber<OutMode: OutputMode> {
    pub provider: EtwProvider,
    pub registry: MetadataRegistry,
    pub tracker: SpanTracker,
    pub default_keyword: u64,
    pub next_span_id: u64,
    pub _o: PhantomData<OutMode>,
}

impl<OutMode: OutputMode> EtwSubscriber<OutMode> {
    pub open spec fn wf(self) -> bool {
        &&& self.registry.wf()
        &&& self.tracker.wf()
        &&& self.next_span_id >= 1
    }

    /// The keyword a log call at this site uses: the site's registered
    /// keyword, or the configured default when the site registered none.
    pub open spec fn effective_keyword(self, identity: u64) -> u64 {
        match self.registry.lookup_spec(identity) {
            Some(m) => m.kw,
            None => self.default_keyword,
        }
    }

    /// The event tag of a site: registered, or zero.
    pub open spec fn effective_tag(self, identity: u64) -> u32 {
        match self.registry.lookup_spec(identity) {
            Some(m) => m.event_tag,
            None => 0,
        }
    }

    /// The enablement filter's per-call decision: look the site's keyword up
    /// and ask the channel. A (level, keyword) pair the channel never
    /// registered is never enabled.
    pub fn is_enabled(&self, identity: u64, level: &Level) -> (r: bool)
        requires
            self.wf(),
        ensures
            !provider_sets(self.provider.eh).contains(
                (level.as_int_spec(), self.effective_keyword(identity)),
            ) ==> r == false,
    {
        let meta = self.registry.get_event_metadata(identity);
        let keyword = match meta {
            Some(m) => m.kw,
            None => self.default_keyword,
        };
        self.provider.enabled(level, keyword)
    }

    /// The callsite-registration decision: with a channel that signals
    /// enablement changes, the answer is cached as always or never until the
    /// next invalidation; without one it is "sometimes", so each call is
    /// checked live. This channel has no callback, so the pull model is
    /// always in force.
    pub fn register_callsite(&self, identity: u64, level: &Level) -> (r: Interest)
        requires
            self.wf(),
        ensures
            !supports_callback_spec() ==> r == Interest::Sometimes,
    {
        if supports_enable_callback() {
            if self.is_enabled(identity, level) {
                Interest::Always
            } else {
                Interest::Never
            }
        } else {
            Interest::Sometimes
        }
    }

    /// Allocates the next span identifier. Identifiers start at 1 and only
    /// grow; the counter saturates rather than wrap.
    pub fn next_id(&mut self) -> (r: u64)
        requires
            old(self).wf(),
        ensures
            final(self).wf(),
            r == old(self).next_span_id,
            r >= 1,
            final(self).next_span_id == if old(self).next_span_id < u64::MAX {
                (old(self).next_span_id + 1) as u64
            } else {
                old(self).next_span_id
            },
            final(self).provider == old(self).provider,
            final(self).registry == old(self).registry,
            final(self).tracker == old(self).tracker,
            final(self).default_keyword == old(self).default_keyword,
    {
        let id = self.next_span_id;
        if id < u64::MAX {
            self.next_span_id = id + 1;
        }
        id
    }
}

pub open spec fn supports_callback_spec() -> bool {
    false
}

/// The enablement filter a host installs next to the subscriber: it owns
/// the same core and answers the host's per-callsite and per-call
/// questions, so a disabled call never reaches the encoder.
pub struct EtwFilter<OutMode: OutputMode> {
    pub layer: EtwSubscriber<OutMode>,
}

impl<OutMode: OutputMode> EtwFilter<OutMode> {
    /// The cached per-callsite decision; see `register_callsite`.
    pub fn callsite_enabled(&self, identity: u64, level: &Level) -> (r: Interest)
        requires
            self.layer.wf(),
        ensures
            !supports_callback_spec() ==> r == Interest::Sometimes,
    {
        self.layer.register_callsite(identity, level)
    }

    /// The live per-call decision.
    pub fn enabled(&self, identity: u64, level: &Level) -> (r: bool)
        requires
            self.layer.wf(),
        ensures
            !provider_sets(self.layer.provider.eh).contains(
                (level.as_int_spec(), self.layer.effective_keyword(identity)),
            ) ==> r == false,
    {
        self.layer.is_enabled(identity, level)
    }

    /// The live per-event decision: the same rule, asked once more just
    /// before an event is encoded.
    pub fn event_enabled(&self, identity: u64, level: &Level) -> (r: bool)
        requires
            self.layer.wf(),
        ensures
            !provider_sets(self.layer.provider.eh).contains(
                (level.as_int_spec(), self.layer.effective_keyword(identity)),
            ) ==> r == false,
    {
        self.layer.is_enabled(identity, level)
    }
}

impl<OutMode: OutputMode> EtwSubscriber<OutMode> {
    /// Creates a new span: allocates its identifier, builds its record with
    /// the declared fields and the derived correlation identifiers, and
    /// applies the values supplied at creation. A colliding identifier
    /// cannot arise: identifiers only grow.
    pub fn new_span(
        &mut self,
        parent_id: u64,
        name: String,
        level: Level,
        field_names: &Vec<String>,
        initial_values: &Vec<(String, ValueTypes)>,
    ) -> (id: u64)
        requires
            old(self).wf(),
            distinct_names(field_names@),
            no_nul_chars(name@),
            forall|i: int|
                0 <= i < field_names@.len() ==> no_nul_chars((#[trigger] field_names@[i])@),
        ensures
            final(self).wf(),
            id == old(self).next_span_id,
            id >= 1,
            final(self).next_span_id == if old(self).next_span_id < u64::MAX {
                (old(self).next_span_id + 1) as u64
            } else {
                old(self).next_span_id
            },
            final(self).provider == old(self).provider,
            final(self).registry == old(self).registry,
            final(self).default_keyword == old(self).default_keyword,
            final(self).tracker.seed@ == old(self).tracker.seed@,
            final(self).tracker@.dom() == old(self).tracker@.dom().insert(id),
            forall|k: u64|
                k != id && old(self).tracker@.contains_key(k) ==> final(self).tracker@.contains_key(
                    k,
                ) && final(self).tracker@[k] == old(self).tracker@[k],
            final(self).tracker@.contains_key(id),
            ({
                let d = final(self).tracker@[id];
                &&& d.id == id
                &&& d.parent_id == parent_id
                &&& d.name == name
                &&& d.level == level
                &&& d.ref_count == 1
                &&& d.start_time == (Timestamp { secs: 0, nanos: 0 })
                &&& d.activity_id@ == crate::tracker::activity_id_spec(old(self).tracker.seed@, id)
                &&& d.related_activity_id@ == crate::tracker::related_id_spec(
                    old(self).tracker.seed@,
                    parent_id,
                )
                &&& d.fields@.len() == if field_names@.len() <= 32 {
                    field_names@.len() as int
                } else {
                    32
                }
                &&& (forall|i: int|
                    0 <= i < d.fields@.len() ==> (#[trigger] d.fields@[i]).field
                        == field_names@[i])
                &&& d.fields@ == crate::values::apply_all(
                    Seq::new(
                        d.fields@.len(),
                        |i: int|
                            crate::values::FieldValueIndex {
                                field: field_names@[i],
                                value: ValueTypes::v_none,
                                sort_index: d.fields@[i].sort_index,
                            },
                    ),
                    initial_values@,
                )
            }),
    {
        let id = self.next_id();
        self.on_new_span(id, parent_id, name, level, field_names, initial_values);
        id
    }

    /// Creates the record of a span whose identifier the host supplies:
    /// the sorted field slots, the derived correlation identifiers, and the
    /// values attached at creation. A record already stored under the same
    /// identifier is overwritten, the documented collision policy.
    pub fn on_new_span(
        &mut self,
        id: u64,
        parent_id: u64,
        name: String,
        level: Level,
        field_names: &Vec<String>,
        initial_values: &Vec<(String, ValueTypes)>,
    )
        requires
            old(self).wf(),
            id != 0,
            distinct_names(field_names@),
            no_nul_chars(name@),
            forall|i: int|
                0 <= i < field_names@.len() ==> no_nul_chars((#[trigger] field_names@[i])@),
        ensures
            final(self).wf(),
            final(self).provider == old(self).provider,
            final(self).registry == old(self).registry,
            final(self).default_keyword == old(self).default_keyword,
            final(self).next_span_id == old(self).next_span_id,
            final(self).tracker.seed@ == old(self).tracker.seed@,
            final(self).tracker@.dom() == old(self).tracker@.dom().insert(id),
            forall|k: u64|
                k != id && old(self).tracker@.contains_key(k) ==> final(self).tracker@.contains_key(
                    k,
                ) && final(self).tracker@[k] == old(self).tracker@[k],
            final(self).tracker@.contains_key(id),
            ({
                let d = final(self).tracker@[id];
                &&& d.id == id
                &&& d.parent_id == parent_id
                &&& d.name == name
                &&& d.level == level
                &&& d.ref_count == 1
                &&& d.start_time == (Timestamp { secs: 0, nanos: 0 })
                &&& d.activity_id@ == crate::tracker::activity_id_spec(old(self).tracker.seed@, id)
                &&& d.related_activity_id@ == crate::tracker::related_id_spec(
                    old(self).tracker.seed@,
                    parent_id,
                )
                &&& d.fields@.len() == if field_names@.len() <= 32 {
                    field_names@.len() as int
                } else {
                    32
                }
                &&& (forall|i: int|
                    0 <= i < d.fields@.len() ==> (#[trigger] d.fields@[i]).field
                        == field_names@[i])
                &&& d.fields@ == crate::values::apply_all(
                    Seq::new(
                        d.fields@.len(),
                        |i: int|
                            crate::values::FieldValueIndex {
                                field: field_names@[i],
                                value: ValueTypes::v_none,
                                sort_index: d.fields@[i].sort_index,
                            },
                    ),
                    initial_values@,
                )
            }),
    {
        self.tracker.create_span_data_for_new_span(id, parent_id, name, level, field_names);
        let ghost fields0 = self.tracker@[id].fields@;
        self.tracker.update_span_values(id, initial_values);
        proof {
            crate::values::lemma_apply_all_shape(fields0, initial_values@);
            let d = self.tracker@[id];
            assert(fields0 =~= Seq::new(
                d.fields@.len(),
                |i: int|
                    crate::values::FieldValueIndex {
                        field: field_names@[i],
                        value: ValueTypes::v_none,
                        sort_index: d.fields@[i].sort_index,
                    },
            )) by {
                assert forall|i: int| 0 <= i < fields0.len() implies fields0[i]
                    == (crate::values::FieldValueIndex {
                    field: field_names@[i],
                    value: ValueTypes::v_none,
                    sort_index: d.fields@[i].sort_index,
                }) by {
                    assert(d.fields@[i].sort_index == fields0[i].sort_index);
                    assert(fields0[i] =~= crate::values::FieldValueIndex {
                        field: field_names@[i],
                        value: ValueTypes::v_none,
                        sort_index: fields0[i].sort_index,
                    });
                }
            }
        }
    }

    /// Notes that a handle to the span was cloned.
    pub fn clone_span(&mut self, id: u64)
        requires
            old(self).wf(),
        ensures
            final(self).wf(),
            final(self).provider == old(self).provider,
            final(self).registry == old(self).registry,
            final(self).default_keyword == old(self).default_keyword,
            final(self).next_span_id == old(self).next_span_id,
            final(self).tracker.seed@ == old(self).tracker.seed@,
            final(self).tracker@ == crate::tracker::addref_map(old(self).tracker@, id),
    {
        self.tracker.addref_span(id);
    }

    /// Closes one handle of the span: the record goes away when the last
    /// handle closes. Returns whether the span is still alive.
    pub fn try_close(&mut self, id: u64) -> (alive: bool)
        requires
            old(self).wf(),
        ensures
            final(self).wf(),
            final(self).provider == old(self).provider,
            final(self).registry == old(self).registry,
            final(self).default_keyword == old(self).default_keyword,
            final(self).next_span_id == old(self).next_span_id,
            final(self).tracker.seed@ == old(self).tracker.seed@,
            final(self).tracker@ == crate::tracker::release_map(old(self).tracker@, id),
            alive == crate::tracker::release_alive(old(self).tracker@, id),
    {
        self.tracker.release_span(id)
    }

    /// Records values into a live span's declared fields; names the span
    /// never declared are dropped.
    pub fn on_record(&mut self, id: u64, updates: &Vec<(String, ValueTypes)>)
        requires
            old(self).wf(),
        ensures
            final(self).wf(),
            final(self).provider == old(self).provider,
            final(self).registry == old(self).registry,
            final(self).default_keyword == old(self).default_keyword,
            final(self).next_span_id == old(self).next_span_id,
            final(self).tracker.seed@ == old(self).tracker.seed@,
            !old(self).tracker@.contains_key(id) ==> final(self).tracker@ == old(self).tracker@,
            old(self).tracker@.contains_key(id) ==> {
                &&& final(self).tracker@.dom() == old(self).tracker@.dom()
                &&& forall|k: u64|
                    k != id && old(self).tracker@.contains_key(k) ==> final(self).tracker@[k]
                        == old(self).tracker@[k]
                &&& final(self).tracker@.contains_key(id)
                &&& final(self).tracker@[id].fields@ == crate::values::apply_all(
                    old(self).tracker@[id].fields@,
                    updates@,
                )
                &&& final(self).tracker@[id].name == old(self).tracker@[id].name
                &&& final(self).tracker@[id].start_time == old(self).tracker@[id].start_time
                &&& final(self).tracker@[id].ref_count == old(self).tracker@[id].ref_count
            },
    {
        self.tracker.update_span_values(id, updates);
    }
}

impl EtwSubscriber<NormalOutput> {
    /// A span was entered: stamp its start time and write the native
    /// span-start buffer, under the span callsite's registered keyword and
    /// tag, or the defaults when the site registered none. An unknown span
    /// identifier changes nothing.
    pub fn on_enter(&mut self, id: u64, identity: u64, timestamp: Timestamp)
        requires
            old(self).wf(),
            timestamp.wf(),
            timestamp.secs <= MAX_RFC3339_SECS,
        ensures
            final(self).wf(),
            final(self).registry == old(self).registry,
            final(self).default_keyword == old(self).default_keyword,
            final(self).next_span_id == old(self).next_span_id,
            final(self).tracker.seed@ == old(self).tracker.seed@,
            final(self).tracker@ == crate::tracker::enter_map(old(self).tracker@, id, timestamp),
            !old(self).tracker@.contains_key(id) ==> final(self).provider.emitted@ == old(
                self,
            ).provider.emitted@,
            old(self).tracker@.contains_key(id) ==> {
                let d = old(self).tracker@[id];
                &&& final(self).provider.emitted@.len() == old(self).provider.emitted@.len() + 1
                &&& (forall|k: int|
                    0 <= k < old(self).provider.emitted@.len() ==> final(self).provider.emitted@[k]
                        == old(self).provider.emitted@[k])
                &&& ({
                    let e = final(self).provider.emitted@.last();
                    &&& e.name == d.name
                    &&& e.opcode == OPCODE_ACTIVITY_START
                    &&& e.level == d.level.as_int_spec()
                    &&& e.keyword == old(self).effective_keyword(identity)
                    &&& e.tag == (old(self).effective_tag(identity) & 0xffff) as u16
                    &&& fields_model(e.fields@) == native_span_start_wire(
                        timestamp.secs,
                        d.fields@,
                    )
                    &&& match e.activity_id {
                        Some(v) => d.activity_id@[0] != 0 && v@ == d.activity_id@,
                        None => d.activity_id@[0] == 0,
                    }
                    &&& match e.related_activity_id {
                        Some(v) => d.activity_id@[0] != 0 && d.related_activity_id@[0] != 0 && v@
                            == d.related_activity_id@,
                        None => d.activity_id@[0] == 0 || d.related_activity_id@[0] == 0,
                    }
                })
            },
    {
        let meta = self.registry.get_event_metadata(identity);
        let (keyword, tag): (u64, u32) = match meta {
            Some(m) => (m.kw, m.event_tag),
            None => (self.default_keyword, 0),
        };
        let found = self.tracker.enter_span(id, timestamp);
        if found {
            let d_opt = self.tracker.get_span(id);
            match d_opt {
                Some(d) => {
                    self.provider.span_start(d, keyword, tag);
                },
                None => {
                    proof {
                        assert(false);
                    }
                },
            }
        }
    }

    /// A span was exited: write the native span-stop buffer with the final
    /// field values, under the span callsite's registered keyword and tag
    /// (or the defaults). The record stays until the last handle closes.
    pub fn on_exit(&mut self, id: u64, identity: u64, stop_time: Timestamp)
        requires
            old(self).wf(),
        ensures
            final(self).wf(),
            final(self).registry == old(self).registry,
            final(self).default_keyword == old(self).default_keyword,
            final(self).next_span_id == old(self).next_span_id,
            final(self).tracker == old(self).tracker,
            !old(self).tracker@.contains_key(id) ==> final(self).provider.emitted@ == old(
                self,
            ).provider.emitted@,
            old(self).tracker@.contains_key(id) ==> {
                let d = old(self).tracker@[id];
                &&& final(self).provider.emitted@.len() == old(self).provider.emitted@.len() + 1
                &&& (forall|k: int|
                    0 <= k < old(self).provider.emitted@.len() ==> final(self).provider.emitted@[k]
                        == old(self).provider.emitted@[k])
                &&& ({
                    let e = final(self).provider.emitted@.last();
                    &&& e.name == d.name
                    &&& e.opcode == OPCODE_ACTIVITY_STOP
                    &&& e.level == d.level.as_int_spec()
                    &&& e.keyword == old(self).effective_keyword(identity)
                    &&& e.tag == (old(self).effective_tag(identity) & 0xffff) as u16
                    &&& fields_model(e.fields@) == native_span_stop_wire(stop_time.secs, d.fields@)
                    &&& match e.activity_id {
                        Some(v) => d.activity_id@[0] != 0 && v@ == d.activity_id@,
                        None => d.activity_id@[0] == 0,
                    }
                    &&& match e.related_activity_id {
                        Some(v) => d.activity_id@[0] != 0 && d.related_activity_id@[0] != 0 && v@
                            == d.related_activity_id@,
                        None => d.activity_id@[0] == 0 || d.related_activity_id@[0] == 0,
                    }
                })
            },
    {
        let meta = self.registry.get_event_metadata(identity);
        let (keyword, tag): (u64, u32) = match meta {
            Some(m) => (m.kw, m.event_tag),
            None => (self.default_keyword, 0),
        };
        let d_opt = self.tracker.get_span(id);
        match d_opt {
            Some(d) => {
                let start = d.start_time;
                self.provider.span_stop((start, stop_time), d, keyword, tag);
            },
            None => {},
        }
    }

    /// A log call reached the subscriber: write the native event buffer,
    /// with the site's registered keyword and tag (or the defaults), and
    /// the surrounding span's correlation identifiers.
    pub fn on_event(
        &mut self,
        identity: u64,
        timestamp: Timestamp,
        current_span: u64,
        parent_span: u64,
        event_name: &str,
        level: &Level,
        fields: &Vec<(String, ValueTypes)>,
    )
        requires
            old(self).wf(),
            no_nul_chars(event_name@),
            forall|i: int|
                0 <= i < fields@.len() ==> no_nul_chars((#[trigger] fields@[i]).0@),
        ensures
            final(self).wf(),
            final(self).registry == old(self).registry,
            final(self).default_keyword == old(self).default_keyword,
            final(self).next_span_id == old(self).next_span_id,
            final(self).tracker == old(self).tracker,
            final(self).provider.emitted@.len() == old(self).provider.emitted@.len() + 1,
            forall|k: int|
                0 <= k < old(self).provider.emitted@.len() ==> final(self).provider.emitted@[k]
                    == old(self).provider.emitted@[k],
            ({
                let e = final(self).provider.emitted@.last();
                &&& e.name@ == event_name@
                &&& e.opcode == OPCODE_INFO
                &&& e.level == level.as_int_spec()
                &&& e.keyword == old(self).effective_keyword(identity)
                &&& e.tag == (old(self).effective_tag(identity) & 0xffff) as u16
                &&& fields_model(e.fields@) == native_record_wire(timestamp.secs, fields@)
                &&& match e.activity_id {
                    Some(v) => current_span != 0 && v@ == crate::tracker::activity_id_spec(
                        old(self).tracker.seed@,
                        current_span,
                    ),
                    None => current_span == 0,
                }
                &&& match e.related_activity_id {
                    Some(v) => current_span != 0 && parent_span != 0 && v@
                        == crate::tracker::activity_id_spec(old(self).tracker.seed@, parent_span),
                    None => current_span == 0 || parent_span == 0,
                }
            }),
    {
        let meta = self.registry.get_event_metadata(identity);
        let (keyword, tag): (u64, u32) = match meta {
            Some(m) => (m.kw, m.event_tag),
            None => (self.default_keyword, 0),
        };
        self.provider.write_record(
            timestamp,
            current_span,
            parent_span,
            event_name,
            level,
            keyword,
            tag,
            fields,
            &self.tracker.seed,
        );
    }

    /// The composed span-entry path: consult the enablement filter for the
    /// span's callsite, and only when enabled stamp the start time and
    /// write the start buffer. A disabled span costs nothing and emits
    /// nothing.
    pub fn handle_enter(&mut self, id: u64, identity: u64, level: &Level, timestamp: Timestamp) -> (wrote:
        bool)
        requires
            old(self).wf(),
            timestamp.wf(),
            timestamp.secs <= MAX_RFC3339_SECS,
        ensures
            final(self).wf(),
            final(self).registry == old(self).registry,
            final(self).default_keyword == old(self).default_keyword,
            final(self).next_span_id == old(self).next_span_id,
            !provider_sets(old(self).provider.eh).contains(
                (level.as_int_spec(), old(self).effective_keyword(identity)),
            ) ==> !wrote,
            !wrote ==> final(self).provider.emitted@ == old(self).provider.emitted@
                && final(self).tracker == old(self).tracker,
            wrote ==> final(self).tracker@ == crate::tracker::enter_map(
                old(self).tracker@,
                id,
                timestamp,
            ),
            wrote && old(self).tracker@.contains_key(id) ==> final(self).provider.emitted@.len()
                == old(self).provider.emitted@.len() + 1 && final(self).provider.emitted@.last().keyword == old(self).effective_keyword(identity)
                && fields_model(final(self).provider.emitted@.last().fields@)
                == native_span_start_wire(timestamp.secs, old(self).tracker@[id].fields@),
    {
        if self.is_enabled(identity, level) {
            self.on_enter(id, identity, timestamp);
            true
        } else {
            false
        }
    }

    /// The composed span-exit path: consult the enablement filter, and only
    /// when enabled write the stop buffer.
    pub fn handle_exit(&mut self, id: u64, identity: u64, level: &Level, stop_time: Timestamp) -> (wrote:
        bool)
        requires
            old(self).wf(),
        ensures
            final(self).wf(),
            final(self).registry == old(self).registry,
            final(self).default_keyword == old(self).default_keyword,
            final(self).next_span_id == old(self).next_span_id,
            final(self).tracker == old(self).tracker,
            !provider_sets(old(self).provider.eh).contains(
                (level.as_int_spec(), old(self).effective_keyword(identity)),
            ) ==> !wrote,
            !wrote ==> final(self).provider.emitted@ == old(self).provider.emitted@,
            wrote && old(self).tracker@.contains_key(id) ==> final(self).provider.emitted@.len()
                == old(self).provider.emitted@.len() + 1 && final(self).provider.emitted@.last().keyword == old(self).effective_keyword(identity)
                && fields_model(final(self).provider.emitted@.last().fields@)
                == native_span_stop_wire(stop_time.secs, old(self).tracker@[id].fields@),
    {
        if self.is_enabled(identity, level) {
            self.on_exit(id, identity, stop_time);
            true
        } else {
            false
        }
    }

    /// The composed hot path of a log call: consult the enablement filter,
    /// and only when the channel reports the site enabled, encode and write.
    /// When the filter says no, nothing is emitted at all.
    pub fn handle_event(
        &mut self,
        identity: u64,
        timestamp: Timestamp,
        current_span: u64,
        parent_span: u64,
        event_name: &str,
        level: &Level,
        fields: &Vec<(String, ValueTypes)>,
    ) -> (wrote: bool)
        requires
            old(self).wf(),
            no_nul_chars(event_name@),
            forall|i: int|
                0 <= i < fields@.len() ==> no_nul_chars((#[trigger] fields@[i]).0@),
        ensures
            final(self).wf(),
            final(self).registry == old(self).registry,
            final(self).default_keyword == old(self).default_keyword,
            final(self).tracker == old(self).tracker,
            !provider_sets(old(self).provider.eh).contains(
                (level.as_int_spec(), old(self).effective_keyword(identity)),
            ) ==> !wrote,
            !wrote ==> final(self).provider.emitted@ == old(self).provider.emitted@,
            wrote ==> final(self).provider.emitted@.len() == old(self).provider.emitted@.len() + 1
                && ({
                let e = final(self).provider.emitted@.last();
                &&& e.name@ == event_name@
                &&& e.keyword == old(self).effective_keyword(identity)
                &&& fields_model(e.fields@) == native_record_wire(timestamp.secs, fields@)
            }),
    {
        if self.is_enabled(identity, level) {
            self.on_event(identity, timestamp, current_span, parent_span, event_name, level, fields);
            true
        } else {
            false
        }
    }
}

impl EtwSubscriber<CommonSchemaOutput> {
    /// A span was entered: stamp its start time. The Common Schema layout
    /// does not emit span starts, so nothing is written and the callsite
    /// identity goes unused.
    pub fn on_enter(&mut self, id: u64, _identity: u64, timestamp: Timestamp)
        requires
            old(self).wf(),
            timestamp.wf(),
            timestamp.secs <= MAX_RFC3339_SECS,
        ensures
            final(self).wf(),
            final(self).registry == old(self).registry,
            final(self).default_keyword == old(self).default_keyword,
            final(self).next_span_id == old(self).next_span_id,
            final(self).tracker.seed@ == old(self).tracker.seed@,
            final(self).tracker@ == crate::tracker::enter_map(old(self).tracker@, id, timestamp),
            final(self).provider == old(self).provider,
    {
        let _ = self.tracker.enter_span(id, timestamp);
    }

    /// A span was exited: write the Common Schema span-completion buffer,
    /// carrying both the recorded start time and the stop time, under the
    /// span callsite's registered keyword and tag (or the defaults).
    pub fn on_exit(&mut self, id: u64, identity: u64, stop_time: Timestamp)
        requires
            old(self).wf(),
            stop_time.wf(),
            stop_time.secs <= MAX_RFC3339_SECS,
        ensures
            final(self).wf(),
            final(self).registry == old(self).registry,
            final(self).default_keyword == old(self).default_keyword,
            final(self).next_span_id == old(self).next_span_id,
            final(self).tracker == old(self).tracker,
            !old(self).tracker@.contains_key(id) ==> final(self).provider.emitted@ == old(
                self,
            ).provider.emitted@,
            old(self).tracker@.contains_key(id) ==> {
                let d = old(self).tracker@[id];
                &&& final(self).provider.emitted@.len() == old(self).provider.emitted@.len() + 1
                &&& (forall|k: int|
                    0 <= k < old(self).provider.emitted@.len() ==> final(self).provider.emitted@[k]
                        == old(self).provider.emitted@[k])
                &&& ({
                    let e = final(self).provider.emitted@.last();
                    &&& e.name == d.name
                    &&& e.opcode == OPCODE_INFO
                    &&& e.keyword == old(self).effective_keyword(identity)
                    &&& e.tag == (old(self).effective_tag(identity) & 0xffff) as u16
                    &&& e.activity_id is None
                    &&& fields_model(e.fields@) == cs_span_stop_wire(
                        d.start_time,
                        stop_time,
                        d.id,
                        d.parent_id,
                        d.name@,
                        d.fields@,
                    )
                })
            },
    {
        let meta = self.registry.get_event_metadata(identity);
        let (keyword, tag): (u64, u32) = match meta {
            Some(m) => (m.kw, m.event_tag),
            None => (self.default_keyword, 0),
        };
        let d_opt = self.tracker.get_span(id);
        match d_opt {
            Some(d) => {
                let start = d.start_time;
                self.provider.cs_span_stop(d, (start, stop_time), keyword, tag);
                proof {
                    assert(old(self).tracker@[id].id == d.id);
                }
            },
            None => {},
        }
    }

    /// A log call reached the subscriber: write the Common Schema event
    /// buffer with the site's registered keyword and tag (or the defaults).
    pub fn on_event(
        &mut self,
        identity: u64,
        timestamp: Timestamp,
        current_span: u64,
        event_name: &str,
        level: &Level,
        fields: &Vec<(String, ValueTypes)>,
    )
        requires
            old(self).wf(),
            no_nul_chars(event_name@),
            forall|i: int|
                0 <= i < fields@.len() ==> no_nul_chars((#[trigger] fields@[i]).0@),
            timestamp.wf(),
            timestamp.secs <= MAX_RFC3339_SECS,
        ensures
            final(self).wf(),
            final(self).registry == old(self).registry,
            final(self).default_keyword == old(self).default_keyword,
            final(self).next_span_id == old(self).next_span_id,
            final(self).tracker == old(self).tracker,
            final(self).provider.emitted@.len() == old(self).provider.emitted@.len() + 1,
            forall|k: int|
                0 <= k < old(self).provider.emitted@.len() ==> final(self).provider.emitted@[k]
                    == old(self).provider.emitted@[k],
            ({
                let e = final(self).provider.emitted@.last();
                &&& e.name@ == event_name@
                &&& e.opcode == OPCODE_INFO
                &&& e.level == level.as_int_spec()
                &&& e.keyword == old(self).effective_keyword(identity)
                &&& e.tag == (old(self).effective_tag(identity) & 0xffff) as u16
                &&& e.activity_id is None
                &&& fields_model(e.fields@) == cs_record_wire(
                    timestamp,
                    current_span,
                    event_name@,
                    fields@,
                )
            }),
    {
        let meta = self.registry.get_event_metadata(identity);
        let (keyword, tag): (u64, u32) = match meta {
            Some(m) => (m.kw, m.event_tag),
            None => (self.default_keyword, 0),
        };
        self.provider.cs_write_record(
            timestamp,
            current_span,
            event_name,
            level,
            keyword,
            tag,
            fields,
        );
    }

    /// The composed span-exit path in the Common Schema layout: only an
    /// enabled span's completion is encoded; nothing is emitted otherwise.
    pub fn handle_exit(&mut self, id: u64, identity: u64, level: &Level, stop_time: Timestamp) -> (wrote:
        bool)
        requires
            old(self).wf(),
            stop_time.wf(),
            stop_time.secs <= MAX_RFC3339_SECS,
        ensures
            final(self).wf(),
            final(self).registry == old(self).registry,
            final(self).default_keyword == old(self).default_keyword,
            final(self).next_span_id == old(self).next_span_id,
            final(self).tracker == old(self).tracker,
            !provider_sets(old(self).provider.eh).contains(
                (level.as_int_spec(), old(self).effective_keyword(identity)),
            ) ==> !wrote,
            !wrote ==> final(self).provider.emitted@ == old(self).provider.emitted@,
            wrote && old(self).tracker@.contains_key(id) ==> final(self).provider.emitted@.len()
                == old(self).provider.emitted@.len() + 1 && ({
                let d = old(self).tracker@[id];
                &&& final(self).provider.emitted@.last().keyword == old(self).effective_keyword(
                    identity,
                )
                &&& fields_model(final(self).provider.emitted@.last().fields@) == cs_span_stop_wire(
                    d.start_time,
                    stop_time,
                    d.id,
                    d.parent_id,
                    d.name@,
                    d.fields@,
                )
            }),
    {
        if self.is_enabled(identity, level) {
            self.on_exit(id, identity, stop_time);
            true
        } else {
            false
        }
    }

    /// The composed hot path of a log call in the Common Schema layout.
    pub fn handle_event(
        &mut self,
        identity: u64,
        timestamp: Timestamp,
        current_span: u64,
        event_name: &str,
        level: &Level,
        fields: &Vec<(String, ValueTypes)>,
    ) -> (wrote: bool)
        requires
            old(self).wf(),
            no_nul_chars(event_name@),
            forall|i: int|
                0 <= i < fields@.len() ==> no_nul_chars((#[trigger] fields@[i]).0@),
            timestamp.wf(),
            timestamp.secs <= MAX_RFC3339_SECS,
        ensures
            final(self).wf(),
            final(self).registry == old(self).registry,
            final(self).default_keyword == old(self).default_keyword,
            final(self).tracker == old(self).tracker,
            !provider_sets(old(self).provider.eh).contains(
                (level.as_int_spec(), old(self).effective_keyword(identity)),
            ) ==> !wrote,
            !wrote ==> final(self).provider.emitted@ == old(self).provider.emitted@,
            wrote ==> final(self).provider.emitted@.len() == old(self).provider.emitted@.len() + 1
                && ({
                let e = final(self).provider.emitted@.last();
                &&& e.name@ == event_name@
                &&& e.keyword == old(self).effective_keyword(identity)
                &&& fields_model(e.fields@) == cs_record_wire(
                    timestamp,
                    current_span,
                    event_name@,
                    fields@,
                )
            }),
    {
        if self.is_enabled(identity, level) {
            self.on_event(identity, timestamp, current_span, event_name, level, fields);
            true
        } else {
            false
        }
    }
}

} // verus!
