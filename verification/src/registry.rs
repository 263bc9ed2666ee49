//! The static log-site metadata registry.
//!
//! Every log site contributes one descriptor to a registration region. The
//! registry collapses duplicate registrations, hashes each site identity, and
//! keeps the result ordered by descending hash so that a lookup is a binary
//! search followed by a short scan over the hash-equal run.

use vstd::prelude::*;
use crate::hash::identity_hash_spec;
use crate::hash::hash_identity;

verus! {

/// Static metadata of one log site: its keyword (a collector-side filter
/// bitmask), its site identity, and an opaque tag carried with each event.
#[derive(Clone, Copy, PartialEq, Eq, Structural, Debug)]
pub struct EventMetadata {
    pub kw: u64,
    pub identity: u64,
    pub event_tag: u32,
}

/// A site descriptor paired with the hash of its identity, the unit the
/// registry's index is built from.
#[derive(Clone, Copy, PartialEq, Eq, Structural, Debug)]
pub struct ParsedEventMetadata {
    pub identity_hash: u64,
    pub meta: EventMetadata,
}

/// Descending order on (identity hash, identity): `a` may stand at or before
/// `b` in the index.
pub open spec fn entry_ge(a: ParsedEventMetadata, b: ParsedEventMetadata) -> bool {
    a.identity_hash > b.identity_hash || (a.identity_hash == b.identity_hash
        && a.meta.identity >= b.meta.identity)
}

pub open spec fn sorted_ge(s: Seq<ParsedEventMetadata>) -> bool {
    forall|i: int, j: int| 0 <= i < j < s.len() ==> entry_ge(s[i], s[j])
}

pub open spec fn distinct_identities(s: Seq<EventMetadata>) -> bool {
    forall|i: int, j: int| 0 <= i < j < s.len() ==> s[i].identity != s[j].identity
}

pub open spec fn distinct_identities_parsed(s: Seq<ParsedEventMetadata>) -> bool {
    forall|i: int, j: int| 0 <= i < j < s.len() ==> s[i].meta.identity != s[j].meta.identity
}

pub open spec fn hashes_ok(s: Seq<ParsedEventMetadata>) -> bool {
    forall|i: int| 0 <= i < s.len() ==> #[trigger] s[i].identity_hash == identity_hash_spec(
        s[i].meta.identity,
    )
}

/// The descriptors present in a registration region, in region order, with
/// the empty slots dropped.
pub open spec fn somes(region: Seq<Option<EventMetadata>>) -> Seq<EventMetadata>
    decreases region.len(),
{
    if region.len() == 0 {
        Seq::empty()
    } else {
        let rest = somes(region.drop_last());
        match region.last() {
            Some(m) => rest.push(m),
            None => rest,
        }
    }
}

/// The effective contents of a region: when the platform places a sentinel
/// head slot, that slot is skipped.
pub open spec fn region_items(region: Seq<Option<EventMetadata>>, skip_first: bool) -> Seq<
    EventMetadata,
> {
    if skip_first && region.len() >= 1 {
        somes(region.skip(1))
    } else {
        somes(region)
    }
}

pub open spec fn contains_identity(s: Seq<EventMetadata>, id: u64) -> bool {
    exists|k: int| 0 <= k < s.len() && s[k].identity == id
}

/// Collapses duplicate registrations: of each identity, the first occurrence
/// is kept, in order of first appearance.
pub open spec fn dedup_by_identity(s: Seq<EventMetadata>) -> Seq<EventMetadata>
    decreases s.len(),
{
    if s.len() == 0 {
        Seq::empty()
    } else {
        let rest = dedup_by_identity(s.drop_last());
        if contains_identity(s.drop_last(), s.last().identity) {
            rest
        } else {
            rest.push(s.last())
        }
    }
}

/// Pairs each descriptor with the hash of its identity.
pub open spec fn with_hashes(s: Seq<EventMetadata>) -> Seq<ParsedEventMetadata> {
    s.map_values(
        |m: EventMetadata| ParsedEventMetadata {
            identity_hash: identity_hash_spec(m.identity),
            meta: m,
        },
    )
}

/// Mathematical sum of the keywords of a descriptor sequence.
pub open spec fn kw_sum(s: Seq<EventMetadata>) -> int {
    s.fold_left(0int, |acc: int, m: EventMetadata| acc + m.kw)
}

pub open spec fn kw_sum_parsed(s: Seq<ParsedEventMetadata>) -> int {
    s.fold_left(0int, |acc: int, e: ParsedEventMetadata| acc + e.meta.kw)
}

pub open spec fn has_identity(s: Seq<ParsedEventMetadata>, id: u64) -> bool {
    exists|k: int| 0 <= k < s.len() && s[k].meta.identity == id
}

/// The hash-sorted index over the deduplicated site descriptors.
pub struct MetadataRegistry {
    pub entries: Vec<ParsedEventMetadata>,
}

impl MetadataRegistry {
    /// Index well-formedness: ordered by descending (hash, identity), one
    /// entry per identity, every hash the hash of its entry's identity.
    pub open spec fn wf(self) -> bool {
        &&& sorted_ge(self.entries@)
        &&& distinct_identities_parsed(self.entries@)
        &&& hashes_ok(self.entries@)
    }

    /// What a lookup returns: the descriptor registered under `id`, if any.
    pub open spec fn lookup_spec(self, id: u64) -> Option<EventMetadata> {
        if has_identity(self.entries@, id) {
            let k = choose|k: int| 0 <= k < self.entries@.len() && self.entries@[k].meta.identity
                == id;
            Some(self.entries@[k].meta)
        } else {
            None
        }
    }

    /// The registry holds exactly the distinct descriptors of the region.
    pub open spec fn built_from(self, region: Seq<Option<EventMetadata>>, skip_first: bool) -> bool {
        self.entries@.to_multiset() == with_hashes(
            dedup_by_identity(region_items(region, skip_first)),
        ).to_multiset()
    }
}

fn entry_ge_exec(a: &ParsedEventMetadata, b: &ParsedEventMetadata) -> (r: bool)
    ensures
        r == entry_ge(*a, *b),
{
    a.identity_hash > b.identity_hash || (a.identity_hash == b.identity_hash && a.meta.identity
        >= b.meta.identity)
}

fn contains_identity_exec(v: &Vec<EventMetadata>, id: u64) -> (r: bool)
    ensures
        r == contains_identity(v@, id),
{
    let n = v.len();
    let mut i: usize = 0;
    while i < n
        invariant
            n == v@.len(),
            i <= n,
            forall|k: int| 0 <= k < i ==> v@[k].identity != id,
        decreases n - i,
    {
        if v[i].identity == id {
            return true;
        }
        i = i + 1;
    }
    false
}

/// Registers one log site: appends its descriptor to the registration
/// region the registry is later built from. Called once per site, before
/// the registry's first lookup.
pub fn register_site(
    region: &mut Vec<Option<EventMetadata>>,
    keyword: u64,
    identity: u64,
    tag: u32,
)
    ensures
        final(region)@ == old(region)@.push(
            Some(EventMetadata { kw: keyword, identity, event_tag: tag }),
        ),
{
    region.push(Some(EventMetadata { kw: keyword, identity, event_tag: tag }));
}

/// Drops duplicate registrations of the same identity, keeping the first.
fn dedup_sites(items: &Vec<EventMetadata>) -> (r: Vec<EventMetadata>)
    ensures
        r@ == dedup_by_identity(items@),
{
    let n = items.len();
    let mut out: Vec<EventMetadata> = Vec::new();
    let mut i: usize = 0;
    while i < n
        invariant
            n == items@.len(),
            i <= n,
            out@ == dedup_by_identity(items@.take(i as int)),
        decreases n - i,
    {
        proof {
            lemma_dedup_contains(items@.take(i as int), items@[i as int].identity);
            assert(items@.take(i + 1).drop_last() =~= items@.take(i as int));
        }
        let seen = contains_identity_exec(&out, items[i].identity);
        if !seen {
            out.push(items[i]);
        }
        i = i + 1;
    }
    proof {
        assert(items@.take(n as int) =~= items@);
    }
    out
}

/// An identity occurs among the collapsed descriptors exactly when it occurs
/// in the original sequence.
pub proof fn lemma_dedup_contains(s: Seq<EventMetadata>, id: u64)
    ensures
        contains_identity(dedup_by_identity(s), id) == contains_identity(s, id),
    decreases s.len(),
{
    if s.len() == 0 {
    } else {
        lemma_dedup_contains(s.drop_last(), id);
        let d = dedup_by_identity(s);
        let dp = dedup_by_identity(s.drop_last());
        let dup = contains_identity(s.drop_last(), s.last().identity);
        assert(d == if dup {
            dp
        } else {
            dp.push(s.last())
        });
        // A witness in the prefix is a witness in the whole, and on from
        // there into the collapsed sequence.
        if contains_identity(s, id) {
            let k = choose|k: int| 0 <= k < s.len() && s[k].identity == id;
            if k < s.len() - 1 {
                assert(s.drop_last()[k] == s[k]);
                assert(contains_identity(s.drop_last(), id));
                let m = choose|m: int| 0 <= m < dp.len() && dp[m].identity == id;
                if dup {
                    assert(contains_identity(d, id));
                } else {
                    assert(d[m] == dp[m]);
                    assert(contains_identity(d, id));
                }
            } else {
                if dup {
                    assert(contains_identity(s.drop_last(), id));
                    let m = choose|m: int| 0 <= m < dp.len() && dp[m].identity == id;
                    assert(d[m] == dp[m]);
                    assert(contains_identity(d, id));
                } else {
                    assert(d.last() == s.last());
                    assert(contains_identity(d, id));
                }
            }
        }
        // And back: each collapsed entry comes from the original sequence.
        if contains_identity(d, id) {
            let k = choose|k: int| 0 <= k < d.len() && d[k].identity == id;
            if dup {
                assert(contains_identity(dp, id));
                assert(contains_identity(s.drop_last(), id));
                let m = choose|m: int| 0 <= m < s.drop_last().len() && s.drop_last()[m].identity
                    == id;
                assert(s[m] == s.drop_last()[m]);
                assert(contains_identity(s, id));
            } else {
                if k < d.len() - 1 {
                    assert(dp[k] == d[k]);
                    assert(contains_identity(dp, id));
                    assert(contains_identity(s.drop_last(), id));
                    let m = choose|m: int|
                        0 <= m < s.drop_last().len() && s.drop_last()[m].identity == id;
                    assert(s[m] == s.drop_last()[m]);
                    assert(contains_identity(s, id));
                } else {
                    assert(d[k] == s.last());
                    assert(s[s.len() - 1].identity == id);
                    assert(contains_identity(s, id));
                }
            }
        }
    }
}

/// The collapsed descriptors carry one entry per identity.
pub proof fn lemma_dedup_distinct(s: Seq<EventMetadata>)
    ensures
        distinct_identities(dedup_by_identity(s)),
    decreases s.len(),
{
    if s.len() == 0 {
    } else {
        lemma_dedup_distinct(s.drop_last());
        lemma_dedup_contains(s.drop_last(), s.last().identity);
        let d = dedup_by_identity(s);
        let dp = dedup_by_identity(s.drop_last());
        if !contains_identity(s.drop_last(), s.last().identity) {
            assert forall|i: int, j: int| 0 <= i < j < d.len() implies d[i].identity
                != d[j].identity by {
                if j < d.len() - 1 {
                    assert(d[i] == dp[i] && d[j] == dp[j]);
                } else {
                    assert(d[j] == s.last());
                    assert(d[i] == dp[i]);
                    assert(!contains_identity(dp, s.last().identity));
                }
            }
        }
    }
}

/// Collapsing is the identity on a region whose identities are distinct.
pub proof fn lemma_dedup_of_distinct(s: Seq<EventMetadata>)
    requires
        distinct_identities(s),
    ensures
        dedup_by_identity(s) == s,
    decreases s.len(),
{
    if s.len() == 0 {
        assert(dedup_by_identity(s) =~= s);
    } else {
        assert(distinct_identities(s.drop_last())) by {
            assert(forall|i: int| 0 <= i < s.len() - 1 ==> s.drop_last()[i] == s[i]);
        }
        lemma_dedup_of_distinct(s.drop_last());
        assert(!contains_identity(s.drop_last(), s.last().identity));
        assert(dedup_by_identity(s) =~= s);
    }
}

/// Keeps the library honest about the sorted index: ordering the entries by
/// descending (hash, identity) preserves exactly the entries.
fn sort_entries(input: Vec<ParsedEventMetadata>) -> (r: Vec<ParsedEventMetadata>)
    ensures
        r@.to_multiset() == input@.to_multiset(),
        sorted_ge(r@),
{
    let mut rest = input;
    let ghost orig = rest@;
    let mut out: Vec<ParsedEventMetadata> = Vec::new();
    proof {
        broadcast use vstd::seq_lib::group_to_multiset_ensures;

        assert(out@.to_multiset().add(rest@.to_multiset()) =~= orig.to_multiset());
    }
    while rest.len() > 0
        invariant
            out@.to_multiset().add(rest@.to_multiset()) == orig.to_multiset(),
            sorted_ge(out@),
            forall|i: int, j: int|
                0 <= i < out@.len() && 0 <= j < rest@.len() ==> entry_ge(out@[i], rest@[j]),
        decreases rest.len(),
    {
        let n = rest.len();
        let mut best: usize = 0;
        let mut k: usize = 1;
        while k < n
            invariant
                n == rest@.len(),
                best < n,
                k <= n,
                forall|m: int| 0 <= m < k ==> entry_ge(rest@[best as int], rest@[m]),
            decreases n - k,
        {
            if entry_ge_exec(&rest[k], &rest[best]) {
                if !entry_ge_exec(&rest[best], &rest[k]) {
                    best = k;
                }
            }
            k = k + 1;
        }
        let ghost old_out = out@;
        let ghost old_rest = rest@;
        let m = rest.remove(best);
        out.push(m);
        proof {
            broadcast use vstd::seq_lib::group_to_multiset_ensures;
            broadcast use vstd::multiset::group_multiset_axioms;

            assert(old_rest.to_multiset().count(m) > 0) by {
                assert(old_rest[best as int] == m);
                assert(old_rest.contains(m));
            }
            assert(out@.to_multiset().add(rest@.to_multiset()) =~= orig.to_multiset());
            assert(forall|j: int| 0 <= j < rest@.len() ==> entry_ge(m, rest@[j]));
            assert(forall|i: int| 0 <= i < out@.len() ==> out@[i] == old_out.push(m)[i]);
        }
    }
    out
}

/// Builds the registry from a registration region: skip the platform's
/// sentinel slot if it has one, drop empty slots, collapse duplicate
/// registrations, hash each identity, and order by descending hash.
pub fn process_static_metadata(region: &Vec<Option<EventMetadata>>, skip_first: bool) -> (r:
    MetadataRegistry)
    ensures
        r.wf(),
        r.built_from(region@, skip_first),
{
    let n = region.len();
    let start: usize = if skip_first && n >= 1 {
        1
    } else {
        0
    };
    let mut items: Vec<EventMetadata> = Vec::new();
    let mut i: usize = start;
    while i < n
        invariant
            n == region@.len(),
            start <= i <= n,
            items@ == somes(region@.skip(start as int).take(i - start)),
        decreases n - i,
    {
        proof {
            let sk = region@.skip(start as int);
            assert(sk.take(i - start + 1).drop_last() =~= sk.take(i - start));
            assert(sk.take(i - start + 1).last() == region@[i as int]);
        }
        match region[i] {
            Some(m) => {
                items.push(m);
            },
            None => {},
        }
        i = i + 1;
    }
    proof {
        assert(region@.skip(start as int).take(n - start) =~= region@.skip(start as int));
        if !(skip_first && n >= 1) {
            assert(region@.skip(0) =~= region@);
        }
    }
    let deduped = dedup_sites(&items);
    let dn = deduped.len();
    let mut parsed: Vec<ParsedEventMetadata> = Vec::new();
    let mut j: usize = 0;
    while j < dn
        invariant
            dn == deduped@.len(),
            j <= dn,
            parsed@.len() == j,
            forall|k: int| 0 <= k < j ==> parsed@[k] == (ParsedEventMetadata {
                identity_hash: identity_hash_spec(deduped@[k].identity),
                meta: deduped@[k],
            }),
        decreases dn - j,
    {
        let h = hash_identity(deduped[j].identity);
        parsed.push(ParsedEventMetadata { identity_hash: h, meta: deduped[j] });
        j = j + 1;
    }
    proof {
        assert(parsed@ =~= with_hashes(deduped@));
    }
    let entries = sort_entries(parsed);
    let r = MetadataRegistry { entries };
    proof {
        lemma_dedup_distinct(items@);
        lemma_registry_wf(r.entries@, with_hashes(dedup_by_identity(items@)));
    }
    r
}

/// An index that is a permutation of distinct, correctly hashed entries and
/// is sorted is well formed.
proof fn lemma_registry_wf(entries: Seq<ParsedEventMetadata>, source: Seq<ParsedEventMetadata>)
    requires
        entries.to_multiset() == source.to_multiset(),
        sorted_ge(entries),
        distinct_identities(source.map_values(|e: ParsedEventMetadata| e.meta).map_values(
            |m: EventMetadata| m,
        )) || distinct_identities_parsed(source),
        hashes_ok(source),
        distinct_identities_parsed(source),
    ensures
        sorted_ge(entries),
        distinct_identities_parsed(entries),
        hashes_ok(entries),
{
    broadcast use vstd::seq_lib::group_to_multiset_ensures;

    assert forall|i: int| 0 <= i < entries.len() implies #[trigger] entries[i].identity_hash
        == identity_hash_spec(entries[i].meta.identity) by {
        assert(entries.contains(entries[i]));
        assert(entries.to_multiset().count(entries[i]) > 0);
        assert(source.contains(entries[i]));
        let k = choose|k: int| 0 <= k < source.len() && source[k] == entries[i];
        assert(source[k].identity_hash == identity_hash_spec(source[k].meta.identity));
    }
    assert(source.no_duplicates()) by {
        assert forall|i: int, j: int|
            0 <= i < source.len() && 0 <= j < source.len() && i != j implies source[i]
            != source[j] by {
            if i < j {
                assert(source[i].meta.identity != source[j].meta.identity);
            } else {
                assert(source[j].meta.identity != source[i].meta.identity);
            }
        }
    }
    source.lemma_multiset_has_no_duplicates();
    entries.lemma_multiset_has_no_duplicates_conv();
    assert forall|i: int, j: int| 0 <= i < j < entries.len() implies entries[i].meta.identity
        != entries[j].meta.identity by {
        assert(entries[i] != entries[j]);
        assert(entries.contains(entries[i]));
        assert(entries.contains(entries[j]));
        assert(entries.to_multiset().count(entries[i]) > 0);
        assert(entries.to_multiset().count(entries[j]) > 0);
        assert(source.to_multiset().count(entries[i]) > 0);
        assert(source.to_multiset().count(entries[j]) > 0);
        assert(source.contains(entries[i]));
        assert(source.contains(entries[j]));
        let a = choose|k: int| 0 <= k < source.len() && source[k] == entries[i];
        let b = choose|k: int| 0 <= k < source.len() && source[k] == entries[j];
        if entries[i].meta.identity == entries[j].meta.identity {
            assert(a != b);
            if a < b {
                assert(source[a].meta.identity != source[b].meta.identity);
            } else {
                assert(source[b].meta.identity != source[a].meta.identity);
            }
        }
    }
}

impl MetadataRegistry {
    /// Looks up the descriptor of a site identity: binary search on the
    /// descending hashes, then a scan over the hash-equal run for the exact
    /// identity.
    pub fn get_event_metadata(&self, id: u64) -> (r: Option<EventMetadata>)
        requires
            self.wf(),
        ensures
            r == self.lookup_spec(id),
    {
        let h = hash_identity(id);
        let n = self.entries.len();
        let mut lo: usize = 0;
        let mut hi: usize = n;
        while lo < hi
            invariant
                self.wf(),
                n == self.entries@.len(),
                h == identity_hash_spec(id),
                lo <= hi <= n,
                forall|k: int| 0 <= k < lo ==> self.entries@[k].identity_hash > h,
                forall|k: int| hi <= k < n ==> self.entries@[k].identity_hash <= h,
            decreases hi - lo,
        {
            let mid = lo + (hi - lo) / 2;
            if self.entries[mid].identity_hash > h {
                proof {
                    assert forall|k: int| 0 <= k < mid + 1 implies self.entries@[k].identity_hash > h by {
                        if k < mid {
                            assert(entry_ge(self.entries@[k], self.entries@[mid as int]));
                        }
                    }
                }
                lo = mid + 1;
            } else {
                proof {
                    assert forall|k: int| mid <= k < n implies self.entries@[k].identity_hash
                        <= h by {
                        if k > mid {
                            assert(entry_ge(self.entries@[mid as int], self.entries@[k]));
                        }
                    }
                }
                hi = mid;
            }
        }
        let start = lo;
        let mut cur = start;
        while cur < n
            invariant
                self.wf(),
                n == self.entries@.len(),
                h == identity_hash_spec(id),
                start <= cur <= n,
                forall|k: int| 0 <= k < start ==> self.entries@[k].identity_hash > h,
                forall|k: int| start <= k < n ==> self.entries@[k].identity_hash <= h,
                forall|k: int|
                    start <= k < cur ==> self.entries@[k].identity_hash == h && self.entries@[k].meta.identity != id,
            decreases n - cur,
        {
            let e = &self.entries[cur];
            if e.identity_hash != h {
                proof {
                    lemma_lookup_absent(self.entries@, id, h, start as int, cur as int);
                }
                return None;
            }
            if e.meta.identity == id {
                proof {
                    assert(has_identity(self.entries@, id));
                    let k = choose|k: int| 0 <= k < self.entries@.len() && self.entries@[k].meta.identity == id;
                    if k < cur {
                        assert(self.entries@[k].meta.identity != id || k < start);
                        assert(self.entries@[k].identity_hash == identity_hash_spec(id));
                    }
                    if k > cur {
                        assert(self.entries@[k as int].meta.identity != self.entries@[cur as int].meta.identity);
                    }
                }
                return Some(self.entries[cur].meta);
            }
            cur = cur + 1;
        }
        proof {
            lemma_lookup_absent(self.entries@, id, h, start as int, n as int);
        }
        None
    }

    /// Hands out the registered descriptors, in index order.
    pub fn event_metadata(&self) -> (r: Vec<EventMetadata>)
        ensures
            r@.len() == self.entries@.len(),
            forall|k: int| 0 <= k < r@.len() ==> r@[k] == self.entries@[k].meta,
    {
        let n = self.entries.len();
        let mut out: Vec<EventMetadata> = Vec::new();
        let mut i: usize = 0;
        while i < n
            invariant
                n == self.entries@.len(),
                i <= n,
                out@.len() == i,
                forall|k: int| 0 <= k < i ==> out@[k] == self.entries@[k].meta,
            decreases n - i,
        {
            out.push(self.entries[i].meta);
            i = i + 1;
        }
        out
    }

    /// Sums the keywords of all registered sites, wrapping on overflow.
    pub fn keyword_sum(&self) -> (r: u64)
        ensures
            r == kw_sum_parsed(self.entries@) % 0x1_0000_0000_0000_0000,
    {
        let n = self.entries.len();
        let mut acc: u64 = 0;
        let mut i: usize = 0;
        while i < n
            invariant
                n == self.entries@.len(),
                i <= n,
                acc == kw_sum_parsed(self.entries@.take(i as int)) % 0x1_0000_0000_0000_0000,
        decreases n - i,
        {
            proof {
                let f = |acc: int, e: ParsedEventMetadata| acc + e.meta.kw;
                let t1 = self.entries@.take(i + 1);
                assert(t1.drop_last() =~= self.entries@.take(i as int));
                assert(kw_sum_parsed(t1) == f(kw_sum_parsed(t1.drop_last()), t1.last()));
                lemma_kw_sum_parsed_nonneg(self.entries@.take(i as int));
            }
            acc = acc.wrapping_add(self.entries[i].meta.kw);
            i = i + 1;
        }
        proof {
            assert(self.entries@.take(n as int) =~= self.entries@);
        }
        acc
    }
}

proof fn lemma_kw_sum_parsed_nonneg(s: Seq<ParsedEventMetadata>)
    ensures
        kw_sum_parsed(s) >= 0,
    decreases s.len(),
{
    if s.len() == 0 {
    } else {
        let f = |acc: int, e: ParsedEventMetadata| acc + e.meta.kw;
        assert(kw_sum_parsed(s) == f(kw_sum_parsed(s.drop_last()), s.last()));
        lemma_kw_sum_parsed_nonneg(s.drop_last());
    }
}

/// If the scan over the hash-equal run found no match, no entry anywhere in a
/// well-formed index carries the identity.
proof fn lemma_lookup_absent(
    entries: Seq<ParsedEventMetadata>,
    id: u64,
    h: u64,
    start: int,
    stop: int,
)
    requires
        sorted_ge(entries),
        hashes_ok(entries),
        h == identity_hash_spec(id),
        0 <= start <= stop <= entries.len(),
        forall|k: int| 0 <= k < start ==> entries[k].identity_hash > h,
        forall|k: int| start <= k < entries.len() ==> entries[k].identity_hash <= h,
        forall|k: int| start <= k < stop ==> entries[k].meta.identity != id,
        stop < entries.len() ==> entries[stop].identity_hash != h,
    ensures
        !has_identity(entries, id),
{
    assert forall|k: int| 0 <= k < entries.len() implies entries[k].meta.identity != id by {
        if entries[k].meta.identity == id {
            assert(entries[k].identity_hash == h);
            assert(k >= start);
            if k >= stop {
                assert(stop < entries.len());
                assert(entries[stop].identity_hash <= h);
                if k > stop {
                    assert(entry_ge(entries[stop], entries[k]));
                }
                assert(entries[stop].identity_hash < h);
                assert(entries[k].identity_hash < h);
            }
        }
    }
}

/// Building the registry is deterministic in its input: two registries built
/// from the same region answer every lookup identically, with duplicate
/// registrations collapsed to one entry.
pub proof fn lemma_registry_idempotence(
    a: MetadataRegistry,
    b: MetadataRegistry,
    region: Seq<Option<EventMetadata>>,
    skip_first: bool,
    id: u64,
)
    requires
        a.wf(),
        b.wf(),
        a.built_from(region, skip_first),
        b.built_from(region, skip_first),
    ensures
        a.lookup_spec(id) == b.lookup_spec(id),
{
    broadcast use vstd::seq_lib::group_to_multiset_ensures;

    let src = with_hashes(dedup_by_identity(region_items(region, skip_first)));
    assert(a.entries@.to_multiset() == b.entries@.to_multiset());
    if has_identity(a.entries@, id) {
        let k = choose|k: int| 0 <= k < a.entries@.len() && a.entries@[k].meta.identity == id;
        assert(a.entries@.contains(a.entries@[k]));
        assert(a.entries@.to_multiset().count(a.entries@[k]) > 0);
        assert(b.entries@.to_multiset().count(a.entries@[k]) > 0);
        assert(b.entries@.contains(a.entries@[k]));
        let j = choose|j: int| 0 <= j < b.entries@.len() && b.entries@[j] == a.entries@[k];
        assert(has_identity(b.entries@, id));
        lemma_lookup_unique(a.entries@, id);
        lemma_lookup_unique(b.entries@, id);
        let kb = choose|j: int| 0 <= j < b.entries@.len() && b.entries@[j].meta.identity == id;
        assert(b.entries@[kb] == b.entries@[j]);
    } else {
        if has_identity(b.entries@, id) {
            let j = choose|j: int| 0 <= j < b.entries@.len() && b.entries@[j].meta.identity == id;
            assert(b.entries@.contains(b.entries@[j]));
            assert(b.entries@.to_multiset().count(b.entries@[j]) > 0);
            assert(a.entries@.to_multiset().count(b.entries@[j]) > 0);
            assert(a.entries@.contains(b.entries@[j]));
            let k = choose|k: int| 0 <= k < a.entries@.len() && a.entries@[k] == b.entries@[j];
            assert(has_identity(a.entries@, id));
        }
    }
}

/// In a well-formed index all entries carrying one identity are the same
/// entry.
proof fn lemma_lookup_unique(entries: Seq<ParsedEventMetadata>, id: u64)
    requires
        distinct_identities_parsed(entries),
    ensures
        forall|i: int, j: int|
            (0 <= i < entries.len() && 0 <= j < entries.len() && entries[i].meta.identity == id
                && entries[j].meta.identity == id) ==> entries[i] == entries[j],
{
    assert forall|i: int, j: int|
        (0 <= i < entries.len() && 0 <= j < entries.len() && entries[i].meta.identity == id
            && entries[j].meta.identity == id) implies entries[i] == entries[j] by {
        if i < j {
            assert(entries[i].meta.identity != entries[j].meta.identity);
        } else if j < i {
            assert(entries[j].meta.identity != entries[i].meta.identity);
        }
    }
}

/// The sum of the keywords over the registry equals the sum over the
/// region's registered sites, when each site registered once.
pub proof fn lemma_keyword_sum(
    r: MetadataRegistry,
    region: Seq<Option<EventMetadata>>,
    skip_first: bool,
)
    requires
        r.wf(),
        r.built_from(region, skip_first),
        distinct_identities(region_items(region, skip_first)),
    ensures
        kw_sum_parsed(r.entries@) == kw_sum(region_items(region, skip_first)),
{
    let items = region_items(region, skip_first);
    lemma_dedup_of_distinct(items);
    let src = with_hashes(items);
    let f = |acc: int, e: ParsedEventMetadata| acc + e.meta.kw;
    assert(vstd::seq_lib::commutative_foldl(f));
    vstd::seq_lib::lemma_fold_left_permutation(r.entries@, src, f, 0int);
    lemma_with_hashes_sum(items);
}

proof fn lemma_with_hashes_sum(s: Seq<EventMetadata>)
    ensures
        kw_sum_parsed(with_hashes(s)) == kw_sum(s),
    decreases s.len(),
{
    let f = |acc: int, e: ParsedEventMetadata| acc + e.meta.kw;
    let g = |acc: int, m: EventMetadata| acc + m.kw;
    if s.len() == 0 {
        assert(with_hashes(s) =~= Seq::<ParsedEventMetadata>::empty());
    } else {
        lemma_with_hashes_sum(s.drop_last());
        let w = with_hashes(s);
        assert(w.drop_last() =~= with_hashes(s.drop_last()));
        assert(kw_sum_parsed(w) == f(kw_sum_parsed(w.drop_last()), w.last()));
        assert(kw_sum(s) == g(kw_sum(s.drop_last()), s.last()));
        assert(w.last().meta == s.last());
    }
}

} // verus!
