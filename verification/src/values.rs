//! Loggable field values and the per-span field slots.
//!
//! A span declares its field names once, at creation. The slots keep the
//! declaration order; a precomputed permutation (`sort_index`) orders them by
//! name so later updates find their slot by binary search. A float value is
//! carried as its bit pattern, so the encoders can hand the collector the
//! exact eight bytes.

use vstd::prelude::*;
use vstd::string::StringSliceAdditionalSpecFns;

verus! {

/// A loggable value: one variant per primitive the wire formats accept,
/// or absent when a declared field has not been recorded yet.
#[allow(non_camel_case_types)]
pub enum ValueTypes {
    v_none,
    v_u64(u64),
    v_i64(i64),
    v_u128(u128),
    v_i128(i128),
    v_f64_bits(u64),
    v_bool(bool),
    v_str(String),
    v_char(char),
}

impl ValueTypes {
    /// An exact copy of the value.
    pub fn dup(&self) -> (r: ValueTypes)
        ensures
            r == *self,
    {
        match self {
            ValueTypes::v_none => ValueTypes::v_none,
            ValueTypes::v_u64(u) => ValueTypes::v_u64(*u),
            ValueTypes::v_i64(i) => ValueTypes::v_i64(*i),
            ValueTypes::v_u128(u) => ValueTypes::v_u128(*u),
            ValueTypes::v_i128(i) => ValueTypes::v_i128(*i),
            ValueTypes::v_f64_bits(b) => ValueTypes::v_f64_bits(*b),
            ValueTypes::v_bool(b) => ValueTypes::v_bool(*b),
            ValueTypes::v_str(s) => ValueTypes::v_str(s.clone()),
            ValueTypes::v_char(c) => ValueTypes::v_char(*c),
        }
    }
}

/// One declared field of a span: its name, its current value, and its place
/// in the alphabetical permutation.
#[verifier::ext_equal]
pub struct FieldValueIndex {
    pub field: String,
    pub value: ValueTypes,
    pub sort_index: u8,
}

/// The UTF-8 bytes of a string value.
pub open spec fn str_bytes(s: Seq<char>) -> Seq<u8> {
    vstd::utf8::encode_utf8(s)
}

/// A string without a NUL character; the channel's builder rejects names
/// that contain one.
pub open spec fn no_nul_chars(s: Seq<char>) -> bool {
    forall|i: int| 0 <= i < s.len() ==> s[i] != '\0'
}

/// Strict lexicographic order on byte strings.
pub open spec fn bytes_lt(a: Seq<u8>, b: Seq<u8>) -> bool
    decreases b.len(),
{
    if b.len() == 0 {
        false
    } else if a.len() == 0 {
        true
    } else if a.first() < b.first() {
        true
    } else if a.first() > b.first() {
        false
    } else {
        bytes_lt(a.drop_first(), b.drop_first())
    }
}

pub proof fn lemma_bytes_lt_connected(a: Seq<u8>, b: Seq<u8>)
    ensures
        a != b ==> bytes_lt(a, b) || bytes_lt(b, a),
        !(bytes_lt(a, b) && bytes_lt(b, a)),
        bytes_lt(a, b) ==> a != b,
    decreases a.len() + b.len(),
{
    if a.len() == 0 && b.len() == 0 {
        assert(a =~= b);
    } else if a.len() == 0 {
        assert(bytes_lt(a, b));
        assert(a.len() != b.len());
    } else if b.len() == 0 {
        assert(bytes_lt(b, a));
        assert(a.len() != b.len());
    } else {
        lemma_bytes_lt_connected(a.drop_first(), b.drop_first());
        if a.first() == b.first() {
            if a.drop_first() == b.drop_first() {
                assert(a =~= b) by {
                    assert(a.len() == b.len());
                    assert(forall|k: int|
                        1 <= k < a.len() ==> a[k] == a.drop_first()[k - 1] && b[k]
                            == b.drop_first()[k - 1]);
                }
            } else {
                assert(bytes_lt(a.drop_first(), b.drop_first()) || bytes_lt(
                    b.drop_first(),
                    a.drop_first(),
                ));
            }
        }
    }
}

pub proof fn lemma_bytes_lt_trans(a: Seq<u8>, b: Seq<u8>, c: Seq<u8>)
    requires
        bytes_lt(a, b),
        bytes_lt(b, c),
    ensures
        bytes_lt(a, c),
    decreases a.len() + b.len() + c.len(),
{
    if a.len() == 0 {
    } else {
        if a.first() == b.first() && b.first() == c.first() {
            lemma_bytes_lt_trans(a.drop_first(), b.drop_first(), c.drop_first());
        }
    }
}

/// Three-way byte-string comparison: 0 equal, 1 less, 2 greater.
pub fn bytes_cmp(a: &[u8], b: &[u8]) -> (r: u8)
    ensures
        r == 0 ==> a@ == b@,
        r == 1 ==> bytes_lt(a@, b@),
        r == 2 ==> bytes_lt(b@, a@),
        r == 0 || r == 1 || r == 2,
{
    let an = a.len();
    let bn = b.len();
    let mut i: usize = 0;
    while i < an && i < bn
        invariant
            an == a@.len(),
            bn == b@.len(),
            i <= an,
            i <= bn,
            forall|k: int| 0 <= k < i ==> a@[k] == b@[k],
        decreases an - i,
    {
        if a[i] < b[i] {
            proof {
                lemma_lt_from_diff(a@, b@, i as int);
            }
            return 1;
        }
        if a[i] > b[i] {
            proof {
                lemma_lt_from_diff(b@, a@, i as int);
            }
            return 2;
        }
        i = i + 1;
    }
    if an == bn {
        proof {
            assert(a@ =~= b@);
        }
        0
    } else if an < bn {
        proof {
            lemma_lt_from_prefix(a@, b@);
        }
        1
    } else {
        proof {
            lemma_lt_from_prefix(b@, a@);
        }
        2
    }
}

proof fn lemma_lt_from_diff(a: Seq<u8>, b: Seq<u8>, i: int)
    requires
        0 <= i < a.len(),
        i < b.len(),
        forall|k: int| 0 <= k < i ==> a[k] == b[k],
        a[i] < b[i],
    ensures
        bytes_lt(a, b),
    decreases i,
{
    if i == 0 {
    } else {
        assert(a.first() == b.first());
        assert(forall|k: int| 0 <= k < i - 1 ==> a.drop_first()[k] == b.drop_first()[k]);
        assert(a.drop_first()[i - 1] == a[i]);
        assert(b.drop_first()[i - 1] == b[i]);
        lemma_lt_from_diff(a.drop_first(), b.drop_first(), i - 1);
    }
}

proof fn lemma_lt_from_prefix(a: Seq<u8>, b: Seq<u8>)
    requires
        a.len() < b.len(),
        forall|k: int| 0 <= k < a.len() ==> a[k] == b[k],
    ensures
        bytes_lt(a, b),
    decreases a.len(),
{
    if a.len() == 0 {
    } else {
        assert(forall|k: int| 0 <= k < a.len() - 1 ==> a.drop_first()[k] == b.drop_first()[k]);
        lemma_lt_from_prefix(a.drop_first(), b.drop_first());
    }
}

/// The name ordering the permutation realizes: position `i`'s key is the
/// name of the slot it points at.
pub open spec fn slot_key(fields: Seq<FieldValueIndex>, i: int) -> Seq<u8> {
    str_bytes(fields[fields[i].sort_index as int].field@)
}

/// Some position of the permutation points at slot `i`.
pub open spec fn pointed_at(fields: Seq<FieldValueIndex>, i: int) -> bool {
    exists|p: int| 0 <= p < fields.len() && fields[p].sort_index as int == i
}

/// Well-formed slots: at most 32, the permutation stays in bounds and hits
/// each slot exactly once, and walking it visits the names in strictly
/// ascending order.
pub open spec fn wf_slots(fields: Seq<FieldValueIndex>) -> bool {
    &&& fields.len() <= 32
    &&& forall|i: int| 0 <= i < fields.len() ==> no_nul_chars((#[trigger] fields[i]).field@)
    &&& forall|i: int| 0 <= i < fields.len() ==> (fields[i].sort_index as int) < fields.len()
    &&& forall|i: int, j: int|
        0 <= i < j < fields.len() ==> fields[i].sort_index != fields[j].sort_index
    &&& forall|i: int| 0 <= i < fields.len() ==> #[trigger] pointed_at(fields, i)
    &&& forall|i: int, j: int|
        0 <= i < j < fields.len() ==> bytes_lt(slot_key(fields, i), slot_key(fields, j))
}

pub open spec fn distinct_names(names: Seq<String>) -> bool {
    forall|i: int, j: int|
        0 <= i < j < names.len() ==> str_bytes(names[i]@) != str_bytes(names[j]@)
}

/// Builds the slots of a newly created span from its declared field names:
/// declaration order kept, no value recorded yet, and the alphabetical
/// permutation computed once. Declarations beyond the cap of 32 are dropped.
pub fn create_field_slots(names: &Vec<String>) -> (r: Vec<FieldValueIndex>)
    requires
        distinct_names(names@),
        forall|i: int| 0 <= i < names@.len() ==> no_nul_chars((#[trigger] names@[i])@),
    ensures
        wf_slots(r@),
        r@.len() == if names@.len() <= 32 {
            names@.len() as int
        } else {
            32
        },
        forall|i: int|
            0 <= i < r@.len() ==> (#[trigger] r@[i]).field == names@[i] && r@[i].value
                == ValueTypes::v_none,
{
    let n: usize = if names.len() <= 32 {
        names.len()
    } else {
        32
    };
    let mut slots: Vec<FieldValueIndex> = Vec::new();
    let mut i: usize = 0;
    while i < n
        invariant
            n <= names@.len(),
            i <= n,
            slots@.len() == i,
            forall|k: int| 0 <= k < i ==> slots@[k].field == names@[k] && slots@[k].value
                == ValueTypes::v_none,
        decreases n - i,
    {
        slots.push(
            FieldValueIndex { field: names[i].clone(), value: ValueTypes::v_none, sort_index: 0 },
        );
        i = i + 1;
    }
    // Select the indices in ascending name order.
    let mut rest: Vec<u8> = Vec::new();
    let mut j: usize = 0;
    while j < n
        invariant
            n <= 32,
            j <= n,
            rest@.len() == j,
            forall|k: int| 0 <= k < j ==> rest@[k] == k,
        decreases n - j,
    {
        rest.push(j as u8);
        j = j + 1;
    }
    let ghost all = rest@;
    proof {
        assert(forall|k: int| 0 <= k < all.len() ==> 0 <= #[trigger] all[k] < n);
        assert(forall|p: int, q: int| 0 <= p < q < all.len() ==> all[p] != all[q]);
        broadcast use vstd::seq_lib::group_to_multiset_ensures;

        assert(Seq::<u8>::empty().to_multiset().add(rest@.to_multiset()) =~= all.to_multiset());
    }
    let mut order: Vec<u8> = Vec::new();
    while rest.len() > 0
        invariant
            n <= 32,
            n <= names@.len(),
            slots@.len() == n,
            forall|k: int| 0 <= k < n ==> slots@[k].field == names@[k] && slots@[k].value
                == ValueTypes::v_none,
            distinct_names(names@),
            order@.len() + rest@.len() == n,
            order@.to_multiset().add(rest@.to_multiset()) == all.to_multiset(),
            forall|k: int| 0 <= k < order@.len() ==> 0 <= #[trigger] order@[k] < n,
            forall|k: int| 0 <= k < rest@.len() ==> 0 <= #[trigger] rest@[k] < n,
            forall|p: int, q: int| 0 <= p < q < order@.len() ==> order@[p] != order@[q],
            forall|p: int, q: int| 0 <= p < q < rest@.len() ==> rest@[p] != rest@[q],
            forall|p: int, q: int|
                0 <= p < order@.len() && 0 <= q < rest@.len() ==> order@[p] != rest@[q],
            forall|p: int, q: int|
                0 <= p < q < order@.len() ==> bytes_lt(
                    str_bytes(names@[order@[p] as int]@),
                    str_bytes(names@[order@[q] as int]@),
                ),
            forall|p: int, q: int|
                0 <= p < order@.len() && 0 <= q < rest@.len() ==> bytes_lt(
                    str_bytes(names@[order@[p] as int]@),
                    str_bytes(names@[rest@[q] as int]@),
                ),
        decreases rest.len(),
    {
        let m = rest.len();
        let mut best: usize = 0;
        let mut k: usize = 1;
        while k < m
            invariant
                m == rest@.len(),
                best < m,
                k <= m,
                forall|q: int| 0 <= q < rest@.len() ==> 0 <= #[trigger] rest@[q] < n,
                n <= names@.len(),
                forall|q: int|
                    0 <= q < k && q != best ==> bytes_lt(
                        str_bytes(names@[rest@[best as int] as int]@),
                        str_bytes(names@[rest@[q] as int]@),
                    ) || str_bytes(names@[rest@[best as int] as int]@) == str_bytes(names@[rest@[q] as int]@),
            decreases m - k,
        {
            let c = bytes_cmp(
                names[rest[k] as usize].as_str().as_bytes(),
                names[rest[best] as usize].as_str().as_bytes(),
            );
            if c == 1 {
                proof {
                    assert forall|q: int|
                        0 <= q < k + 1 && q != k implies bytes_lt(
                        str_bytes(names@[rest@[k as int] as int]@),
                        str_bytes(names@[rest@[q] as int]@),
                    ) || str_bytes(names@[rest@[k as int] as int]@) == str_bytes(names@[rest@[q] as int]@) by {
                        let kb = str_bytes(names@[rest@[k as int] as int]@);
                        let bb = str_bytes(names@[rest@[best as int] as int]@);
                        let qb = str_bytes(names@[rest@[q] as int]@);
                        if q < k && q != best {
                            if bb == qb {
                            } else {
                                lemma_bytes_lt_trans(kb, bb, qb);
                            }
                        }
                    }
                }
                best = k;
            }
            k = k + 1;
        }
        let ghost old_order = order@;
        let ghost old_rest = rest@;
        let picked = rest.remove(best);
        order.push(picked);
        proof {
            broadcast use vstd::seq_lib::group_to_multiset_ensures;
            broadcast use vstd::multiset::group_multiset_axioms;

            assert(old_rest[best as int] == picked);
            assert(old_rest.contains(picked));
            assert(order@.to_multiset().add(rest@.to_multiset()) =~= all.to_multiset());
            assert forall|q: int| 0 <= q < rest@.len() implies bytes_lt(
                str_bytes(names@[picked as int]@),
                str_bytes(names@[rest@[q] as int]@),
            ) by {
                let orig_q = if q < best {
                    q
                } else {
                    q + 1
                };
                assert(rest@[q] == old_rest[orig_q]);
                assert(old_rest[orig_q] != picked);
                let pb = str_bytes(names@[picked as int]@);
                let qb = str_bytes(names@[old_rest[orig_q] as int]@);
                assert(pb != qb) by {
                    if picked as int != old_rest[orig_q] as int {
                        if (picked as int) < (old_rest[orig_q] as int) {
                            assert(distinct_names(names@));
                        }
                    }
                }
                assert(bytes_lt(pb, qb) || pb == qb);
            }
        }
    }
    // Record the permutation in the slots.
    let mut t: usize = 0;
    while t < n
        invariant
            n <= 32,
            n <= names@.len(),
            order@.len() == n,
            slots@.len() == n,
            t <= n,
            forall|k: int| 0 <= k < n ==> 0 <= #[trigger] order@[k] < n,
            forall|p: int, q: int| 0 <= p < q < n ==> order@[p] != order@[q],
            forall|p: int, q: int|
                0 <= p < q < n ==> bytes_lt(
                    str_bytes(names@[order@[p] as int]@),
                    str_bytes(names@[order@[q] as int]@),
                ),
            forall|k: int| 0 <= k < n ==> slots@[k].field == names@[k] && slots@[k].value
                == ValueTypes::v_none,
            forall|k: int| 0 <= k < t ==> slots@[k].sort_index == order@[k],
        decreases n - t,
    {
        let idx = order[t];
        slots[t].sort_index = idx;
        t = t + 1;
    }
    proof {
        assert forall|i: int, j: int| 0 <= i < j < slots@.len() implies bytes_lt(
            slot_key(slots@, i),
            slot_key(slots@, j),
        ) by {
            assert(slots@[i].sort_index == order@[i]);
            assert(slots@[j].sort_index == order@[j]);
            assert(slots@[slots@[i].sort_index as int].field == names@[order@[i] as int]);
            assert(slots@[slots@[j].sort_index as int].field == names@[order@[j] as int]);
        }
        assert forall|i: int| 0 <= i < slots@.len() implies (slots@[i].sort_index as int)
            < slots@.len() by {
            assert(slots@[i].sort_index == order@[i]);
            assert(0 <= order@[i] < n);
        }
        assert forall|i: int, j: int| 0 <= i < j < slots@.len() implies slots@[i].sort_index
            != slots@[j].sort_index by {
            assert(slots@[i].sort_index == order@[i]);
            assert(slots@[j].sort_index == order@[j]);
        }
        assert forall|i: int|
            0 <= i < slots@.len() implies (#[trigger] slots@[i]).field == names@[i]
                && slots@[i].value == ValueTypes::v_none by {
            assert(slots@[i].field == names@[i]);
        }
        // The permutation came out of the full index sequence, so it hits
        // every slot.
        assert forall|i: int| 0 <= i < slots@.len() implies #[trigger] pointed_at(slots@, i) by {
            broadcast use vstd::seq_lib::group_to_multiset_ensures;

            assert(all[i] == i as u8);
            assert(all.contains(i as u8));
            assert(all.to_multiset().count(i as u8) > 0);
            assert(order@.to_multiset().add(Seq::<u8>::empty().to_multiset()) == all.to_multiset());
            assert(order@.to_multiset().count(i as u8) > 0) by {
                broadcast use vstd::multiset::group_multiset_axioms;
            }
            assert(order@.contains(i as u8));
            let p = choose|p: int| 0 <= p < order@.len() && order@[p] == i as u8;
            assert(slots@[p].sort_index as int == i);
        }
    }
    slots
}

/// Records a value into the slot declared under `name`, by binary search over
/// the alphabetical permutation. A name that was not declared is dropped; the
/// other slots are untouched either way.
pub fn update_value(fields: &mut Vec<FieldValueIndex>, name: &str, value: ValueTypes)
    requires
        wf_slots(old(fields)@),
    ensures
        wf_slots(final(fields)@),
        final(fields)@.len() == old(fields)@.len(),
        forall|i: int| 0 <= i < old(fields)@.len() ==> final(fields)@[i].field == old(fields)@[i].field && final(fields)@[i].sort_index == old(fields)@[i].sort_index,
        forall|i: int|
            0 <= i < old(fields)@.len() && str_bytes(old(fields)@[i].field@)
                == str_bytes(name@) ==> final(fields)@[i].value == value,
        forall|i: int|
            0 <= i < old(fields)@.len() && str_bytes(old(fields)@[i].field@)
                != str_bytes(name@) ==> final(fields)@[i] == old(fields)@[i],
{
    let n = fields.len();
    let target = name.as_bytes();
    let mut lo: usize = 0;
    let mut hi: usize = n;
    while lo < hi
        invariant
            wf_slots(fields@),
            fields@ == old(fields)@,
            n == fields@.len(),
            lo <= hi <= n,
            target@ == str_bytes(name@),
            forall|k: int| 0 <= k < lo ==> bytes_lt(slot_key(fields@, k), str_bytes(name@)),
            forall|k: int| hi <= k < n ==> bytes_lt(str_bytes(name@), slot_key(fields@, k)),
        decreases hi - lo,
    {
        let mid = lo + (hi - lo) / 2;
        let si = fields[mid].sort_index as usize;
        let c = bytes_cmp(fields[si].field.as_str().as_bytes(), target);
        if c == 1 {
            proof {
                assert forall|k: int| 0 <= k < mid + 1 implies bytes_lt(
                    slot_key(fields@, k),
                    str_bytes(name@),
                ) by {
                    if k < mid {
                        lemma_bytes_lt_trans(
                            slot_key(fields@, k),
                            slot_key(fields@, mid as int),
                            str_bytes(name@),
                        );
                    }
                }
            }
            lo = mid + 1;
        } else if c == 2 {
            proof {
                assert forall|k: int| mid <= k < n implies bytes_lt(
                    str_bytes(name@),
                    slot_key(fields@, k),
                ) by {
                    if k > mid {
                        lemma_bytes_lt_trans(
                            str_bytes(name@),
                            slot_key(fields@, mid as int),
                            slot_key(fields@, k),
                        );
                    }
                }
            }
            hi = mid;
        } else {
            // Exact match: the slot the permutation points at carries `name`.
            proof {
                assert(str_bytes(fields@[si as int].field@) == str_bytes(name@));
                assert forall|i: int|
                    0 <= i < fields@.len() && i != si as int implies str_bytes(fields@[i].field@)
                    != str_bytes(name@) by {
                    lemma_wf_names_distinct(fields@, si as int, i);
                }
            }
            fields[si].value = value;
            proof {
                assert forall|i: int, j: int| 0 <= i < j < fields@.len() implies bytes_lt(
                    slot_key(fields@, i),
                    slot_key(fields@, j),
                ) by {
                    assert(slot_key(fields@, i) == slot_key(old(fields)@, i));
                    assert(slot_key(fields@, j) == slot_key(old(fields)@, j));
                }
                assert forall|i: int| 0 <= i < fields@.len() implies #[trigger] pointed_at(
                    fields@,
                    i,
                ) by {
                    assert(pointed_at(old(fields)@, i));
                    let p = choose|p: int|
                        0 <= p < old(fields)@.len() && old(fields)@[p].sort_index as int == i;
                    assert(fields@[p].sort_index as int == i);
                }
            }
            return ;
        }
    }
    proof {
        assert forall|i: int| 0 <= i < fields@.len() implies str_bytes(fields@[i].field@)
            != str_bytes(name@) by {
            assert(pointed_at(fields@, i));
            let ghost inv = invert(fields@, i);
            assert(fields@[inv].sort_index as int == i);
            assert(slot_key(fields@, inv) == str_bytes(fields@[i].field@));
            if inv < lo as int {
                lemma_bytes_lt_connected(slot_key(fields@, inv), str_bytes(name@));
            } else {
                lemma_bytes_lt_connected(str_bytes(name@), slot_key(fields@, inv));
            }
        }
    }
}

/// The permutation position pointing at slot `i`.
spec fn invert(fields: Seq<FieldValueIndex>, i: int) -> int {
    choose|p: int| 0 <= p < fields.len() && fields[p].sort_index as int == i
}

/// In well-formed slots each slot has a permutation position pointing at it.
proof fn lemma_wf_onto(fields: Seq<FieldValueIndex>, i: int)
    requires
        wf_slots(fields),
        0 <= i < fields.len(),
    ensures
        0 <= invert(fields, i) < fields.len(),
        fields[invert(fields, i)].sort_index as int == i,
{
    assert(pointed_at(fields, i));
}

/// Distinct slots carry distinct names.
proof fn lemma_wf_names_distinct(fields: Seq<FieldValueIndex>, i: int, j: int)
    requires
        wf_slots(fields),
        0 <= i < fields.len(),
        0 <= j < fields.len(),
        i != j,
    ensures
        str_bytes(fields[i].field@) != str_bytes(fields[j].field@),
{
    lemma_wf_onto(fields, i);
    lemma_wf_onto(fields, j);
    let pi = invert(fields, i);
    let pj = invert(fields, j);
    assert(pi != pj);
    if pi < pj {
        assert(bytes_lt(slot_key(fields, pi), slot_key(fields, pj)));
        lemma_bytes_lt_connected(slot_key(fields, pi), slot_key(fields, pj));
    } else {
        assert(bytes_lt(slot_key(fields, pj), slot_key(fields, pi)));
        lemma_bytes_lt_connected(slot_key(fields, pj), slot_key(fields, pi));
    }
}

} // verus!

verus! {

/// One recording applied to the slots: the slot declared under `name` takes
/// the value, every other slot is untouched, an undeclared name changes
/// nothing.
pub open spec fn apply_one(fields: Seq<FieldValueIndex>, name: Seq<char>, v: ValueTypes) -> Seq<
    FieldValueIndex,
> {
    Seq::new(
        fields.len(),
        |i: int|
            if str_bytes(fields[i].field@) == str_bytes(name) {
                FieldValueIndex { field: fields[i].field, value: v, sort_index: fields[i].sort_index }
            } else {
                fields[i]
            },
    )
}

/// A batch of recordings applied in order, earlier updates first.
pub open spec fn apply_all(fields: Seq<FieldValueIndex>, updates: Seq<(String, ValueTypes)>) -> Seq<
    FieldValueIndex,
>
    decreases updates.len(),
{
    if updates.len() == 0 {
        fields
    } else {
        apply_one(apply_all(fields, updates.drop_last()), updates.last().0@, updates.last().1)
    }
}

/// What `update_value` promises is exactly one recording.
pub proof fn lemma_update_is_apply_one(
    old_f: Seq<FieldValueIndex>,
    new_f: Seq<FieldValueIndex>,
    name: Seq<char>,
    v: ValueTypes,
)
    requires
        new_f.len() == old_f.len(),
        forall|i: int|
            0 <= i < old_f.len() ==> (#[trigger] new_f[i]).field == old_f[i].field
                && new_f[i].sort_index == old_f[i].sort_index,
        forall|i: int|
            0 <= i < old_f.len() && str_bytes(old_f[i].field@) == str_bytes(name) ==> (
            #[trigger] new_f[i]).value == v,
        forall|i: int|
            0 <= i < old_f.len() && str_bytes(old_f[i].field@) != str_bytes(name) ==> (
            #[trigger] new_f[i]) == old_f[i],
    ensures
        new_f == apply_one(old_f, name, v),
{
    assert forall|i: int| 0 <= i < old_f.len() implies new_f[i] == apply_one(old_f, name, v)[i] by {
        if str_bytes(old_f[i].field@) == str_bytes(name) {
            assert(new_f[i] =~= FieldValueIndex {
                field: old_f[i].field,
                value: v,
                sort_index: old_f[i].sort_index,
            });
        }
    }
    assert(new_f =~= apply_one(old_f, name, v));
}

/// Span field round-trip: recording one field updates that slot alone; the
/// other slots keep their values, and a name that was never declared leaves
/// the slots exactly as they were, no slot added.
pub proof fn lemma_span_field_round_trip(
    fields: Seq<FieldValueIndex>,
    name: Seq<char>,
    v: ValueTypes,
)
    ensures
        apply_one(fields, name, v).len() == fields.len(),
        forall|i: int|
            0 <= i < fields.len() && str_bytes(fields[i].field@) == str_bytes(name) ==> (
            #[trigger] apply_one(fields, name, v)[i]).value == v,
        forall|i: int|
            0 <= i < fields.len() && str_bytes(fields[i].field@) != str_bytes(name) ==> (
            #[trigger] apply_one(fields, name, v)[i]) == fields[i],
        (forall|i: int|
            0 <= i < fields.len() ==> str_bytes((#[trigger] fields[i]).field@) != str_bytes(
                name,
            )) ==> apply_one(fields, name, v) == fields,
{
    if forall|i: int|
        0 <= i < fields.len() ==> str_bytes((#[trigger] fields[i]).field@) != str_bytes(name) {
        assert(apply_one(fields, name, v) =~= fields);
    }
}

/// A recording never disturbs the slots' shape: the names, the permutation,
/// and well-formedness all survive.
pub proof fn lemma_apply_one_wf(fields: Seq<FieldValueIndex>, name: Seq<char>, v: ValueTypes)
    requires
        wf_slots(fields),
    ensures
        wf_slots(apply_one(fields, name, v)),
        forall|i: int|
            0 <= i < fields.len() ==> (#[trigger] apply_one(fields, name, v)[i]).field == fields[i].field && apply_one(fields, name, v)[i].sort_index == fields[i].sort_index,
{
    let a = apply_one(fields, name, v);
    assert forall|i: int, j: int| 0 <= i < j < a.len() implies bytes_lt(
        slot_key(a, i),
        slot_key(a, j),
    ) by {
        assert(slot_key(a, i) == slot_key(fields, i));
        assert(slot_key(a, j) == slot_key(fields, j));
    }
    assert forall|i: int| 0 <= i < a.len() implies #[trigger] pointed_at(a, i) by {
        assert(pointed_at(fields, i));
        let p = choose|p: int| 0 <= p < fields.len() && fields[p].sort_index as int == i;
        assert(a[p].sort_index as int == i);
    }
}

} // verus!

verus! {

/// A batch of recordings never disturbs the slots' shape either: length,
/// names, permutation and well-formedness all survive.
pub proof fn lemma_apply_all_shape(fields: Seq<FieldValueIndex>, updates: Seq<(String, ValueTypes)>)
    requires
        wf_slots(fields),
    ensures
        wf_slots(apply_all(fields, updates)),
        apply_all(fields, updates).len() == fields.len(),
        forall|i: int|
            0 <= i < fields.len() ==> (#[trigger] apply_all(fields, updates)[i]).field == fields[i].field && apply_all(fields, updates)[i].sort_index == fields[i].sort_index,
    decreases updates.len(),
{
    if updates.len() == 0 {
    } else {
        lemma_apply_all_shape(fields, updates.drop_last());
        lemma_apply_one_wf(
            apply_all(fields, updates.drop_last()),
            updates.last().0@,
            updates.last().1,
        );
    }
}

} // verus!
