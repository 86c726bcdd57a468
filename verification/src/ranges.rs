//! The handle ranges that a registry of announced attributes implies.
//!
//! The daemon announces attributes one by one; nothing says where a service
//! or a characteristic ends. Each Service-typed and each
//! Characteristic-typed attribute is therefore taken to reach up to the
//! handle just before the next attribute of its own kind, and the last one of
//! a kind up to the end of the handle space.

use vstd::prelude::*;
use crate::handle::AttributeType;
use crate::registry::AttributeView;
use crate::types::Characteristic;

verus! {

/// The record that stands for an attribute until its range is known: it
/// holds the attribute's handle as value handle and an empty range.
pub open spec fn is_placeholder(c: Characteristic, handle: u16) -> bool {
    c.value_handle == handle && c.start_handle == 0 && c.end_handle == 0
}

/// Every record is filed under its own handle and holds a placeholder.
pub open spec fn registry_wf(attrs: Map<u16, AttributeView>) -> bool {
    forall|h: u16| #[trigger]
        attrs.contains_key(h) ==> attrs[h].handle.handle == h && is_placeholder(
            attrs[h].characteristic,
            h,
        )
}

/// The test "is of this kind".
pub open spec fn of_kind(kind: AttributeType) -> spec_fn(AttributeView) -> bool {
    |r: AttributeView| r.handle.typ == kind
}

/// The attributes that get a range: services and characteristics.
pub open spec fn is_ranged(r: AttributeView) -> bool {
    r.handle.typ == AttributeType::Service || r.handle.typ == AttributeType::Characteristic
}

/// The least registered handle from `from` upwards whose record passes
/// `test`.
pub open spec fn first_from(
    attrs: Map<u16, AttributeView>,
    test: spec_fn(AttributeView) -> bool,
    from: int,
) -> Option<u16>
    decreases 0x1_0000 - from,
{
    if from > 0xFFFF {
        None
    } else if from >= 0 && attrs.contains_key(from as u16) && test(attrs[from as u16]) {
        Some(from as u16)
    } else {
        first_from(attrs, test, from + 1)
    }
}

/// The last handle of the attribute registered at `h`: the one before the
/// next attribute of the same kind, or the greatest handle if none follows.
pub open spec fn end_of(attrs: Map<u16, AttributeView>, h: u16) -> u16 {
    match first_from(attrs, of_kind(attrs[h].handle.typ), h + 1) {
        Some(next) => (next - 1) as u16,
        None => 0xFFFF,
    }
}

/// The finished record of the attribute registered at `h`.
pub open spec fn range_of(attrs: Map<u16, AttributeView>, h: u16) -> Characteristic {
    Characteristic {
        start_handle: h,
        end_handle: end_of(attrs, h),
        value_handle: h,
        uuid: attrs[h].characteristic.uuid,
        properties: attrs[h].characteristic.properties,
    }
}

/// The finished records of the services and characteristics registered from
/// `from` upwards, by ascending handle.
pub open spec fn ranges_from(attrs: Map<u16, AttributeView>, from: int) -> Seq<Characteristic>
    decreases 0x1_0000 - from,
{
    if from > 0xFFFF {
        Seq::empty()
    } else if from >= 0 && attrs.contains_key(from as u16) && is_ranged(attrs[from as u16]) {
        seq![range_of(attrs, from as u16)] + ranges_from(attrs, from + 1)
    } else {
        ranges_from(attrs, from + 1)
    }
}

/// The characteristic set of a registry: one finished record for each
/// service and each characteristic, by ascending start handle.
pub open spec fn built(attrs: Map<u16, AttributeView>) -> Seq<Characteristic> {
    ranges_from(attrs, 0)
}

/// The kind of the attribute that a finished record came from.
pub open spec fn kind_at(attrs: Map<u16, AttributeView>, c: Characteristic) -> AttributeType {
    attrs[c.start_handle].handle.typ
}

/// Two handle ranges share no handle.
pub open spec fn disjoint(a: Characteristic, b: Characteristic) -> bool {
    a.end_handle < b.start_handle || b.end_handle < a.start_handle
}

/// What `first_from` finds is registered, passes the test and is the least
/// such handle; where it finds nothing, nothing is there.
pub proof fn lemma_first_from(
    attrs: Map<u16, AttributeView>,
    test: spec_fn(AttributeView) -> bool,
    from: int,
)
    ensures
        match first_from(attrs, test, from) {
            Some(n) => {
                &&& from <= n
                &&& attrs.contains_key(n)
                &&& test(attrs[n])
                &&& forall|h: u16|
                    from <= h < n ==> !(#[trigger] attrs.contains_key(h) && test(attrs[h]))
            },
            None => forall|h: u16|
                from <= h ==> !(#[trigger] attrs.contains_key(h) && test(attrs[h])),
        },
    decreases 0x1_0000 - from,
{
    if from <= 0xFFFF {
        lemma_first_from(attrs, test, from + 1);
    }
}

/// Where no handle from `from` up to `to` is registered, the search from
/// `from` finds what the search from `to` finds, and the records from `from`
/// upwards are those from `to` upwards.
pub proof fn lemma_skip_unregistered(
    attrs: Map<u16, AttributeView>,
    test: spec_fn(AttributeView) -> bool,
    from: int,
    to: int,
)
    requires
        0 <= from <= to <= 0x1_0000,
        forall|h: u16| from <= h < to ==> !#[trigger] attrs.contains_key(h),
    ensures
        first_from(attrs, test, from) == first_from(attrs, test, to),
        ranges_from(attrs, from) == ranges_from(attrs, to),
    decreases to - from,
{
    if from < to {
        assert(!attrs.contains_key(from as u16));
        lemma_skip_unregistered(attrs, test, from + 1, to);
    }
}

/// The records from `from` upwards are exactly the finished records of the
/// services and characteristics registered there, by strictly ascending
/// start handle.
pub proof fn lemma_ranges_from(attrs: Map<u16, AttributeView>, from: int)
    ensures
        forall|i: int|
            0 <= i < ranges_from(attrs, from).len() ==> {
                let c = #[trigger] ranges_from(attrs, from)[i];
                &&& from <= c.start_handle
                &&& attrs.contains_key(c.start_handle)
                &&& is_ranged(attrs[c.start_handle])
                &&& c == range_of(attrs, c.start_handle)
            },
        forall|i: int, j: int|
            0 <= i < j < ranges_from(attrs, from).len() ==> (#[trigger] ranges_from(
                attrs,
                from,
            )[i]).start_handle < (#[trigger] ranges_from(attrs, from)[j]).start_handle,
        forall|h: u16|
            from <= h && #[trigger] attrs.contains_key(h) && is_ranged(attrs[h]) ==> ranges_from(
                attrs,
                from,
            ).contains(range_of(attrs, h)),
    decreases 0x1_0000 - from,
{
    if from <= 0xFFFF {
        lemma_ranges_from(attrs, from + 1);
        let rest = ranges_from(attrs, from + 1);
        let all = ranges_from(attrs, from);
        if from >= 0 && attrs.contains_key(from as u16) && is_ranged(attrs[from as u16]) {
            let head = range_of(attrs, from as u16);
            assert(all == seq![head] + rest);
            assert forall|i: int| 0 < i < all.len() implies #[trigger] all[i] == rest[i - 1] by {}
            assert(all[0] == head);
            assert forall|h: u16|
                from <= h && #[trigger] attrs.contains_key(h) && is_ranged(
                    attrs[h],
                ) implies all.contains(range_of(attrs, h)) by {
                if h == from {
                    assert(all[0] == range_of(attrs, h));
                } else {
                    let k = choose|k: int| 0 <= k < rest.len() && rest[k] == range_of(attrs, h);
                    assert(all[k + 1] == range_of(attrs, h));
                }
            }
        } else {
            assert(all == rest);
            assert forall|h: u16|
                from <= h && #[trigger] attrs.contains_key(h) && is_ranged(
                    attrs[h],
                ) implies all.contains(range_of(attrs, h)) by {
                assert(h != from);
            }
        }
    }
}

/// Every finished record spans at least its own handle.
pub proof fn lemma_range_not_empty(attrs: Map<u16, AttributeView>, h: u16)
    ensures
        range_of(attrs, h).start_handle <= range_of(attrs, h).end_handle,
{
    lemma_first_from(attrs, of_kind(attrs[h].handle.typ), h + 1);
}

/// The characteristic set is ordered by strictly ascending start handle, and
/// each of its records is the finished record of a registered service or
/// characteristic.
pub proof fn lemma_built_ordered(attrs: Map<u16, AttributeView>)
    ensures
        forall|i: int, j: int|
            0 <= i < j < built(attrs).len() ==> (#[trigger] built(attrs)[i]).start_handle < (
            #[trigger] built(attrs)[j]).start_handle,
        forall|i: int|
            0 <= i < built(attrs).len() ==> {
                let c = #[trigger] built(attrs)[i];
                &&& attrs.contains_key(c.start_handle)
                &&& is_ranged(attrs[c.start_handle])
                &&& c == range_of(attrs, c.start_handle)
                &&& c.start_handle <= c.end_handle
            },
{
    lemma_ranges_from(attrs, 0);
    assert forall|i: int| 0 <= i < built(attrs).len() implies {
        let c = #[trigger] built(attrs)[i];
        c.start_handle <= c.end_handle
    } by {
        lemma_range_not_empty(attrs, built(attrs)[i].start_handle);
    }
}

/// Every registered service and characteristic has its finished record in
/// the characteristic set.
pub proof fn lemma_built_complete(attrs: Map<u16, AttributeView>, h: u16)
    requires
        attrs.contains_key(h),
        is_ranged(attrs[h]),
    ensures
        built(attrs).contains(range_of(attrs, h)),
{
    lemma_ranges_from(attrs, 0);
}

/// Among the records that came from attributes of one kind, the ranges are
/// pairwise disjoint: each ends before the next begins.
pub proof fn lemma_built_disjoint_within_kind(attrs: Map<u16, AttributeView>, i: int, j: int)
    requires
        registry_wf(attrs),
        0 <= i < j < built(attrs).len(),
        kind_at(attrs, built(attrs)[i]) == kind_at(attrs, built(attrs)[j]),
    ensures
        built(attrs)[i].end_handle < built(attrs)[j].start_handle,
        disjoint(built(attrs)[i], built(attrs)[j]),
{
    lemma_built_ordered(attrs);
    let a = built(attrs)[i];
    let b = built(attrs)[j];
    let kind = attrs[a.start_handle].handle.typ;
    lemma_first_from(attrs, of_kind(kind), a.start_handle + 1);
    assert(attrs.contains_key(b.start_handle) && of_kind(kind)(attrs[b.start_handle]));
}

/// A service or characteristic behind which no attribute of its kind is
/// registered reaches up to the greatest handle.
pub proof fn lemma_last_of_kind_reaches_end(attrs: Map<u16, AttributeView>, h: u16)
    requires
        attrs.contains_key(h),
        forall|k: u16|
            h < k && #[trigger] attrs.contains_key(k) ==> attrs[k].handle.typ
                != attrs[h].handle.typ,
    ensures
        range_of(attrs, h).end_handle == 0xFFFF,
{
    lemma_first_from(attrs, of_kind(attrs[h].handle.typ), h + 1);
}

/// A service or characteristic ends just before the next attribute of its
/// kind: two neighbours of one kind leave no handle between their ranges.
pub proof fn lemma_neighbours_are_contiguous(attrs: Map<u16, AttributeView>, h: u16, next: u16)
    requires
        attrs.contains_key(h),
        attrs.contains_key(next),
        h < next,
        attrs[next].handle.typ == attrs[h].handle.typ,
        forall|k: u16|
            h < k < next && #[trigger] attrs.contains_key(k) ==> attrs[k].handle.typ
                != attrs[h].handle.typ,
    ensures
        range_of(attrs, h).end_handle + 1 == next,
{
    let test = of_kind(attrs[h].handle.typ);
    lemma_first_from(attrs, test, h + 1);
    assert(attrs.contains_key(next) && test(attrs[next]));
}

/// In a registry that holds no service, or no characteristic, the ranges of
/// the characteristic set are pairwise disjoint and ordered by ascending
/// start handle.
pub proof fn lemma_built_non_overlapping(attrs: Map<u16, AttributeView>)
    requires
        registry_wf(attrs),
        (forall|h: u16| #[trigger]
            attrs.contains_key(h) ==> attrs[h].handle.typ != AttributeType::Service) || (forall|
            h: u16,
        | #[trigger]
            attrs.contains_key(h) ==> attrs[h].handle.typ != AttributeType::Characteristic),
    ensures
        forall|i: int, j: int|
            0 <= i < j < built(attrs).len() ==> {
                &&& (#[trigger] built(attrs)[i]).start_handle < (#[trigger] built(
                    attrs,
                )[j]).start_handle
                &&& built(attrs)[i].end_handle < built(attrs)[j].start_handle
                &&& disjoint(built(attrs)[i], built(attrs)[j])
            },
{
    lemma_built_ordered(attrs);
    assert forall|i: int, j: int| 0 <= i < j < built(attrs).len() implies {
        &&& (#[trigger] built(attrs)[i]).start_handle < (#[trigger] built(attrs)[j]).start_handle
        &&& built(attrs)[i].end_handle < built(attrs)[j].start_handle
        &&& disjoint(built(attrs)[i], built(attrs)[j])
    } by {
        lemma_built_disjoint_within_kind(attrs, i, j);
    }
}

} // verus!
