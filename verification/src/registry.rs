//! The registry of announced attributes, keyed by handle.

use vstd::prelude::*;
use crate::handle::{AttributeType, Handle};
use crate::ranges::{
    built, first_from, is_placeholder, is_ranged, lemma_first_from, lemma_skip_unregistered,
    of_kind, range_of, ranges_from, registry_wf,
};
use crate::types::{CharPropFlags, Characteristic, MAX_HANDLE, UUID};

verus! {

/// One announced attribute: the path under which the daemon publishes it,
/// its handle, and the record that stands for it until ranges are built.
#[derive(Debug, PartialEq, Eq)]
pub struct AttributeRecord {
    pub path: String,
    pub handle: Handle,
    pub characteristic: Characteristic,
}

/// An announced attribute with its path as a character sequence.
pub struct AttributeView {
    pub path: Seq<char>,
    pub handle: Handle,
    pub characteristic: Characteristic,
}

impl View for AttributeRecord {
    type V = AttributeView;

    open spec fn view(&self) -> AttributeView {
        AttributeView {
            path: self.path@,
            handle: self.handle,
            characteristic: self.characteristic,
        }
    }
}

impl Clone for AttributeRecord {
    fn clone(&self) -> (copy: AttributeRecord)
        ensures
            copy@ == self@,
    {
        AttributeRecord {
            path: self.path.clone(),
            handle: self.handle,
            characteristic: self.characteristic,
        }
    }
}

/// The record under which an attribute is filed when it is announced.
pub open spec fn announced(
    path: Seq<char>,
    handle: Handle,
    uuid: UUID,
    properties: CharPropFlags,
) -> AttributeView {
    AttributeView {
        path,
        handle,
        characteristic: Characteristic {
            start_handle: 0,
            end_handle: 0,
            value_handle: handle.handle,
            uuid,
            properties,
        },
    }
}

/// The test "has this UUID, and its value handle lies from `lo` to `hi`".
pub open spec fn matching(uuid: UUID, lo: u16, hi: u16) -> spec_fn(AttributeView) -> bool {
    |r: AttributeView|
        r.characteristic.uuid == uuid && lo <= r.characteristic.value_handle <= hi
}

/// The attributes announced so far, each filed under its handle. A second
/// announcement of a handle replaces the first.
///
/// The records are kept by ascending handle, so that the attributes of one
/// kind can be walked in handle order.
#[derive(Debug)]
pub struct AttributeRegistry {
    entries: Vec<AttributeRecord>,
}

impl AttributeRegistry {
    /// A position in the registry that holds the record of handle `h`.
    spec fn holds(&self, h: u16, i: int) -> bool {
        0 <= i < self.entries.len() && self.entries[i].handle.handle == h
    }

    /// The registry as a map from handle to record.
    pub closed spec fn view(&self) -> Map<u16, AttributeView> {
        Map::new(
            |h: u16| exists|i: int| self.holds(h, i),
            |h: u16| self.entries[choose|i: int| self.holds(h, i)]@,
        )
    }

    /// The records stand by strictly ascending handle, and each holds a
    /// placeholder for its own handle.
    pub closed spec fn wf(&self) -> bool {
        &&& forall|i: int, j: int|
            0 <= i < j < self.entries.len() ==> self.entries[i].handle.handle
                < self.entries[j].handle.handle
        &&& forall|i: int|
            0 <= i < self.entries.len() ==> is_placeholder(
                (#[trigger] self.entries[i]).characteristic,
                self.entries[i].handle.handle,
            )
    }

    /// A well-formed registry files every record under its own handle.
    pub proof fn lemma_view_wf(&self)
        requires
            self.wf(),
        ensures
            registry_wf(self@),
    {
        assert forall|h: u16| #[trigger] self@.contains_key(h) implies self@[h].handle.handle == h
            && is_placeholder(self@[h].characteristic, h) by {
            let i = choose|i: int| self.holds(h, i);
            assert(self.holds(h, i));
        }
    }

    /// The record at position `i` is the one filed under its handle.
    proof fn lemma_entry(&self, i: int)
        requires
            self.wf(),
            0 <= i < self.entries.len(),
        ensures
            self@.contains_key(self.entries[i].handle.handle),
            self@[self.entries[i].handle.handle] == self.entries[i]@,
    {
        let h = self.entries[i].handle.handle;
        assert(self.holds(h, i));
        let k = choose|k: int| self.holds(h, k);
        assert(self.holds(h, k));
        assert(k == i);
    }

    /// No handle strictly between two neighbouring records is registered, nor
    /// one before the first or behind the last.
    proof fn lemma_gap(&self, i: int)
        requires
            self.wf(),
            0 <= i <= self.entries.len(),
        ensures
            forall|h: u16|
                (i > 0 ==> self.entries[i - 1].handle.handle < h) && (i < self.entries.len()
                    ==> h < self.entries[i].handle.handle) ==> !#[trigger] self@.contains_key(h),
    {
        assert forall|h: u16|
            (i > 0 ==> self.entries[i - 1].handle.handle < h) && (i < self.entries.len() ==> h
                < self.entries[i].handle.handle) implies !#[trigger] self@.contains_key(h) by {
            if self@.contains_key(h) {
                let k = choose|k: int| self.holds(h, k);
                assert(self.holds(h, k));
                if k < i {
                    assert(k == i - 1 || self.entries[k].handle.handle < self.entries[i
                        - 1].handle.handle);
                } else {
                    assert(k == i || self.entries[i].handle.handle
                        < self.entries[k].handle.handle);
                }
            }
        }
    }

    /// A registry that holds nothing.
    pub fn new() -> (registry: AttributeRegistry)
        ensures
            registry.wf(),
            registry@ == Map::<u16, AttributeView>::empty(),
    {
        let registry = AttributeRegistry { entries: Vec::new() };
        assert(registry@ =~= Map::<u16, AttributeView>::empty()) by {
            assert forall|h: u16| !registry@.contains_key(h) by {
                if registry@.contains_key(h) {
                    let i = choose|i: int| registry.holds(h, i);
                    assert(registry.holds(h, i));
                }
            }
        }
        registry
    }

    /// The first position whose handle is not below `h`.
    fn lower_bound(&self, h: u16) -> (at: usize)
        requires
            self.wf(),
        ensures
            at <= self.entries.len(),
            forall|i: int| 0 <= i < at ==> (#[trigger] self.entries[i]).handle.handle < h,
            forall|i: int|
                at <= i < self.entries.len() ==> h <= (#[trigger] self.entries[i]).handle.handle,
    {
        let mut lo: usize = 0;
        let mut hi: usize = self.entries.len();
        while lo < hi
            invariant
                self.wf(),
                lo <= hi <= self.entries.len(),
                forall|i: int| 0 <= i < lo ==> (#[trigger] self.entries[i]).handle.handle < h,
                forall|i: int|
                    hi <= i < self.entries.len() ==> h <= (
                    #[trigger] self.entries[i]).handle.handle,
            decreases hi - lo,
        {
            let mid: usize = lo + (hi - lo) / 2;
            if self.entries[mid].handle.handle < h {
                lo = mid + 1;
            } else {
                hi = mid;
            }
        }
        lo
    }

    /// The record filed under `h`, if there is one.
    pub fn get(&self, h: u16) -> (found: Option<&AttributeRecord>)
        requires
            self.wf(),
        ensures
            match found {
                Some(r) => self@.contains_key(h) && r@ == self@[h],
                None => !self@.contains_key(h),
            },
    {
        let at: usize = self.lower_bound(h);
        if at < self.entries.len() && self.entries[at].handle.handle == h {
            proof {
                self.lemma_entry(at as int);
            }
            Some(&self.entries[at])
        } else {
            proof {
                if self@.contains_key(h) {
                    let k = choose|k: int| self.holds(h, k);
                    assert(self.holds(h, k));
                }
            }
            None
        }
    }

    /// Files an attribute under its handle, in place of any record that was
    /// filed there before, and returns that earlier record.
    pub fn insert(
        &mut self,
        path: &str,
        handle: Handle,
        uuid: UUID,
        properties: CharPropFlags,
    ) -> (previous: Option<AttributeRecord>)
        requires
            old(self).wf(),
        ensures
            final(self).wf(),
            final(self)@ == old(self)@.insert(
                handle.handle,
                announced(path@, handle, uuid, properties),
            ),
            match previous {
                Some(r) => old(self)@.contains_key(handle.handle) && r@ == old(self)@[handle.handle],
                None => !old(self)@.contains_key(handle.handle),
            },
    {
        let h: u16 = handle.handle;
        let record = AttributeRecord {
            path: path.to_owned(),
            handle,
            characteristic: Characteristic {
                start_handle: 0,
                end_handle: 0,
                value_handle: h,
                uuid,
                properties,
            },
        };
        let ghost before = *self;
        let ghost fresh = record@;
        let at: usize = self.lower_bound(h);
        let replaces: bool = at < self.entries.len() && self.entries[at].handle.handle == h;
        let previous = if replaces {
            proof {
                before.lemma_entry(at as int);
            }
            self.entries.push(record);
            Some(self.entries.swap_remove(at))
        } else {
            proof {
                if before@.contains_key(h) {
                    let k = choose|k: int| before.holds(h, k);
                    assert(before.holds(h, k));
                }
            }
            self.entries.insert(at, record);
            None
        };
        proof {
            let shift: int = if replaces { 1 } else { 0 };
            assert(self.entries.len() == before.entries.len() + 1 - shift);
            assert(self.entries[at as int]@ == fresh);
            assert forall|i: int| 0 <= i < at implies self.entries[i] == before.entries[i] by {}
            assert forall|i: int| at < i < self.entries.len() implies self.entries[i]
                == before.entries[i - 1 + shift] by {}
            assert(self.wf()) by {
                assert forall|i: int, j: int| 0 <= i < j < self.entries.len() implies
                    self.entries[i].handle.handle < self.entries[j].handle.handle by {
                    if j > at {
                        assert(self.entries[j] == before.entries[j - 1 + shift]);
                        if at + shift < j - 1 + shift {
                            assert(before.entries[at + shift].handle.handle
                                < before.entries[j - 1 + shift].handle.handle);
                        }
                    }
                    if i > at {
                        assert(self.entries[i] == before.entries[i - 1 + shift]);
                    }
                }
            }
            let goal = before@.insert(h, fresh);
            assert forall|k: u16| self@.contains_key(k) <==> goal.contains_key(k) by {
                if self@.contains_key(k) && k != h {
                    let i = choose|i: int| self.holds(k, i);
                    assert(self.holds(k, i));
                    if i < at {
                        assert(before.holds(k, i));
                    } else {
                        assert(before.holds(k, i - 1 + shift));
                    }
                }
                if before@.contains_key(k) && k != h {
                    let i = choose|i: int| before.holds(k, i);
                    assert(before.holds(k, i));
                    if i < at {
                        assert(self.holds(k, i));
                    } else {
                        assert(self.holds(k, i + 1 - shift));
                    }
                }
                if k == h {
                    assert(self.holds(h, at as int));
                }
            }
            assert forall|k: u16| self@.contains_key(k) implies self@[k] == goal[k] by {
                let i = choose|i: int| self.holds(k, i);
                assert(self.holds(k, i));
                self.lemma_entry(i);
                if i < at {
                    before.lemma_entry(i);
                } else if i > at {
                    before.lemma_entry(i - 1 + shift);
                }
            }
            assert(self@ =~= goal);
        }
        previous
    }

    /// The record with the least handle among those that have the UUID `uuid`
    /// and a value handle from `lo` to `hi`.
    pub fn find(&self, uuid: UUID, lo: u16, hi: u16) -> (found: Option<&AttributeRecord>)
        requires
            self.wf(),
        ensures
            match first_from(self@, matching(uuid, lo, hi), 0) {
                Some(h) => found matches Some(r) && r@ == self@[h],
                None => found is None,
            },
    {
        let ghost test = matching(uuid, lo, hi);
        let mut i: usize = 0;
        while i < self.entries.len()
            invariant
                self.wf(),
                i <= self.entries.len(),
                test == matching(uuid, lo, hi),
                forall|k: int| 0 <= k < i ==> !test((#[trigger] self.entries[k])@),
            decreases self.entries.len() - i,
        {
            let r = &self.entries[i];
            if r.characteristic.uuid == uuid && lo <= r.characteristic.value_handle
                && r.characteristic.value_handle <= hi {
                proof {
                    self.lemma_entry(i as int);
                    let h = r.handle.handle;
                    lemma_first_from(self@, test, 0);
                    assert(self@.contains_key(h) && test(self@[h]));
                    let n = first_from(self@, test, 0)->0;
                    let k = choose|k: int| self.holds(n, k);
                    assert(self.holds(n, k));
                    self.lemma_entry(k);
                    if k > i {
                        assert(self.entries[i as int].handle.handle
                            < self.entries[k].handle.handle);
                    }
                }
                return Some(r);
            }
            i += 1;
        }
        proof {
            lemma_first_from(self@, test, 0);
            if first_from(self@, test, 0) is Some {
                let n = first_from(self@, test, 0)->0;
                let k = choose|k: int| self.holds(n, k);
                assert(self.holds(n, k));
                self.lemma_entry(k);
            }
        }
        None
    }

    /// The characteristic set that the registered attributes imply.
    pub fn ranges(&self) -> (out: Vec<Characteristic>)
        requires
            self.wf(),
        ensures
            out@ == built(self@),
    {
        let n: usize = self.entries.len();
        let mut descending: Vec<Characteristic> = Vec::new();
        let mut next_service: Option<u16> = None;
        let mut next_characteristic: Option<u16> = None;
        let mut i: usize = n;
        proof {
            self.lemma_gap(n as int);
            lemma_all_unregistered(self@, of_kind(AttributeType::Service));
            lemma_all_unregistered(self@, of_kind(AttributeType::Characteristic));
            if n > 0 {
                self.lemma_entry(n - 1);
            }
        }
        while i > 0
            invariant
                self.wf(),
                i <= n == self.entries.len(),
                next_service == first_from(
                    self@,
                    of_kind(AttributeType::Service),
                    self.bound(i as int),
                ),
                next_characteristic == first_from(
                    self@,
                    of_kind(AttributeType::Characteristic),
                    self.bound(i as int),
                ),
                descending@ == ranges_from(self@, self.bound(i as int)).reverse(),
            decreases i,
        {
            let ghost above = self.bound(i as int);
            i -= 1;
            let r = &self.entries[i];
            let h: u16 = r.handle.handle;
            proof {
                self.lemma_entry(i as int);
                self.lemma_gap(i + 1);
                lemma_skip_unregistered(self@, of_kind(AttributeType::Service), h + 1, above);
                lemma_skip_unregistered(
                    self@,
                    of_kind(AttributeType::Characteristic),
                    h + 1,
                    above,
                );
                lemma_first_from(self@, of_kind(AttributeType::Service), h + 1);
                lemma_first_from(self@, of_kind(AttributeType::Characteristic), h + 1);
                assert(self.bound(i as int) == h);
            }
            let ghost rest = ranges_from(self@, h + 1);
            match r.handle.typ {
                AttributeType::Service => {
                    let end_handle: u16 = match next_service {
                        Some(next) => next - 1,
                        None => MAX_HANDLE,
                    };
                    descending.push(
                        Characteristic {
                            start_handle: h,
                            end_handle,
                            value_handle: h,
                            uuid: r.characteristic.uuid,
                            properties: r.characteristic.properties,
                        },
                    );
                    next_service = Some(h);
                    assert((seq![range_of(self@, h)] + rest).reverse() =~= rest.reverse().push(
                        range_of(self@, h),
                    ));
                },
                AttributeType::Characteristic => {
                    let end_handle: u16 = match next_characteristic {
                        Some(next) => next - 1,
                        None => MAX_HANDLE,
                    };
                    descending.push(
                        Characteristic {
                            start_handle: h,
                            end_handle,
                            value_handle: h,
                            uuid: r.characteristic.uuid,
                            properties: r.characteristic.properties,
                        },
                    );
                    next_characteristic = Some(h);
                    assert((seq![range_of(self@, h)] + rest).reverse() =~= rest.reverse().push(
                        range_of(self@, h),
                    ));
                },
                _ => {},
            }
            assert(!is_ranged(self@[h]) ==> ranges_from(self@, h as int) == rest);
        }
        proof {
            self.lemma_gap(0);
            lemma_skip_unregistered(self@, of_kind(AttributeType::Service), 0, self.bound(0));
        }
        let out = reversed(&descending);
        assert(out@ =~= built(self@));
        out
    }

    /// The handle at position `i`, or the end of the handle space behind the
    /// last position.
    spec fn bound(&self, i: int) -> int {
        if i < self.entries.len() {
            self.entries[i].handle.handle as int
        } else {
            0x1_0000
        }
    }
}

/// Where nothing can be registered, nothing is found.
proof fn lemma_all_unregistered(
    attrs: Map<u16, AttributeView>,
    test: spec_fn(AttributeView) -> bool,
)
    ensures
        first_from(attrs, test, 0x1_0000) is None,
        ranges_from(attrs, 0x1_0000) == Seq::<Characteristic>::empty(),
{
}

/// The records of `v` in the opposite order.
fn reversed(v: &Vec<Characteristic>) -> (out: Vec<Characteristic>)
    ensures
        out@ == v@.reverse(),
{
    let mut out: Vec<Characteristic> = Vec::new();
    let mut i: usize = v.len();
    while i > 0
        invariant
            i <= v.len(),
            out.len() == v.len() - i,
            forall|k: int| 0 <= k < out.len() ==> out@[k] == v@[v.len() - 1 - k],
        decreases i,
    {
        i -= 1;
        out.push(v[i]);
    }
    assert(out@ =~= v@.reverse());
    out
}

} // verus!
