//! The managed heap: reference-counted handles with stable object ids,
//! weak references, and generational allocation accounting.
//!
//! The collection methods are accounting hooks, not tracing collectors:
//! they keep the counters consistent and never free reachable data.

use vstd::prelude::*;
use std::sync::Arc;
use std::sync::Weak;
use crate::value::{GcPtr, Object, Value, arc_val};

verus! {

/// Heap allocation failures.
#[derive(Debug)]
pub enum HeapError {
    OutOfMemory,
    AllocationFailed(String),
    InvalidReference,
}

/// Fixed header bytes accounted to every heap string, beyond one byte
/// per payload character.
pub const STRING_BASE_BYTES: usize = 24;

/// Fixed bytes accounted to every heap object.
pub const OBJECT_BASE_BYTES: usize = 48;

/// Bytes accounted to each field entry of a heap object.
pub const FIELD_ENTRY_BYTES: usize = 56;

/// Bytes the conservative collector subtracts per collected object.
pub const COLLECT_SIZE_ESTIMATE: usize = 50;

/// First index of a field named `name` in `s` at or after `i`, or -1.
pub open spec fn find_field_from(s: Seq<(String, Value)>, name: Seq<char>, i: int) -> int
    decreases s.len() - i,
{
    if 0 <= i < s.len() {
        if s[i].0@ == name {
            i
        } else {
            find_field_from(s, name, i + 1)
        }
    } else {
        -1
    }
}

/// The value of the field named `name`, if the object has one.
pub open spec fn spec_get_field(s: Seq<(String, Value)>, name: Seq<char>) -> Option<Value> {
    let i = find_field_from(s, name, 0);
    if i >= 0 {
        Some(s[i].1)
    } else {
        None
    }
}

/// `find_field_from` returns either -1 (no entry from `i` on has the name)
/// or the first matching index at or after `i`.
pub proof fn lemma_find_field_from(s: Seq<(String, Value)>, name: Seq<char>, i: int)
    requires
        0 <= i <= s.len(),
    ensures
        ({
            let r = find_field_from(s, name, i);
            &&& (r == -1 ==> forall|k: int| i <= k < s.len() ==> (#[trigger] s[k].0)@ != name)
            &&& (r != -1 ==> i <= r < s.len() && s[r].0@ == name && forall|k: int|
                i <= k < r ==> (#[trigger] s[k].0)@ != name)
        }),
    decreases s.len() - i,
{
    if i < s.len() && s[i].0@ != name {
        lemma_find_field_from(s, name, i + 1);
    }
}

impl Object {
    /// An object with no fields.
    pub fn new() -> (r: Self)
        ensures
            r.fields@ == Seq::<(String, Value)>::empty(),
    {
        Object { fields: Vec::new() }
    }

    /// Set the field `name` to `value`: replace the existing entry when the
    /// name is present, append a new entry when it is not.
    pub fn set_field(&mut self, name: String, value: Value)
        ensures
            ({
                let i = find_field_from(old(self).fields@, name@, 0);
                if i >= 0 {
                    final(self).fields@ == old(self).fields@.update(i, (name, value))
                } else {
                    final(self).fields@ == old(self).fields@.push((name, value))
                }
            }),
    {
        let n = self.fields.len();
        let mut i: usize = 0;
        while i < n
            invariant
                self.fields@ == old(self).fields@,
                n == self.fields@.len(),
                0 <= i <= n,
                forall|k: int| 0 <= k < i ==> (#[trigger] self.fields@[k].0)@ != name@,
            decreases n - i,
        {
            if self.fields[i].0 == name {
                proof {
                    lemma_find_field_from(self.fields@, name@, 0);
                }
                self.fields[i] = (name, value);
                return ;
            }
            i += 1;
        }
        proof {
            lemma_find_field_from(self.fields@, name@, 0);
        }
        self.fields.push((name, value));
    }

    /// The value of the field `name`, if present.
    pub fn get_field(&self, name: &str) -> (r: Option<&Value>)
        ensures
            match r {
                Some(v) => spec_get_field(self.fields@, name@) matches Some(w) && *v == w,
                None => spec_get_field(self.fields@, name@) is None,
            },
    {
        let name_owned: String = name.to_owned();
        let n = self.fields.len();
        let mut i: usize = 0;
        while i < n
            invariant
                name_owned@ == name@,
                n == self.fields@.len(),
                0 <= i <= n,
                forall|k: int| 0 <= k < i ==> (#[trigger] self.fields@[k].0)@ != name@,
            decreases n - i,
        {
            if self.fields[i].0 == name_owned {
                proof {
                    lemma_find_field_from(self.fields@, name@, 0);
                }
                return Some(&self.fields[i].1);
            }
            i += 1;
        }
        proof {
            lemma_find_field_from(self.fields@, name@, 0);
        }
        None
    }

    /// The number of fields.
    pub fn field_count(&self) -> (r: usize)
        ensures
            r == self.fields@.len(),
    {
        self.fields.len()
    }
}

impl Default for Object {
    fn default() -> (r: Self)
        ensures
            r.fields@ == Seq::<(String, Value)>::empty(),
    {
        Self::new()
    }
}

/// Holder for a standard-library weak reference, opaque to the verifier.
#[verifier::external_body]
#[verifier::reject_recursive_types(T)]
pub struct WeakHandle<T> {
    inner: Weak<T>,
}

/// A weak reference to a heap allocation: it observes liveness while any
/// strong handle exists and can attempt to upgrade to a strong handle.
///
/// The fields are private: only `create_weak_reference` assembles one, so
/// the recorded id and payload snapshot always belong to the allocation
/// the handle was downgraded from.
#[verifier::reject_recursive_types(T)]
pub struct WeakRef<T> {
    handle: WeakHandle<T>,
    object_id: usize,
    payload: Ghost<T>,
}

/// Relies on Arc::downgrade: the returned weak reference observes the
/// same allocation.
#[verifier::external_body]
fn weak_downgrade<T>(a: &Arc<T>) -> (r: WeakHandle<T>) {
    WeakHandle { inner: Arc::downgrade(a) }
}

impl<T> WeakRef<T> {
    /// The id of the allocation this reference was created from.
    pub closed spec fn spec_object_id(self) -> usize {
        self.object_id
    }

    /// The value of the allocation this reference was created from.
    pub closed spec fn spec_payload(self) -> T {
        self.payload@
    }

    /// Whether a strong handle to the allocation still exists.
    ///
    /// Relies on Weak::strong_count; the answer depends on what other
    /// handles the process holds, so nothing is promised of it.
    #[verifier::external_body]
    pub fn is_alive(&self) -> bool {
        self.handle.inner.strong_count() > 0
    }

    /// Attempt to recover a strong handle.
    ///
    /// Relies on Weak::upgrade: when it succeeds it returns the allocation
    /// the reference was created from, whose value never changes.
    #[verifier::external_body]
    pub fn upgrade(&self) -> (r: Option<GcPtr<T>>)
        ensures
            r matches Some(p) ==> p.object_id == self.spec_object_id() && *p.inner
                == self.spec_payload(),
    {
        self.handle.inner.upgrade().map(
            |a|
                GcPtr { inner: a, object_id: self.object_id },
        )
    }
}

/// Per-allocation statistics, kept when tracking is enabled.
#[derive(Debug, Clone)]
pub struct AllocationStats {
    pub total_allocations: usize,
    pub bytes_allocated: usize,
    pub string_allocations: usize,
    pub object_allocations: usize,
}

impl AllocationStats {
    pub open spec fn is_zero(self) -> bool {
        self.total_allocations == 0 && self.bytes_allocated == 0 && self.string_allocations == 0
            && self.object_allocations == 0
    }
}

impl Default for AllocationStats {
    fn default() -> (r: Self)
        ensures
            r.is_zero(),
    {
        AllocationStats {
            total_allocations: 0,
            bytes_allocated: 0,
            string_allocations: 0,
            object_allocations: 0,
        }
    }
}

/// The heap allocator and its accounting state.
pub struct Heap {
    pub next_object_id: usize,
    pub allocated_objects: usize,
    pub total_allocated_bytes: usize,
    pub max_heap_size: Option<usize>,
    pub current_heap_size: usize,
    pub young_generation_count: usize,
    pub old_generation_count: usize,
    pub allocation_tracking: bool,
    pub allocation_stats: AllocationStats,
}

impl Heap {
    /// Accounting consistency: ids start at one and bound every object
    /// count, and the live size never exceeds the cumulative one.
    pub open spec fn wf(self) -> bool {
        &&& self.next_object_id >= 1
        &&& self.allocated_objects <= self.next_object_id - 1
        &&& self.young_generation_count + self.old_generation_count <= self.next_object_id - 1
        &&& self.current_heap_size <= self.total_allocated_bytes
        &&& self.allocation_stats.total_allocations <= self.next_object_id - 1
        &&& self.allocation_stats.bytes_allocated <= self.total_allocated_bytes
        &&& self.allocation_stats.string_allocations
            + self.allocation_stats.object_allocations
            == self.allocation_stats.total_allocations
    }

    /// The bytes accounted to a heap string: one per character of the
    /// payload, plus the fixed header.
    pub open spec fn string_size(len: nat) -> int {
        len + STRING_BASE_BYTES
    }

    /// The bytes accounted to a heap object with `n` fields.
    pub open spec fn object_size(n: nat) -> int {
        OBJECT_BASE_BYTES + n * FIELD_ENTRY_BYTES
    }

    /// Whether an allocation of `size` bytes can succeed: it must fit the
    /// configured limit and must not exhaust the machine's counters.
    pub open spec fn can_allocate(self, size: int) -> bool {
        &&& (self.max_heap_size matches Some(m) ==> self.current_heap_size + size <= m)
        &&& self.total_allocated_bytes + size <= usize::MAX
        &&& self.next_object_id < usize::MAX
    }

    /// The accounting state after a successful allocation of `size` bytes.
    pub open spec fn allocated(self, size: int, is_string: bool) -> Heap {
        Heap {
            next_object_id: (self.next_object_id + 1) as usize,
            allocated_objects: (self.allocated_objects + 1) as usize,
            total_allocated_bytes: (self.total_allocated_bytes + size) as usize,
            current_heap_size: (self.current_heap_size + size) as usize,
            young_generation_count: (self.young_generation_count + 1) as usize,
            allocation_stats: if self.allocation_tracking {
                AllocationStats {
                    total_allocations: (self.allocation_stats.total_allocations + 1) as usize,
                    bytes_allocated: (self.allocation_stats.bytes_allocated + size) as usize,
                    string_allocations: if is_string {
                        (self.allocation_stats.string_allocations + 1) as usize
                    } else {
                        self.allocation_stats.string_allocations
                    },
                    object_allocations: if is_string {
                        self.allocation_stats.object_allocations
                    } else {
                        (self.allocation_stats.object_allocations + 1) as usize
                    },
                }
            } else {
                self.allocation_stats
            },
            ..self
        }
    }

    /// An unbounded heap with clean accounting.
    pub fn new() -> (r: Self)
        ensures
            r.wf(),
            r.next_object_id == 1,
            r.allocated_objects == 0,
            r.total_allocated_bytes == 0,
            r.max_heap_size is None,
            r.current_heap_size == 0,
            r.young_generation_count == 0,
            r.old_generation_count == 0,
            !r.allocation_tracking,
            r.allocation_stats.is_zero(),
    {
        Heap {
            next_object_id: 1,
            allocated_objects: 0,
            total_allocated_bytes: 0,
            max_heap_size: None,
            current_heap_size: 0,
            young_generation_count: 0,
            old_generation_count: 0,
            allocation_tracking: false,
            allocation_stats: AllocationStats::default(),
        }
    }

    /// A heap bounded to `max_size` accounted bytes.
    pub fn with_initial_size(max_size: usize) -> (r: Self)
        ensures
            r.wf(),
            r.next_object_id == 1,
            r.allocated_objects == 0,
            r.total_allocated_bytes == 0,
            r.max_heap_size == Some(max_size),
            r.current_heap_size == 0,
            r.young_generation_count == 0,
            r.old_generation_count == 0,
            !r.allocation_tracking,
            r.allocation_stats.is_zero(),
    {
        Heap {
            next_object_id: 1,
            allocated_objects: 0,
            total_allocated_bytes: 0,
            max_heap_size: Some(max_size),
            current_heap_size: 0,
            young_generation_count: 0,
            old_generation_count: 0,
            allocation_tracking: false,
            allocation_stats: AllocationStats::default(),
        }
    }

    /// Allocate a heap string. The accounted size counts the payload's
    /// characters plus a fixed header. Allocation succeeds exactly when
    /// that size fits (`can_allocate`); then the live-object count and
    /// the current size strictly increase, and the new handle carries a
    /// fresh id. A failed allocation leaves every counter unchanged.
    pub fn allocate_string(&mut self, value: String) -> (r: Result<GcPtr<String>, HeapError>)
        requires
            old(self).wf(),
        ensures
            final(self).wf(),
            old(self).can_allocate(Self::string_size(value@.len())) ==> (r matches Ok(p)
                && p.object_id == old(self).next_object_id && *p.inner == value) && *final(self)
                == old(self).allocated(Self::string_size(value@.len()), true),
            !old(self).can_allocate(Self::string_size(value@.len())) ==> (r matches Err(
                HeapError::OutOfMemory,
            )) && *final(self) == *old(self),
            r is Ok ==> final(self).allocated_objects > old(self).allocated_objects
                && final(self).current_heap_size > old(self).current_heap_size,
            r is Err ==> *final(self) == *old(self),
    {
        let len = value.as_str().unicode_len();
        let size = match len.checked_add(STRING_BASE_BYTES) {
            Some(s) => s,
            None => {
                return Err(HeapError::OutOfMemory);
            },
        };
        if !self.fits(size) {
            return Err(HeapError::OutOfMemory);
        }
        let object_id = self.next_object_id;
        let gc_ptr = GcPtr { inner: Arc::new(value), object_id };
        self.account_allocation(size, true);
        Ok(gc_ptr)
    }

    /// Allocate a heap object. Succeeds exactly when the accounted size
    /// fits (`can_allocate`); then the live-object count and the current
    /// size strictly increase, and the new handle carries a fresh id.
    /// A failed allocation leaves every counter unchanged.
    pub fn allocate_object(&mut self, object: Object) -> (r: Result<GcPtr<Object>, HeapError>)
        requires
            old(self).wf(),
        ensures
            final(self).wf(),
            old(self).can_allocate(Self::object_size(object.fields@.len())) ==> (r matches Ok(p)
                && p.object_id == old(self).next_object_id && *p.inner == object) && *final(self)
                == old(self).allocated(Self::object_size(object.fields@.len()), false),
            !old(self).can_allocate(Self::object_size(object.fields@.len())) ==> (r matches Err(
                HeapError::OutOfMemory,
            )) && *final(self) == *old(self),
            r is Ok ==> final(self).allocated_objects > old(self).allocated_objects
                && final(self).current_heap_size > old(self).current_heap_size,
            r is Err ==> *final(self) == *old(self),
    {
        let payload = match object.fields.len().checked_mul(FIELD_ENTRY_BYTES) {
            Some(p) => p,
            None => {
                return Err(HeapError::OutOfMemory);
            },
        };
        let size = match payload.checked_add(OBJECT_BASE_BYTES) {
            Some(s) => s,
            None => {
                return Err(HeapError::OutOfMemory);
            },
        };
        if !self.fits(size) {
            return Err(HeapError::OutOfMemory);
        }
        let object_id = self.next_object_id;
        let gc_ptr = GcPtr { inner: Arc::new(object), object_id };
        self.account_allocation(size, false);
        Ok(gc_ptr)
    }

    /// Whether `size` more bytes fit, per `can_allocate`.
    fn fits(&self, size: usize) -> (r: bool)
        ensures
            r == self.can_allocate(size as int),
    {
        let limit_ok = match self.max_heap_size {
            Some(m) => size <= m && self.current_heap_size <= m - size,
            None => true,
        };
        limit_ok && self.total_allocated_bytes <= usize::MAX - size && self.next_object_id
            < usize::MAX
    }

    /// Record one successful allocation of `size` bytes.
    fn account_allocation(&mut self, size: usize, is_string: bool)
        requires
            old(self).wf(),
            old(self).can_allocate(size as int),
        ensures
            final(self).wf(),
            *final(self) == old(self).allocated(size as int, is_string),
    {
        self.next_object_id = self.next_object_id + 1;
        self.allocated_objects = self.allocated_objects + 1;
        self.total_allocated_bytes = self.total_allocated_bytes + size;
        self.current_heap_size = self.current_heap_size + size;
        self.young_generation_count = self.young_generation_count + 1;
        if self.allocation_tracking {
            self.allocation_stats.total_allocations = self.allocation_stats.total_allocations + 1;
            self.allocation_stats.bytes_allocated = self.allocation_stats.bytes_allocated + size;
            if is_string {
                self.allocation_stats.string_allocations =
                    self.allocation_stats.string_allocations + 1;
            } else {
                self.allocation_stats.object_allocations =
                    self.allocation_stats.object_allocations + 1;
            }
        }
    }

    /// Create a weak reference observing the same allocation as `gc_ptr`.
    pub fn create_weak_reference<T>(&self, gc_ptr: &GcPtr<T>) -> (r: WeakRef<T>)
        ensures
            r.spec_object_id() == gc_ptr.object_id,
            r.spec_payload() == arc_val(&gc_ptr.inner),
    {
        let handle = weak_downgrade(&gc_ptr.inner);
        let ghost snapshot = arc_val(&gc_ptr.inner);
        WeakRef { handle, object_id: gc_ptr.object_id, payload: Ghost(snapshot) }
    }

    /// Conservative collection hook: accounts for at most one object.
    /// Returns the number of objects collected (one while any are live).
    pub fn collect_garbage<T>(&mut self, _roots: &[&GcPtr<T>]) -> (r: usize)
        requires
            old(self).wf(),
        ensures
            final(self).wf(),
            old(self).allocated_objects == 0 ==> r == 0 && *final(self) == *old(self),
            old(self).allocated_objects > 0 ==> r == 1 && *final(self) == (Heap {
                allocated_objects: (old(self).allocated_objects - 1) as usize,
                current_heap_size: if old(self).current_heap_size >= COLLECT_SIZE_ESTIMATE {
                    (old(self).current_heap_size - COLLECT_SIZE_ESTIMATE) as usize
                } else {
                    0
                },
                young_generation_count: if old(self).young_generation_count > 0 {
                    (old(self).young_generation_count - 1) as usize
                } else {
                    0
                },
                ..*old(self)
            }),
    {
        if self.allocated_objects > 0 {
            self.allocated_objects = self.allocated_objects - 1;
            self.current_heap_size = self.current_heap_size.saturating_sub(COLLECT_SIZE_ESTIMATE);
            if self.young_generation_count > 0 {
                self.young_generation_count = self.young_generation_count - 1;
            }
            1
        } else {
            0
        }
    }

    /// Minor collection hook: promotes every surviving young object to the
    /// old generation and returns the number promoted.
    pub fn collect_young_generation<T>(&mut self, _roots: &[&GcPtr<T>]) -> (r: usize)
        requires
            old(self).wf(),
        ensures
            final(self).wf(),
            r == old(self).young_generation_count,
            *final(self) == (Heap {
                young_generation_count: 0,
                old_generation_count: (old(self).old_generation_count
                    + old(self).young_generation_count) as usize,
                ..*old(self)
            }),
    {
        let promoted = self.young_generation_count;
        self.old_generation_count = self.old_generation_count + promoted;
        self.young_generation_count = 0;
        promoted
    }

    /// Full collection hook: collects nothing in this tier.
    pub fn collect_full<T>(&mut self, _roots: &[&GcPtr<T>]) -> (r: usize)
        ensures
            r == 0,
            *final(self) == *old(self),
    {
        0
    }

    /// Compaction hook: never grows the current heap size (it leaves the
    /// accounting untouched in this tier).
    pub fn compact<T>(&mut self, _roots: &[&GcPtr<T>])
        ensures
            *final(self) == *old(self),
            final(self).current_heap_size <= old(self).current_heap_size,
    {
    }

    pub fn allocated_objects(&self) -> (r: usize)
        ensures
            r == self.allocated_objects,
    {
        self.allocated_objects
    }

    pub fn total_allocated_bytes(&self) -> (r: usize)
        ensures
            r == self.total_allocated_bytes,
    {
        self.total_allocated_bytes
    }

    pub fn max_heap_size(&self) -> (r: Option<usize>)
        ensures
            r == self.max_heap_size,
    {
        self.max_heap_size
    }

    pub fn current_heap_size(&self) -> (r: usize)
        ensures
            r == self.current_heap_size,
    {
        self.current_heap_size
    }

    pub fn young_generation_objects(&self) -> (r: usize)
        ensures
            r == self.young_generation_count,
    {
        self.young_generation_count
    }

    pub fn old_generation_objects(&self) -> (r: usize)
        ensures
            r == self.old_generation_count,
    {
        self.old_generation_count
    }

    /// Start keeping per-allocation statistics.
    pub fn enable_allocation_tracking(&mut self)
        ensures
            *final(self) == (Heap { allocation_tracking: true, ..*old(self) }),
    {
        self.allocation_tracking = true;
    }

    pub fn allocation_stats(&self) -> (r: &AllocationStats)
        ensures
            *r == self.allocation_stats,
    {
        &self.allocation_stats
    }
}

impl Default for Heap {
    fn default() -> (r: Self)
        ensures
            r.wf(),
            r.next_object_id == 1,
            r.allocated_objects == 0,
            r.max_heap_size is None,
    {
        Self::new()
    }
}

} // verus!
