//! In-process objects: one block per object with a vtable-pointer slot for
//! each interface of its class, one shared reference count, and the query that
//! finds an interface by its identity.

use crate::com_ptr::{ComPtr, InterfacePtr};
use crate::iid::Iid;
use crate::offset::{spec_slot_address, MAX_INTERFACES, POINTER_WIDTH};
use crate::registry::Registry;
use crate::runtime::ApartmentThreadedRuntime;
use crate::vtable::{layout, VTable};
use vstd::prelude::*;

verus! {

/// The size of the block of one object, in bytes: the vtable-pointer slots
/// first, the private state of the object behind them.
pub const BLOCK_SIZE: usize = 64;

/// An object. `interfaces` holds the places in the registry of the interfaces
/// that its class implements, in the fixed order of their slots. `releases`
/// counts how often the resources of the object were released.
pub struct Object {
    pub interfaces: Vec<usize>,
    pub ref_count: u32,
    pub releases: u32,
}

/// The objects of one process, with the registry of their interfaces.
pub struct ObjectSpace {
    pub registry: Registry,
    pub objects: Vec<Object>,
}

/// Why a class cannot be laid out.
#[derive(Clone, Copy, Debug, PartialEq, Eq, Structural)]
pub enum CreateError {
    /// The class implements no interface.
    NoInterfaces,
    /// The class implements more interfaces than there are ordinals.
    TooManyInterfaces { count: usize },
    /// The interface at ordinal `ordinal` is not registered.
    UnknownInterface { ordinal: usize },
    /// No address is left for another block.
    OutOfAddressSpace,
}

/// The answer to a query for an interface that the object does not support.
#[derive(Clone, Copy, Debug, PartialEq, Eq, Structural)]
pub struct NoInterface;

/// The address at which the block of object number `index` starts.
pub open spec fn spec_base(index: int) -> int {
    (index + 1) * BLOCK_SIZE as int
}

/// The number of the object into whose block `address` points.
pub open spec fn object_at(address: int) -> int {
    address / BLOCK_SIZE as int - 1
}

/// The ordinal of the slot at `address` within its block.
pub open spec fn ordinal_at(address: int) -> int {
    (address % BLOCK_SIZE as int) / POINTER_WIDTH as int
}

/// The first ordinal from `from` on whose interface has `riid` in its chain.
pub open spec fn first_match(r: Registry, interfaces: Seq<usize>, riid: Iid, from: int) -> Option<
    int,
>
    decreases interfaces.len() - from,
{
    if from < 0 || from >= interfaces.len() {
        None
    } else if r.in_chain(interfaces[from] as int, riid) {
        Some(from)
    } else {
        first_match(r, interfaces, riid, from + 1)
    }
}

/// The first ordinal from `from` on whose interface is not registered.
pub open spec fn first_unknown(r: Registry, interfaces: Seq<usize>, from: int) -> Option<int>
    decreases interfaces.len() - from,
{
    if from < 0 || from >= interfaces.len() {
        None
    } else if interfaces[from] >= r.len() {
        Some(from)
    } else {
        first_unknown(r, interfaces, from + 1)
    }
}

/// The reason for which a class that implements `interfaces` cannot be laid
/// out, if there is one: it implements no interface, or more than there are
/// ordinals, or one that is not registered.
pub open spec fn class_refusal(r: Registry, interfaces: Seq<usize>) -> Option<CreateError> {
    if interfaces.len() == 0 {
        Some(CreateError::NoInterfaces)
    } else if interfaces.len() > MAX_INTERFACES {
        Some(CreateError::TooManyInterfaces { count: interfaces.len() as usize })
    } else {
        match first_unknown(r, interfaces, 0) {
            Some(k) => Some(CreateError::UnknownInterface { ordinal: k as usize }),
            None => None,
        }
    }
}

/// Checks that a class can be laid out.
pub fn check_class(registry: &Registry, interfaces: &Vec<usize>) -> (r: Result<(), CreateError>)
    ensures
        r == match class_refusal(*registry, interfaces@) {
            Some(e) => Err::<(), CreateError>(e),
            None => Ok::<(), CreateError>(()),
        },
        r is Ok ==> forall|j: int|
            0 <= j < interfaces@.len() ==> #[trigger] interfaces@[j] < registry.len(),
{
    let n: usize = interfaces.len();
    if n == 0 {
        return Err(CreateError::NoInterfaces);
    }
    if n > MAX_INTERFACES {
        return Err(CreateError::TooManyInterfaces { count: n });
    }
    let mut k: usize = 0;
    while k < n
        invariant
            k <= n,
            n == interfaces@.len(),
            1 <= n <= MAX_INTERFACES,
            first_unknown(*registry, interfaces@, 0) == first_unknown(
                *registry,
                interfaces@,
                k as int,
            ),
            forall|j: int| 0 <= j < k ==> #[trigger] interfaces@[j] < registry.len(),
        decreases n - k,
    {
        if interfaces[k] >= registry.count() {
            assert(first_unknown(*registry, interfaces@, k as int) == Some(k as int));
            return Err(CreateError::UnknownInterface { ordinal: k });
        }
        k = k + 1;
    }
    Ok(())
}

/// The vtables of a class: for the interface at each ordinal the vtable of
/// that interface, with its reserved entries bound to that ordinal.
pub fn class_vtables(registry: &Registry, interfaces: &Vec<usize>) -> (r: Result<
    Vec<VTable>,
    CreateError,
>)
    requires
        registry.wf(),
    ensures
        match class_refusal(*registry, interfaces@) {
            Some(e) => r == Err::<Vec<VTable>, CreateError>(e),
            None => r matches Ok(tables) && tables@.len() == interfaces@.len() && forall|k: int|
                0 <= k < tables@.len() ==> (#[trigger] tables@[k]).interface == interfaces@[k]
                    && tables@[k].offset == k && tables@[k].slots@ == layout(
                    *registry,
                    interfaces@[k] as int,
                    k as usize,
                ),
        },
{
    match check_class(registry, interfaces) {
        Err(e) => {
            return Err(e);
        },
        Ok(_) => {},
    }
    let n: usize = interfaces.len();
    let mut tables: Vec<VTable> = Vec::new();
    let mut k: usize = 0;
    while k < n
        invariant
            k <= n,
            n == interfaces@.len(),
            n <= MAX_INTERFACES,
            registry.wf(),
            forall|j: int| 0 <= j < n ==> #[trigger] interfaces@[j] < registry.len(),
            tables@.len() == k,
            forall|j: int|
                0 <= j < k ==> (#[trigger] tables@[j]).interface == interfaces@[j]
                    && tables@[j].offset == j && tables@[j].slots@ == layout(
                    *registry,
                    interfaces@[j] as int,
                    j as usize,
                ),
        decreases n - k,
    {
        tables.push(registry.vtable(interfaces[k], k));
        k = k + 1;
    }
    Ok(tables)
}

impl Object {
    /// The object after one more reference was acquired.
    pub open spec fn acquired(self) -> Object {
        Object { ref_count: (self.ref_count + 1) as u32, ..self }
    }

    /// The object after one reference was released: with the last reference
    /// its resources are released, once.
    pub open spec fn released(self) -> Object {
        if self.ref_count == 1 {
            Object { ref_count: 0, releases: (self.releases + 1) as u32, ..self }
        } else {
            Object { ref_count: (self.ref_count - 1) as u32, ..self }
        }
    }

    /// The object after `n` references were acquired.
    pub open spec fn acquired_times(self, n: nat) -> Object
        decreases n,
    {
        if n == 0 {
            self
        } else {
            self.acquired_times((n - 1) as nat).acquired()
        }
    }

    /// The object after `n` references were released.
    pub open spec fn released_times(self, n: nat) -> Object
        decreases n,
    {
        if n == 0 {
            self
        } else {
            self.released_times((n - 1) as nat).released()
        }
    }
}

impl ObjectSpace {
    /// Object number `i` has a class of one to four registered interfaces, a
    /// block within the address space, and released its resources exactly if
    /// no reference is left.
    pub open spec fn object_wf(self, i: int) -> bool {
        let o = self.objects@[i];
        &&& 1 <= o.interfaces@.len() <= MAX_INTERFACES
        &&& forall|k: int| 0 <= k < o.interfaces@.len() ==> #[trigger] o.interfaces@[k] < self.registry.len()
        &&& o.releases == (if o.ref_count == 0 {
            1u32
        } else {
            0u32
        })
        &&& spec_base(i) + BLOCK_SIZE <= usize::MAX
    }

    pub open spec fn wf(self) -> bool {
        &&& self.registry.wf()
        &&& forall|i: int| 0 <= i < self.objects@.len() ==> #[trigger] self.object_wf(i)
    }

    /// `address` is the address of a slot of an object of this space.
    pub open spec fn points_to(self, address: usize) -> bool {
        &&& address >= BLOCK_SIZE
        &&& address % POINTER_WIDTH == 0
        &&& object_at(address as int) < self.objects@.len()
        &&& ordinal_at(address as int) < self.objects@[object_at(address as int)].interfaces@.len()
    }

    /// `address` is the address of a slot of an object that still has a reference.
    pub open spec fn live(self, address: usize) -> bool {
        self.points_to(address) && self.objects@[object_at(address as int)].ref_count > 0
    }

    /// The object into which `address` points.
    pub open spec fn object_of(self, address: usize) -> Object {
        self.objects@[object_at(address as int)]
    }

    /// The address that a query through the slot at `address` for the
    /// identity `riid` answers with: that of the slot of the first interface
    /// of the object, in the order of its class, that has `riid` in its
    /// chain. None where no interface of the object has.
    pub open spec fn query_target(self, address: usize, riid: Iid) -> Option<int> {
        match first_match(self.registry, self.object_of(address).interfaces@, riid, 0) {
            Some(k) => Some(spec_slot_address(spec_base(object_at(address as int)), k)),
            None => None,
        }
    }

    /// This space is `before` with the object at `address` replaced by `o`,
    /// and nothing else changed.
    pub open spec fn replaces(self, before: ObjectSpace, address: usize, o: Object) -> bool {
        &&& self.registry == before.registry
        &&& self.objects@ == before.objects@.update(object_at(address as int), o)
    }

    /// A space without objects.
    pub fn new(registry: Registry) -> (r: ObjectSpace)
        requires
            registry.wf(),
        ensures
            r.wf(),
            r.registry == registry,
            r.objects@.len() == 0,
    {
        ObjectSpace { registry, objects: Vec::new() }
    }

    /// Lays out an object of a class that implements `interfaces`, in that
    /// order, and hands out the one reference it starts with: an owning
    /// handle to its first slot. Objects are made under a live apartment
    /// runtime only, which the caller shows by lending its token.
    pub fn create(
        &mut self,
        runtime: &ApartmentThreadedRuntime,
        interfaces: Vec<usize>,
    ) -> (r: Result<ComPtr, CreateError>)
        requires
            old(self).wf(),
        ensures
            final(self).wf(),
            match class_refusal(old(self).registry, interfaces@) {
                Some(e) => r == Err::<ComPtr, CreateError>(e) && *final(self) == *old(self),
                None => if spec_base(old(self).objects@.len() as int) + BLOCK_SIZE <= usize::MAX {
                    &&& r matches Ok(handle)
                    &&& final(self).registry == old(self).registry
                    &&& final(self).objects@ == old(self).objects@.push(
                        Object { interfaces, ref_count: 1, releases: 0 },
                    )
                    &&& handle.raw().addr() == spec_base(old(self).objects@.len() as int)
                    &&& final(self).live(handle.raw().addr())
                } else {
                    r == Err::<ComPtr, CreateError>(CreateError::OutOfAddressSpace) && *final(self)
                        == *old(self)
                },
            },
    {
        match check_class(&self.registry, &interfaces) {
            Err(e) => {
                return Err(e);
            },
            Ok(_) => {},
        }
        let index: usize = self.objects.len();
        if index >= usize::MAX / BLOCK_SIZE - 1 {
            return Err(CreateError::OutOfAddressSpace);
        }
        let base: usize = (index + 1) * BLOCK_SIZE;
        self.objects.push(Object { interfaces, ref_count: 1, releases: 0 });
        proof {
            assert forall|i: int| 0 <= i < self.objects@.len() implies #[trigger] self.object_wf(
                i,
            ) by {
                if i < index {
                    assert(old(self).object_wf(i));
                }
            }
            assert(object_at(base as int) == index);
            assert(ordinal_at(base as int) == 0);
        }
        Ok(ComPtr::new(InterfacePtr::from_non_null(base)))
    }

    /// Whether `p` points to a slot of an object that still has a reference:
    /// what every use of the object through `p` asks for.
    pub fn is_live(&self, p: InterfacePtr) -> (r: bool)
        ensures
            r == self.live(p.addr()),
    {
        let address: usize = p.address();
        if address < BLOCK_SIZE || address % POINTER_WIDTH != 0 {
            return false;
        }
        let index: usize = address / BLOCK_SIZE - 1;
        let ordinal: usize = (address % BLOCK_SIZE) / POINTER_WIDTH;
        index < self.objects.len() && ordinal < self.objects[index].interfaces.len()
            && self.objects[index].ref_count > 0
    }

    /// The current reference count of the object at `p`.
    pub fn ref_count(&self, p: InterfacePtr) -> (r: u32)
        requires
            self.wf(),
            self.points_to(p.addr()),
        ensures
            r == self.object_of(p.addr()).ref_count,
    {
        let address: usize = p.address();
        self.objects[address / BLOCK_SIZE - 1].ref_count
    }

    /// Acquires a reference: the count of the object at `p` goes up by
    /// exactly one. Returns the new count.
    pub fn add_ref(&mut self, p: InterfacePtr) -> (r: u32)
        requires
            old(self).wf(),
            old(self).live(p.addr()),
            old(self).object_of(p.addr()).ref_count < u32::MAX,
        ensures
            final(self).wf(),
            final(self).replaces(*old(self), p.addr(), old(self).object_of(p.addr()).acquired()),
            r == old(self).object_of(p.addr()).ref_count + 1,
    {
        let address: usize = p.address();
        let index: usize = address / BLOCK_SIZE - 1;
        assert(old(self).object_wf(index as int));
        let count: u32 = self.objects[index].ref_count + 1;
        self.objects[index].ref_count = count;
        proof {
            assert(self.objects@ =~= old(self).objects@.update(
                index as int,
                old(self).objects@[index as int].acquired(),
            ));
            assert forall|i: int| 0 <= i < self.objects@.len() implies #[trigger] self.object_wf(
                i,
            ) by {
                assert(old(self).object_wf(i));
            }
        }
        count
    }

    /// Releases a reference: the count of the object at `p` goes down by
    /// exactly one, and with the last reference the resources of the object
    /// are released. Returns the new count.
    pub fn release(&mut self, p: InterfacePtr) -> (r: u32)
        requires
            old(self).wf(),
            old(self).live(p.addr()),
        ensures
            final(self).wf(),
            final(self).replaces(*old(self), p.addr(), old(self).object_of(p.addr()).released()),
            r == old(self).object_of(p.addr()).ref_count - 1,
    {
        let address: usize = p.address();
        let index: usize = address / BLOCK_SIZE - 1;
        assert(old(self).object_wf(index as int));
        let count: u32 = self.objects[index].ref_count - 1;
        self.objects[index].ref_count = count;
        if count == 0 {
            self.objects[index].releases = self.objects[index].releases + 1;
        }
        proof {
            assert(self.objects@ =~= old(self).objects@.update(
                index as int,
                old(self).objects@[index as int].released(),
            ));
            assert forall|i: int| 0 <= i < self.objects@.len() implies #[trigger] self.object_wf(
                i,
            ) by {
                assert(old(self).object_wf(i));
            }
        }
        count
    }

    /// Asks the object at `p` for the interface with the identity `riid`.
    /// The interfaces of the object are tried in the order of its class; the
    /// first that has `riid` in its chain answers, with a pointer to its own
    /// slot, and a reference is acquired for that pointer. Where none has,
    /// the answer is `NoInterface` and nothing changes.
    pub fn query_interface(&mut self, p: InterfacePtr, riid: &Iid) -> (r: Result<
        InterfacePtr,
        NoInterface,
    >)
        requires
            old(self).wf(),
            old(self).live(p.addr()),
            old(self).object_of(p.addr()).ref_count < u32::MAX,
        ensures
            final(self).wf(),
            match old(self).query_target(p.addr(), *riid) {
                Some(target) => r matches Ok(q) && q.addr() == target && final(self).replaces(
                    *old(self),
                    p.addr(),
                    old(self).object_of(p.addr()).acquired(),
                ) && final(self).live(q.addr()) && object_at(q.addr() as int) == object_at(
                    p.addr() as int,
                ),
                None => r is Err && *final(self) == *old(self),
            },
    {
        let address: usize = p.address();
        let index: usize = address / BLOCK_SIZE - 1;
        assert(self.object_wf(index as int));
        match self.find_interface(index, riid) {
            Some(k) => {
                proof {
                    lemma_slot_decodes(index as int, k as int);
                }
                let target: usize = (index + 1) * BLOCK_SIZE + k * POINTER_WIDTH;
                self.add_ref(p);
                proof {
                    assert(target == spec_slot_address(spec_base(index as int), k as int));
                    assert(old(self).query_target(p.addr(), *riid) == Some(target as int));
                    assert(object_at(target as int) == index);
                    assert(self.objects@[index as int] == old(self).objects@[index as int].acquired());
                    assert(self.points_to(target));
                    assert(self.live(target));
                }
                Ok(InterfacePtr::from_non_null(target))
            },
            None => Err(NoInterface),
        }
    }

    /// The ordinal of the first interface of object number `index` that has
    /// `riid` in its chain.
    fn find_interface(&self, index: usize, riid: &Iid) -> (r: Option<usize>)
        requires
            self.wf(),
            index < self.objects@.len(),
        ensures
            r matches Some(k) ==> k < self.objects@[index as int].interfaces@.len()
                && first_match(self.registry, self.objects@[index as int].interfaces@, *riid, 0)
                == Some(k as int),
            r is None ==> first_match(
                self.registry,
                self.objects@[index as int].interfaces@,
                *riid,
                0,
            ) is None,
    {
        assert(self.object_wf(index as int));
        let n: usize = self.objects[index].interfaces.len();
        let mut k: usize = 0;
        while k < n
            invariant
                k <= n,
                self.registry.wf(),
                index < self.objects@.len(),
                n == self.objects@[index as int].interfaces@.len(),
                forall|j: int|
                    0 <= j < n ==> #[trigger] self.objects@[index as int].interfaces@[j]
                        < self.registry.len(),
                first_match(self.registry, self.objects@[index as int].interfaces@, *riid, 0)
                    == first_match(
                    self.registry,
                    self.objects@[index as int].interfaces@,
                    *riid,
                    k as int,
                ),
            decreases n - k,
        {
            let id: usize = self.objects[index].interfaces[k];
            if self.registry.is_iid_in_inheritance_chain(id, riid) {
                return Some(k);
            }
            k = k + 1;
        }
        None
    }

    /// Makes a second owner: acquires a reference and hands out an owning
    /// handle to the same slot.
    pub fn clone_ptr(&mut self, handle: &ComPtr) -> (r: ComPtr)
        requires
            old(self).wf(),
            old(self).live(handle.raw().addr()),
            old(self).object_of(handle.raw().addr()).ref_count < u32::MAX,
        ensures
            final(self).wf(),
            r.raw() == handle.raw(),
            final(self).replaces(
                *old(self),
                handle.raw().addr(),
                old(self).object_of(handle.raw().addr()).acquired(),
            ),
    {
        let p: InterfacePtr = handle.as_raw();
        self.add_ref(p);
        ComPtr::new(p)
    }

    /// Gives up an owner: releases the reference that the handle stood for.
    pub fn drop_ptr(&mut self, handle: ComPtr)
        requires
            old(self).wf(),
            old(self).live(handle.raw().addr()),
        ensures
            final(self).wf(),
            final(self).replaces(
                *old(self),
                handle.raw().addr(),
                old(self).object_of(handle.raw().addr()).released(),
            ),
    {
        let p: InterfacePtr = handle.into_raw();
        self.release(p);
    }

    /// Asks the object behind an owning handle for another interface, and
    /// hands out an owning handle to it. See `query_interface`.
    pub fn get_interface(&mut self, handle: &ComPtr, riid: &Iid) -> (r: Option<ComPtr>)
        requires
            old(self).wf(),
            old(self).live(handle.raw().addr()),
            old(self).object_of(handle.raw().addr()).ref_count < u32::MAX,
        ensures
            final(self).wf(),
            match old(self).query_target(handle.raw().addr(), *riid) {
                Some(target) => r matches Some(q) && q.raw().addr() == target && final(self).replaces(
                    *old(self),
                    handle.raw().addr(),
                    old(self).object_of(handle.raw().addr()).acquired(),
                ) && final(self).live(q.raw().addr()),
                None => r is None && *final(self) == *old(self),
            },
    {
        match self.query_interface(handle.as_raw(), riid) {
            Ok(q) => Some(ComPtr::new(q)),
            Err(_) => None,
        }
    }
}

/// The address of slot `k` of object number `index` leads back to that
/// object and that ordinal.
pub proof fn lemma_slot_decodes(index: int, k: int)
    requires
        0 <= index,
        0 <= k < MAX_INTERFACES,
    ensures
        object_at(spec_slot_address(spec_base(index), k)) == index,
        ordinal_at(spec_slot_address(spec_base(index), k)) == k,
        spec_slot_address(spec_base(index), k) % (POINTER_WIDTH as int) == 0,
        spec_slot_address(spec_base(index), k) >= BLOCK_SIZE,
        spec_slot_address(spec_base(index), k) < spec_base(index) + BLOCK_SIZE,
{
}

/// The address of a slot is that of the slot at its ordinal in its object.
pub proof fn lemma_slot_encodes(address: int)
    requires
        address >= BLOCK_SIZE,
        address % (POINTER_WIDTH as int) == 0,
    ensures
        spec_slot_address(spec_base(object_at(address)), ordinal_at(address)) == address,
        0 <= object_at(address),
        0 <= ordinal_at(address) < 8,
{
}

/// What the search for an interface finds is the first ordinal whose
/// interface has the identity in its chain; it finds nothing exactly if no
/// interface has.
pub proof fn lemma_first_match_is_first(r: Registry, interfaces: Seq<usize>, riid: Iid, from: int)
    requires
        0 <= from <= interfaces.len(),
    ensures
        match first_match(r, interfaces, riid, from) {
            Some(k) => from <= k < interfaces.len() && r.in_chain(interfaces[k] as int, riid)
                && forall|j: int| from <= j < k ==> !r.in_chain(#[trigger] interfaces[j] as int, riid),
            None => forall|j: int|
                from <= j < interfaces.len() ==> !r.in_chain(#[trigger] interfaces[j] as int, riid),
        },
    decreases interfaces.len() - from,
{
    if from < interfaces.len() && !r.in_chain(interfaces[from] as int, riid) {
        lemma_first_match_is_first(r, interfaces, riid, from + 1);
    }
}

/// The identity of the interface whose slot `address` is.
pub open spec fn own_iid(s: ObjectSpace, address: usize) -> Iid {
    s.registry.entries@[s.object_of(address).interfaces@[ordinal_at(address as int)] as int].iid
}

/// A query through the slot of an interface for that interface's own
/// identity answers with the address of that very slot, where no interface
/// that stands before it in the class has that identity in its chain.
pub proof fn lemma_query_own_interface(s: ObjectSpace, address: usize)
    requires
        s.wf(),
        s.points_to(address),
        forall|j: int|
            0 <= j < ordinal_at(address as int) ==> !s.registry.in_chain(
                #[trigger] s.object_of(address).interfaces@[j] as int,
                own_iid(s, address),
            ),
    ensures
        s.query_target(address, own_iid(s, address)) == Some(address as int),
{
    let interfaces = s.object_of(address).interfaces@;
    let k = ordinal_at(address as int);
    assert(s.object_wf(object_at(address as int)));
    assert(interfaces[k] < s.registry.len());
    assert(s.registry.in_chain(interfaces[k] as int, own_iid(s, address)));
    lemma_first_match_is_first(s.registry, interfaces, own_iid(s, address), 0);
    let found = first_match(s.registry, interfaces, own_iid(s, address), 0);
    assert(found is Some);
    assert(found->Some_0 == k);
    lemma_slot_encodes(address as int);
}

/// A query succeeds exactly if the identity lies in the chain of one of the
/// interfaces of the object.
pub proof fn lemma_query_succeeds_iff_supported(s: ObjectSpace, address: usize, riid: Iid)
    requires
        s.wf(),
        s.points_to(address),
    ensures
        s.query_target(address, riid) is Some <==> exists|k: int|
            0 <= k < s.object_of(address).interfaces@.len() && s.registry.in_chain(
                #[trigger] s.object_of(address).interfaces@[k] as int,
                riid,
            ),
{
    lemma_first_match_is_first(s.registry, s.object_of(address).interfaces@, riid, 0);
}

/// Acquiring `n` references raises the count by `n` and releases nothing.
pub proof fn lemma_acquired_times(o: Object, n: nat)
    requires
        o.ref_count + n <= u32::MAX,
    ensures
        o.acquired_times(n).ref_count == o.ref_count + n,
        o.acquired_times(n).releases == o.releases,
        o.acquired_times(n).interfaces == o.interfaces,
    decreases n,
{
    if n > 0 {
        lemma_acquired_times(o, (n - 1) as nat);
    }
}

/// Releasing fewer references than the count holds lowers the count and
/// releases no resources: those are released with the last reference only.
pub proof fn lemma_released_times(o: Object, n: nat)
    requires
        n < o.ref_count,
    ensures
        o.released_times(n).ref_count == o.ref_count - n,
        o.released_times(n).releases == o.releases,
        o.released_times(n).interfaces == o.interfaces,
    decreases n,
{
    if n > 0 {
        lemma_released_times(o, (n - 1) as nat);
    }
}

/// One owner, cloned `m` times, and then all `m + 1` owners dropped: the
/// count is `m + 1` after the clones, stays positive with no resources
/// released as long as fewer than `m + 1` owners are dropped, and is zero
/// after the last drop, with the resources released exactly once.
pub proof fn lemma_clones_then_drops(o: Object, m: nat)
    requires
        o.ref_count == 1,
        o.releases == 0,
        m + 1 <= u32::MAX,
    ensures
        o.acquired_times(m).ref_count == m + 1,
        forall|j: nat|
            j <= m ==> (#[trigger] o.acquired_times(m).released_times(j)).ref_count == m + 1 - j
                && o.acquired_times(m).released_times(j).releases == 0,
        o.acquired_times(m).released_times(m + 1).ref_count == 0,
        o.acquired_times(m).released_times(m + 1).releases == 1,
{
    lemma_acquired_times(o, m);
    let top = o.acquired_times(m);
    assert forall|j: nat| j <= m implies (#[trigger] top.released_times(j)).ref_count == m + 1 - j
        && top.released_times(j).releases == 0 by {
        lemma_released_times(top, j);
    }
    lemma_released_times(top, m);
    assert(top.released_times(m + 1) == top.released_times(m).released());
}

} // verus!
