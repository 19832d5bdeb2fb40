use com::com_ptr::{ComPtr, InterfacePtr};
use com::iid::Iid;
use com::inproc::{
    check_class, class_vtables, CreateError, NoInterface, ObjectSpace, BLOCK_SIZE,
};
use com::vtable::Slot;
use com::interface::Interface;
use com::offset::POINTER_WIDTH;
use com::registry::{iid_iunknown, Registry};
use com::runtime::{Apartment, ApartmentThreadedRuntime, S_OK};

fn iid(n: u32) -> Iid {
    Iid { data1: n, data2: 0, data3: 0, data4: 1 }
}

fn interface(name: &str, parent: &str, n: u32) -> Interface {
    Interface {
        iid: iid(n),
        visibility: String::new(),
        name: name.to_string(),
        parent: Some(parent.to_string()),
        items: Vec::new(),
        docs: Vec::new(),
    }
}

const ANIMAL: usize = 1;
const CAT: usize = 2;
const SWIMMER: usize = 3;

fn runtime() -> ApartmentThreadedRuntime {
    Apartment::new().create(S_OK).unwrap()
}

fn space() -> ObjectSpace {
    let mut r = Registry::new();
    assert_eq!(r.declare(&interface("IAnimal", "IUnknown", 1)), Ok(ANIMAL));
    assert_eq!(r.declare(&interface("ICat", "IAnimal", 2)), Ok(CAT));
    assert_eq!(r.declare(&interface("ISwimmer", "IUnknown", 3)), Ok(SWIMMER));
    ObjectSpace::new(r)
}

#[test]
fn a_null_address_gives_no_handle() {
    assert_eq!(InterfacePtr::new(0), None);
    let p = InterfacePtr::new(64).unwrap();
    assert_eq!(p.address(), 64);
    assert_eq!(InterfacePtr::from_non_null(72).address(), 72);
}

#[test]
fn taking_ownership_does_not_touch_the_count() {
    let mut s = space();
    let first = s.create(&runtime(), vec![ANIMAL]).unwrap();
    let raw = first.into_raw();
    assert_eq!(s.ref_count(raw), 1);
    let again = ComPtr::new(raw);
    assert_eq!(s.ref_count(raw), 1);
    assert_eq!(again.as_raw(), raw);
    assert_eq!(s.ref_count(raw), 1);
}

#[test]
fn objects_start_with_one_reference_at_slot_zero() {
    let mut s = space();
    let a = s.create(&runtime(), vec![ANIMAL, SWIMMER]).unwrap();
    let b = s.create(&runtime(), vec![CAT]).unwrap();
    assert_eq!(a.as_raw().address(), BLOCK_SIZE);
    assert_eq!(b.as_raw().address(), 2 * BLOCK_SIZE);
    assert_eq!(s.ref_count(a.as_raw()), 1);
    assert_eq!(s.ref_count(b.as_raw()), 1);
    assert_eq!(s.objects[0].interfaces, vec![ANIMAL, SWIMMER]);
    assert_eq!(s.objects[0].releases, 0);
    assert_eq!(s.objects.len(), 2);
}

#[test]
fn a_class_without_interfaces_is_refused() {
    let mut s = space();
    assert_eq!(s.create(&runtime(), vec![]), Err(CreateError::NoInterfaces));
    assert!(s.objects.is_empty());
}

#[test]
fn a_class_with_five_interfaces_is_refused() {
    let mut s = space();
    assert_eq!(
        s.create(&runtime(), vec![0, 1, 2, 3, 0]),
        Err(CreateError::TooManyInterfaces { count: 5 })
    );
    assert!(s.objects.is_empty());
    assert!(s.create(&runtime(), vec![0, 1, 2, 3]).is_ok());
}

#[test]
fn an_unregistered_interface_is_refused_by_its_ordinal() {
    let mut s = space();
    assert_eq!(s.create(&runtime(), vec![ANIMAL, 4, 9]), Err(CreateError::UnknownInterface { ordinal: 1 }));
    assert!(s.objects.is_empty());
}

#[test]
fn cloning_and_dropping_move_the_count_by_one() {
    let mut s = space();
    let first = s.create(&runtime(), vec![CAT]).unwrap();
    let raw = first.as_raw();
    let second = s.clone_ptr(&first);
    assert_eq!(second.as_raw(), raw);
    assert_eq!(s.ref_count(raw), 2);
    s.drop_ptr(second);
    assert_eq!(s.ref_count(raw), 1);
    assert_eq!(s.objects[0].releases, 0);
    s.drop_ptr(first);
    assert_eq!(s.objects[0].ref_count, 0);
    assert_eq!(s.objects[0].releases, 1);
}

#[test]
fn m_clones_and_m_plus_one_drops_release_exactly_once() {
    for m in [0usize, 1, 2, 7, 100] {
        let mut s = space();
        let first = s.create(&runtime(), vec![ANIMAL, SWIMMER]).unwrap();
        let raw = first.as_raw();
        let mut owners = vec![first];
        for j in 0..m {
            let next = s.clone_ptr(&owners[0]);
            owners.push(next);
            assert_eq!(s.ref_count(raw) as usize, j + 2);
        }
        assert_eq!(s.ref_count(raw) as usize, m + 1);
        let mut dropped = 0;
        while let Some(owner) = owners.pop() {
            assert!(s.objects[0].ref_count > 0);
            assert_eq!(s.objects[0].releases, 0);
            s.drop_ptr(owner);
            dropped += 1;
            assert_eq!(s.objects[0].ref_count as usize, m + 1 - dropped);
        }
        assert_eq!(dropped, m + 1);
        assert_eq!(s.objects[0].ref_count, 0);
        assert_eq!(s.objects[0].releases, 1);
    }
}

#[test]
fn add_ref_and_release_return_the_new_count() {
    let mut s = space();
    let p = s.create(&runtime(), vec![ANIMAL]).unwrap().into_raw();
    assert_eq!(s.add_ref(p), 2);
    assert_eq!(s.add_ref(p), 3);
    assert_eq!(s.release(p), 2);
    assert_eq!(s.release(p), 1);
    assert_eq!(s.release(p), 0);
    assert_eq!(s.objects[0].releases, 1);
}

#[test]
fn one_object_does_not_touch_another() {
    let mut s = space();
    let a = s.create(&runtime(), vec![ANIMAL]).unwrap().into_raw();
    let b = s.create(&runtime(), vec![CAT]).unwrap().into_raw();
    s.add_ref(a);
    assert_eq!(s.ref_count(a), 2);
    assert_eq!(s.ref_count(b), 1);
    s.release(b);
    assert_eq!(s.ref_count(a), 2);
    assert_eq!(s.objects[1].ref_count, 0);
    assert_eq!(s.objects[1].releases, 1);
    assert_eq!(s.objects[0].releases, 0);
}

#[test]
fn a_query_for_the_own_interface_returns_the_same_address() {
    let mut s = space();
    let owner = s.create(&runtime(), vec![ANIMAL, SWIMMER, CAT]).unwrap();
    let base = owner.as_raw().address();
    let own = [iid(1), iid(3), iid(2)];
    for k in 0..3 {
        let through = InterfacePtr::new(base + k * POINTER_WIDTH).unwrap();
        let before = s.ref_count(through);
        let answer = s.query_interface(through, &own[k]).unwrap();
        assert_eq!(answer.address(), through.address());
        assert_eq!(answer, through);
        assert_eq!(s.ref_count(through), before + 1);
    }
}

#[test]
fn a_query_is_answered_by_the_first_interface_that_matches() {
    let mut s = space();
    let owner = s.create(&runtime(), vec![SWIMMER, CAT, ANIMAL]).unwrap();
    let base = owner.as_raw().address();
    let third = InterfacePtr::new(base + 2 * POINTER_WIDTH).unwrap();
    let animal = s.query_interface(third, &iid(1)).unwrap();
    assert_eq!(animal.address(), base + POINTER_WIDTH);
    let root = s.query_interface(third, &iid_iunknown()).unwrap();
    assert_eq!(root.address(), base);
    let cat = s.query_interface(owner.as_raw(), &iid(2)).unwrap();
    assert_eq!(cat.address(), base + POINTER_WIDTH);
    assert_eq!(s.ref_count(third), 4);
}

#[test]
fn a_query_for_an_unsupported_identity_fails_and_changes_nothing() {
    let mut s = space();
    let owner = s.create(&runtime(), vec![ANIMAL, SWIMMER]).unwrap();
    let other = s.create(&runtime(), vec![CAT]).unwrap();
    let p = owner.as_raw();
    assert_eq!(s.query_interface(p, &iid(2)), Err(NoInterface));
    assert_eq!(s.query_interface(p, &iid(99)), Err(NoInterface));
    assert_eq!(s.get_interface(&owner, &iid(2)), None);
    assert_eq!(s.ref_count(p), 1);
    assert_eq!(s.ref_count(other.as_raw()), 1);
    assert_eq!(s.objects[0].releases, 0);
    assert_eq!(s.objects.len(), 2);
}

#[test]
fn get_interface_hands_out_an_owner() {
    let mut s = space();
    let owner = s.create(&runtime(), vec![ANIMAL, SWIMMER]).unwrap();
    let swimmer = s.get_interface(&owner, &iid(3)).unwrap();
    assert_eq!(swimmer.as_raw().address(), owner.as_raw().address() + POINTER_WIDTH);
    assert_eq!(s.ref_count(owner.as_raw()), 2);
    s.drop_ptr(owner);
    assert_eq!(s.ref_count(swimmer.as_raw()), 1);
    s.drop_ptr(swimmer);
    assert_eq!(s.objects[0].ref_count, 0);
    assert_eq!(s.objects[0].releases, 1);
}

#[test]
fn a_class_gets_one_vtable_for_each_ordinal() {
    let s = space();
    let tables = class_vtables(&s.registry, &vec![CAT, SWIMMER, ANIMAL]).unwrap();
    assert_eq!(tables.len(), 3);
    for (k, table) in tables.iter().enumerate() {
        assert_eq!(table.offset, k);
        assert_eq!(table.slots[0], Slot::QueryInterface { offset: k });
        assert_eq!(table.slots[1], Slot::AddRef { offset: k });
        assert_eq!(table.slots[2], Slot::Release { offset: k });
    }
    assert_eq!(tables[0].interface, CAT);
    assert_eq!(tables[1].interface, SWIMMER);
    assert_eq!(tables[2].interface, ANIMAL);
    assert_eq!(tables[1], s.registry.vtable(SWIMMER, 1));
}

#[test]
fn a_class_that_cannot_be_laid_out_gets_no_vtables() {
    let s = space();
    assert_eq!(class_vtables(&s.registry, &vec![]), Err(CreateError::NoInterfaces));
    assert_eq!(
        class_vtables(&s.registry, &vec![0, 0, 0, 0, 0, 0]),
        Err(CreateError::TooManyInterfaces { count: 6 })
    );
    assert_eq!(
        class_vtables(&s.registry, &vec![7, 0]),
        Err(CreateError::UnknownInterface { ordinal: 0 })
    );
    assert_eq!(check_class(&s.registry, &vec![0, 1, 2, 3]), Ok(()));
    assert_eq!(
        check_class(&s.registry, &vec![0, 1, 2, 4]),
        Err(CreateError::UnknownInterface { ordinal: 3 })
    );
}

#[test]
fn a_handle_is_live_as_long_as_a_reference_is_left() {
    let mut s = space();
    let owner = s.create(&runtime(), vec![ANIMAL, SWIMMER]).unwrap();
    let p = owner.as_raw();
    let base = p.address();
    assert!(s.is_live(p));
    assert!(s.is_live(InterfacePtr::new(base + POINTER_WIDTH).unwrap()));
    assert!(!s.is_live(InterfacePtr::new(base + 2 * POINTER_WIDTH).unwrap()));
    assert!(!s.is_live(InterfacePtr::new(base + 1).unwrap()));
    assert!(!s.is_live(InterfacePtr::new(8).unwrap()));
    assert!(!s.is_live(InterfacePtr::new(2 * BLOCK_SIZE).unwrap()));
    s.drop_ptr(owner);
    assert!(!s.is_live(p));
}
