use com::iid::Iid;
use com::interface::{Interface, Method};
use com::registry::{iid_iunknown, DeclareError, Registry};

fn iid(n: u32) -> Iid {
    Iid { data1: n, data2: 0, data3: 0, data4: 1 }
}

fn interface(name: &str, parent: Option<&str>, n: u32, methods: &[&str]) -> Interface {
    Interface {
        iid: iid(n),
        visibility: "pub".to_string(),
        name: name.to_string(),
        parent: parent.map(|p| p.to_string()),
        items: methods
            .iter()
            .map(|m| Method { name: m.to_string(), declaration: format!("fn {}(&self);", m) })
            .collect(),
        docs: Vec::new(),
    }
}

fn chain_of_four() -> (Registry, usize, usize, usize) {
    let mut r = Registry::new();
    let a = r.declare(&interface("IA", Some("IUnknown"), 1, &["a"])).unwrap();
    let b = r.declare(&interface("IB", Some("IA"), 2, &["b1", "b2"])).unwrap();
    let c = r.declare(&interface("IC", Some("IB"), 3, &[])).unwrap();
    (r, a, b, c)
}

#[test]
fn a_new_registry_holds_the_root() {
    let r = Registry::new();
    assert_eq!(r.count(), 1);
    assert_eq!(r.find("IUnknown"), Some(0));
    assert_eq!(r.find_iid(&iid_iunknown()), Some(0));
    assert_eq!(r.entries[0].parent, None);
    assert_eq!(r.entries[0].methods, vec!["QueryInterface", "AddRef", "Release"]);
    assert_eq!(iid_iunknown(), Iid::parse("00000000-0000-0000-C000-000000000046").unwrap());
}

#[test]
fn interfaces_get_the_next_place() {
    let (r, a, b, c) = chain_of_four();
    assert_eq!((a, b, c), (1, 2, 3));
    assert_eq!(r.count(), 4);
    assert_eq!(r.entries[2].parent, Some(1));
    assert_eq!(r.entries[2].name, "IB");
    assert_eq!(r.entries[2].iid, iid(2));
    assert_eq!(r.entries[2].methods, vec!["b1", "b2"]);
    assert_eq!(r.find("IC"), Some(3));
    assert_eq!(r.find("ID"), None);
    assert_eq!(r.find_iid(&iid(1)), Some(1));
    assert_eq!(r.find_iid(&iid(9)), None);
}

#[test]
fn the_chain_of_c_holds_c_b_a_and_the_root() {
    let (r, a, b, c) = chain_of_four();
    assert!(r.is_iid_in_inheritance_chain(c, &iid(3)));
    assert!(r.is_iid_in_inheritance_chain(c, &iid(2)));
    assert!(r.is_iid_in_inheritance_chain(c, &iid(1)));
    assert!(r.is_iid_in_inheritance_chain(c, &iid_iunknown()));
    assert!(!r.is_iid_in_inheritance_chain(c, &iid(4)));
    assert!(!r.is_iid_in_inheritance_chain(c, &Iid { data1: 3, data2: 0, data3: 0, data4: 2 }));
    assert!(!r.is_iid_in_inheritance_chain(b, &iid(3)));
    assert!(!r.is_iid_in_inheritance_chain(a, &iid(2)));
    assert!(!r.is_iid_in_inheritance_chain(0, &iid(1)));
    assert!(r.is_iid_in_inheritance_chain(0, &iid_iunknown()));
}

#[test]
fn a_sibling_is_not_in_the_chain() {
    let (mut r, _, b, c) = chain_of_four();
    let d = r.declare(&interface("ID", Some("IA"), 4, &[])).unwrap();
    assert!(r.is_iid_in_inheritance_chain(d, &iid(1)));
    assert!(!r.is_iid_in_inheritance_chain(d, &iid(2)));
    assert!(!r.is_iid_in_inheritance_chain(c, &iid(4)));
    assert!(!r.is_iid_in_inheritance_chain(b, &iid(4)));
}

#[test]
fn an_interface_without_parent_is_not_registered() {
    let mut r = Registry::new();
    assert_eq!(r.declare(&interface("IA", None, 1, &[])), Err(DeclareError::NotTheRoot));
    assert_eq!(r.declare(&interface("IUnknown", None, 1, &["a", "b", "c"])), Err(DeclareError::NotTheRoot));
    let mut root = interface("IUnknown", None, 0, &["a", "b"]);
    root.iid = iid_iunknown();
    assert_eq!(r.declare(&root), Err(DeclareError::NotTheRoot));
    assert_eq!(r.count(), 1);
}

#[test]
fn declaring_the_root_gives_the_first_place_and_changes_nothing() {
    let (mut r, _, _, _) = chain_of_four();
    let mut root = interface("IUnknown", None, 0, &["query_interface", "add_ref", "release"]);
    root.iid = iid_iunknown();
    assert_eq!(r.declare(&root), Ok(0));
    assert_eq!(r.declare(&root), Ok(0));
    assert_eq!(r.count(), 4);
    assert_eq!(r.entries[0].methods, vec!["QueryInterface", "AddRef", "Release"]);
}

#[test]
fn a_registry_that_was_tampered_with_is_not_well_formed() {
    let (r, _, _, _) = chain_of_four();
    assert!(r.is_well_formed());
    assert!(Registry::new().is_well_formed());
    assert!(!Registry { entries: Vec::new() }.is_well_formed());
    let (mut r, _, _, _) = chain_of_four();
    r.entries[2].parent = Some(2);
    assert!(!r.is_well_formed());
    let (mut r, _, _, _) = chain_of_four();
    r.entries[2].parent = None;
    assert!(!r.is_well_formed());
    let (mut r, _, _, _) = chain_of_four();
    r.entries[3].iid = iid(1);
    assert!(!r.is_well_formed());
    let (mut r, _, _, _) = chain_of_four();
    r.entries[3].name = "IA".to_string();
    assert!(!r.is_well_formed());
    let (mut r, _, _, _) = chain_of_four();
    r.entries[0].name = "IRoot".to_string();
    assert!(!r.is_well_formed());
    let (mut r, _, _, _) = chain_of_four();
    r.entries[0].iid = iid(9);
    assert!(!r.is_well_formed());
    let (mut r, _, _, _) = chain_of_four();
    r.entries[0].methods.pop();
    assert!(!r.is_well_formed());
    let (mut r, _, _, _) = chain_of_four();
    r.entries[0].parent = Some(0);
    assert!(!r.is_well_formed());
}

#[test]
fn an_unknown_parent_is_refused() {
    let mut r = Registry::new();
    assert_eq!(
        r.declare(&interface("IB", Some("IA"), 2, &[])),
        Err(DeclareError::UnknownParent { parent: "IA".to_string() })
    );
    assert_eq!(r.count(), 1);
}

#[test]
fn a_parent_declared_later_does_not_count() {
    let mut r = Registry::new();
    assert!(r.declare(&interface("IB", Some("IA"), 2, &[])).is_err());
    assert_eq!(r.declare(&interface("IA", Some("IUnknown"), 1, &[])), Ok(1));
    assert_eq!(r.declare(&interface("IB", Some("IA"), 2, &[])), Ok(2));
}

#[test]
fn a_taken_name_is_refused() {
    let (mut r, _, _, _) = chain_of_four();
    assert_eq!(
        r.declare(&interface("IB", Some("IUnknown"), 7, &[])),
        Err(DeclareError::DuplicateName { name: "IB".to_string() })
    );
    assert_eq!(
        r.declare(&interface("IUnknown", Some("IA"), 7, &[])),
        Err(DeclareError::DuplicateName { name: "IUnknown".to_string() })
    );
    assert_eq!(r.count(), 4);
}

#[test]
fn a_taken_identity_is_refused() {
    let (mut r, _, _, _) = chain_of_four();
    assert_eq!(
        r.declare(&interface("ID", Some("IUnknown"), 2, &[])),
        Err(DeclareError::DuplicateIdentity { holder: 2 })
    );
    let mut root_again = interface("IRoot", Some("IUnknown"), 0, &[]);
    root_again.iid = iid_iunknown();
    assert_eq!(r.declare(&root_again), Err(DeclareError::DuplicateIdentity { holder: 0 }));
    assert_eq!(r.count(), 4);
}

#[test]
fn an_unknown_parent_is_found_before_a_taken_name() {
    let (mut r, _, _, _) = chain_of_four();
    assert_eq!(
        r.declare(&interface("IB", Some("INone"), 2, &[])),
        Err(DeclareError::UnknownParent { parent: "INone".to_string() })
    );
}
