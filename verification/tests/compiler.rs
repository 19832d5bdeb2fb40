use com::compiler::{compile, CompileError};
use com::iid::Iid;
use com::interface::{
    Attribute, AttributeInput, Declaration, Location, Method, ParseError,
};
use com::registry::{DeclareError, Registry};
use com::vtable::Slot;

fn at(line: usize) -> Location {
    Location { line, column: 0 }
}

fn declaration(name: &str, parent: Option<&str>, uuid: Option<&str>) -> Declaration {
    let mut attributes = vec![Attribute {
        name: "doc".to_string(),
        input: AttributeInput::Other("= \" Documented.\"".to_string()),
        location: at(1),
    }];
    if let Some(uuid) = uuid {
        attributes.push(Attribute {
            name: "uuid".to_string(),
            input: AttributeInput::parenthesized(format!("{:?}", uuid)),
            location: at(2),
        });
    }
    Declaration {
        attributes,
        visibility: "pub(crate)".to_string(),
        keyword: at(3),
        name: name.to_string(),
        name_location: at(5),
        parent: parent.map(|p| p.to_string()),
        parent_location: at(4),
        methods: vec![Method {
            name: "speak".to_string(),
            declaration: "fn speak(&self) -> HRESULT;".to_string(),
        }],
    }
}

const ANIMAL: &str = "EFF8970E-C50F-45E0-9284-291CE5A6F771";
const CAT: &str = "F5353C58-CFD9-4204-8D92-D274C7578B53";

#[test]
fn a_declaration_compiles_to_handle_identity_and_vtable() {
    let mut registry = Registry::new();
    let a = compile(&mut registry, declaration("IAnimal", Some("IUnknown"), Some(ANIMAL))).unwrap();
    assert_eq!(a.place, 1);
    assert_eq!(
        a.handle,
        "#[doc = \" Documented.\"]\n\
         #[repr(transparent)]\n\
         #[derive(Copy, Clone, Debug)]\n\
         pub(crate) struct IAnimal {\n    inner: ::std::ptr::NonNull<IAnimalVPtr>,\n}\n"
    );
    assert_eq!(
        a.identity,
        "#[allow(missing_docs)]\n\
         pub const IID_IANIMAL: com::iid::Guid = com::iid::Guid { \
         data1: 0xEFF8970E, data2: 0xC50F, data3: 0x45E0, \
         data4: [0x92, 0x84, 0x29, 0x1C, 0xE5, 0xA6, 0xF7, 0x71] };\n"
    );
    assert_eq!(a.vtable.interface, 1);
    assert_eq!(a.vtable.offset, 0);
    assert_eq!(
        a.vtable.slots,
        vec![
            Slot::QueryInterface { offset: 0 },
            Slot::AddRef { offset: 0 },
            Slot::Release { offset: 0 },
            Slot::Method { interface: 1, index: 0 },
        ]
    );
    assert_eq!(registry.count(), 2);
    assert_eq!(registry.entries[1].iid, Iid::parse(ANIMAL).unwrap());
    assert_eq!(registry.entries[1].methods, vec!["speak"]);

    let c = compile(&mut registry, declaration("ICat", Some("IAnimal"), Some(CAT))).unwrap();
    assert_eq!(c.place, 2);
    assert_eq!(c.vtable.slots.len(), 5);
    assert_eq!(c.vtable.slots[4], Slot::Method { interface: 2, index: 0 });
    assert!(registry.is_iid_in_inheritance_chain(2, &Iid::parse(ANIMAL).unwrap()));
}

#[test]
fn a_refused_declaration_generates_nothing() {
    let mut registry = Registry::new();
    assert_eq!(
        compile(&mut registry, declaration("IAnimal", Some("IUnknown"), None)),
        Err(CompileError::Refused(ParseError::MissingIdentity {
            interface: "IAnimal".to_string(),
            location: at(3)
        }))
    );
    assert_eq!(registry.count(), 1);
}

#[test]
fn a_parent_that_does_not_resolve_generates_nothing() {
    let mut registry = Registry::new();
    assert_eq!(
        compile(&mut registry, declaration("ICat", Some("IAnimal"), Some(CAT))),
        Err(CompileError::NotRegistered {
            error: DeclareError::UnknownParent { parent: "IAnimal".to_string() },
            location: at(4)
        })
    );
    assert_eq!(registry.count(), 1);
}

fn root_declaration(uuid: &str) -> Declaration {
    let mut d = declaration("IUnknown", None, Some(uuid));
    d.methods = ["query_interface", "add_ref", "release"]
        .iter()
        .map(|m| Method { name: m.to_string(), declaration: format!("fn {}(&self);", m) })
        .collect();
    d
}

#[test]
fn the_root_is_registered_from_the_start() {
    let mut registry = Registry::new();
    let a =
        compile(&mut registry, root_declaration("00000000-0000-0000-C000-000000000046")).unwrap();
    assert_eq!(a.place, 0);
    assert_eq!(
        a.handle,
        "#[doc = \" Documented.\"]\n\
         #[repr(transparent)]\n\
         #[derive(Copy, Clone, Debug)]\n\
         pub(crate) struct IUnknown {\n    inner: ::std::ptr::NonNull<IUnknownVPtr>,\n}\n"
    );
    assert_eq!(
        a.identity,
        "#[allow(missing_docs)]\n\
         pub const IID_IUNKNOWN: com::iid::Guid = com::iid::Guid { \
         data1: 0x00000000, data2: 0x0000, data3: 0x0000, \
         data4: [0xC0, 0x00, 0x00, 0x00, 0x00, 0x00, 0x00, 0x46] };\n"
    );
    assert_eq!(
        a.vtable.slots,
        vec![
            Slot::QueryInterface { offset: 0 },
            Slot::AddRef { offset: 0 },
            Slot::Release { offset: 0 },
        ]
    );
    assert_eq!(registry.count(), 1);
    assert!(registry.is_well_formed());
}

#[test]
fn a_root_with_another_identity_or_other_methods_is_refused() {
    let mut registry = Registry::new();
    assert_eq!(
        compile(&mut registry, root_declaration(ANIMAL)),
        Err(CompileError::NotRegistered { error: DeclareError::NotTheRoot, location: at(5) })
    );
    assert_eq!(
        compile(
            &mut registry,
            declaration("IUnknown", None, Some("00000000-0000-0000-C000-000000000046"))
        ),
        Err(CompileError::NotRegistered { error: DeclareError::NotTheRoot, location: at(5) })
    );
    assert_eq!(registry.count(), 1);
}

#[test]
fn failures_say_what_is_wrong_and_where() {
    let e = CompileError::NotRegistered {
        error: DeclareError::UnknownParent { parent: "IAnimal".to_string() },
        location: at(4),
    };
    assert_eq!(e.message(), "Parent interface `IAnimal` is not declared");
    assert_eq!(e.location(), at(4));
    let e = CompileError::Refused(ParseError::IdentityNotStringLiteral { location: at(2) });
    assert_eq!(e.message(), "uuids must be string literals");
    assert_eq!(e.location(), at(2));
    assert_eq!(
        DeclareError::DuplicateName { name: "IA".to_string() }.message(),
        "Interface `IA` is declared already"
    );
    assert_eq!(
        DeclareError::DuplicateIdentity { holder: 3 }.message(),
        "The uuid belongs to another interface already"
    );
    assert_eq!(
        DeclareError::NotTheRoot.message(),
        "Only IUnknown, with its own uuid and its three methods, has no parent"
    );
    assert_eq!(DeclareError::NotTheRoot.place(at(1), at(2)), at(1));
    assert_eq!(
        DeclareError::UnknownParent { parent: "IA".to_string() }.place(at(1), at(2)),
        at(2)
    );
    assert_eq!(DeclareError::DuplicateName { name: "IA".to_string() }.place(at(1), at(2)), at(1));
    assert_eq!(DeclareError::DuplicateIdentity { holder: 0 }.place(at(1), at(2)), at(1));
}

#[test]
fn an_identity_is_given_out_once() {
    let mut registry = Registry::new();
    assert!(compile(&mut registry, declaration("IAnimal", Some("IUnknown"), Some(ANIMAL))).is_ok());
    assert_eq!(
        compile(&mut registry, declaration("IDog", Some("IUnknown"), Some(ANIMAL))),
        Err(CompileError::NotRegistered {
            error: DeclareError::DuplicateIdentity { holder: 1 },
            location: at(5)
        })
    );
    assert_eq!(
        compile(&mut registry, declaration("IAnimal", Some("IUnknown"), Some(CAT))),
        Err(CompileError::NotRegistered {
            error: DeclareError::DuplicateName { name: "IAnimal".to_string() },
            location: at(5)
        })
    );
    assert_eq!(registry.count(), 2);
}
