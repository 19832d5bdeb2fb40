//! The interface descriptor compiler: from one declaration to everything
//! that is generated for it, or to the reason why nothing is.

use crate::iid::Iid;
use crate::interface::{
    iid_text, location_of, message_text, refusal, scan, struct_text, Attribute, Declaration,
    Interface, Location, ParseError,
};
use crate::registry::{refusal_place, refusal_text, DeclareError, Registry};
use crate::vtable::{layout, VTable};
use vstd::prelude::*;

verus! {

/// Why nothing is generated for a declaration.
#[derive(Clone, Debug, PartialEq, Eq)]
pub enum CompileError {
    /// The declaration breaks a rule.
    Refused(ParseError),
    /// The declaration is in order, and the interface cannot be registered;
    /// `location` is the place of what stands in the way.
    NotRegistered { error: DeclareError, location: Location },
}

/// What is generated for an interface.
#[derive(Debug, PartialEq, Eq)]
pub struct Artifacts {
    /// The place of the interface in the registry.
    pub place: usize,
    /// The declaration of the handle type, as source text.
    pub handle: String,
    /// The declaration of the identity constant, as source text.
    pub identity: String,
    /// The shape of the vtable, for the first ordinal.
    pub vtable: VTable,
}

/// The identity that a declaration gives, where it is not refused.
pub open spec fn declared_iid(d: Declaration) -> Iid {
    scan(d.attributes@)->Ok_0.iid->Some_0
}

/// The descriptions that a declaration holds, where it is not refused.
pub open spec fn declared_docs(d: Declaration) -> Seq<Attribute> {
    scan(d.attributes@)->Ok_0.docs
}

/// The place in the source that a failure points to.
pub open spec fn failure_place(e: CompileError) -> Location {
    match e {
        CompileError::Refused(e) => location_of(e),
        CompileError::NotRegistered { location, .. } => location,
    }
}

/// What is reported for a failure.
pub open spec fn failure_text(e: CompileError) -> Seq<char> {
    match e {
        CompileError::Refused(e) => message_text(e),
        CompileError::NotRegistered { error, .. } => refusal_text(error),
    }
}

impl CompileError {
    /// The place in the source that the failure points to.
    pub fn location(&self) -> (r: Location)
        ensures
            r == failure_place(*self),
    {
        match self {
            CompileError::Refused(e) => e.location(),
            CompileError::NotRegistered { location, .. } => *location,
        }
    }

    /// What is reported for the failure.
    pub fn message(&self) -> (r: String)
        ensures
            r@ == failure_text(*self),
    {
        match self {
            CompileError::Refused(e) => e.message(),
            CompileError::NotRegistered { error, .. } => error.message(),
        }
    }
}

/// Compiles one declaration: validates it, registers the interface under
/// its parent, and generates the handle type, the identity constant and the
/// vtable shape. Where the declaration is refused or the interface cannot be
/// registered, nothing is generated and the registry stays as it was. The
/// root is registered from the start: its declaration generates the same
/// three things and leaves the registry as it was.
pub fn compile(registry: &mut Registry, declaration: Declaration) -> (r: Result<
    Artifacts,
    CompileError,
>)
    requires
        old(registry).wf(),
    ensures
        final(registry).wf(),
        match refusal(declaration) {
            Some(e) => r == Err::<Artifacts, CompileError>(CompileError::Refused(e)) && *final(registry) == *old(registry),
            None => match old(registry).declare_refusal(
                declaration.name,
                declaration.parent,
                declared_iid(declaration),
                declaration.methods@,
            ) {
                Some(e) => r == Err::<Artifacts, CompileError>(
                    CompileError::NotRegistered {
                        error: e,
                        location: refusal_place(
                            e,
                            declaration.name_location,
                            declaration.parent_location,
                        ),
                    },
                ) && *final(registry) == *old(registry),
                None => {
                    &&& r matches Ok(a)
                    &&& final(registry).declared(
                        *old(registry),
                        Ok(a.place),
                        declaration.name,
                        declaration.parent,
                        declared_iid(declaration),
                        declaration.methods@,
                    )
                    &&& a.handle@ == struct_text(
                        declared_docs(declaration),
                        declaration.visibility@,
                        declaration.name@,
                    )
                    &&& a.identity@ == iid_text(declaration.name@, declared_iid(declaration))
                    &&& a.vtable.interface == a.place
                    &&& a.vtable.offset == 0
                    &&& a.vtable.slots@ == layout(*final(registry), a.place as int, 0)
                },
            },
        },
{
    let name_location: Location = declaration.name_location;
    let parent_location: Location = declaration.parent_location;
    let interface: Interface = match Interface::parse(declaration) {
        Err(e) => {
            return Err(CompileError::Refused(e));
        },
        Ok(interface) => interface,
    };
    let place: usize = match registry.declare(&interface) {
        Err(error) => {
            let location: Location = error.place(name_location, parent_location);
            return Err(CompileError::NotRegistered { error, location });
        },
        Ok(place) => place,
    };
    let handle: String = interface.to_struct_tokens();
    let identity: String = interface.to_iid_tokens();
    let vtable: VTable = registry.vtable(place, 0);
    Ok(Artifacts { place, handle, identity, vtable })
}

} // verus!
