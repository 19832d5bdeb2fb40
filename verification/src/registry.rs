//! The identity registry: every declared interface with its identity and its
//! parent, and the test whether an identity lies in an interface's chain.

use crate::iid::Iid;
use crate::interface::{Interface, Location, Method};
use vstd::prelude::*;
use vstd::string::*;

verus! {

/// The identity of the root interface, `00000000-0000-0000-C000-000000000046`.
pub open spec fn root_iid() -> Iid {
    Iid { data1: 0, data2: 0, data3: 0, data4: 0xC000_0000_0000_0046 }
}

/// The identity of the root interface.
pub fn iid_iunknown() -> (r: Iid)
    ensures
        r == root_iid(),
{
    Iid { data1: 0, data2: 0, data3: 0, data4: 0xC000_0000_0000_0046 }
}

/// A registered interface. `parent` is the place of the parent in the
/// registry; `methods` are the names of the methods that the interface adds
/// to those of its parent, in declaration order.
pub struct Descriptor {
    pub iid: Iid,
    pub name: String,
    pub parent: Option<usize>,
    pub methods: Vec<String>,
}

/// The interfaces declared so far, the root first.
pub struct Registry {
    pub entries: Vec<Descriptor>,
}

/// Why an interface cannot be registered.
#[derive(Clone, Debug, PartialEq, Eq)]
pub enum DeclareError {
    /// The interface has no parent, and it is not the root as every registry
    /// holds it: called `IUnknown`, with the root's identity and its three
    /// operations.
    NotTheRoot,
    /// The parent's name is that of no registered interface.
    UnknownParent { parent: String },
    /// An interface of that name is registered already.
    DuplicateName { name: String },
    /// The identity belongs to the registered interface at `holder`.
    DuplicateIdentity { holder: usize },
}

impl Registry {
    /// The number of registered interfaces.
    pub open spec fn len(self) -> int {
        self.entries@.len() as int
    }

    /// The parent of the interface at `id`, where it has one that was
    /// registered before it.
    pub open spec fn parent_of(self, id: int) -> Option<int> {
        if 0 <= id < self.len() {
            match self.entries@[id].parent {
                Some(p) => if p < id {
                    Some(p as int)
                } else {
                    None
                },
                None => None,
            }
        } else {
            None
        }
    }

    /// The interfaces form a tree: the root stands first and has no parent,
    /// every other interface has a parent that was registered before it, and
    /// no identity and no name occurs twice.
    pub open spec fn wf(self) -> bool {
        &&& self.len() >= 1
        &&& self.entries@[0].parent is None
        &&& self.entries@[0].iid == root_iid()
        &&& self.entries@[0].name@ == "IUnknown"@
        &&& self.entries@[0].methods@.len() == 3
        &&& forall|i: int|
            1 <= i < self.len() ==> (#[trigger] self.entries@[i]).parent is Some
                && self.entries@[i].parent->Some_0 < i
        &&& forall|i: int, j: int|
            0 <= i < j < self.len() ==> (#[trigger] self.entries@[i]).iid != (
            #[trigger] self.entries@[j]).iid
        &&& forall|i: int, j: int|
            0 <= i < j < self.len() ==> (#[trigger] self.entries@[i]).name@ != (
            #[trigger] self.entries@[j]).name@
    }

    /// Whether `iid` is the identity of the interface at `id` or of one of its
    /// ancestors, up to and including the root.
    pub open spec fn in_chain(self, id: int, iid: Iid) -> bool
        decreases id,
    {
        if 0 <= id < self.len() {
            self.entries@[id].iid == iid || match self.parent_of(id) {
                Some(p) => self.in_chain(p, iid),
                None => false,
            }
        } else {
            false
        }
    }

    /// Whether the interface at `j` is the one at `id` or one of its ancestors.
    pub open spec fn is_ancestor_or_self(self, id: int, j: int) -> bool
        decreases id,
    {
        if 0 <= id < self.len() {
            id == j || match self.parent_of(id) {
                Some(p) => self.is_ancestor_or_self(p, j),
                None => false,
            }
        } else {
            false
        }
    }

    /// The place of the interface called `name`, if one is registered.
    pub open spec fn place_of_name(self, name: Seq<char>) -> Option<int> {
        if exists|i: int| 0 <= i < self.len() && (#[trigger] self.entries@[i]).name@ == name {
            Some(choose|i: int| 0 <= i < self.len() && (#[trigger] self.entries@[i]).name@ == name)
        } else {
            None
        }
    }

    /// The place of the interface with identity `iid`, if one is registered.
    pub open spec fn place_of_iid(self, iid: Iid) -> Option<int> {
        if exists|i: int| 0 <= i < self.len() && (#[trigger] self.entries@[i]).iid == iid {
            Some(choose|i: int| 0 <= i < self.len() && (#[trigger] self.entries@[i]).iid == iid)
        } else {
            None
        }
    }

    /// A registry that holds the root interface and nothing else.
    pub fn new() -> (r: Registry)
        ensures
            r.wf(),
            r.len() == 1,
            r.entries@[0].methods@[0]@ == "QueryInterface"@,
            r.entries@[0].methods@[1]@ == "AddRef"@,
            r.entries@[0].methods@[2]@ == "Release"@,
    {
        let mut methods: Vec<String> = Vec::new();
        methods.push(String::from_str("QueryInterface"));
        methods.push(String::from_str("AddRef"));
        methods.push(String::from_str("Release"));
        let root = Descriptor {
            iid: iid_iunknown(),
            name: String::from_str("IUnknown"),
            parent: None,
            methods,
        };
        let mut entries: Vec<Descriptor> = Vec::new();
        entries.push(root);
        Registry { entries }
    }

    /// The number of registered interfaces.
    pub fn count(&self) -> (r: usize)
        ensures
            r == self.len(),
    {
        self.entries.len()
    }

    /// Looks an interface up by its name.
    pub fn find(&self, name: &str) -> (r: Option<usize>)
        requires
            self.wf(),
        ensures
            r matches Some(i) ==> i < self.len() && self.entries@[i as int].name@ == name@,
            r is None ==> forall|i: int|
                0 <= i < self.len() ==> (#[trigger] self.entries@[i]).name@ != name@,
            r == match self.place_of_name(name@) {
                Some(i) => Some(i as usize),
                None => None,
            },
    {
        let wanted: String = String::from_str(name);
        let mut i: usize = 0;
        while i < self.entries.len()
            invariant
                self.wf(),
                i <= self.len(),
                wanted@ == name@,
                forall|k: int| 0 <= k < i ==> (#[trigger] self.entries@[k]).name@ != name@,
            decreases self.entries.len() - i,
        {
            if self.entries[i].name == wanted {
                proof {
                    let c = choose|k: int|
                        0 <= k < self.len() && (#[trigger] self.entries@[k]).name@ == name@;
                    assert(self.entries@[i as int].name@ == name@);
                    if c < i {
                        assert(self.entries@[c].name@ != self.entries@[i as int].name@);
                    } else if i < c {
                        assert(self.entries@[i as int].name@ != self.entries@[c].name@);
                    }
                }
                return Some(i);
            }
            i = i + 1;
        }
        None
    }

    /// Looks an interface up by its identity.
    pub fn find_iid(&self, iid: &Iid) -> (r: Option<usize>)
        requires
            self.wf(),
        ensures
            r matches Some(i) ==> i < self.len() && self.entries@[i as int].iid == *iid,
            r is None ==> forall|i: int|
                0 <= i < self.len() ==> (#[trigger] self.entries@[i]).iid != *iid,
            r == match self.place_of_iid(*iid) {
                Some(i) => Some(i as usize),
                None => None,
            },
    {
        let mut i: usize = 0;
        while i < self.entries.len()
            invariant
                self.wf(),
                i <= self.len(),
                forall|k: int| 0 <= k < i ==> (#[trigger] self.entries@[k]).iid != *iid,
            decreases self.entries.len() - i,
        {
            if self.entries[i].iid.same(iid) {
                proof {
                    let c = choose|k: int|
                        0 <= k < self.len() && (#[trigger] self.entries@[k]).iid == *iid;
                    assert(self.entries@[i as int].iid == *iid);
                    if c < i {
                        assert(self.entries@[c].iid != self.entries@[i as int].iid);
                    } else if i < c {
                        assert(self.entries@[i as int].iid != self.entries@[c].iid);
                    }
                }
                return Some(i);
            }
            i = i + 1;
        }
        None
    }

    /// Whether an interface without parent is the root as every registry
    /// holds it from the start.
    pub open spec fn is_the_root(name: Seq<char>, iid: Iid, items: Seq<Method>) -> bool {
        name == "IUnknown"@ && iid == root_iid() && items.len() == 3
    }

    /// The reason for which an interface of the given name, parent, identity
    /// and methods cannot be registered, if there is one.
    pub open spec fn declare_refusal(
        self,
        name: String,
        parent: Option<String>,
        iid: Iid,
        items: Seq<Method>,
    ) -> Option<DeclareError> {
        match parent {
            None => if Self::is_the_root(name@, iid, items) {
                None
            } else {
                Some(DeclareError::NotTheRoot)
            },
            Some(parent) => if self.place_of_name(parent@) is None {
                Some(DeclareError::UnknownParent { parent })
            } else if self.place_of_name(name@) is Some {
                Some(DeclareError::DuplicateName { name })
            } else {
                match self.place_of_iid(iid) {
                    Some(holder) => Some(DeclareError::DuplicateIdentity { holder: holder as usize }),
                    None => None,
                }
            },
        }
    }

    /// `d` is the descriptor under which an interface of the given name,
    /// parent, identity and methods is registered.
    pub open spec fn registers(
        self,
        d: Descriptor,
        name: String,
        parent: Option<String>,
        iid: Iid,
        items: Seq<Method>,
    ) -> bool {
        &&& d.iid == iid
        &&& d.name == name
        &&& parent matches Some(parent)
        &&& self.place_of_name(parent@) matches Some(p)
        &&& d.parent == Some(p as usize)
        &&& d.methods@ == items.map_values(|m: Method| m.name)
    }

    /// What registering an interface of the given name, parent, identity and
    /// methods in `before` gives: the refusal and the registry as it was; for
    /// the root its place, the first, and the registry as it was; for any
    /// other interface the new place and the registry with one descriptor
    /// more.
    pub open spec fn declared(
        self,
        before: Registry,
        r: Result<usize, DeclareError>,
        name: String,
        parent: Option<String>,
        iid: Iid,
        items: Seq<Method>,
    ) -> bool {
        match before.declare_refusal(name, parent, iid, items) {
            Some(e) => r == Err::<usize, DeclareError>(e) && self == before,
            None => if parent is None {
                r == Ok::<usize, DeclareError>(0) && self == before
            } else {
                &&& r == Ok::<usize, DeclareError>(before.len() as usize)
                &&& self.len() == before.len() + 1
                &&& self.entries@.drop_last() == before.entries@
                &&& before.registers(self.entries@.last(), name, parent, iid, items)
            },
        }
    }

    /// Registers an interface. Its parent must be registered already, and
    /// neither its name nor its identity may be taken. The new interface gets
    /// the next free place, which is returned; a refused interface leaves the
    /// registry as it was. The root is registered from the start: declaring
    /// it gives its place, the first, and changes nothing.
    pub fn declare(&mut self, interface: &Interface) -> (r: Result<usize, DeclareError>)
        requires
            old(self).wf(),
        ensures
            final(self).wf(),
            final(self).declared(
                *old(self),
                r,
                interface.name,
                interface.parent,
                interface.iid,
                interface.items@,
            ),
    {
        let parent: usize = match &interface.parent {
            None => {
                let root_name: String = String::from_str("IUnknown");
                let root: Iid = iid_iunknown();
                if interface.name == root_name && interface.iid.same(&root)
                    && interface.items.len() == 3 {
                    return Ok(0);
                }
                return Err(DeclareError::NotTheRoot);
            },
            Some(name) => match self.find(name.as_str()) {
                None => {
                    return Err(DeclareError::UnknownParent { parent: name.clone() });
                },
                Some(p) => p,
            },
        };
        if self.find(interface.name.as_str()).is_some() {
            return Err(DeclareError::DuplicateName { name: interface.name.clone() });
        }
        if let Some(holder) = self.find_iid(&interface.iid) {
            return Err(DeclareError::DuplicateIdentity { holder });
        }
        let mut methods: Vec<String> = Vec::new();
        let mut i: usize = 0;
        while i < interface.items.len()
            invariant
                i <= interface.items@.len(),
                methods@ == interface.items@.take(i as int).map_values(|m: Method| m.name),
            decreases interface.items.len() - i,
        {
            methods.push(interface.items[i].name.clone());
            proof {
                assert(interface.items@.take(i + 1).map_values(|m: Method| m.name)
                    =~= interface.items@.take(i as int).map_values(|m: Method| m.name).push(
                    interface.items@[i as int].name,
                ));
            }
            i = i + 1;
        }
        assert(interface.items@.take(i as int) =~= interface.items@);
        let place: usize = self.entries.len();
        let d = Descriptor {
            iid: interface.iid,
            name: interface.name.clone(),
            parent: Some(parent),
            methods,
        };
        self.entries.push(d);
        proof {
            assert(final(self).entries@.drop_last() =~= old(self).entries@);
            assert forall|k: int| 0 <= k < old(self).len() implies self.entries@[k] == old(self).entries@[k] by {}
        }
        Ok(place)
    }

    /// Whether the registry is well formed: what every function that takes
    /// a registry asks for.
    pub fn is_well_formed(&self) -> (r: bool)
        ensures
            r == self.wf(),
    {
        let n: usize = self.entries.len();
        if n == 0 {
            return false;
        }
        let root_name: String = String::from_str("IUnknown");
        let root: Iid = iid_iunknown();
        if self.entries[0].parent.is_some() || !self.entries[0].iid.same(&root) || !(
        self.entries[0].name == root_name) || self.entries[0].methods.len() != 3 {
            return false;
        }
        let mut i: usize = 1;
        while i < n
            invariant
                1 <= i <= n,
                n == self.len(),
                forall|k: int|
                    1 <= k < i ==> (#[trigger] self.entries@[k]).parent is Some
                        && self.entries@[k].parent->Some_0 < k,
            decreases n - i,
        {
            match self.entries[i].parent {
                Some(p) => {
                    if p >= i {
                        assert(!(self.entries@[i as int].parent->Some_0 < i));
                        return false;
                    }
                },
                None => {
                    assert(self.entries@[i as int].parent is None);
                    return false;
                },
            }
            i = i + 1;
        }
        let mut j: usize = 1;
        while j < n
            invariant
                1 <= j <= n,
                n == self.len(),
                forall|a: int, b: int|
                    0 <= a < b < j ==> (#[trigger] self.entries@[a]).iid != (
                    #[trigger] self.entries@[b]).iid && self.entries@[a].name@
                        != self.entries@[b].name@,
            decreases n - j,
        {
            let mut k: usize = 0;
            while k < j
                invariant
                    k <= j < n,
                    n == self.len(),
                    forall|a: int|
                        0 <= a < k ==> (#[trigger] self.entries@[a]).iid != self.entries@[j as int].iid
                            && self.entries@[a].name@ != self.entries@[j as int].name@,
                decreases j - k,
            {
                if self.entries[k].iid.same(&self.entries[j].iid) {
                    assert(self.entries@[k as int].iid == self.entries@[j as int].iid);
                    return false;
                }
                if self.entries[k].name == self.entries[j].name {
                    assert(self.entries@[k as int].name@ == self.entries@[j as int].name@);
                    return false;
                }
                k = k + 1;
            }
            j = j + 1;
        }
        true
    }

    /// Whether `riid` is the identity of the interface at `id` or of one of
    /// its ancestors, up to and including the root.
    pub fn is_iid_in_inheritance_chain(&self, id: usize, riid: &Iid) -> (r: bool)
        requires
            self.wf(),
            id < self.len(),
        ensures
            r == self.in_chain(id as int, *riid),
    {
        let mut current: usize = id;
        loop
            invariant
                self.wf(),
                current < self.len(),
                self.in_chain(id as int, *riid) == self.in_chain(current as int, *riid),
            decreases current,
        {
            if self.entries[current].iid.same(riid) {
                return true;
            }
            match self.entries[current].parent {
                Some(p) => {
                    if current == 0 {
                        return false;
                    }
                    current = p;
                },
                None => {
                    return false;
                },
            }
        }
    }
}

/// The place in the source that a refusal to register points to: that of
/// the parent where the parent does not resolve, that of the name otherwise.
pub open spec fn refusal_place(e: DeclareError, name: Location, parent: Location) -> Location {
    match e {
        DeclareError::UnknownParent { .. } => parent,
        _ => name,
    }
}

/// What is reported for a refusal to register.
pub open spec fn refusal_text(e: DeclareError) -> Seq<char> {
    match e {
        DeclareError::NotTheRoot =>
            "Only IUnknown, with its own uuid and its three methods, has no parent"@,
        DeclareError::UnknownParent { parent } => "Parent interface `"@ + parent@
            + "` is not declared"@,
        DeclareError::DuplicateName { name } => "Interface `"@ + name@ + "` is declared already"@,
        DeclareError::DuplicateIdentity { .. } => "The uuid belongs to another interface already"@,
    }
}

impl DeclareError {
    /// The place in the source that the refusal points to, given the places
    /// of the name and of the parent of the declaration.
    pub fn place(&self, name: Location, parent: Location) -> (r: Location)
        ensures
            r == refusal_place(*self, name, parent),
    {
        match self {
            DeclareError::UnknownParent { .. } => parent,
            _ => name,
        }
    }

    /// What is reported for the refusal.
    pub fn message(&self) -> (r: String)
        ensures
            r@ == refusal_text(*self),
    {
        match self {
            DeclareError::NotTheRoot => String::from_str(
                "Only IUnknown, with its own uuid and its three methods, has no parent",
            ),
            DeclareError::UnknownParent { parent } => {
                let mut out: String = String::from_str("Parent interface `");
                out.append(parent.as_str());
                out.append("` is not declared");
                out
            },
            DeclareError::DuplicateName { name } => {
                let mut out: String = String::from_str("Interface `");
                out.append(name.as_str());
                out.append("` is declared already");
                out
            },
            DeclareError::DuplicateIdentity { .. } => String::from_str(
                "The uuid belongs to another interface already",
            ),
        }
    }
}

/// An identity lies in the chain of an interface exactly if it is the
/// identity of that interface or of one of its ancestors.
pub proof fn lemma_chain_is_ancestry(r: Registry, id: int, iid: Iid)
    requires
        r.wf(),
        0 <= id < r.len(),
    ensures
        r.in_chain(id, iid) <==> exists|j: int|
            0 <= j < r.len() && #[trigger] r.is_ancestor_or_self(id, j) && r.entries@[j].iid == iid,
    decreases id,
{
    let found = exists|j: int|
        0 <= j < r.len() && #[trigger] r.is_ancestor_or_self(id, j) && r.entries@[j].iid == iid;
    if r.entries@[id].iid == iid {
        assert(r.is_ancestor_or_self(id, id));
    }
    match r.parent_of(id) {
        Some(p) => {
            lemma_chain_is_ancestry(r, p, iid);
            if r.in_chain(p, iid) {
                let j = choose|j: int|
                    0 <= j < r.len() && #[trigger] r.is_ancestor_or_self(p, j) && r.entries@[j].iid
                        == iid;
                assert(r.is_ancestor_or_self(id, j));
            }
            if found {
                let j = choose|j: int|
                    0 <= j < r.len() && #[trigger] r.is_ancestor_or_self(id, j)
                        && r.entries@[j].iid == iid;
                if j != id {
                    assert(r.is_ancestor_or_self(p, j));
                }
            }
        },
        None => {
            if found {
                let j = choose|j: int|
                    0 <= j < r.len() && #[trigger] r.is_ancestor_or_self(id, j)
                        && r.entries@[j].iid == iid;
                assert(j == id);
            }
        },
    }
}

/// Every chain ends in the root: the root's identity lies in the chain of
/// every registered interface.
pub proof fn lemma_root_in_every_chain(r: Registry, id: int)
    requires
        r.wf(),
        0 <= id < r.len(),
    ensures
        r.in_chain(id, root_iid()),
        r.is_ancestor_or_self(id, 0),
    decreases id,
{
    if id > 0 {
        assert(r.entries@[id].parent is Some);
        lemma_root_in_every_chain(r, r.parent_of(id)->Some_0);
    }
}

/// For a chain root, a, b, c, each the parent of the next: the identities of
/// c, b, a and the root lie in the chain of c, and no other identity does.
pub proof fn lemma_chain_of_four(r: Registry, root: int, a: int, b: int, c: int, other: Iid)
    requires
        r.wf(),
        0 <= c < r.len(),
        r.parent_of(c) == Some(b),
        r.parent_of(b) == Some(a),
        r.parent_of(a) == Some(root),
        r.parent_of(root) is None,
        0 <= root,
    ensures
        r.in_chain(c, r.entries@[c].iid),
        r.in_chain(c, r.entries@[b].iid),
        r.in_chain(c, r.entries@[a].iid),
        r.in_chain(c, r.entries@[root].iid),
        r.entries@[root].iid == root_iid(),
        (other != r.entries@[c].iid && other != r.entries@[b].iid && other != r.entries@[a].iid
            && other != r.entries@[root].iid) ==> !r.in_chain(c, other),
{
    assert(r.in_chain(root, r.entries@[root].iid));
    assert(r.in_chain(a, r.entries@[root].iid));
    assert(r.in_chain(b, r.entries@[root].iid));
    assert(r.in_chain(a, r.entries@[a].iid));
    assert(r.in_chain(b, r.entries@[a].iid));
    assert(r.in_chain(b, r.entries@[b].iid));
    if root != 0 {
        assert(r.entries@[root].parent is Some);
    }
    assert(!r.in_chain(root, other) || other == r.entries@[root].iid);
    assert(r.in_chain(a, other) ==> other == r.entries@[a].iid || r.in_chain(root, other));
    assert(r.in_chain(b, other) ==> other == r.entries@[b].iid || r.in_chain(a, other));
    assert(r.in_chain(c, other) ==> other == r.entries@[c].iid || r.in_chain(b, other));
}

} // verus!
